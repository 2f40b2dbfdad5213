use vstd::prelude::*;

verus! {

/// The six ability values, as one record.
#[derive(Debug, Clone, Copy, PartialEq, Eq, Hash, Structural)]
pub struct Abilities {
    pub _str: i64,
    pub _dex: i64,
    pub _con: i64,
    pub _int: i64,
    pub _wis: i64,
    pub _cha: i64,
}

/// Raw ability scores.
#[derive(Debug, Clone, Copy, PartialEq, Eq, Hash, Structural)]
pub struct AbilityScores(pub Abilities);

/// Derived ability modifiers: (score - 10) / 2, rounded toward zero.
#[derive(Debug, Clone, Copy, PartialEq, Eq, Hash, Structural)]
pub struct AbilityMods(pub Abilities);

pub open spec fn ability_mod_spec(s: int) -> int {
    if s >= 10 {
        (s - 10) / 2
    } else {
        -((10 - s) / 2)
    }
}

fn ability_mod(s: i64) -> (r: i64)
    ensures
        r as int == ability_mod_spec(s as int),
{
    if s >= 10 {
        let d: u64 = (s - 10) as u64;
        (d / 2) as i64
    } else {
        let m: i128 = 10i128 - s as i128;
        let q: i128 = m / 2;
        proof {
            assert(0 < m <= 10 - i64::MIN as int);
            assert(q == m / 2);
        }
        -(q as i64)
    }
}

impl From<AbilityScores> for AbilityMods {
    fn from(ab: AbilityScores) -> (r: AbilityMods) {
        AbilityMods(
            Abilities {
                _str: ability_mod(ab.0._str),
                _dex: ability_mod(ab.0._dex),
                _con: ability_mod(ab.0._con),
                _int: ability_mod(ab.0._int),
                _wis: ability_mod(ab.0._wis),
                _cha: ability_mod(ab.0._cha),
            },
        )
    }
}

impl vstd::std_specs::convert::FromSpecImpl<AbilityScores> for AbilityMods {
    open spec fn obeys_from_spec() -> bool {
        true
    }

    open spec fn from_spec(ab: AbilityScores) -> AbilityMods {
        AbilityMods(
            Abilities {
                _str: ability_mod_spec(ab.0._str as int) as i64,
                _dex: ability_mod_spec(ab.0._dex as int) as i64,
                _con: ability_mod_spec(ab.0._con as int) as i64,
                _int: ability_mod_spec(ab.0._int as int) as i64,
                _wis: ability_mod_spec(ab.0._wis as int) as i64,
                _cha: ability_mod_spec(ab.0._cha as int) as i64,
            },
        )
    }
}

} // verus!
