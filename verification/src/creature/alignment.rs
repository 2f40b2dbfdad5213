use vstd::prelude::*;

verus! {

/// The good/evil axis of an alignment.
#[derive(Debug, Clone, Copy, PartialEq, Eq, PartialOrd, Ord, Hash, Structural)]
pub enum GoodEvil {
    Evil,
    Neutral,
    Good,
}

impl GoodEvil {
    pub open spec fn opposite_spec(self) -> GoodEvil {
        match self {
            GoodEvil::Evil => GoodEvil::Good,
            GoodEvil::Good => GoodEvil::Evil,
            GoodEvil::Neutral => GoodEvil::Neutral,
        }
    }

    /// The opposing pole: good and evil swap, neutral stays put.
    pub fn opposite(self) -> (r: GoodEvil)
        ensures
            r == self.opposite_spec(),
    {
        match self {
            GoodEvil::Evil => GoodEvil::Good,
            GoodEvil::Good => GoodEvil::Evil,
            x => x,
        }
    }
}

/// The law/chaos axis of an alignment.
#[derive(Debug, Clone, Copy, PartialEq, Eq, PartialOrd, Ord, Hash, Structural)]
pub enum LawChaos {
    Chaotic,
    Neutral,
    Lawful,
}

impl LawChaos {
    pub open spec fn opposite_spec(self) -> LawChaos {
        match self {
            LawChaos::Chaotic => LawChaos::Lawful,
            LawChaos::Lawful => LawChaos::Chaotic,
            LawChaos::Neutral => LawChaos::Neutral,
        }
    }

    /// The opposing pole: law and chaos swap, neutral stays put.
    pub fn opposite(self) -> (r: LawChaos)
        ensures
            r == self.opposite_spec(),
    {
        match self {
            LawChaos::Chaotic => LawChaos::Lawful,
            LawChaos::Lawful => LawChaos::Chaotic,
            x => x,
        }
    }
}

/// A creature's alignment on both axes.
#[derive(Debug, Clone, Copy, PartialEq, Eq, Hash, Structural)]
pub struct Alignment {
    pub ge: GoodEvil,
    pub lc: LawChaos,
}

} // verus!
