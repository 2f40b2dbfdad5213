use vstd::prelude::*;
use crate::creature::alignment::{Alignment, GoodEvil, LawChaos};
use crate::rng::{draws_ok, eval_with, sim, wf, RandState, RandValue};

verus! {

/// A specific flavor of damage.
#[derive(Debug, Clone, Copy, PartialEq, Eq, Hash, Structural)]
pub enum DamageType {
    Slashing,
    Piercing,
    Bludgeoning,
    Bleed,
    Acid,
    Cold,
    Electricity,
    Fire,
    Sonic,
    Chaotic,
    Evil,
    Good,
    Lawful,
    Mental,
    Poison,
}

/// The coarse category a damage type belongs to.
#[derive(Debug, Clone, Copy, PartialEq, Eq, Hash, Structural)]
pub enum DamageKind {
    Physical,
    Energy,
    Aligned,
    Mental,
    Poison,
}

impl DamageType {
    pub open spec fn kind_spec(self) -> DamageKind {
        match self {
            DamageType::Slashing => DamageKind::Physical,
            DamageType::Piercing => DamageKind::Physical,
            DamageType::Bludgeoning => DamageKind::Physical,
            DamageType::Bleed => DamageKind::Physical,
            DamageType::Acid => DamageKind::Energy,
            DamageType::Cold => DamageKind::Energy,
            DamageType::Electricity => DamageKind::Energy,
            DamageType::Fire => DamageKind::Energy,
            DamageType::Sonic => DamageKind::Energy,
            DamageType::Chaotic => DamageKind::Aligned,
            DamageType::Evil => DamageKind::Aligned,
            DamageType::Good => DamageKind::Aligned,
            DamageType::Lawful => DamageKind::Aligned,
            DamageType::Mental => DamageKind::Mental,
            DamageType::Poison => DamageKind::Poison,
        }
    }

    /// The fixed total mapping from type to kind.
    pub fn kind(self) -> (k: DamageKind)
        ensures
            k == self.kind_spec(),
    {
        match self {
            DamageType::Slashing
            | DamageType::Piercing
            | DamageType::Bludgeoning
            | DamageType::Bleed => DamageKind::Physical,
            DamageType::Acid
            | DamageType::Cold
            | DamageType::Electricity
            | DamageType::Fire
            | DamageType::Sonic => DamageKind::Energy,
            DamageType::Chaotic | DamageType::Evil | DamageType::Good | DamageType::Lawful
                => DamageKind::Aligned,
            DamageType::Mental => DamageKind::Mental,
            DamageType::Poison => DamageKind::Poison,
        }
    }

    pub open spec fn affects_align_spec(self, align: Alignment) -> bool {
        match self {
            DamageType::Chaotic => align.lc == LawChaos::Lawful,
            DamageType::Evil => align.ge == GoodEvil::Good,
            DamageType::Good => align.ge == GoodEvil::Evil,
            DamageType::Lawful => align.lc == LawChaos::Chaotic,
            _ => false,
        }
    }

    /// Only the four alignment-flavored damage types react to a creature's
    /// alignment, and each affects only the opposing pole of its axis.
    pub fn affects_align(self, align: Alignment) -> (r: bool)
        ensures
            r == self.affects_align_spec(align),
    {
        match self {
            DamageType::Chaotic => align.lc == LawChaos::Lawful,
            DamageType::Evil => align.ge == GoodEvil::Good,
            DamageType::Good => align.ge == GoodEvil::Evil,
            DamageType::Lawful => align.lc == LawChaos::Chaotic,
            _ => false,
        }
    }
}

/// A damage instance: its type, whether it comes from a magical source, the
/// base amount expression, and an optional precision bonus expression.
#[derive(Debug)]
pub struct Damage {
    pub tp: DamageType,
    pub magical: bool,
    pub amount: RandValue,
    pub prec_amount: Option<RandValue>,
}

/// A well-formed damage instance holds only well-formed expressions.
pub open spec fn damage_wf(d: Damage) -> bool {
    &&& wf(d.amount)
    &&& d.prec_amount is Some ==> wf(d.prec_amount->0)
}

/// An evaluated damage instance: the same tags with resolved, non-negative
/// integer amounts.
#[derive(Debug, Clone, Copy, PartialEq, Eq, Structural)]
pub struct DamageResult {
    pub tp: DamageType,
    pub magical: bool,
    pub amount: u64,
    pub prec_amount: u64,
}

pub open spec fn floor0(x: int) -> int {
    if x < 0 {
        0
    } else {
        x
    }
}

/// Evaluation of a damage instance under a scripted source: the base amount
/// expression first, then the precision bonus, each floored at zero.
pub open spec fn eval_damage(d: Damage, vals: Seq<u64>, pos: nat) -> (DamageResult, nat) {
    let base = sim(d.amount, vals, pos);
    let prec = match d.prec_amount {
        Some(p) => sim(p, vals, base.1),
        None => (0int, base.1),
    };
    (
        DamageResult {
            tp: d.tp,
            magical: d.magical,
            amount: floor0(base.0) as u64,
            prec_amount: floor0(prec.0) as u64,
        },
        prec.1,
    )
}

impl Damage {
    /// Evaluate the base and precision expressions in that order against the
    /// supplied random source, flooring each result at zero.
    pub fn eval(&self, rng: &mut RandState) -> (r: DamageResult)
        requires
            damage_wf(*self),
            old(rng).inv(),
        ensures
            final(rng).inv(),
            final(rng).is_scripted() == old(rng).is_scripted(),
            r.tp == self.tp,
            r.magical == self.magical,
            exists|ds: Seq<u64>|
                #[trigger] draws_ok(self.amount, ds) && r.amount == floor0(
                    eval_with(self.amount, ds),
                ),
            self.prec_amount is Some ==> exists|ds: Seq<u64>|
                #[trigger] draws_ok(self.prec_amount->0, ds) && r.prec_amount == floor0(
                    eval_with(self.prec_amount->0, ds),
                ),
            self.prec_amount is None ==> r.prec_amount == 0,
            old(rng).is_scripted() ==> {
                &&& r == eval_damage(*self, old(rng).script(), old(rng).pos()).0
                &&& final(rng).script() == old(rng).script()
                &&& final(rng).pos() == eval_damage(*self, old(rng).script(), old(rng).pos()).1
            },
    {
        let a = self.amount.eval(rng);
        let base: u64 = if a < 0 {
            0
        } else {
            a as u64
        };
        let p: u64 = match &self.prec_amount {
            Some(pe) => {
                let x = pe.eval(rng);
                if x < 0 {
                    0
                } else {
                    x as u64
                }
            },
            None => 0,
        };
        DamageResult { tp: self.tp, magical: self.magical, amount: base, prec_amount: p }
    }
}

/// The classification axis under which a resistance, weakness, or immunity
/// is registered.
#[derive(Debug, Clone, Copy, PartialEq, Eq, Hash, Structural)]
pub enum Spec {
    Type(DamageType),
    Kind(DamageKind),
    NonMagical,
    Precision,
    All,
}

/// The first value registered under `s`, if any.
pub open spec fn lookup(entries: Seq<(Spec, u64)>, s: Spec) -> Option<u64>
    decreases entries.len(),
{
    if entries.len() == 0 {
        None
    } else if entries[0].0 == s {
        Some(entries[0].1)
    } else {
        lookup(entries.drop_first(), s)
    }
}

spec fn keys_unique(entries: Seq<(Spec, u64)>) -> bool {
    forall|i: int, j: int|
        0 <= i < j < entries.len() ==> (#[trigger] entries[i]).0 != (#[trigger] entries[j]).0
}

/// A creature's modifier table: resistance and weakness amounts and an
/// immunity set, each keyed by a classification axis.
#[derive(Debug)]
pub struct Modifiers {
    resistances: Vec<(Spec, u64)>,
    weaknesses: Vec<(Spec, u64)>,
    immunities: Vec<Spec>,
}

/// The registered values probed for one axis.
#[derive(Debug, Clone, Copy)]
pub struct ModTest {
    pub resistance: Option<u64>,
    pub weakness: Option<u64>,
    pub immunity: bool,
}

impl Default for ModTest {
    /// An empty probe: nothing registered.
    fn default() -> (r: ModTest)
        ensures
            r.resistance is None,
            r.weakness is None,
            !r.immunity,
    {
        ModTest { resistance: None, weakness: None, immunity: false }
    }
}

proof fn lemma_lookup_update(entries: Seq<(Spec, u64)>, i: int, s: Spec, v: u64, t: Spec)
    requires
        keys_unique(entries),
        0 <= i < entries.len(),
        entries[i].0 == s,
    ensures
        lookup(entries.update(i, (s, v)), t) == if t == s {
            Some(v)
        } else {
            lookup(entries, t)
        },
    decreases entries.len(),
{
    let upd = entries.update(i, (s, v));
    if i == 0 {
        assert(upd[0] == (s, v));
        assert(upd.drop_first() =~= entries.drop_first());
    } else {
        assert(upd[0] == entries[0]);
        assert(entries[0].0 != s);
        assert(upd.drop_first() =~= entries.drop_first().update(i - 1, (s, v)));
        assert(keys_unique(entries.drop_first())) by {
            assert(forall|x: int, y: int|
                0 <= x < y < entries.drop_first().len() ==> (#[trigger] entries.drop_first()[x]).0
                    != (#[trigger] entries.drop_first()[y]).0) by {
                assert(forall|x: int|
                    0 <= x < entries.drop_first().len() ==> entries.drop_first()[x]
                        == entries[x + 1]);
            }
        }
        lemma_lookup_update(entries.drop_first(), i - 1, s, v, t);
    }
}

proof fn lemma_lookup_push(entries: Seq<(Spec, u64)>, p: (Spec, u64), t: Spec)
    ensures
        lookup(entries.push(p), t) == if lookup(entries, t) is Some {
            lookup(entries, t)
        } else if p.0 == t {
            Some(p.1)
        } else {
            None::<u64>
        },
    decreases entries.len(),
{
    if entries.len() == 0 {
        assert(entries.push(p)[0] == p);
        assert(entries.push(p).drop_first() =~= Seq::<(Spec, u64)>::empty());
        assert(lookup(Seq::<(Spec, u64)>::empty(), t) is None);
    } else {
        assert(entries.push(p)[0] == entries[0]);
        assert(entries.push(p).drop_first() =~= entries.drop_first().push(p));
        lemma_lookup_push(entries.drop_first(), p, t);
    }
}

proof fn lemma_lookup_none_no_key(entries: Seq<(Spec, u64)>, s: Spec)
    requires
        lookup(entries, s) is None,
    ensures
        forall|i: int| 0 <= i < entries.len() ==> (#[trigger] entries[i]).0 != s,
    decreases entries.len(),
{
    if entries.len() != 0 {
        lemma_lookup_none_no_key(entries.drop_first(), s);
        assert(forall|i: int|
            1 <= i < entries.len() ==> entries[i] == entries.drop_first()[i - 1]);
    }
}

/// Find the first entry with key `s`.
fn find_key(entries: &Vec<(Spec, u64)>, s: Spec) -> (r: Option<usize>)
    ensures
        match r {
            Some(i) => i < entries@.len() && entries@[i as int].0 == s && lookup(entries@, s)
                == Some(entries@[i as int].1),
            None => lookup(entries@, s) is None,
        },
{
    let mut i: usize = 0;
    proof {
        assert(entries@.skip(0) =~= entries@);
    }
    while i < entries.len()
        invariant
            i <= entries@.len(),
            lookup(entries@, s) == lookup(entries@.skip(i as int), s),
            forall|j: int| 0 <= j < i ==> (#[trigger] entries@[j]).0 != s,
        decreases entries@.len() - i,
    {
        proof {
            assert(entries@.skip(i as int)[0] == entries@[i as int]);
        }
        if entries[i].0 == s {
            return Some(i);
        }
        proof {
            assert(entries@.skip(i as int).drop_first() =~= entries@.skip(i as int + 1));
        }
        i = i + 1;
    }
    proof {
        assert(entries@.skip(i as int).len() == 0);
    }
    None
}

/// Insert or replace the value under `s`.
fn upsert(entries: &mut Vec<(Spec, u64)>, s: Spec, v: u64)
    requires
        keys_unique(old(entries)@),
    ensures
        keys_unique(final(entries)@),
        lookup(final(entries)@, s) == Some(v),
        forall|t: Spec| t != s ==> #[trigger] lookup(final(entries)@, t) == lookup(
            old(entries)@,
            t,
        ),
{
    let ghost entries0 = entries@;
    match find_key(entries, s) {
        Some(i) => {
            entries[i] = (s, v);
            proof {
                assert forall|t: Spec| true implies #[trigger] lookup(entries@, t) == (if t == s {
                    Some(v)
                } else {
                    lookup(entries0, t)
                }) by {
                    lemma_lookup_update(entries0, i as int, s, v, t);
                }
                assert(keys_unique(entries@)) by {
                    assert(forall|x: int|
                        0 <= x < entries@.len() && x != i ==> entries@[x] == entries0[x]);
                }
            }
        },
        None => {
            entries.push((s, v));
            proof {
                lemma_lookup_none_no_key(entries0, s);
                assert forall|t: Spec| true implies #[trigger] lookup(entries@, t) == (if t == s {
                    Some(v)
                } else {
                    lookup(entries0, t)
                }) by {
                    lemma_lookup_push(entries0, (s, v), t);
                    if t == s {
                        assert(lookup(entries0, s) is None);
                    }
                }
                assert(keys_unique(entries@)) by {
                    assert(forall|x: int|
                        0 <= x < entries0.len() ==> entries@[x] == entries0[x]);
                    assert(entries@[entries0.len() as int] == (s, v));
                }
            }
        },
    }
}

impl Modifiers {
    pub closed spec fn wf(&self) -> bool {
        keys_unique(self.resistances@) && keys_unique(self.weaknesses@)
    }

    /// The resistance amount registered under `s`.
    pub closed spec fn res(&self, s: Spec) -> Option<u64> {
        lookup(self.resistances@, s)
    }

    /// The weakness amount registered under `s`.
    pub closed spec fn weak(&self, s: Spec) -> Option<u64> {
        lookup(self.weaknesses@, s)
    }

    /// Whether immunity is registered under `s`.
    pub closed spec fn immune(&self, s: Spec) -> bool {
        self.immunities@.contains(s)
    }

    /// An empty table: nothing registered under any axis.
    pub fn new() -> (r: Modifiers)
        ensures
            r.wf(),
            forall|s: Spec| (#[trigger] r.res(s)) is None,
            forall|s: Spec| (#[trigger] r.weak(s)) is None,
            forall|s: Spec| !(#[trigger] r.immune(s)),
    {
        Modifiers { resistances: Vec::new(), weaknesses: Vec::new(), immunities: Vec::new() }
    }

    /// Register (or overwrite) a resistance amount under `s`.
    pub fn add_resistance(&mut self, s: Spec, v: u64)
        requires
            old(self).wf(),
        ensures
            final(self).wf(),
            final(self).res(s) == Some(v),
            forall|t: Spec| t != s ==> #[trigger] final(self).res(t) == old(self).res(t),
            forall|t: Spec| #[trigger] final(self).weak(t) == old(self).weak(t),
            forall|t: Spec| #[trigger] final(self).immune(t) == old(self).immune(t),
    {
        upsert(&mut self.resistances, s, v);
    }

    /// Register (or overwrite) a weakness amount under `s`.
    pub fn add_weakness(&mut self, s: Spec, v: u64)
        requires
            old(self).wf(),
        ensures
            final(self).wf(),
            final(self).weak(s) == Some(v),
            forall|t: Spec| t != s ==> #[trigger] final(self).weak(t) == old(self).weak(t),
            forall|t: Spec| #[trigger] final(self).res(t) == old(self).res(t),
            forall|t: Spec| #[trigger] final(self).immune(t) == old(self).immune(t),
    {
        upsert(&mut self.weaknesses, s, v);
    }

    /// Register an immunity under `s`.
    pub fn add_immunity(&mut self, s: Spec)
        requires
            old(self).wf(),
        ensures
            final(self).wf(),
            final(self).immune(s),
            forall|t: Spec| t != s ==> #[trigger] final(self).immune(t) == old(self).immune(t),
            forall|t: Spec| #[trigger] final(self).res(t) == old(self).res(t),
            forall|t: Spec| #[trigger] final(self).weak(t) == old(self).weak(t),
    {
        let ghost is0 = self.immunities@;
        self.immunities.push(s);
        proof {
            assert(self.immunities@ == is0.push(s));
            assert(self.immunities@[is0.len() as int] == s);
            assert(self.immunities@.contains(s));
            assert forall|t: Spec| t != s implies #[trigger] self.immunities@.contains(t)
                == is0.contains(t) by {
                if self.immunities@.contains(t) {
                    let i = choose|i: int|
                        0 <= i < self.immunities@.len() && self.immunities@[i] == t;
                    assert(i < is0.len());
                    assert(is0[i] == t);
                }
                if is0.contains(t) {
                    let i = choose|i: int| 0 <= i < is0.len() && is0[i] == t;
                    assert(self.immunities@[i] == t);
                }
            }
        }
    }

    /// Probe the three registries under one axis.
    pub fn test(&self, s: Spec) -> (t: ModTest)
        ensures
            t.resistance == self.res(s),
            t.weakness == self.weak(s),
            t.immunity == self.immune(s),
    {
        let r = match find_key(&self.resistances, s) {
            Some(i) => Some(self.resistances[i].1),
            None => None,
        };
        let w = match find_key(&self.weaknesses, s) {
            Some(i) => Some(self.weaknesses[i].1),
            None => None,
        };
        let mut imm = false;
        let mut i: usize = 0;
        while i < self.immunities.len()
            invariant
                i <= self.immunities@.len(),
                imm == exists|j: int| 0 <= j < i && self.immunities@[j] == s,
            decreases self.immunities@.len() - i,
        {
            if self.immunities[i] == s {
                imm = true;
            }
            i = i + 1;
        }
        proof {
            assert(imm == self.immunities@.contains(s));
        }
        ModTest { resistance: r, weakness: w, immunity: imm }
    }
}

pub open spec fn opt0(o: Option<u64>) -> int {
    match o {
        Some(v) => v as int,
        None => 0,
    }
}

impl Modifiers {
    /// Whether any of the four probed axes signals immunity; the
    /// non-magical axis is probed only for non-magical damage.
    pub open spec fn any_immunity(&self, d: DamageResult) -> bool {
        ||| self.immune(Spec::Type(d.tp))
        ||| self.immune(Spec::Kind(d.tp.kind_spec()))
        ||| (!d.magical && self.immune(Spec::NonMagical))
        ||| self.immune(Spec::All)
    }

    /// Weaknesses found across the four axes are additive.
    pub open spec fn total_weakness(&self, d: DamageResult) -> int {
        opt0(self.weak(Spec::Type(d.tp))) + opt0(self.weak(Spec::Kind(d.tp.kind_spec()))) + (
        if !d.magical {
            opt0(self.weak(Spec::NonMagical))
        } else {
            0
        }) + opt0(self.weak(Spec::All))
    }

    /// Resistances found across the four axes are additive.
    pub open spec fn total_resistance(&self, d: DamageResult) -> int {
        opt0(self.res(Spec::Type(d.tp))) + opt0(self.res(Spec::Kind(d.tp.kind_spec()))) + (
        if !d.magical {
            opt0(self.res(Spec::NonMagical))
        } else {
            0
        }) + opt0(self.res(Spec::All))
    }

    /// The precision component: zero under precision immunity, otherwise
    /// the precision amount plus its weakness minus its resistance, clamped
    /// at zero.
    pub open spec fn precision_part(&self, d: DamageResult) -> int {
        if self.immune(Spec::Precision) {
            0
        } else {
            floor0(
                d.prec_amount + opt0(self.weak(Spec::Precision)) - opt0(
                    self.res(Spec::Precision),
                ),
            )
        }
    }

    /// The final base amount: base plus folded precision plus summed
    /// weakness, minus summed resistance, clamped at zero (and saturating
    /// at the representable maximum).
    pub open spec fn final_amount(&self, d: DamageResult) -> int {
        let t = floor0(
            d.amount + self.precision_part(d) + self.total_weakness(d) - self.total_resistance(d),
        );
        if t > u64::MAX as int {
            u64::MAX as int
        } else {
            t
        }
    }

    /// Resolve an evaluated damage result against this table. Nothing comes
    /// back either under immunity on any probed axis or when resistance
    /// absorbs the whole amount; otherwise the final amount carries the
    /// folded precision damage and the returned precision amount is zero.
    pub fn apply(&self, dmg: DamageResult) -> (r: Option<DamageResult>)
        ensures
            self.any_immunity(dmg) ==> r is None,
            !self.any_immunity(dmg) && self.final_amount(dmg) == 0 ==> r is None,
            !self.any_immunity(dmg) && self.final_amount(dmg) != 0 ==> r == Some(
                DamageResult {
                    tp: dmg.tp,
                    magical: dmg.magical,
                    amount: self.final_amount(dmg) as u64,
                    prec_amount: 0,
                },
            ),
    {
        let mtype = self.test(Spec::Type(dmg.tp));
        let mkind = self.test(Spec::Kind(dmg.tp.kind()));
        let mnonmag = if dmg.magical {
            ModTest::default()
        } else {
            self.test(Spec::NonMagical)
        };
        let mall = self.test(Spec::All);

        if mtype.immunity || mkind.immunity || mnonmag.immunity || mall.immunity {
            return None;
        }

        let weakness: u128 = opt_val(mtype.weakness) as u128 + opt_val(mkind.weakness) as u128
            + opt_val(mnonmag.weakness) as u128 + opt_val(mall.weakness) as u128;
        let resistance: u128 = opt_val(mtype.resistance) as u128 + opt_val(mkind.resistance) as u128
            + opt_val(mnonmag.resistance) as u128 + opt_val(mall.resistance) as u128;

        let mprec = self.test(Spec::Precision);
        let prec_damage: u128 = if mprec.immunity {
            0
        } else {
            let pw: u128 = dmg.prec_amount as u128 + opt_val(mprec.weakness) as u128;
            let pr: u128 = opt_val(mprec.resistance) as u128;
            if pw > pr {
                pw - pr
            } else {
                0
            }
        };

        let total: u128 = dmg.amount as u128 + prec_damage + weakness;
        let damage: u128 = if total > resistance {
            total - resistance
        } else {
            0
        };
        if damage == 0 {
            None
        } else {
            let amount: u64 = if damage > u64::MAX as u128 {
                u64::MAX
            } else {
                damage as u64
            };
            Some(DamageResult { tp: dmg.tp, magical: dmg.magical, amount, prec_amount: 0 })
        }
    }
}

/// The registered value, or zero where nothing is registered.
fn opt_val(o: Option<u64>) -> (r: u64)
    ensures
        r as int == opt0(o),
{
    match o {
        Some(v) => v,
        None => 0,
    }
}

/// Immunity to "All" negates any damage result, whatever its type, amounts,
/// or the rest of the table.
pub proof fn lemma_immunity_all_negates(m: &Modifiers, d: DamageResult)
    requires
        m.immune(Spec::All),
    ensures
        m.any_immunity(d),
{
}

} // verus!
