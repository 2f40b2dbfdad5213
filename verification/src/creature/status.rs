use vstd::prelude::*;
use crate::creature::CID;
use crate::creature::damage::{damage_wf, eval_damage, Damage, DamageResult};
use crate::rng::{flat_check_spec, sim, RandState, RandValue};
use crate::world::time::{Round, Rounds};

verus! {

/// Dying severity at or above `DEFAULT_DYING` minus the doomed severity
/// means death.
pub const DEFAULT_DYING: u64 = 4;

/// Actions granted at the start of an unimpeded turn.
pub const DEFAULT_ACTIONS: u64 = 3;

/// The flat-check threshold against which a persistent-damage effect ends.
pub const DEFAULT_PD_DC: i64 = 15;

/// The neutral speed multiplier. No stored condition scales speed today;
/// the field is kept as a named no-op.
pub const SPEED_NEUTRAL: u64 = 1;

/// A damage instance carried under a stable identity: two persistent-damage
/// entries are the same entry exactly when their identifiers match, whatever
/// their wrapped expressions hold.
#[derive(Debug)]
pub struct DmgRef {
    pub id: u64,
    pub dmg: Damage,
}

/// One active condition. The leading variants are stored in the active set;
/// `Demoralize` and `BecomeDying` are virtual: transient instructions that an
/// effect-application routine converts into stored effects, never themselves
/// members of a fully resolved set.
#[derive(Debug)]
#[allow(non_camel_case_types)]
pub enum Effect {
    Frightened { level: u64 },
    Sickened { level: u64 },
    Slowed { level: u64 },
    Stunned { level: u64 },
    Dying { level: u64 },
    Doomed { level: u64 },
    Wounded { level: u64 },
    Unconscious { until: Option<Round> },
    Restrained { until: Option<Round> },
    Immobilized { until: Option<Round> },
    Paralyzed { until: Option<Round> },
    Flat_Footed { until: Option<Round> },
    Prone { until: Option<Round> },
    Blinded { until: Option<Round> },
    Grappled { holder: CID },
    Grappling { holding: CID },
    DemoralizedImmune { to: CID, until: Round },
    PersistentDamage { dmg: DmgRef },
    Demoralize { level: u64, by: CID, dur: Option<Rounds> },
    BecomeDying,
}

/// The derived, point-in-time snapshot of all combat-relevant adjustments
/// implied by the active set. It has no identity of its own and must never
/// be cached across mutations of the set.
#[derive(Debug, Clone, Copy, PartialEq, Eq, Structural)]
pub struct Current {
    pub frightened: u64,
    pub sickened: u64,
    pub slowed: u64,
    pub stunned: u64,
    pub dying: u64,
    pub wounded: u64,
    pub doomed: u64,
    pub unconscious: bool,
    pub immobilized: bool,
    pub paralyzed: bool,
    pub blinded: bool,
    pub prone: bool,
    pub dead: bool,
    pub flat_footed: bool,
    pub check_mod: i64,
    pub save_mod: i64,
    pub ac_mod: i64,
    pub dc_mod: i64,
    pub speed_mod: u64,
    pub actions_gained: u64,
}

pub open spec fn add_u64(a: u64, b: u64) -> u64 {
    if a + b > u64::MAX {
        u64::MAX
    } else {
        (a + b) as u64
    }
}

pub open spec fn sub0(a: u64, b: u64) -> u64 {
    if a >= b {
        (a - b) as u64
    } else {
        0
    }
}

/// Negation of a severity into a signed adjustment, clamped at the
/// representable minimum.
pub open spec fn neg_clamp(n: u64) -> i64 {
    if n > i64::MAX as u64 {
        i64::MIN
    } else {
        (-(n as int)) as i64
    }
}

pub open spec fn empty_current() -> Current {
    Current {
        frightened: 0,
        sickened: 0,
        slowed: 0,
        stunned: 0,
        dying: 0,
        wounded: 0,
        doomed: 0,
        unconscious: false,
        immobilized: false,
        paralyzed: false,
        blinded: false,
        prone: false,
        dead: false,
        flat_footed: false,
        check_mod: 0,
        save_mod: 0,
        ac_mod: 0,
        dc_mod: 0,
        speed_mod: SPEED_NEUTRAL,
        actions_gained: 0,
    }
}

/// Fold one stored effect into the raw counters and flags.
pub open spec fn accum_effect(c: Current, e: Effect) -> Current {
    match e {
        Effect::Frightened { level } => Current { frightened: add_u64(c.frightened, level), ..c },
        Effect::Sickened { level } => Current { sickened: add_u64(c.sickened, level), ..c },
        Effect::Slowed { level } => Current { slowed: add_u64(c.slowed, level), ..c },
        Effect::Stunned { level } => Current { stunned: add_u64(c.stunned, level), ..c },
        Effect::Dying { level } => Current { dying: add_u64(c.dying, level), ..c },
        Effect::Doomed { level } => Current { doomed: add_u64(c.doomed, level), ..c },
        Effect::Wounded { level } => Current { wounded: add_u64(c.wounded, level), ..c },
        Effect::Unconscious { .. } => Current {
            unconscious: true,
            prone: true,
            flat_footed: true,
            blinded: true,
            ..c
        },
        Effect::Immobilized { .. } => Current { immobilized: true, flat_footed: true, ..c },
        Effect::Restrained { .. } => Current { immobilized: true, flat_footed: true, ..c },
        Effect::Grappled { .. } => Current { immobilized: true, flat_footed: true, ..c },
        Effect::Paralyzed { .. } => Current {
            immobilized: true,
            paralyzed: true,
            flat_footed: true,
            ..c
        },
        Effect::Flat_Footed { .. } => Current { flat_footed: true, ..c },
        Effect::Prone { .. } => Current { prone: true, flat_footed: true, ..c },
        Effect::Blinded { .. } => Current { blinded: true, ..c },
        _ => c,
    }
}

pub open spec fn accum(s: Seq<Effect>) -> Current
    decreases s.len(),
{
    if s.len() == 0 {
        empty_current()
    } else {
        accum_effect(accum(s.drop_last()), s.last())
    }
}

/// Derive the final snapshot from the raw counters and flags: death from the
/// dying threshold lowered by doom, the armor-class penalty of flat-footed,
/// the frightened penalty to checks and class difficulty, and the actions
/// granted after the slowed severity.
pub open spec fn derive_current(c: Current) -> Current {
    Current {
        dead: c.dying >= sub0(DEFAULT_DYING, c.doomed),
        ac_mod: if c.flat_footed {
            -2i64
        } else {
            0i64
        },
        check_mod: if c.frightened > 0 {
            neg_clamp(c.frightened)
        } else {
            0i64
        },
        dc_mod: if c.frightened > 0 {
            neg_clamp(c.frightened)
        } else {
            0i64
        },
        speed_mod: SPEED_NEUTRAL,
        actions_gained: sub0(DEFAULT_ACTIONS, c.slowed),
        ..c
    }
}

/// The snapshot implied by an active set.
pub open spec fn current_spec(s: Seq<Effect>) -> Current {
    derive_current(accum(s))
}

/// Consumption of stunned severity against the actions granted this turn:
/// each side loses the smaller of the two, transiently.
pub open spec fn consume_stun(c: Current) -> Current {
    if c.stunned > 0 {
        let k = if c.stunned >= c.actions_gained {
            c.actions_gained
        } else {
            c.stunned
        };
        Current {
            stunned: (c.stunned - k) as u64,
            actions_gained: (c.actions_gained - k) as u64,
            ..c
        }
    } else {
        c
    }
}

/// Whether an effect is a virtual instruction rather than a stored condition.
pub open spec fn is_virtual(e: Effect) -> bool {
    e is Demoralize || e is BecomeDying
}

/// A persistent-damage entry must wrap well-formed expressions; everything
/// else is unconditionally well-formed.
pub open spec fn effect_wf(e: Effect) -> bool {
    match e {
        Effect::PersistentDamage { dmg } => damage_wf(dmg.dmg),
        _ => true,
    }
}

pub open spec fn effects_wf(s: Seq<Effect>) -> bool {
    forall|i: int| 0 <= i < s.len() ==> effect_wf(#[trigger] s[i])
}

/// Both effects are leveled conditions of the same variant, whose severities
/// merge rather than duplicate.
pub open spec fn same_level_variant(a: Effect, b: Effect) -> bool {
    ||| (a is Frightened && b is Frightened)
    ||| (a is Sickened && b is Sickened)
    ||| (a is Slowed && b is Slowed)
    ||| (a is Stunned && b is Stunned)
    ||| (a is Dying && b is Dying)
    ||| (a is Doomed && b is Doomed)
    ||| (a is Wounded && b is Wounded)
}

/// Both effects are the same entry of the set: persistent damage compares by
/// the identity of its damage instance, everything else structurally.
pub open spec fn same_entry(a: Effect, b: Effect) -> bool {
    match (a, b) {
        (Effect::PersistentDamage { dmg: x }, Effect::PersistentDamage { dmg: y }) => x.id == y.id,
        _ => a == b,
    }
}

pub open spec fn mergeable(a: Effect, b: Effect) -> bool {
    same_level_variant(a, b) || same_entry(a, b)
}

/// The merged entry: leveled variants sum their severities (saturating);
/// any other mergeable pair keeps the newcomer.
pub open spec fn merge(a: Effect, b: Effect) -> Effect {
    match (a, b) {
        (Effect::Frightened { level: la }, Effect::Frightened { level: lb }) => Effect::Frightened {
            level: add_u64(la, lb),
        },
        (Effect::Sickened { level: la }, Effect::Sickened { level: lb }) => Effect::Sickened {
            level: add_u64(la, lb),
        },
        (Effect::Slowed { level: la }, Effect::Slowed { level: lb }) => Effect::Slowed {
            level: add_u64(la, lb),
        },
        (Effect::Stunned { level: la }, Effect::Stunned { level: lb }) => Effect::Stunned {
            level: add_u64(la, lb),
        },
        (Effect::Dying { level: la }, Effect::Dying { level: lb }) => Effect::Dying {
            level: add_u64(la, lb),
        },
        (Effect::Doomed { level: la }, Effect::Doomed { level: lb }) => Effect::Doomed {
            level: add_u64(la, lb),
        },
        (Effect::Wounded { level: la }, Effect::Wounded { level: lb }) => Effect::Wounded {
            level: add_u64(la, lb),
        },
        (_, b2) => b2,
    }
}

/// Insertion into the active set: the first mergeable entry absorbs the
/// newcomer, otherwise it is appended.
pub open spec fn add_spec(s: Seq<Effect>, e: Effect) -> Seq<Effect>
    decreases s.len(),
{
    if s.len() == 0 {
        seq![e]
    } else if mergeable(s[0], e) {
        seq![merge(s[0], e)] + s.drop_first()
    } else {
        seq![s[0]] + add_spec(s.drop_first(), e)
    }
}

/// The active conditions of one creature across one encounter.
#[derive(Debug)]
pub struct Status {
    effects: Vec<Effect>,
}

impl Status {
    /// The active set, in its stored order. The set is conceptually
    /// unordered; callers must not depend on this order.
    pub closed spec fn effects(&self) -> Seq<Effect> {
        self.effects@
    }

    pub open spec fn wf(&self) -> bool {
        effects_wf(self.effects())
    }

    /// An empty set, as at encounter start.
    pub fn new() -> (r: Status)
        ensures
            r.effects() == Seq::<Effect>::empty(),
            r.wf(),
    {
        Status { effects: Vec::new() }
    }

    /// The derived snapshot of the active set; a pure query.
    #[verifier::loop_isolation(false)]
    pub fn current(&self) -> (cur: Current)
        ensures
            cur == current_spec(self.effects()),
    {
        let mut cur = Current {
            frightened: 0,
            sickened: 0,
            slowed: 0,
            stunned: 0,
            dying: 0,
            wounded: 0,
            doomed: 0,
            unconscious: false,
            immobilized: false,
            paralyzed: false,
            blinded: false,
            prone: false,
            dead: false,
            flat_footed: false,
            check_mod: 0,
            save_mod: 0,
            ac_mod: 0,
            dc_mod: 0,
            speed_mod: SPEED_NEUTRAL,
            actions_gained: 0,
        };
        let mut i: usize = 0;
        proof {
            assert(self.effects@.take(0) =~= Seq::<Effect>::empty());
        }
        while i < self.effects.len()
            invariant
                i <= self.effects@.len(),
                cur == accum(self.effects@.take(i as int)),
            decreases self.effects@.len() - i,
        {
            match &self.effects[i] {
                Effect::Frightened { level } => {
                    cur.frightened = add_level(cur.frightened, *level);
                },
                Effect::Sickened { level } => {
                    cur.sickened = add_level(cur.sickened, *level);
                },
                Effect::Slowed { level } => {
                    cur.slowed = add_level(cur.slowed, *level);
                },
                Effect::Stunned { level } => {
                    cur.stunned = add_level(cur.stunned, *level);
                },
                Effect::Dying { level } => {
                    cur.dying = add_level(cur.dying, *level);
                },
                Effect::Doomed { level } => {
                    cur.doomed = add_level(cur.doomed, *level);
                },
                Effect::Wounded { level } => {
                    cur.wounded = add_level(cur.wounded, *level);
                },
                Effect::Unconscious { .. } => {
                    cur.unconscious = true;
                    cur.prone = true;
                    cur.flat_footed = true;
                    cur.blinded = true;
                },
                Effect::Immobilized { .. } | Effect::Restrained { .. } | Effect::Grappled {
                    ..
                } => {
                    cur.immobilized = true;
                    cur.flat_footed = true;
                },
                Effect::Paralyzed { .. } => {
                    cur.immobilized = true;
                    cur.paralyzed = true;
                    cur.flat_footed = true;
                },
                Effect::Flat_Footed { .. } => {
                    cur.flat_footed = true;
                },
                Effect::Prone { .. } => {
                    cur.prone = true;
                    cur.flat_footed = true;
                },
                Effect::Blinded { .. } => {
                    cur.blinded = true;
                },
                _ => {},
            }
            proof {
                assert(self.effects@.take(i + 1).drop_last() =~= self.effects@.take(i as int));
                assert(self.effects@.take(i + 1).last() == self.effects@[i as int]);
            }
            i = i + 1;
        }
        proof {
            assert(self.effects@.take(self.effects@.len() as int) =~= self.effects@);
        }
        cur.speed_mod = SPEED_NEUTRAL;
        let threshold = if DEFAULT_DYING >= cur.doomed {
            DEFAULT_DYING - cur.doomed
        } else {
            0
        };
        cur.dead = cur.dying >= threshold;
        cur.ac_mod = if cur.flat_footed {
            -2
        } else {
            0
        };
        if cur.frightened > 0 {
            let m = if cur.frightened > i64::MAX as u64 {
                i64::MIN
            } else {
                -(cur.frightened as i64)
            };
            cur.check_mod = m;
            cur.dc_mod = m;
        } else {
            cur.check_mod = 0;
            cur.dc_mod = 0;
        }
        cur.actions_gained = if DEFAULT_ACTIONS >= cur.slowed {
            DEFAULT_ACTIONS - cur.slowed
        } else {
            0
        };
        cur
    }

    /// The snapshot at turn start: a positive stunned severity is consumed
    /// against the actions granted, for this snapshot only. The stored set
    /// is untouched, so the consumption never carries over.
    pub fn before_turn(&mut self) -> (cur: Current)
        ensures
            *final(self) == *old(self),
            cur == consume_stun(current_spec(old(self).effects())),
    {
        let mut cur = self.current();
        if cur.stunned > 0 {
            if cur.stunned > cur.actions_gained {
                cur.stunned = cur.stunned - cur.actions_gained;
                cur.actions_gained = 0;
            } else {
                cur.actions_gained = cur.actions_gained - cur.stunned;
                cur.stunned = 0;
            }
        }
        cur
    }

    /// Insert one stored effect: the first mergeable entry absorbs it
    /// (leveled conditions merge severities, identical entries are
    /// replaced), otherwise it is appended. This keeps at most one stored
    /// instance of each leveled variant in the set.
    pub fn add_effect(&mut self, e: Effect)
        requires
            old(self).wf(),
            effect_wf(e),
            !is_virtual(e),
        ensures
            final(self).wf(),
            final(self).effects() == add_spec(old(self).effects(), e),
    {
        let ghost s0 = self.effects@;
        let mut i: usize = 0;
        let mut found = false;
        while i < self.effects.len() && !found
            invariant
                i <= self.effects@.len(),
                self.effects@ == s0,
                found ==> i < s0.len() && mergeable(s0[i as int], e),
                forall|j: int| 0 <= j < i ==> !mergeable(#[trigger] s0[j], e),
            decreases self.effects@.len() - i, (if found { 0int } else { 1int }),
        {
            if mergeable_exec(&self.effects[i], &e) {
                found = true;
            } else {
                i = i + 1;
            }
        }
        if found {
            let merged = match (&self.effects[i], e) {
                (Effect::Frightened { level: la }, Effect::Frightened { level: lb }) => {
                    Effect::Frightened { level: add_level(*la, lb) }
                },
                (Effect::Sickened { level: la }, Effect::Sickened { level: lb }) => {
                    Effect::Sickened { level: add_level(*la, lb) }
                },
                (Effect::Slowed { level: la }, Effect::Slowed { level: lb }) => {
                    Effect::Slowed { level: add_level(*la, lb) }
                },
                (Effect::Stunned { level: la }, Effect::Stunned { level: lb }) => {
                    Effect::Stunned { level: add_level(*la, lb) }
                },
                (Effect::Dying { level: la }, Effect::Dying { level: lb }) => {
                    Effect::Dying { level: add_level(*la, lb) }
                },
                (Effect::Doomed { level: la }, Effect::Doomed { level: lb }) => {
                    Effect::Doomed { level: add_level(*la, lb) }
                },
                (Effect::Wounded { level: la }, Effect::Wounded { level: lb }) => {
                    Effect::Wounded { level: add_level(*la, lb) }
                },
                (_, other) => other,
            };
            proof {
                assert(merged == merge(s0[i as int], e));
            }
            self.effects[i] = merged;
            proof {
                lemma_add_spec_update(s0, i as int, e);
                assert(self.effects@ =~= add_spec(s0, e));
                assert forall|k: int| 0 <= k < self.effects@.len() implies effect_wf(
                    #[trigger] self.effects@[k],
                ) by {
                    if k != i {
                        assert(self.effects@[k] == s0[k]);
                    }
                }
            }
        } else {
            self.effects.push(e);
            proof {
                lemma_add_spec_append(s0, e);
                assert(self.effects@ =~= add_spec(s0, e));
                assert forall|k: int| 0 <= k < self.effects@.len() implies effect_wf(
                    #[trigger] self.effects@[k],
                ) by {
                    if k < s0.len() {
                        assert(self.effects@[k] == s0[k]);
                    }
                }
            }
        }
    }
}

/// Saturating addition of severities.
fn add_level(a: u64, b: u64) -> (r: u64)
    ensures
        r == add_u64(a, b),
{
    match a.checked_add(b) {
        Some(v) => v,
        None => u64::MAX,
    }
}

fn eq_cid(a: &CID, b: &CID) -> (r: bool)
    ensures
        r == (a == b),
{
    a.0 == b.0
}

fn eq_round_opt(a: &Option<Round>, b: &Option<Round>) -> (r: bool)
    ensures
        r == (a == b),
{
    match (a, b) {
        (None, None) => true,
        (Some(x), Some(y)) => x.0 == y.0,
        _ => false,
    }
}

fn eq_rounds_opt(a: &Option<Rounds>, b: &Option<Rounds>) -> (r: bool)
    ensures
        r == (a == b),
{
    match (a, b) {
        (None, None) => true,
        (Some(x), Some(y)) => x.0 == y.0,
        _ => false,
    }
}

/// Whether `b` merges into the entry `a` rather than standing beside it.
fn mergeable_exec(a: &Effect, b: &Effect) -> (r: bool)
    ensures
        r == mergeable(*a, *b),
{
    match (a, b) {
        (Effect::Frightened { .. }, Effect::Frightened { .. }) => true,
        (Effect::Sickened { .. }, Effect::Sickened { .. }) => true,
        (Effect::Slowed { .. }, Effect::Slowed { .. }) => true,
        (Effect::Stunned { .. }, Effect::Stunned { .. }) => true,
        (Effect::Dying { .. }, Effect::Dying { .. }) => true,
        (Effect::Doomed { .. }, Effect::Doomed { .. }) => true,
        (Effect::Wounded { .. }, Effect::Wounded { .. }) => true,
        (Effect::Unconscious { until: ua }, Effect::Unconscious { until: ub }) => eq_round_opt(
            ua,
            ub,
        ),
        (Effect::Restrained { until: ua }, Effect::Restrained { until: ub }) => eq_round_opt(
            ua,
            ub,
        ),
        (Effect::Immobilized { until: ua }, Effect::Immobilized { until: ub }) => eq_round_opt(
            ua,
            ub,
        ),
        (Effect::Paralyzed { until: ua }, Effect::Paralyzed { until: ub }) => eq_round_opt(ua, ub),
        (Effect::Flat_Footed { until: ua }, Effect::Flat_Footed { until: ub }) => eq_round_opt(
            ua,
            ub,
        ),
        (Effect::Prone { until: ua }, Effect::Prone { until: ub }) => eq_round_opt(ua, ub),
        (Effect::Blinded { until: ua }, Effect::Blinded { until: ub }) => eq_round_opt(ua, ub),
        (Effect::Grappled { holder: ha }, Effect::Grappled { holder: hb }) => eq_cid(ha, hb),
        (Effect::Grappling { holding: ha }, Effect::Grappling { holding: hb }) => eq_cid(ha, hb),
        (
            Effect::DemoralizedImmune { to: ta, until: ua },
            Effect::DemoralizedImmune { to: tb, until: ub },
        ) => eq_cid(ta, tb) && ua.0 == ub.0,
        (Effect::PersistentDamage { dmg: da }, Effect::PersistentDamage { dmg: db }) => da.id
            == db.id,
        (
            Effect::Demoralize { level: la, by: ba, dur: da },
            Effect::Demoralize { level: lb, by: bb, dur: db },
        ) => *la == *lb && eq_cid(ba, bb) && eq_rounds_opt(da, db),
        (Effect::BecomeDying, Effect::BecomeDying) => true,
        _ => false,
    }
}

proof fn lemma_add_spec_update(s: Seq<Effect>, i: int, e: Effect)
    requires
        0 <= i < s.len(),
        mergeable(s[i], e),
        forall|j: int| 0 <= j < i ==> !mergeable(#[trigger] s[j], e),
    ensures
        add_spec(s, e) == s.update(i, merge(s[i], e)),
    decreases s.len(),
{
    if i == 0 {
        assert(add_spec(s, e) == seq![merge(s[0], e)] + s.drop_first());
        assert(seq![merge(s[0], e)] + s.drop_first() =~= s.update(0, merge(s[0], e)));
    } else {
        assert(!mergeable(s[0], e));
        assert(forall|j: int|
            0 <= j < i - 1 ==> s.drop_first()[j] == s[j + 1] && !mergeable(
                #[trigger] s.drop_first()[j],
                e,
            ));
        lemma_add_spec_update(s.drop_first(), i - 1, e);
        assert(add_spec(s, e) == seq![s[0]] + add_spec(s.drop_first(), e));
        assert(seq![s[0]] + s.drop_first().update(i - 1, merge(s[i], e)) =~= s.update(
            i,
            merge(s[i], e),
        ));
    }
}

proof fn lemma_add_spec_append(s: Seq<Effect>, e: Effect)
    requires
        forall|j: int| 0 <= j < s.len() ==> !mergeable(#[trigger] s[j], e),
    ensures
        add_spec(s, e) == s.push(e),
    decreases s.len(),
{
    if s.len() == 0 {
        assert(add_spec(s, e) == seq![e]);
        assert(seq![e] =~= s.push(e));
    } else {
        assert(forall|j: int|
            0 <= j < s.len() - 1 ==> s.drop_first()[j] == s[j + 1] && !mergeable(
                #[trigger] s.drop_first()[j],
                e,
            ));
        lemma_add_spec_append(s.drop_first(), e);
        assert(seq![s[0]] + s.drop_first().push(e) =~= s.push(e));
    }
}


// ---------------------------------------------------------------------------
// Turn end
// ---------------------------------------------------------------------------

/// Whether an entry leaves the set at the end of a turn played at `now`,
/// apart from persistent damage (whose fate rides on a flat check): timed
/// conditions expire when their round is reached, frightened is always
/// removed as stored (its decayed replacement is inserted separately), and
/// everything else stays.
pub open spec fn expired(e: Effect, now: Round) -> bool {
    match e {
        Effect::DemoralizedImmune { until, .. } => until.0 <= now.0,
        Effect::Unconscious { until } => match until {
            Some(t) => t.0 <= now.0,
            None => false,
        },
        Effect::Restrained { until } => match until {
            Some(t) => t.0 <= now.0,
            None => false,
        },
        Effect::Immobilized { until } => match until {
            Some(t) => t.0 <= now.0,
            None => false,
        },
        Effect::Paralyzed { until } => match until {
            Some(t) => t.0 <= now.0,
            None => false,
        },
        Effect::Flat_Footed { until } => match until {
            Some(t) => t.0 <= now.0,
            None => false,
        },
        Effect::Prone { until } => match until {
            Some(t) => t.0 <= now.0,
            None => false,
        },
        Effect::Blinded { until } => match until {
            Some(t) => t.0 <= now.0,
            None => false,
        },
        Effect::Frightened { .. } => true,
        _ => false,
    }
}

/// How many persistent-damage entries a set holds; each emits one damage
/// result per turn end.
pub open spec fn pd_count(s: Seq<Effect>) -> nat
    decreases s.len(),
{
    if s.len() == 0 {
        0
    } else {
        pd_count(s.drop_last()) + (if s.last() is PersistentDamage {
            1nat
        } else {
            0nat
        })
    }
}

/// The decayed frightened replacements a turn end inserts after its removal
/// pass: one per stored frightened effect of severity above one, at one
/// severity less.
pub open spec fn frightened_decays(s: Seq<Effect>) -> Seq<Effect>
    decreases s.len(),
{
    if s.len() == 0 {
        Seq::<Effect>::empty()
    } else {
        frightened_decays(s.drop_last()) + (match s.last() {
            Effect::Frightened { level } => if level > 1 {
                seq![Effect::Frightened { level: (level - 1) as u64 }]
            } else {
                Seq::<Effect>::empty()
            },
            _ => Seq::<Effect>::empty(),
        })
    }
}

/// The removal pass of a turn end under a scripted source: one walk over the
/// set in stored order, yielding the kept entries, the damage emitted by
/// persistent-damage entries in that order, and the source position left
/// behind. Each persistent-damage entry first evaluates its wrapped damage,
/// then rolls the flat check, and stays exactly when the roll meets
/// `DEFAULT_PD_DC`; frightened and reached timed conditions leave.
pub open spec fn turn_end(s: Seq<Effect>, now: Round, vals: Seq<u64>, pos: nat) -> (
    Seq<Effect>,
    Seq<DamageResult>,
    nat,
)
    decreases s.len(),
{
    if s.len() == 0 {
        (Seq::<Effect>::empty(), Seq::<DamageResult>::empty(), pos)
    } else {
        match s[0] {
            Effect::PersistentDamage { dmg } => {
                let dres = eval_damage(dmg.dmg, vals, pos);
                let roll = sim(flat_check_spec(), vals, dres.1);
                let rest = turn_end(s.drop_first(), now, vals, roll.1);
                (
                    if roll.0 >= DEFAULT_PD_DC as int {
                        seq![s[0]] + rest.0
                    } else {
                        rest.0
                    },
                    seq![dres.0] + rest.1,
                    rest.2,
                )
            },
            _ => {
                let rest = turn_end(s.drop_first(), now, vals, pos);
                if expired(s[0], now) {
                    rest
                } else {
                    (seq![s[0]] + rest.0, rest.1, rest.2)
                }
            },
        }
    }
}


/// The non-persistent entries of a set, in order. The fate of these entries
/// at turn end never depends on the random source.
pub open spec fn non_pd(s: Seq<Effect>) -> Seq<Effect>
    decreases s.len(),
{
    if s.len() == 0 {
        Seq::<Effect>::empty()
    } else {
        non_pd(s.drop_last()) + (if s.last() is PersistentDamage {
            Seq::<Effect>::empty()
        } else {
            seq![s.last()]
        })
    }
}

/// The non-persistent entries a turn end keeps: those the expiry rule does
/// not remove, in stored order.
pub open spec fn survivors(s: Seq<Effect>, now: Round) -> Seq<Effect>
    decreases s.len(),
{
    if s.len() == 0 {
        Seq::<Effect>::empty()
    } else {
        survivors(s.drop_last(), now) + (if !(s.last() is PersistentDamage) && !expired(
            s.last(),
            now,
        ) {
            seq![s.last()]
        } else {
            Seq::<Effect>::empty()
        })
    }
}

proof fn lemma_non_pd_concat(a: Seq<Effect>, b: Seq<Effect>)
    ensures
        non_pd(a + b) == non_pd(a) + non_pd(b),
    decreases b.len(),
{
    if b.len() == 0 {
        assert(a + b =~= a);
        assert(non_pd(b) =~= Seq::<Effect>::empty());
        assert(non_pd(a) + Seq::<Effect>::empty() =~= non_pd(a));
    } else {
        assert((a + b).drop_last() =~= a + b.drop_last());
        assert((a + b).last() == b.last());
        lemma_non_pd_concat(a, b.drop_last());
        let tail = if b.last() is PersistentDamage {
            Seq::<Effect>::empty()
        } else {
            seq![b.last()]
        };
        assert((non_pd(a) + non_pd(b.drop_last())) + tail =~= non_pd(a) + (non_pd(b.drop_last())
            + tail));
    }
}

proof fn lemma_non_pd_all(s: Seq<Effect>)
    requires
        forall|i: int| 0 <= i < s.len() ==> !((#[trigger] s[i]) is PersistentDamage),
    ensures
        non_pd(s) == s,
    decreases s.len(),
{
    if s.len() != 0 {
        lemma_non_pd_all(s.drop_last());
        assert(s.drop_last() + seq![s.last()] =~= s);
    }
}

fn expired_exec(e: &Effect, now: Round) -> (r: bool)
    ensures
        r == expired(*e, now),
{
    match e {
        Effect::DemoralizedImmune { until, .. } => until.0 <= now.0,
        Effect::Unconscious { until: Some(t) } => t.0 <= now.0,
        Effect::Restrained { until: Some(t) } => t.0 <= now.0,
        Effect::Immobilized { until: Some(t) } => t.0 <= now.0,
        Effect::Paralyzed { until: Some(t) } => t.0 <= now.0,
        Effect::Flat_Footed { until: Some(t) } => t.0 <= now.0,
        Effect::Prone { until: Some(t) } => t.0 <= now.0,
        Effect::Blinded { until: Some(t) } => t.0 <= now.0,
        Effect::Frightened { .. } => true,
        _ => false,
    }
}

impl Status {
    /// End the creature's turn, played at round `now`: one pass over a
    /// snapshot of the set removes reached timed conditions and frightened
    /// (re-inserting its decayed replacement after the pass), and lets each
    /// persistent-damage entry roll its wrapped damage and then a flat
    /// check, staying only when the roll meets the threshold. The emitted
    /// damage results, one per persistent-damage entry in walk order, come
    /// back for the caller to route through modifier resolution; nothing
    /// comes back when the set held no persistent damage.
    #[verifier::loop_isolation(false)]
    pub fn after_turn(&mut self, now: Round, rng: &mut RandState) -> (r: Option<
        Vec<DamageResult>,
    >)
        requires
            old(self).wf(),
            old(rng).inv(),
        ensures
            final(self).wf(),
            final(rng).inv(),
            final(rng).is_scripted() == old(rng).is_scripted(),
            r is None <==> pd_count(old(self).effects()) == 0,
            r is Some ==> r->0@.len() == pd_count(old(self).effects()),
            non_pd(final(self).effects()) == survivors(old(self).effects(), now)
                + frightened_decays(old(self).effects()),
            old(rng).is_scripted() ==> ({
                let te = turn_end(old(self).effects(), now, old(rng).script(), old(rng).pos());
                &&& final(self).effects() == te.0 + frightened_decays(old(self).effects())
                &&& (r is Some ==> r->0@ == te.1)
                &&& final(rng).script() == old(rng).script()
                &&& final(rng).pos() == te.2
            }),
    {
        let ghost s0 = self.effects@;
        let ghost vals0 = rng.script();
        let ghost pos0 = rng.pos();
        let mut work: Vec<Effect> = Vec::new();
        core::mem::swap(&mut self.effects, &mut work);
        let mut kept: Vec<Effect> = Vec::new();
        let mut dmg: Vec<DamageResult> = Vec::new();
        let mut decays: Vec<Effect> = Vec::new();
        proof {
            assert(s0.skip(0) =~= s0);
            assert(s0.take(0) =~= Seq::<Effect>::empty());
            assert(non_pd(Seq::<Effect>::empty()) == Seq::<Effect>::empty());
            assert(survivors(Seq::<Effect>::empty(), now) == Seq::<Effect>::empty());
        }
        while work.len() > 0
            invariant
                work@.len() <= s0.len(),
                work@ == s0.skip(s0.len() - work@.len()),
                rng.inv(),
                rng.is_scripted() == old(rng).is_scripted(),
                effects_wf(kept@),
                effects_wf(decays@),
                non_pd(kept@) == survivors(s0.take(s0.len() - work@.len()), now),
                forall|i: int| 0 <= i < decays@.len() ==> (#[trigger] decays@[i]) is Frightened,
                dmg@.len() == pd_count(s0.take(s0.len() - work@.len())),
                decays@ == frightened_decays(s0.take(s0.len() - work@.len())),
                old(rng).is_scripted() ==> ({
                    let te = turn_end(s0, now, vals0, pos0);
                    let rest = turn_end(
                        s0.skip(s0.len() - work@.len()),
                        now,
                        vals0,
                        rng.pos(),
                    );
                    &&& rng.script() == vals0
                    &&& te.0 == kept@ + rest.0
                    &&& te.1 == dmg@ + rest.1
                    &&& te.2 == rest.2
                }),
            decreases work@.len(),
        {
            let ghost p = s0.len() - work@.len();
            let ghost pos_pre = rng.pos();
            let e = work.remove(0);
            proof {
                assert(s0.skip(p)[0] == s0[p]);
                assert(e == s0[p]);
                assert(work@ =~= s0.skip(p + 1));
                assert(effect_wf(s0[p]));
                assert(s0.take(p + 1).drop_last() =~= s0.take(p));
                assert(s0.take(p + 1).last() == s0[p]);
            }
            match e {
                Effect::PersistentDamage { dmg: dref } => {
                    let res = dref.dmg.eval(rng);
                    dmg.push(res);
                    let fc = RandValue::flat_check();
                    let roll = fc.eval(rng);
                    let ghost kept_pre = kept@;
                    if roll >= DEFAULT_PD_DC {
                        kept.push(Effect::PersistentDamage { dmg: dref });
                        proof {
                            assert forall|k: int| 0 <= k < kept@.len() implies effect_wf(
                                #[trigger] kept@[k],
                            ) by {
                                if k < kept_pre.len() {
                                    assert(kept@[k] == kept_pre[k]);
                                } else {
                                    assert(kept@[k] == s0[p]);
                                }
                            }
                            assert(kept@.drop_last() =~= kept_pre);
                            assert(non_pd(kept@) == non_pd(kept_pre));
                        }
                    }
                    proof {
                        assert(non_pd(kept@) + Seq::<Effect>::empty() =~= non_pd(kept@));
                    }
                    proof {
                        if old(rng).is_scripted() {
                            let dres = eval_damage(dref.dmg, vals0, pos_pre);
                            let rollp = sim(flat_check_spec(), vals0, dres.1);
                            let rest_pre = turn_end(s0.skip(p), now, vals0, pos_pre);
                            let rest_post = turn_end(s0.skip(p + 1), now, vals0, rng.pos());
                            assert(rest_pre.1 == seq![dres.0] + rest_post.1);
                            assert(dmg@ =~= dmg@.drop_last().push(res));
                            assert(dmg@.drop_last() + (seq![dres.0] + rest_post.1)
                                =~= dmg@ + rest_post.1);
                            if rollp.0 >= DEFAULT_PD_DC as int {
                                assert(rest_pre.0 == seq![s0[p]] + rest_post.0);
                                assert(kept_pre + (seq![s0[p]] + rest_post.0) =~= kept@
                                    + rest_post.0);
                            }
                        }
                    }
                },
                other => {
                    match &other {
                        Effect::Frightened { level } => {
                            let ghost decays_pre = decays@;
                            if *level > 1 {
                                decays.push(Effect::Frightened { level: *level - 1 });
                                proof {
                                    assert(decays@ =~= decays_pre + seq![
                                        Effect::Frightened { level: (*level - 1) as u64 },
                                    ]);
                                    assert forall|k: int| 0 <= k < decays@.len() implies effect_wf(
                                        #[trigger] decays@[k],
                                    ) by {
                                        if k < decays_pre.len() {
                                            assert(decays@[k] == decays_pre[k]);
                                        }
                                    }
                                }
                            } else {
                                proof {
                                    assert(decays@ =~= decays_pre + Seq::<Effect>::empty());
                                }
                            }
                        },
                        _ => {
                            proof {
                                assert(frightened_decays(s0.take(p + 1)) == frightened_decays(
                                    s0.take(p),
                                ) + Seq::<Effect>::empty());
                                assert(decays@ =~= decays@ + Seq::<Effect>::empty());
                            }
                        },
                    }
                    let ghost kept_pre = kept@;
                    if !expired_exec(&other, now) {
                        kept.push(other);
                        proof {
                            assert forall|k: int| 0 <= k < kept@.len() implies effect_wf(
                                #[trigger] kept@[k],
                            ) by {
                                if k < kept_pre.len() {
                                    assert(kept@[k] == kept_pre[k]);
                                } else {
                                    assert(kept@[k] == s0[p]);
                                }
                            }
                            assert(kept@.drop_last() =~= kept_pre);
                            assert(kept@.last() == s0[p]);
                            assert(non_pd(kept@) =~= non_pd(kept_pre) + seq![s0[p]]);
                        }
                    } else {
                        proof {
                            assert(non_pd(kept@) + Seq::<Effect>::empty() =~= non_pd(kept@));
                        }
                    }
                    proof {
                        if old(rng).is_scripted() {
                            let rest_pre = turn_end(s0.skip(p), now, vals0, pos_pre);
                            let rest_post = turn_end(s0.skip(p + 1), now, vals0, rng.pos());
                            if !expired(s0[p], now) {
                                assert(rest_pre.0 == seq![s0[p]] + rest_post.0);
                                assert(kept_pre + (seq![s0[p]] + rest_post.0) =~= kept@
                                    + rest_post.0);
                            }
                        }
                    }
                },
            }
        }
        proof {
            assert(s0.skip(s0.len() as int) =~= Seq::<Effect>::empty());
            assert(s0.take(s0.len() as int) =~= s0);
        }
        let ghost kept_final = kept@;
        let ghost decays_final = decays@;
        self.effects = kept;
        self.effects.append(&mut decays);
        proof {
            assert forall|k: int| 0 <= k < self.effects@.len() implies effect_wf(
                #[trigger] self.effects@[k],
            ) by {
            }
            lemma_non_pd_concat(kept_final, decays_final);
            lemma_non_pd_all(decays_final);
        }
        if dmg.len() == 0 {
            None
        } else {
            Some(dmg)
        }
    }
}


/// Death is derived, never stored: the snapshot reads dead exactly when the
/// accumulated dying severity reaches the base threshold lowered by the
/// accumulated doomed severity (floored at zero).
pub proof fn lemma_dead_threshold(s: Seq<Effect>)
    ensures
        current_spec(s).dead <==> current_spec(s).dying >= sub0(
            DEFAULT_DYING,
            current_spec(s).doomed,
        ),
{
}

/// A stored frightened effect always leaves the set at turn end; a severity
/// above one re-enters at one less, a severity of one expires outright.
pub proof fn lemma_frightened_decay(level: u64, now: Round, vals: Seq<u64>, pos: nat)
    ensures
        turn_end(seq![Effect::Frightened { level }], now, vals, pos).0 == Seq::<Effect>::empty(),
        turn_end(seq![Effect::Frightened { level }], now, vals, pos).2 == pos,
        frightened_decays(seq![Effect::Frightened { level }]) == if level > 1 {
            seq![Effect::Frightened { level: (level - 1) as u64 }]
        } else {
            Seq::<Effect>::empty()
        },
{
    let s = seq![Effect::Frightened { level }];
    assert(s[0] == Effect::Frightened { level });
    assert(s.last() == Effect::Frightened { level });
    assert(s.drop_first() =~= Seq::<Effect>::empty());
    assert(s.drop_last() =~= Seq::<Effect>::empty());
    assert(turn_end(Seq::<Effect>::empty(), now, vals, pos) == (
        Seq::<Effect>::empty(),
        Seq::<DamageResult>::empty(),
        pos,
    ));
    assert(frightened_decays(Seq::<Effect>::empty()) == Seq::<Effect>::empty());
    if level > 1 {
        assert(Seq::<Effect>::empty() + seq![Effect::Frightened { level: (level - 1) as u64 }]
            =~= seq![Effect::Frightened { level: (level - 1) as u64 }]);
    } else {
        assert(Seq::<Effect>::empty() + Seq::<Effect>::empty() =~= Seq::<Effect>::empty());
    }
}

/// Each persistent-damage entry emits the evaluation of its wrapped damage
/// on every turn end it is present for, and stays for another turn exactly
/// when the flat check rolled after the damage meets the threshold.
pub proof fn lemma_persistent_damage(e: Effect, now: Round, vals: Seq<u64>, pos: nat)
    requires
        e is PersistentDamage,
    ensures
        ({
            let dres = eval_damage(e->PersistentDamage_dmg.dmg, vals, pos);
            let roll = sim(flat_check_spec(), vals, dres.1);
            let te = turn_end(seq![e], now, vals, pos);
            &&& te.1 == seq![dres.0]
            &&& te.0 == if roll.0 >= DEFAULT_PD_DC as int {
                seq![e]
            } else {
                Seq::<Effect>::empty()
            }
        }),
{
    let s = seq![e];
    assert(s[0] == e);
    assert(s.drop_first() =~= Seq::<Effect>::empty());
    let dres = eval_damage(e->PersistentDamage_dmg.dmg, vals, pos);
    let roll = sim(flat_check_spec(), vals, dres.1);
    let rest = turn_end(s.drop_first(), now, vals, roll.1);
    assert(rest.0 == Seq::<Effect>::empty() && rest.1 == Seq::<DamageResult>::empty());
    assert(seq![dres.0] + rest.1 =~= seq![dres.0]);
    assert(seq![e] + rest.0 =~= seq![e]);
}

} // verus!
