use vstd::prelude::*;
use rand::Rng;
use rand::SeedableRng;

use vstd::multiset::Multiset;

verus! {

// ---------------------------------------------------------------------------
// Saturating arithmetic
//
// All dice arithmetic saturates at the i64 bounds instead of overflowing, so
// evaluation is total on every expression tree.
// ---------------------------------------------------------------------------

pub open spec fn clamp_i64(x: int) -> int {
    if x > i64::MAX as int {
        i64::MAX as int
    } else if x < i64::MIN as int {
        i64::MIN as int
    } else {
        x
    }
}

pub open spec fn sat_add_spec(a: int, b: int) -> int {
    clamp_i64(a + b)
}

pub open spec fn sat_mul_spec(a: int, b: int) -> int {
    clamp_i64(a * b)
}

pub open spec fn sat_neg_spec(a: int) -> int {
    clamp_i64(-a)
}

fn sat_add(a: i64, b: i64) -> (r: i64)
    ensures
        r as int == sat_add_spec(a as int, b as int),
{
    match a.checked_add(b) {
        Some(v) => v,
        None => if b > 0 {
            i64::MAX
        } else {
            i64::MIN
        },
    }
}

fn sat_mul(a: i64, b: i64) -> (r: i64)
    ensures
        r as int == sat_mul_spec(a as int, b as int),
{
    match a.checked_mul(b) {
        Some(v) => v,
        None => {
            proof {
                assert(a != 0 && b != 0);
                if a > 0 && b > 0 {
                    assert(a * b >= 1 * b > 0) by (nonlinear_arith)
                        requires a >= 1 && b > 0;
                }
                if a < 0 && b < 0 {
                    assert(a * b > 0) by (nonlinear_arith)
                        requires a < 0 && b < 0;
                }
                if a > 0 && b < 0 {
                    assert(a * b < 0) by (nonlinear_arith)
                        requires a > 0 && b < 0;
                }
                if a < 0 && b > 0 {
                    assert(a * b < 0) by (nonlinear_arith)
                        requires a < 0 && b > 0;
                }
            }
            if (a > 0) == (b > 0) {
                i64::MAX
            } else {
                i64::MIN
            }
        },
    }
}

fn sat_neg(a: i64) -> (r: i64)
    ensures
        r as int == sat_neg_spec(a as int),
{
    if a == i64::MIN {
        i64::MAX
    } else {
        -a
    }
}

pub open spec fn clamp_u64(x: int) -> int {
    if x > u64::MAX as int {
        u64::MAX as int
    } else {
        x
    }
}

fn sat_mul_u64(a: u64, b: u64) -> (r: u64)
    ensures
        r as int == clamp_u64(a as int * b as int),
{
    match a.checked_mul(b) {
        Some(v) => v,
        None => u64::MAX,
    }
}

// ---------------------------------------------------------------------------
// Random sources
//
// A `RandState` is either backed by rand's seeded generator or by a scripted
// queue of prepared draws. The scripted form is fully specified: every draw
// and the advancing position are pinned, which makes evaluation under a
// scripted source a mathematical function of the source's state.
// ---------------------------------------------------------------------------

/// Declares rand's standard generator so it can stand in a field; its state
/// is opaque here.
#[verifier::external_type_specification]
#[verifier::external_body]
pub struct ExStdRng(rand::rngs::StdRng);

/// A queue of prepared draw values, consumed front to back. A value outside
/// a requested die's range is clamped into it; an exhausted queue yields 1.
struct Script {
    vals: Vec<u64>,
    pos: usize,
}

enum SourceKind {
    Seeded(rand::rngs::StdRng),
    Scripted(Script),
}

/// A mutable source of die rolls, passed by exclusive reference into every
/// evaluation call.
pub struct RandState {
    kind: SourceKind,
}

/// The draw a scripted source yields at `pos`, clamped into `1..=faces`.
pub open spec fn script_draw(vals: Seq<u64>, pos: nat, faces: u64) -> u64 {
    if pos < vals.len() {
        if vals[pos as int] < 1 {
            1u64
        } else if vals[pos as int] > faces {
            faces
        } else {
            vals[pos as int]
        }
    } else {
        1u64
    }
}

/// The scripted position after one draw: exhausted queues stay put.
pub open spec fn script_next(vals: Seq<u64>, pos: nat) -> nat {
    if pos < vals.len() {
        pos + 1
    } else {
        pos
    }
}

impl RandState {
    pub closed spec fn is_scripted(&self) -> bool {
        self.kind is Scripted
    }

    pub closed spec fn script(&self) -> Seq<u64> {
        self.kind->Scripted_0.vals@
    }

    pub closed spec fn pos(&self) -> nat {
        self.kind->Scripted_0.pos as nat
    }

    pub closed spec fn inv(&self) -> bool {
        self.is_scripted() ==> self.pos() <= self.script().len()
    }

    /// A source driven by rand's standard generator from a fixed seed.
    pub fn seeded(seed: u64) -> (r: RandState)
        ensures
            r.inv(),
            !r.is_scripted(),
    {
        RandState { kind: SourceKind::Seeded(std_rng_from_seed(seed)) }
    }

    /// A source that replays `vals` front to back, clamping each value into
    /// the requested die's range and yielding 1 once exhausted.
    pub fn scripted(vals: Vec<u64>) -> (r: RandState)
        ensures
            r.inv(),
            r.is_scripted(),
            r.script() == vals@,
            r.pos() == 0,
    {
        RandState { kind: SourceKind::Scripted(Script { vals, pos: 0 }) }
    }

    /// One uniform draw over `1..=faces`.
    pub fn draw(&mut self, faces: u64) -> (r: u64)
        requires
            faces >= 1,
            old(self).inv(),
        ensures
            final(self).inv(),
            1 <= r <= faces,
            final(self).is_scripted() == old(self).is_scripted(),
            old(self).is_scripted() ==> {
                &&& r == script_draw(old(self).script(), old(self).pos(), faces)
                &&& final(self).script() == old(self).script()
                &&& final(self).pos() == script_next(old(self).script(), old(self).pos())
            },
    {
        match &mut self.kind {
            SourceKind::Seeded(rng) => std_rng_draw(rng, faces),
            SourceKind::Scripted(script) => {
                if script.pos < script.vals.len() {
                    let v = script.vals[script.pos];
                    script.pos = script.pos + 1;
                    if v < 1 {
                        1
                    } else if v > faces {
                        faces
                    } else {
                        v
                    }
                } else {
                    1
                }
            },
        }
    }
}

/// Relies on rand's `SeedableRng::seed_from_u64` to build the standard
/// generator from a 64-bit seed; nothing is assumed of the generator's state.
#[verifier::external_body]
fn std_rng_from_seed(seed: u64) -> rand::rngs::StdRng {
    rand::rngs::StdRng::seed_from_u64(seed)
}

/// Relies on rand's `Rng::gen_range` over the non-empty range `1..=faces`:
/// the sampled value lies within that range.
#[verifier::external_body]
fn std_rng_draw(rng: &mut rand::rngs::StdRng, faces: u64) -> (r: u64)
    requires
        faces >= 1,
    ensures
        1 <= r <= faces,
{
    rng.gen_range(1..=faces)
}

// ---------------------------------------------------------------------------
// Dice expressions
// ---------------------------------------------------------------------------

/// A symbolic random quantity: a constant, a sum or product of
/// sub-expressions, a negation, or `times` rolls of a `faces`-sided die.
#[derive(Debug)]
pub enum RandValue {
    Const(i64),
    Sum(Vec<RandValue>),
    Product(Vec<RandValue>),
    Negate(Box<RandValue>),
    Die { faces: u64, times: u64 },
}

/// Every die term has at least one face, so a roll is always possible, and
/// no more faces than i64::MAX, so a single roll is representable.
pub open spec fn wf(e: RandValue) -> bool
    decreases e,
{
    match e {
        RandValue::Const(_) => true,
        RandValue::Sum(v) => wf_list(v@),
        RandValue::Product(v) => wf_list(v@),
        RandValue::Negate(x) => wf(*x),
        RandValue::Die { faces, times } => 1 <= faces <= i64::MAX as u64,
    }
}

pub open spec fn wf_list(es: Seq<RandValue>) -> bool
    decreases es,
{
    if es.len() == 0 {
        true
    } else {
        wf(es[0]) && wf_list(es.drop_first())
    }
}

pub proof fn lemma_wf_list_index(es: Seq<RandValue>, i: int)
    requires
        wf_list(es),
        0 <= i < es.len(),
    ensures
        wf(es[i]),
    decreases es.len(),
{
    if i > 0 {
        lemma_wf_list_index(es.drop_first(), i - 1);
        assert(es.drop_first()[i - 1] == es[i]);
    }
}

/// The number of die rolls one evaluation of `e` consumes.
pub open spec fn draw_count(e: RandValue) -> nat
    decreases e,
{
    match e {
        RandValue::Const(_) => 0,
        RandValue::Sum(v) => draw_count_list(v@),
        RandValue::Product(v) => draw_count_list(v@),
        RandValue::Negate(x) => draw_count(*x),
        RandValue::Die { faces, times } => times as nat,
    }
}

pub open spec fn draw_count_list(es: Seq<RandValue>) -> nat
    decreases es,
{
    if es.len() == 0 {
        0
    } else {
        draw_count(es[0]) + draw_count_list(es.drop_first())
    }
}

// ---------------------------------------------------------------------------
// Scripted evaluation, as a mathematical function
//
// `sim` maps an expression and a scripted source state to the evaluation
// result and the source state left behind. Operands are consumed strictly
// left to right, exactly as the executable evaluator walks the tree.
// ---------------------------------------------------------------------------

pub open spec fn sim(e: RandValue, vals: Seq<u64>, pos: nat) -> (int, nat)
    decreases e,
{
    match e {
        RandValue::Const(i) => (i as int, pos),
        RandValue::Sum(v) => sim_list(v@, vals, pos, 0, false),
        RandValue::Product(v) => sim_list(v@, vals, pos, 1, true),
        RandValue::Negate(x) => (sat_neg_spec(sim(*x, vals, pos).0), sim(*x, vals, pos).1),
        RandValue::Die { faces, times } => sim_die(faces, times as nat, vals, pos, 0),
    }
}

pub open spec fn sim_list(es: Seq<RandValue>, vals: Seq<u64>, pos: nat, acc: int, prod: bool) -> (int, nat)
    decreases es,
{
    if es.len() == 0 {
        (acc, pos)
    } else {
        let head = sim(es[0], vals, pos);
        let acc2 = if prod {
            sat_mul_spec(acc, head.0)
        } else {
            sat_add_spec(acc, head.0)
        };
        sim_list(es.drop_first(), vals, head.1, acc2, prod)
    }
}

pub open spec fn sim_die(faces: u64, times: nat, vals: Seq<u64>, pos: nat, acc: int) -> (int, nat)
    decreases times,
{
    if times == 0 {
        (acc, pos)
    } else {
        sim_die(
            faces,
            (times - 1) as nat,
            vals,
            script_next(vals, pos),
            sat_add_spec(acc, script_draw(vals, pos, faces) as int),
        )
    }
}


// ---------------------------------------------------------------------------
// Evaluation under explicit draws
//
// `draws_ok` says a sequence of die results is one the dice could have
// produced for an expression, and `eval_with` is the value the evaluator
// computes from it. Every evaluation, seeded or scripted, returns
// `eval_with` of the expression and the draws actually consumed.
// ---------------------------------------------------------------------------

pub open spec fn draws_ok(e: RandValue, ds: Seq<u64>) -> bool
    decreases e,
{
    match e {
        RandValue::Const(_) => ds.len() == 0,
        RandValue::Sum(v) => draws_ok_list(v@, ds),
        RandValue::Product(v) => draws_ok_list(v@, ds),
        RandValue::Negate(x) => draws_ok(*x, ds),
        RandValue::Die { faces, times } => ds.len() == times && forall|i: int|
            0 <= i < ds.len() ==> 1 <= #[trigger] ds[i] <= faces,
    }
}

pub open spec fn draws_ok_list(es: Seq<RandValue>, ds: Seq<u64>) -> bool
    decreases es,
{
    if es.len() == 0 {
        ds.len() == 0
    } else {
        let k = draw_count(es[0]) as int;
        &&& k <= ds.len()
        &&& draws_ok(es[0], ds.take(k))
        &&& draws_ok_list(es.drop_first(), ds.skip(k))
    }
}

pub open spec fn eval_with(e: RandValue, ds: Seq<u64>) -> int
    decreases e,
{
    match e {
        RandValue::Const(i) => i as int,
        RandValue::Sum(v) => eval_with_list(v@, ds, 0, false),
        RandValue::Product(v) => eval_with_list(v@, ds, 1, true),
        RandValue::Negate(x) => sat_neg_spec(eval_with(*x, ds)),
        RandValue::Die { faces, times } => eval_die(ds, 0),
    }
}

pub open spec fn eval_with_list(es: Seq<RandValue>, ds: Seq<u64>, acc: int, prod: bool) -> int
    decreases es,
{
    if es.len() == 0 {
        acc
    } else {
        let k = draw_count(es[0]) as int;
        let r = eval_with(es[0], ds.take(k));
        let acc2 = if prod {
            sat_mul_spec(acc, r)
        } else {
            sat_add_spec(acc, r)
        };
        eval_with_list(es.drop_first(), ds.skip(k), acc2, prod)
    }
}

pub open spec fn eval_die(ds: Seq<u64>, acc: int) -> int
    decreases ds.len(),
{
    if ds.len() == 0 {
        acc
    } else {
        eval_die(ds.drop_first(), sat_add_spec(acc, ds[0] as int))
    }
}

proof fn lemma_draws_ok_len(e: RandValue, ds: Seq<u64>)
    requires
        draws_ok(e, ds),
    ensures
        ds.len() == draw_count(e),
    decreases e,
{
    match e {
        RandValue::Const(_) => {},
        RandValue::Sum(v) => {
            lemma_draws_ok_list_len(v@, ds);
        },
        RandValue::Product(v) => {
            lemma_draws_ok_list_len(v@, ds);
        },
        RandValue::Negate(x) => {
            lemma_draws_ok_len(*x, ds);
        },
        RandValue::Die { .. } => {},
    }
}

proof fn lemma_draws_ok_list_len(es: Seq<RandValue>, ds: Seq<u64>)
    requires
        draws_ok_list(es, ds),
    ensures
        ds.len() == draw_count_list(es),
    decreases es,
{
    if es.len() != 0 {
        let k = draw_count(es[0]) as int;
        lemma_draws_ok_len(es[0], ds.take(k));
        lemma_draws_ok_list_len(es.drop_first(), ds.skip(k));
    }
}

proof fn lemma_eval_die_push(ds: Seq<u64>, d: u64, acc: int)
    ensures
        eval_die(ds.push(d), acc) == sat_add_spec(eval_die(ds, acc), d as int),
    decreases ds.len(),
{
    if ds.len() == 0 {
        assert(ds.push(d)[0] == d);
        assert(ds.push(d).drop_first() =~= Seq::<u64>::empty());
        assert(eval_die(Seq::<u64>::empty(), sat_add_spec(acc, d as int)) == sat_add_spec(
            acc,
            d as int,
        ));
    } else {
        assert(ds.push(d)[0] == ds[0]);
        assert(ds.push(d).drop_first() =~= ds.drop_first().push(d));
        lemma_eval_die_push(ds.drop_first(), d, sat_add_spec(acc, ds[0] as int));
    }
}

proof fn lemma_eval_with_append(
    es: Seq<RandValue>,
    ds: Seq<u64>,
    e2: RandValue,
    ds2: Seq<u64>,
    acc: int,
    prod: bool,
)
    requires
        draws_ok_list(es, ds),
        draws_ok(e2, ds2),
    ensures
        draws_ok_list(es.push(e2), ds + ds2),
        eval_with_list(es.push(e2), ds + ds2, acc, prod) == (if prod {
            sat_mul_spec(eval_with_list(es, ds, acc, prod), eval_with(e2, ds2))
        } else {
            sat_add_spec(eval_with_list(es, ds, acc, prod), eval_with(e2, ds2))
        }),
    decreases es,
{
    lemma_draws_ok_len(e2, ds2);
    if es.len() == 0 {
        let one = es.push(e2);
        let k = draw_count(e2) as int;
        assert(one[0] == e2);
        assert(one.drop_first() =~= Seq::<RandValue>::empty());
        assert(ds + ds2 =~= ds2);
        assert(ds2.take(k) =~= ds2);
        assert(ds2.skip(k) =~= Seq::<u64>::empty());
        assert(draws_ok_list(Seq::<RandValue>::empty(), Seq::<u64>::empty()));
        let r = eval_with(e2, ds2);
        let acc2 = if prod {
            sat_mul_spec(acc, r)
        } else {
            sat_add_spec(acc, r)
        };
        assert(eval_with_list(Seq::<RandValue>::empty(), Seq::<u64>::empty(), acc2, prod)
            == acc2);
        assert(eval_with_list(es, ds, acc, prod) == acc);
    } else {
        let k = draw_count(es[0]) as int;
        let whole = ds + ds2;
        assert(es.push(e2)[0] == es[0]);
        assert(es.push(e2).drop_first() =~= es.drop_first().push(e2));
        lemma_draws_ok_list_len(es, ds);
        lemma_draws_ok_list_len(es.drop_first(), ds.skip(k));
        assert(whole.take(k) =~= ds.take(k));
        assert(whole.skip(k) =~= ds.skip(k) + ds2);
        let r = eval_with(es[0], ds.take(k));
        let acc2 = if prod {
            sat_mul_spec(acc, r)
        } else {
            sat_add_spec(acc, r)
        };
        lemma_eval_with_append(es.drop_first(), ds.skip(k), e2, ds2, acc2, prod);
    }
}

impl RandValue {
    /// Evaluate the expression, consuming one draw per die roll from `rng`,
    /// operands strictly left to right. Under a scripted source the result
    /// and the source state left behind are the mathematical function `sim`
    /// of the expression and the source state.
    #[verifier::loop_isolation(false)]
    pub fn eval(&self, rng: &mut RandState) -> (r: i64)
        requires
            wf(*self),
            old(rng).inv(),
        ensures
            final(rng).inv(),
            final(rng).is_scripted() == old(rng).is_scripted(),
            exists|ds: Seq<u64>|
                #[trigger] draws_ok(*self, ds) && r as int == eval_with(*self, ds),
            old(rng).is_scripted() ==> {
                &&& r as int == sim(*self, old(rng).script(), old(rng).pos()).0
                &&& final(rng).script() == old(rng).script()
                &&& final(rng).pos() == sim(*self, old(rng).script(), old(rng).pos()).1
            },
        decreases *self,
    {
        match self {
            RandValue::Const(i) => {
                proof {
                    let ds = Seq::<u64>::empty();
                    assert(draws_ok(RandValue::Const(*i), ds));
                    assert(eval_with(RandValue::Const(*i), ds) == *i as int);
                }
                *i
            },
            RandValue::Sum(v) => {
                let ghost vals0 = old(rng).script();
                let ghost pos0 = old(rng).pos();
                proof {
                    assert(wf(RandValue::Sum(*v)));
                    assert(wf_list(v@));
                    assert(v@.skip(0) =~= v@);
                    assert(v@.take(0) =~= Seq::<RandValue>::empty());
                    assert(draws_ok_list(Seq::<RandValue>::empty(), Seq::<u64>::empty()));
                    assert(eval_with_list(
                        Seq::<RandValue>::empty(),
                        Seq::<u64>::empty(),
                        0,
                        false,
                    ) == 0);
                }
                let mut acc: i64 = 0;
                let mut i: usize = 0;
                while i < v.len()
                    invariant
                        i <= v.len(),
                        rng.inv(),
                        rng.is_scripted() == old(rng).is_scripted(),
                        exists|ds: Seq<u64>|
                            #[trigger] draws_ok_list(v@.take(i as int), ds) && acc as int
                                == eval_with_list(v@.take(i as int), ds, 0, false),
                        old(rng).is_scripted() ==> {
                            &&& rng.script() == vals0
                            &&& sim_list(v@.skip(i as int), vals0, rng.pos(), acc as int, false)
                                == sim_list(v@, vals0, pos0, 0, false)
                        },
                    decreases v.len() - i,
                {
                    proof {
                        assert(v@.skip(i as int)[0] == v@[i as int]);
                        lemma_wf_list_index(v@, i as int);
                        assert(decreases_to!(*self => v@[i as int]));
                    }
                    let ghost acc_pre = acc as int;
                    let ghost ds_p = choose|ds: Seq<u64>|
                        #[trigger] draws_ok_list(v@.take(i as int), ds) && acc_pre
                            == eval_with_list(v@.take(i as int), ds, 0, false);
                    let x = v[i].eval(rng);
                    proof {
                        let ds_c = choose|ds: Seq<u64>|
                            #[trigger] draws_ok(v@[i as int], ds) && x as int == eval_with(
                                v@[i as int],
                                ds,
                            );
                        lemma_eval_with_append(
                            v@.take(i as int),
                            ds_p,
                            v@[i as int],
                            ds_c,
                            0,
                            false,
                        );
                        assert(v@.take(i as int).push(v@[i as int]) =~= v@.take(i as int + 1));
                        assert(draws_ok_list(v@.take(i as int + 1), ds_p + ds_c));
                    }
                    acc = sat_add(acc, x);
                    proof {
                        if old(rng).is_scripted() {
                            assert(v@.skip(i as int).drop_first() =~= v@.skip(i as int + 1));
                        }
                    }
                    i = i + 1;
                }
                proof {
                    assert(v@.take(v@.len() as int) =~= v@);
                    let ds_f = choose|ds: Seq<u64>|
                        #[trigger] draws_ok_list(v@, ds) && acc as int == eval_with_list(
                            v@,
                            ds,
                            0,
                            false,
                        );
                    assert(draws_ok(RandValue::Sum(*v), ds_f));
                    assert(eval_with(RandValue::Sum(*v), ds_f) == acc as int);
                    if old(rng).is_scripted() {
                        assert(v@.skip(v@.len() as int) =~= Seq::<RandValue>::empty());
                    }
                }
                acc
            },
            RandValue::Product(v) => {
                let ghost vals0 = old(rng).script();
                let ghost pos0 = old(rng).pos();
                proof {
                    assert(wf(RandValue::Product(*v)));
                    assert(wf_list(v@));
                    assert(v@.skip(0) =~= v@);
                    assert(v@.take(0) =~= Seq::<RandValue>::empty());
                    assert(draws_ok_list(Seq::<RandValue>::empty(), Seq::<u64>::empty()));
                    assert(eval_with_list(
                        Seq::<RandValue>::empty(),
                        Seq::<u64>::empty(),
                        1,
                        true,
                    ) == 1);
                }
                let mut acc: i64 = 1;
                let mut i: usize = 0;
                while i < v.len()
                    invariant
                        i <= v.len(),
                        rng.inv(),
                        rng.is_scripted() == old(rng).is_scripted(),
                        exists|ds: Seq<u64>|
                            #[trigger] draws_ok_list(v@.take(i as int), ds) && acc as int
                                == eval_with_list(v@.take(i as int), ds, 1, true),
                        old(rng).is_scripted() ==> {
                            &&& rng.script() == vals0
                            &&& sim_list(v@.skip(i as int), vals0, rng.pos(), acc as int, true)
                                == sim_list(v@, vals0, pos0, 1, true)
                        },
                    decreases v.len() - i,
                {
                    proof {
                        assert(v@.skip(i as int)[0] == v@[i as int]);
                        lemma_wf_list_index(v@, i as int);
                        assert(decreases_to!(*self => v@[i as int]));
                    }
                    let ghost acc_pre = acc as int;
                    let ghost ds_p = choose|ds: Seq<u64>|
                        #[trigger] draws_ok_list(v@.take(i as int), ds) && acc_pre
                            == eval_with_list(v@.take(i as int), ds, 1, true);
                    let x = v[i].eval(rng);
                    proof {
                        let ds_c = choose|ds: Seq<u64>|
                            #[trigger] draws_ok(v@[i as int], ds) && x as int == eval_with(
                                v@[i as int],
                                ds,
                            );
                        lemma_eval_with_append(
                            v@.take(i as int),
                            ds_p,
                            v@[i as int],
                            ds_c,
                            1,
                            true,
                        );
                        assert(v@.take(i as int).push(v@[i as int]) =~= v@.take(i as int + 1));
                        assert(draws_ok_list(v@.take(i as int + 1), ds_p + ds_c));
                    }
                    acc = sat_mul(acc, x);
                    proof {
                        if old(rng).is_scripted() {
                            assert(v@.skip(i as int).drop_first() =~= v@.skip(i as int + 1));
                        }
                    }
                    i = i + 1;
                }
                proof {
                    assert(v@.take(v@.len() as int) =~= v@);
                    let ds_f = choose|ds: Seq<u64>|
                        #[trigger] draws_ok_list(v@, ds) && acc as int == eval_with_list(
                            v@,
                            ds,
                            1,
                            true,
                        );
                    assert(draws_ok(RandValue::Product(*v), ds_f));
                    assert(eval_with(RandValue::Product(*v), ds_f) == acc as int);
                    if old(rng).is_scripted() {
                        assert(v@.skip(v@.len() as int) =~= Seq::<RandValue>::empty());
                    }
                }
                acc
            },
            RandValue::Negate(x) => {
                let inner = x.eval(rng);
                let r = sat_neg(inner);
                proof {
                    let ds_c = choose|ds: Seq<u64>|
                        #[trigger] draws_ok(**x, ds) && inner as int == eval_with(**x, ds);
                    assert(draws_ok(RandValue::Negate(*x), ds_c));
                    assert(eval_with(RandValue::Negate(*x), ds_c) == sat_neg_spec(inner as int));
                }
                r
            },
            RandValue::Die { faces, times } => {
                let ghost vals0 = old(rng).script();
                let ghost pos0 = old(rng).pos();
                let mut acc: i64 = 0;
                let mut t: u64 = 0;
                proof {
                    assert(eval_die(Seq::<u64>::empty(), 0) == 0);
                }
                while t < *times
                    invariant
                        t <= *times,
                        1 <= *faces <= i64::MAX as u64,
                        rng.inv(),
                        rng.is_scripted() == old(rng).is_scripted(),
                        exists|ds: Seq<u64>|
                            #![auto]
                            ds.len() == t && (forall|j: int|
                                0 <= j < ds.len() ==> 1 <= #[trigger] ds[j] <= *faces) && acc as int
                                == eval_die(ds, 0),
                        old(rng).is_scripted() ==> {
                            &&& rng.script() == vals0
                            &&& sim_die(*faces, (*times - t) as nat, vals0, rng.pos(), acc as int)
                                == sim_die(*faces, *times as nat, vals0, pos0, 0)
                        },
                    decreases *times - t,
                {
                    let ghost acc_pre = acc as int;
                    let ghost ds_p = choose|ds: Seq<u64>|
                        #![auto]
                        ds.len() == t && (forall|j: int|
                            0 <= j < ds.len() ==> 1 <= #[trigger] ds[j] <= *faces) && acc_pre
                            == eval_die(ds, 0);
                    let d = rng.draw(*faces);
                    proof {
                        lemma_eval_die_push(ds_p, d, 0);
                        assert(forall|j: int|
                            0 <= j < ds_p.push(d).len() ==> 1 <= #[trigger] ds_p.push(d)[j]
                                <= *faces);
                    }
                    acc = sat_add(acc, d as i64);
                    t = t + 1;
                }
                proof {
                    let ds_f = choose|ds: Seq<u64>|
                        #![auto]
                        ds.len() == t && (forall|j: int|
                            0 <= j < ds.len() ==> 1 <= #[trigger] ds[j] <= *faces) && acc as int
                            == eval_die(ds, 0);
                    assert(draws_ok(RandValue::Die { faces: *faces, times: *times }, ds_f));
                    assert(eval_with(RandValue::Die { faces: *faces, times: *times }, ds_f)
                        == acc as int);
                }
                acc
            },
        }
    }
}


// ---------------------------------------------------------------------------
// Construction
// ---------------------------------------------------------------------------

/// The top-level operand list of a sum: its own list for a sum expression,
/// the expression itself as a single operand otherwise.
pub open spec fn operands(e: RandValue) -> Seq<RandValue> {
    if e is Sum {
        e->Sum_0@
    } else {
        seq![e]
    }
}

/// The operand list produced by combining `a` and `b` by addition.
pub open spec fn plus_operands(a: RandValue, b: RandValue) -> Seq<RandValue> {
    if !(a is Sum) && b is Sum {
        operands(b).push(a)
    } else {
        operands(a) + operands(b)
    }
}

pub proof fn lemma_wf_list_push(es: Seq<RandValue>, e: RandValue)
    requires
        wf_list(es),
        wf(e),
    ensures
        wf_list(es.push(e)),
    decreases es.len(),
{
    if es.len() == 0 {
        assert(es.push(e).drop_first() =~= Seq::<RandValue>::empty());
        assert(wf_list(Seq::<RandValue>::empty()));
        assert(es.push(e)[0] == e);
    } else {
        lemma_wf_list_push(es.drop_first(), e);
        assert(es.push(e).drop_first() =~= es.drop_first().push(e));
        assert(es.push(e)[0] == es[0]);
    }
}

pub proof fn lemma_wf_list_concat(a: Seq<RandValue>, b: Seq<RandValue>)
    requires
        wf_list(a),
        wf_list(b),
    ensures
        wf_list(a + b),
    decreases a.len(),
{
    if a.len() == 0 {
        assert(a + b =~= b);
    } else {
        lemma_wf_list_concat(a.drop_first(), b);
        assert((a + b).drop_first() =~= a.drop_first() + b);
        assert((a + b)[0] == a[0]);
    }
}

pub proof fn lemma_wf_list_singleton(e: RandValue)
    requires
        wf(e),
    ensures
        wf_list(seq![e]),
{
    assert(seq![e].drop_first() =~= Seq::<RandValue>::empty());
    assert(wf_list(Seq::<RandValue>::empty()));
    assert(seq![e][0] == e);
}

pub proof fn lemma_wf_operands(e: RandValue)
    requires
        wf(e),
    ensures
        wf_list(operands(e)),
{
    if e is Sum {
        assert(e == RandValue::Sum(e->Sum_0));
        assert(wf(RandValue::Sum(e->Sum_0)));
    } else {
        lemma_wf_list_singleton(e);
    }
}

impl RandValue {
    /// Combine two expressions by addition, flattening nested sums into one
    /// operand list rather than nesting them.
    pub fn plus(self, rhs: RandValue) -> (r: RandValue)
        ensures
            r is Sum,
            r->Sum_0@ == plus_operands(self, rhs),
            wf(self) && wf(rhs) ==> wf(r),
    {
        let ghost a = self;
        let ghost b = rhs;
        let r = match self {
            RandValue::Sum(mut v) => match rhs {
                RandValue::Sum(mut u) => {
                    v.append(&mut u);
                    RandValue::Sum(v)
                },
                other => {
                    v.push(other);
                    proof {
                        assert(operands(a) + operands(b) =~= v@);
                    }
                    RandValue::Sum(v)
                },
            },
            other => match rhs {
                RandValue::Sum(mut u) => {
                    u.push(other);
                    RandValue::Sum(u)
                },
                neither => {
                    let r = RandValue::Sum(vec![other, neither]);
                    proof {
                        assert(operands(a) + operands(b) =~= seq![a, b]);
                        assert(r->Sum_0@ =~= seq![a, b]);
                    }
                    r
                },
            },
        };
        proof {
            if wf(a) && wf(b) {
                lemma_wf_operands(a);
                lemma_wf_operands(b);
                if !(a is Sum) && b is Sum {
                    lemma_wf_list_push(operands(b), a);
                } else {
                    lemma_wf_list_concat(operands(a), operands(b));
                }
                assert(wf(RandValue::Sum(r->Sum_0)));
            }
        }
        r
    }

    /// Add a constant: constants fold (saturating), sums append the constant
    /// to their operand list, anything else becomes a two-operand sum.
    pub fn plus_const(self, rhs: i64) -> (r: RandValue)
        ensures
            self is Const ==> r == RandValue::Const(sat_add_spec(self->Const_0 as int, rhs as int) as i64),
            self is Sum ==> r is Sum && r->Sum_0@ == self->Sum_0@.push(RandValue::Const(rhs)),
            !(self is Const) && !(self is Sum) ==> r is Sum && r->Sum_0@ == seq![
                self,
                RandValue::Const(rhs),
            ],
            wf(self) ==> wf(r),
    {
        let ghost a = self;
        let r = match self {
            RandValue::Const(i) => RandValue::Const(sat_add(i, rhs)),
            RandValue::Sum(mut v) => {
                v.push(RandValue::Const(rhs));
                RandValue::Sum(v)
            },
            other => {
                let r = RandValue::Sum(vec![other, RandValue::Const(rhs)]);
                proof {
                    assert(r->Sum_0@ =~= seq![a, RandValue::Const(rhs)]);
                }
                r
            },
        };
        proof {
            if wf(a) {
                if a is Sum {
                    assert(wf(RandValue::Sum(a->Sum_0)));
                    lemma_wf_list_push(a->Sum_0@, RandValue::Const(rhs));
                } else if !(a is Const) {
                    lemma_wf_list_singleton(a);
                    lemma_wf_list_push(seq![a], RandValue::Const(rhs));
                    assert(seq![a].push(RandValue::Const(rhs)) =~= seq![
                        a,
                        RandValue::Const(rhs),
                    ]);
                }
                assert(wf(r));
            }
        }
        r
    }

    /// Scale by a fixed positive factor: constants fold (saturating), die
    /// terms multiply their repetition count (saturating), products append
    /// the factor, anything else wraps in a new product.
    pub fn scale(self, k: u64) -> (r: RandValue)
        requires
            1 <= k <= i64::MAX as u64,
        ensures
            self is Const ==> r == RandValue::Const(sat_mul_spec(self->Const_0 as int, k as int) as i64),
            self is Die ==> r == (RandValue::Die {
                faces: self->Die_faces,
                times: clamp_u64(self->Die_times as int * k as int) as u64,
            }),
            self is Product ==> r is Product && r->Product_0@ == self->Product_0@.push(
                RandValue::Const(k as i64),
            ),
            self is Sum || self is Negate ==> r is Product && r->Product_0@ == seq![
                self,
                RandValue::Const(k as i64),
            ],
            wf(self) ==> wf(r),
    {
        let ghost a = self;
        let r = match self {
            RandValue::Const(i) => RandValue::Const(sat_mul(i, k as i64)),
            RandValue::Product(mut v) => {
                v.push(RandValue::Const(k as i64));
                RandValue::Product(v)
            },
            RandValue::Die { faces, times } => RandValue::Die { faces, times: sat_mul_u64(times, k) },
            other => {
                let r = RandValue::Product(vec![other, RandValue::Const(k as i64)]);
                proof {
                    assert(r->Product_0@ =~= seq![a, RandValue::Const(k as i64)]);
                }
                r
            },
        };
        proof {
            if wf(a) {
                if a is Product {
                    assert(wf(RandValue::Product(a->Product_0)));
                    lemma_wf_list_push(a->Product_0@, RandValue::Const(k as i64));
                } else if a is Sum || a is Negate {
                    lemma_wf_list_singleton(a);
                    lemma_wf_list_push(seq![a], RandValue::Const(k as i64));
                    assert(seq![a].push(RandValue::Const(k as i64)) =~= seq![
                        a,
                        RandValue::Const(k as i64),
                    ]);
                }
                assert(wf(r));
            }
        }
        r
    }

    /// A die term: `times` rolls of a `faces`-sided die, summed.
    pub fn die(faces: u64, times: u64) -> (r: RandValue)
        requires
            1 <= faces <= i64::MAX as u64,
        ensures
            r == (RandValue::Die { faces, times }),
            wf(r),
    {
        RandValue::Die { faces, times }
    }

    pub fn d4() -> (r: RandValue)
        ensures
            r == (RandValue::Die { faces: 4, times: 1 }),
            wf(r),
    {
        RandValue::Die { faces: 4, times: 1 }
    }

    pub fn d6() -> (r: RandValue)
        ensures
            r == (RandValue::Die { faces: 6, times: 1 }),
            wf(r),
    {
        RandValue::Die { faces: 6, times: 1 }
    }

    pub fn d8() -> (r: RandValue)
        ensures
            r == (RandValue::Die { faces: 8, times: 1 }),
            wf(r),
    {
        RandValue::Die { faces: 8, times: 1 }
    }

    pub fn d10() -> (r: RandValue)
        ensures
            r == (RandValue::Die { faces: 10, times: 1 }),
            wf(r),
    {
        RandValue::Die { faces: 10, times: 1 }
    }

    pub fn d12() -> (r: RandValue)
        ensures
            r == (RandValue::Die { faces: 12, times: 1 }),
            wf(r),
    {
        RandValue::Die { faces: 12, times: 1 }
    }

    pub fn d20() -> (r: RandValue)
        ensures
            r == (RandValue::Die { faces: 20, times: 1 }),
            wf(r),
    {
        RandValue::Die { faces: 20, times: 1 }
    }

    pub fn d100() -> (r: RandValue)
        ensures
            r == (RandValue::Die { faces: 100, times: 1 }),
            wf(r),
    {
        RandValue::Die { faces: 100, times: 1 }
    }

    /// The flat check: a single unmodified 20-sided roll.
    pub fn flat_check() -> (r: RandValue)
        ensures
            r == (RandValue::Die { faces: 20, times: 1 }),
            wf(r),
    {
        RandValue::Die { faces: 20, times: 1 }
    }
}

/// The flat check expression, for use in specifications.
pub open spec fn flat_check_spec() -> RandValue {
    RandValue::Die { faces: 20, times: 1 }
}


// ---------------------------------------------------------------------------
// Laws of the dice algebra
// ---------------------------------------------------------------------------

/// Repeatability: evaluation under a scripted source is a mathematical
/// function of the expression and the source state alone, so two sources
/// holding the same script at the same position yield the same value and
/// leave the same position behind.
pub proof fn lemma_eval_repeatable(
    e: RandValue,
    vals1: Seq<u64>,
    pos1: nat,
    vals2: Seq<u64>,
    pos2: nat,
)
    requires
        vals1 == vals2,
        pos1 == pos2,
    ensures
        sim(e, vals1, pos1) == sim(e, vals2, pos2),
{
}

/// The number of draws evaluation consumes is a function of the expression
/// alone: with enough script left, the position advances by exactly
/// `draw_count(e)`.
pub proof fn lemma_sim_draw_count(e: RandValue, vals: Seq<u64>, pos: nat)
    requires
        pos + draw_count(e) <= vals.len(),
    ensures
        sim(e, vals, pos).1 == pos + draw_count(e),
    decreases e,
{
    match e {
        RandValue::Const(_) => {},
        RandValue::Sum(v) => {
            lemma_sim_list_draw_count(v@, vals, pos, 0, false);
        },
        RandValue::Product(v) => {
            lemma_sim_list_draw_count(v@, vals, pos, 1, true);
        },
        RandValue::Negate(x) => {
            lemma_sim_draw_count(*x, vals, pos);
        },
        RandValue::Die { faces, times } => {
            lemma_sim_die_draw_count(faces, times as nat, vals, pos, 0);
        },
    }
}

proof fn lemma_sim_list_draw_count(
    es: Seq<RandValue>,
    vals: Seq<u64>,
    pos: nat,
    acc: int,
    prod: bool,
)
    requires
        pos + draw_count_list(es) <= vals.len(),
    ensures
        sim_list(es, vals, pos, acc, prod).1 == pos + draw_count_list(es),
    decreases es,
{
    if es.len() != 0 {
        lemma_sim_draw_count(es[0], vals, pos);
        let head = sim(es[0], vals, pos);
        let acc2 = if prod {
            sat_mul_spec(acc, head.0)
        } else {
            sat_add_spec(acc, head.0)
        };
        lemma_sim_list_draw_count(es.drop_first(), vals, head.1, acc2, prod);
    }
}

proof fn lemma_sim_die_draw_count(faces: u64, times: nat, vals: Seq<u64>, pos: nat, acc: int)
    requires
        pos + times <= vals.len(),
    ensures
        sim_die(faces, times, vals, pos, acc).1 == pos + times,
    decreases times,
{
    if times != 0 {
        lemma_sim_die_draw_count(
            faces,
            (times - 1) as nat,
            vals,
            script_next(vals, pos),
            sat_add_spec(acc, script_draw(vals, pos, faces) as int),
        );
    }
}

/// Scaling a die term by a factor `k` multiplies the repetition count, and
/// with it the number of draws one evaluation consumes, by exactly `k` --
/// the count form of "scaling equals summing k independent copies".
pub proof fn lemma_scale_die_draw_count(faces: u64, times: u64, k: u64)
    requires
        1 <= k,
        times as int * k as int <= u64::MAX as int,
    ensures
        draw_count(
            RandValue::Die { faces, times: (times as int * k as int) as u64 },
        ) == k as nat * draw_count(RandValue::Die { faces, times }),
{
    assert(times as int * k as int == k as int * times as int) by (nonlinear_arith);
}

/// Flattening: combining two expressions by addition produces the union of
/// their operand multisets, whichever side holds the sum.
pub proof fn lemma_plus_flattens(a: RandValue, b: RandValue)
    ensures
        plus_operands(a, b).to_multiset() == operands(a).to_multiset().add(
            operands(b).to_multiset(),
        ),
{
    broadcast use vstd::seq_lib::group_to_multiset_ensures;
    broadcast use vstd::multiset::group_multiset_axioms;

    if !(a is Sum) && b is Sum {
        assert(Seq::<RandValue>::empty().push(a) =~= seq![a]);
        assert(Seq::<RandValue>::empty().to_multiset() =~= Multiset::<RandValue>::empty());
        assert(seq![a].to_multiset() =~= Multiset::<RandValue>::empty().insert(a));
        assert(plus_operands(a, b).to_multiset() =~= operands(a).to_multiset().add(
            operands(b).to_multiset(),
        ));
    } else {
        vstd::seq_lib::lemma_multiset_commutative(operands(a), operands(b));
    }
}

/// Associativity of flattening: `(a + b) + c` and `a + (b + c)` carry the
/// same multiset of operands, and when none of the three is itself a sum,
/// that multiset is exactly the one of the single combined sum `[a, b, c]`.
pub proof fn lemma_plus_associative(
    a: RandValue,
    b: RandValue,
    c: RandValue,
    ab: RandValue,
    bc: RandValue,
)
    requires
        ab is Sum,
        ab->Sum_0@ == plus_operands(a, b),
        bc is Sum,
        bc->Sum_0@ == plus_operands(b, c),
    ensures
        plus_operands(ab, c).to_multiset() == plus_operands(a, bc).to_multiset(),
        !(a is Sum) && !(b is Sum) && !(c is Sum) ==> plus_operands(ab, c).to_multiset()
            == seq![a, b, c].to_multiset(),
{
    broadcast use vstd::seq_lib::group_to_multiset_ensures;
    broadcast use vstd::multiset::group_multiset_axioms;

    lemma_plus_flattens(a, b);
    lemma_plus_flattens(b, c);
    lemma_plus_flattens(ab, c);
    lemma_plus_flattens(a, bc);
    assert(operands(ab) == plus_operands(a, b));
    assert(operands(bc) == plus_operands(b, c));
    assert(plus_operands(ab, c).to_multiset() =~= plus_operands(a, bc).to_multiset());
    if !(a is Sum) && !(b is Sum) && !(c is Sum) {
        assert(seq![a, b, c] =~= Seq::<RandValue>::empty().push(a).push(b).push(c));
        assert(Seq::<RandValue>::empty().to_multiset() =~= Multiset::<RandValue>::empty());
        assert(operands(a) =~= Seq::<RandValue>::empty().push(a));
        assert(operands(b) =~= Seq::<RandValue>::empty().push(b));
        assert(operands(c) =~= Seq::<RandValue>::empty().push(c));
        assert(plus_operands(ab, c).to_multiset() =~= seq![a, b, c].to_multiset());
    }
}

} // verus!
