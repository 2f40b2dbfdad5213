use combat_core::creature::damage::{Damage, DamageType};
use combat_core::creature::status::{DmgRef, Effect, Status};
use combat_core::creature::CID;
use combat_core::rng::{RandState, RandValue};
use combat_core::world::time::Round;

fn empty_rng() -> RandState {
    RandState::scripted(vec![])
}

fn burning(id: u64, amount: i64) -> Effect {
    Effect::PersistentDamage {
        dmg: DmgRef {
            id,
            dmg: Damage {
                tp: DamageType::Fire,
                magical: false,
                amount: RandValue::Const(amount),
                prec_amount: None,
            },
        },
    }
}

#[test]
fn frightened_decays_each_turn_end() {
    // Frightened 3 reads 3, 2, 1, then is absent.
    let mut st = Status::new();
    st.add_effect(Effect::Frightened { level: 3 });
    assert_eq!(st.before_turn().frightened, 3);
    assert!(st.after_turn(Round(0), &mut empty_rng()).is_none());
    assert_eq!(st.before_turn().frightened, 2);
    assert!(st.after_turn(Round(1), &mut empty_rng()).is_none());
    assert_eq!(st.before_turn().frightened, 1);
    assert!(st.after_turn(Round(2), &mut empty_rng()).is_none());
    assert_eq!(st.before_turn().frightened, 0);
}

#[test]
fn frightened_penalizes_checks_and_dcs() {
    let mut st = Status::new();
    st.add_effect(Effect::Frightened { level: 2 });
    let cur = st.current();
    assert_eq!(cur.check_mod, -2);
    assert_eq!(cur.dc_mod, -2);
    assert_eq!(cur.save_mod, 0);
}

#[test]
fn dying_threshold_lowered_by_doom() {
    // Dying 4 alone kills; dying 3 with doomed 1 kills; dying 3 alone does not.
    let mut a = Status::new();
    a.add_effect(Effect::Dying { level: 4 });
    assert!(a.current().dead);

    let mut b = Status::new();
    b.add_effect(Effect::Dying { level: 3 });
    b.add_effect(Effect::Doomed { level: 1 });
    assert!(b.current().dead);

    let mut c = Status::new();
    c.add_effect(Effect::Dying { level: 3 });
    assert!(!c.current().dead);
}

#[test]
fn stun_consumes_actions_transiently() {
    // Stunned 2 against 3 base actions leaves 1, and a second call in
    // the same turn must not consume again.
    let mut st = Status::new();
    st.add_effect(Effect::Stunned { level: 2 });
    assert_eq!(st.before_turn().actions_gained, 1);
    assert_eq!(st.before_turn().actions_gained, 1);
    // The stored severity is untouched by the snapshot.
    assert_eq!(st.current().stunned, 2);
}

#[test]
fn stun_beyond_actions_leaves_none() {
    let mut st = Status::new();
    st.add_effect(Effect::Stunned { level: 5 });
    let cur = st.before_turn();
    assert_eq!(cur.actions_gained, 0);
    assert_eq!(cur.stunned, 2);
}

#[test]
fn persistent_damage_emits_while_check_fails_to_end_it() {
    // A flat check rigged at or above 15 keeps the effect forever.
    let mut st = Status::new();
    st.add_effect(burning(1, 5));
    let mut rng = RandState::scripted(vec![20, 20, 20, 20]);
    for round in 0..4 {
        let out = st.after_turn(Round(round), &mut rng).expect("damage fires");
        assert_eq!(out.len(), 1);
        assert_eq!(out[0].amount, 5);
        assert_eq!(out[0].prec_amount, 0);
        assert_eq!(out[0].tp, DamageType::Fire);
    }
}

#[test]
fn persistent_damage_ends_on_a_low_flat_check() {
    // Rigged below 15 it fires once and is gone.
    let mut st = Status::new();
    st.add_effect(burning(1, 5));
    let mut rng = RandState::scripted(vec![1]);
    let out = st.after_turn(Round(0), &mut rng).expect("fires once");
    assert_eq!(out.len(), 1);
    assert_eq!(out[0].amount, 5);
    assert!(st.after_turn(Round(1), &mut empty_rng()).is_none());
}

#[test]
fn two_burning_effects_are_distinct_entries() {
    // Identity, not content, keys persistent damage: same expression under
    // two identifiers stays two entries.
    let mut st = Status::new();
    st.add_effect(burning(1, 5));
    st.add_effect(burning(2, 5));
    let mut rng = RandState::scripted(vec![20, 20]);
    let out = st.after_turn(Round(0), &mut rng).expect("both fire");
    assert_eq!(out.len(), 2);
}

#[test]
fn same_identity_replaces_the_entry() {
    let mut st = Status::new();
    st.add_effect(burning(1, 5));
    st.add_effect(burning(1, 7));
    let mut rng = RandState::scripted(vec![20]);
    let out = st.after_turn(Round(0), &mut rng).expect("one entry");
    assert_eq!(out.len(), 1);
    assert_eq!(out[0].amount, 7);
}

#[test]
fn timed_conditions_expire_at_their_round() {
    let mut st = Status::new();
    st.add_effect(Effect::Prone { until: Some(Round(3)) });
    assert!(st.current().prone);
    st.after_turn(Round(2), &mut empty_rng());
    assert!(st.current().prone);
    st.after_turn(Round(3), &mut empty_rng());
    assert!(!st.current().prone);
}

#[test]
fn untimed_conditions_never_expire() {
    let mut st = Status::new();
    st.add_effect(Effect::Blinded { until: None });
    for round in 0..5 {
        st.after_turn(Round(round), &mut empty_rng());
    }
    assert!(st.current().blinded);
}

#[test]
fn demoralize_immunity_marker_expires() {
    let mut st = Status::new();
    st.add_effect(Effect::DemoralizedImmune { to: CID(9), until: Round(2) });
    st.after_turn(Round(1), &mut empty_rng());
    st.after_turn(Round(2), &mut empty_rng());
    // Expired markers no longer occupy the set; nothing observable remains.
    assert_eq!(st.current(), Status::new().current());
}

#[test]
fn unconscious_implies_prone_flat_footed_blinded() {
    let mut st = Status::new();
    st.add_effect(Effect::Unconscious { until: None });
    let cur = st.current();
    assert!(cur.unconscious && cur.prone && cur.flat_footed && cur.blinded);
    assert_eq!(cur.ac_mod, -2);
}

#[test]
fn restraint_family_implies_immobilized_and_flat_footed() {
    for eff in [
        Effect::Immobilized { until: None },
        Effect::Restrained { until: None },
        Effect::Grappled { holder: CID(3) },
    ] {
        let mut st = Status::new();
        st.add_effect(eff);
        let cur = st.current();
        assert!(cur.immobilized && cur.flat_footed);
        assert!(!cur.paralyzed);
    }
}

#[test]
fn paralysis_implies_immobilized_and_flat_footed() {
    let mut st = Status::new();
    st.add_effect(Effect::Paralyzed { until: None });
    let cur = st.current();
    assert!(cur.immobilized && cur.paralyzed && cur.flat_footed);
}

#[test]
fn slowed_reduces_actions() {
    let mut st = Status::new();
    st.add_effect(Effect::Slowed { level: 1 });
    assert_eq!(st.current().actions_gained, 2);
    let mut heavy = Status::new();
    heavy.add_effect(Effect::Slowed { level: 5 });
    assert_eq!(heavy.current().actions_gained, 0);
}

#[test]
fn speed_multiplier_stays_neutral() {
    let mut st = Status::new();
    st.add_effect(Effect::Slowed { level: 2 });
    assert_eq!(st.current().speed_mod, combat_core::creature::status::SPEED_NEUTRAL);
}

#[test]
fn leveled_effects_merge_rather_than_duplicate() {
    let mut st = Status::new();
    st.add_effect(Effect::Frightened { level: 2 });
    st.add_effect(Effect::Frightened { level: 3 });
    assert_eq!(st.current().frightened, 5);
}

#[test]
fn sickened_and_wounded_accumulate_separately() {
    let mut st = Status::new();
    st.add_effect(Effect::Sickened { level: 2 });
    st.add_effect(Effect::Wounded { level: 1 });
    st.add_effect(Effect::Dying { level: 1 });
    let cur = st.current();
    assert_eq!(cur.sickened, 2);
    assert_eq!(cur.wounded, 1);
    assert_eq!(cur.dying, 1);
    assert!(!cur.dead);
}

#[test]
fn persistent_damage_rolls_its_expression_each_turn() {
    // The wrapped expression is evaluated against the shared source before
    // the flat check is rolled.
    let mut st = Status::new();
    st.add_effect(Effect::PersistentDamage {
        dmg: DmgRef {
            id: 1,
            dmg: Damage {
                tp: DamageType::Acid,
                magical: true,
                amount: RandValue::die(6, 1),
                prec_amount: None,
            },
        },
    });
    // First draw feeds the d6 (4), second the flat check (18: kept).
    let mut rng = RandState::scripted(vec![4, 18, 2, 9]);
    let first = st.after_turn(Round(0), &mut rng).expect("fires");
    assert_eq!(first[0].amount, 4);
    // Next turn: d6 rolls 2, flat check 9 (< 15) removes the effect.
    let second = st.after_turn(Round(1), &mut rng).expect("fires again");
    assert_eq!(second[0].amount, 2);
    assert!(st.after_turn(Round(2), &mut empty_rng()).is_none());
}
