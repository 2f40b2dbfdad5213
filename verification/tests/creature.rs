use combat_core::creature::ability::{Abilities, AbilityMods, AbilityScores};
use combat_core::creature::alignment::{Alignment, GoodEvil, LawChaos};
use combat_core::creature::damage::{Damage, DamageType};
use combat_core::creature::health::Health;
use combat_core::creature::size::Size;
use combat_core::rng::{RandState, RandValue};
use combat_core::world::space::{Feet, Squares};
use combat_core::world::time::{Round, Rounds};

#[test]
fn temp_hp_absorbs_before_the_pool() {
    let mut h = Health { hp: 10, max_hp: 10, temp_hp: 3 };
    h.take_damage(5);
    assert_eq!(h, Health { hp: 8, max_hp: 10, temp_hp: 0 });
}

#[test]
fn small_damage_only_dents_temp_hp() {
    let mut h = Health { hp: 10, max_hp: 10, temp_hp: 3 };
    h.take_damage(2);
    assert_eq!(h, Health { hp: 10, max_hp: 10, temp_hp: 1 });
}

#[test]
fn damage_floors_at_zero() {
    let mut h = Health { hp: 4, max_hp: 10, temp_hp: 0 };
    h.take_damage(100);
    assert_eq!(h.hp, 0);
    assert!(h.is_down());
}

#[test]
fn healing_clamps_at_the_maximum() {
    let mut h = Health { hp: 6, max_hp: 10, temp_hp: 0 };
    h.take_healing(2);
    assert_eq!(h.hp, 8);
    h.take_healing(50);
    assert_eq!(h.hp, 10);
}

#[test]
fn temp_hp_grants_do_not_stack() {
    let mut h = Health { hp: 5, max_hp: 10, temp_hp: 4 };
    h.take_temp_hp(2);
    assert_eq!(h.temp_hp, 4);
    h.take_temp_hp(7);
    assert_eq!(h.temp_hp, 7);
}

#[test]
fn down_needs_both_pools_empty() {
    assert!(Health { hp: 0, max_hp: 10, temp_hp: 0 }.is_down());
    assert!(!Health { hp: 0, max_hp: 10, temp_hp: 1 }.is_down());
    assert!(!Health { hp: 1, max_hp: 10, temp_hp: 0 }.is_down());
}

#[test]
fn pure_variants_leave_the_value_alone() {
    let h = Health { hp: 10, max_hp: 12, temp_hp: 1 };
    assert_eq!(h.damaged(3).hp, 8);
    assert_eq!(h.healed(2).hp, 12);
    assert_eq!(h.with_temp_hp(5).temp_hp, 5);
    assert_eq!(h, Health { hp: 10, max_hp: 12, temp_hp: 1 });
}

#[test]
fn alignment_opposites() {
    assert_eq!(GoodEvil::Evil.opposite(), GoodEvil::Good);
    assert_eq!(GoodEvil::Good.opposite(), GoodEvil::Evil);
    assert_eq!(GoodEvil::Neutral.opposite(), GoodEvil::Neutral);
    assert_eq!(LawChaos::Chaotic.opposite(), LawChaos::Lawful);
    assert_eq!(LawChaos::Lawful.opposite(), LawChaos::Chaotic);
    assert_eq!(LawChaos::Neutral.opposite(), LawChaos::Neutral);
}

#[test]
fn aligned_damage_affects_only_the_opposing_pole() {
    let lawful_good = Alignment { ge: GoodEvil::Good, lc: LawChaos::Lawful };
    let chaotic_evil = Alignment { ge: GoodEvil::Evil, lc: LawChaos::Chaotic };
    assert!(DamageType::Evil.affects_align(lawful_good));
    assert!(!DamageType::Evil.affects_align(chaotic_evil));
    assert!(DamageType::Good.affects_align(chaotic_evil));
    assert!(DamageType::Chaotic.affects_align(lawful_good));
    assert!(DamageType::Lawful.affects_align(chaotic_evil));
    // Non-aligned damage never consults alignment.
    assert!(!DamageType::Fire.affects_align(lawful_good));
    assert!(!DamageType::Mental.affects_align(chaotic_evil));
}

#[test]
fn ability_modifiers_round_toward_zero() {
    let scores = AbilityScores(Abilities { _str: 18, _dex: 7, _con: 10, _int: 9, _wis: 11, _cha: 8 });
    let mods = AbilityMods::from(scores);
    assert_eq!(mods.0._str, 4);
    assert_eq!(mods.0._dex, -1);
    assert_eq!(mods.0._con, 0);
    assert_eq!(mods.0._int, 0);
    assert_eq!(mods.0._wis, 0);
    assert_eq!(mods.0._cha, -1);
}

#[test]
fn sizes_occupy_their_squares() {
    assert_eq!(Size::Tiny.space(), Squares(0));
    assert_eq!(Size::Small.space(), Squares(1));
    assert_eq!(Size::Medium.space(), Squares(1));
    assert_eq!(Size::Large.space(), Squares(2));
    assert_eq!(Size::Huge.space(), Squares(3));
    assert_eq!(Size::Gargantuan.space(), Squares(4));
}

#[test]
fn squares_and_feet_convert_at_five_to_one() {
    assert_eq!(Feet::from(Squares(3)), Feet(15));
    assert_eq!(Squares::from(Feet(15)), Squares(3));
    assert_eq!(Squares::from(Feet(14)), Squares(2));
}

#[test]
fn rounds_advance() {
    assert_eq!(Round(4).after(Rounds(3)), Round(7));
}

#[test]
fn damage_eval_floors_each_component_at_zero() {
    let d = Damage {
        tp: DamageType::Cold,
        magical: true,
        amount: RandValue::Const(-5),
        prec_amount: Some(RandValue::Const(3)),
    };
    let mut rng = RandState::scripted(vec![]);
    let out = d.eval(&mut rng);
    assert_eq!(out.amount, 0);
    assert_eq!(out.prec_amount, 3);
    assert_eq!(out.tp, DamageType::Cold);
    assert!(out.magical);
}

#[test]
fn damage_eval_rolls_base_before_precision() {
    let d = Damage {
        tp: DamageType::Piercing,
        magical: false,
        amount: RandValue::die(6, 1),
        prec_amount: Some(RandValue::die(6, 1)),
    };
    let mut rng = RandState::scripted(vec![2, 5]);
    let out = d.eval(&mut rng);
    assert_eq!(out.amount, 2);
    assert_eq!(out.prec_amount, 5);
}

#[test]
fn missing_precision_evaluates_to_zero() {
    let d = Damage {
        tp: DamageType::Piercing,
        magical: false,
        amount: RandValue::Const(4),
        prec_amount: None,
    };
    let mut rng = RandState::scripted(vec![]);
    assert_eq!(d.eval(&mut rng).prec_amount, 0);
}
