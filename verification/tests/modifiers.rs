use combat_core::creature::damage::{
    DamageKind, DamageResult, DamageType, ModTest, Modifiers, Spec,
};

fn fire(base: u64, prec: u64, magical: bool) -> DamageResult {
    DamageResult { tp: DamageType::Fire, magical, amount: base, prec_amount: prec }
}

#[test]
fn kind_mapping_is_total() {
    assert_eq!(DamageType::Slashing.kind(), DamageKind::Physical);
    assert_eq!(DamageType::Bleed.kind(), DamageKind::Physical);
    assert_eq!(DamageType::Fire.kind(), DamageKind::Energy);
    assert_eq!(DamageType::Sonic.kind(), DamageKind::Energy);
    assert_eq!(DamageType::Evil.kind(), DamageKind::Aligned);
    assert_eq!(DamageType::Mental.kind(), DamageKind::Mental);
    assert_eq!(DamageType::Poison.kind(), DamageKind::Poison);
}

#[test]
fn immunity_to_all_negates_everything() {
    // Immunity to All negates any type and any precision amount.
    let mut m = Modifiers::new();
    m.add_immunity(Spec::All);
    assert_eq!(m.apply(fire(10, 5, true)), None);
    assert_eq!(
        m.apply(DamageResult {
            tp: DamageType::Mental,
            magical: false,
            amount: 3,
            prec_amount: 0,
        }),
        None
    );
}

#[test]
fn resistances_across_axes_are_additive() {
    // Type(Fire) 3 and Kind(Energy) 2 both apply to magical fire 10.
    let mut m = Modifiers::new();
    m.add_resistance(Spec::Type(DamageType::Fire), 3);
    m.add_resistance(Spec::Kind(DamageKind::Energy), 2);
    let out = m.apply(fire(10, 0, true)).expect("damage must get through");
    assert_eq!(out.amount, 5);
    assert_eq!(out.prec_amount, 0);
    assert_eq!(out.tp, DamageType::Fire);
    assert!(out.magical);
}

#[test]
fn precision_weakness_folds_into_base() {
    // Precision 3 plus weakness 4 is 7, folded onto base 2 for 9.
    let mut m = Modifiers::new();
    m.add_weakness(Spec::Precision, 4);
    let out = m.apply(fire(2, 3, true)).expect("damage must get through");
    assert_eq!(out.amount, 9);
    assert_eq!(out.prec_amount, 0);
}

#[test]
fn precision_immunity_zeroes_the_component() {
    let mut m = Modifiers::new();
    m.add_immunity(Spec::Precision);
    let out = m.apply(fire(2, 30, true)).expect("base damage still applies");
    assert_eq!(out.amount, 2);
    assert_eq!(out.prec_amount, 0);
}

#[test]
fn precision_resistance_cannot_go_negative() {
    let mut m = Modifiers::new();
    m.add_resistance(Spec::Precision, 10);
    let out = m.apply(fire(6, 3, true)).expect("base damage still applies");
    assert_eq!(out.amount, 6);
}

#[test]
fn resistance_absorbing_everything_returns_nothing() {
    // Absorbed-to-zero, as opposed to immunity: the other "nothing" case.
    let mut m = Modifiers::new();
    m.add_resistance(Spec::Type(DamageType::Fire), 20);
    assert_eq!(m.apply(fire(10, 0, true)), None);
}

#[test]
fn non_magical_axis_probed_only_for_non_magical_damage() {
    let mut m = Modifiers::new();
    m.add_resistance(Spec::NonMagical, 4);
    let magical = m.apply(fire(10, 0, true)).expect("unaffected");
    assert_eq!(magical.amount, 10);
    let mundane = m.apply(fire(10, 0, false)).expect("reduced");
    assert_eq!(mundane.amount, 6);

    let mut imm = Modifiers::new();
    imm.add_immunity(Spec::NonMagical);
    assert!(imm.apply(fire(10, 0, true)).is_some());
    assert_eq!(imm.apply(fire(10, 0, false)), None);
}

#[test]
fn weaknesses_are_additive_too() {
    let mut m = Modifiers::new();
    m.add_weakness(Spec::Type(DamageType::Fire), 3);
    m.add_weakness(Spec::All, 2);
    let out = m.apply(fire(10, 0, true)).expect("increased");
    assert_eq!(out.amount, 15);
}

#[test]
fn probe_reports_registered_values() {
    let mut m = Modifiers::new();
    m.add_resistance(Spec::Type(DamageType::Cold), 7);
    m.add_weakness(Spec::Type(DamageType::Cold), 2);
    m.add_immunity(Spec::Type(DamageType::Poison));
    let t: ModTest = m.test(Spec::Type(DamageType::Cold));
    assert_eq!(t.resistance, Some(7));
    assert_eq!(t.weakness, Some(2));
    assert!(!t.immunity);
    let u = m.test(Spec::Type(DamageType::Poison));
    assert_eq!(u.resistance, None);
    assert!(u.immunity);
}

#[test]
fn registering_twice_overwrites() {
    let mut m = Modifiers::new();
    m.add_resistance(Spec::All, 1);
    m.add_resistance(Spec::All, 6);
    let out = m.apply(fire(10, 0, true)).expect("reduced once");
    assert_eq!(out.amount, 4);
}
