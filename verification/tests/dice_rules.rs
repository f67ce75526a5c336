use buffy_narrator::dice::{roll_d20, roll_outcome, roll_total, has_duplicate_modifiers, RollModifier};

#[test]
fn natural_critical_results_override_modifiers() {
    assert_eq!(roll_outcome(1, 20), "échec critique");
    assert_eq!(roll_outcome(20, -2), "succès légendaire");
}

#[test]
fn d20_rolls_are_always_between_one_and_twenty() {
    for _ in 0..10_000 {
        assert!((1..=20).contains(&roll_d20()));
    }
}

#[test]
fn total_selects_the_standard_outcome() {
    assert_eq!(roll_outcome(8, 5), "échec");
    assert_eq!(roll_outcome(8, 6), "succès avec complication");
    assert_eq!(roll_outcome(8, 11), "succès");
    assert_eq!(roll_outcome(8, 16), "succès critique");
}

#[test]
fn modifiers_add_to_the_natural_roll() {
    assert_eq!(roll_total(12, &vec![RollModifier::Specialty, RollModifier::Ally]), 17);
    assert_eq!(roll_total(2, &vec![RollModifier::Wounded, RollModifier::Improvised]), -3);
    assert_eq!(roll_total(7, &Vec::new()), 7);
    assert_eq!(RollModifier::Wounded.label(), "blessure/épuisement -3");
}

#[test]
fn repeated_modifiers_are_detected() {
    assert!(has_duplicate_modifiers(&vec![RollModifier::Ally, RollModifier::Ally]));
    assert!(!has_duplicate_modifiers(&vec![RollModifier::Ally, RollModifier::Improvised]));
    assert!(!has_duplicate_modifiers(&Vec::new()));
}

#[test]
fn each_label_ends_with_the_bonus_it_adds() {
    for m in [RollModifier::Specialty, RollModifier::Ally, RollModifier::Wounded, RollModifier::Improvised] {
        assert!(m.label().ends_with(&format!("{:+}", m.value())));
    }
}
