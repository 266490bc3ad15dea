use prediction_market::pricing::div_round_up;
use prediction_market::{Outcome, YesNoValues};
use std::collections::HashSet;

#[test]
fn complement_swaps_the_outcomes() {
    assert_eq!(Outcome::Yes.complement(), Outcome::No);
    assert_eq!(Outcome::No.complement(), Outcome::Yes);
}

#[test]
fn complement_is_an_involution() {
    for outcome in [Outcome::Yes, Outcome::No] {
        assert_eq!(outcome.complement().complement(), outcome);
        assert_ne!(outcome.complement(), outcome);
    }
}

#[test]
fn minus_is_the_complement() {
    assert_eq!(-Outcome::Yes, Outcome::No);
    assert_eq!(-Outcome::No, Outcome::Yes);
    assert_eq!(-(-Outcome::Yes), Outcome::Yes);
    assert_eq!(-(-Outcome::No), Outcome::No);
}

#[test]
fn new_stores_both_values() {
    let pair = YesNoValues::new(3, 2);

    assert_eq!(pair.yes, 3);
    assert_eq!(pair.no, 2);
}

#[test]
fn get_reads_the_side_asked_for() {
    let pair = YesNoValues::new("for", "against");

    assert_eq!(*pair.get(Outcome::Yes), "for");
    assert_eq!(*pair.get(Outcome::No), "against");
}

#[test]
fn set_replaces_one_side_only() {
    let mut pair = YesNoValues::new(3, 2);

    pair.set(Outcome::No, 9);
    assert_eq!(pair, YesNoValues::new(3, 9));

    pair.set(Outcome::Yes, 4);
    assert_eq!(pair, YesNoValues::new(4, 9));
}

#[test]
fn indexing_reads_and_writes_by_outcome() {
    let mut pair = YesNoValues::new(3, 2);

    assert_eq!(pair[Outcome::Yes], 3);
    assert_eq!(pair[Outcome::No], 2);

    pair[Outcome::Yes] = 10;
    pair[Outcome::No] += 5;

    assert_eq!(pair, YesNoValues::new(10, 7));
    assert_eq!(pair[-Outcome::Yes], 7);
}

#[test]
fn map_applies_the_function_to_both_sides() {
    let pair = YesNoValues::new(3u64, 2u64);

    let grown = pair.map(|side| side + 10);

    assert_eq!(grown, YesNoValues::new(13, 12));
    assert_eq!(pair, YesNoValues::new(3, 2));
}

#[test]
fn map_may_change_the_type() {
    let pair = YesNoValues::new(3u64, 20u64);

    let wide = pair.map(|side| *side >= 10);

    assert_eq!(wide, YesNoValues::new(false, true));
}

#[test]
fn div_round_up_rounds_towards_the_next_whole_number() {
    assert_eq!(div_round_up(0, 5), 0);
    assert_eq!(div_round_up(1, 5), 1);
    assert_eq!(div_round_up(5, 5), 1);
    assert_eq!(div_round_up(6, 5), 2);
    assert_eq!(div_round_up(6, 3), 2);
    assert_eq!(div_round_up(40_000, 300), 134);
    assert_eq!(div_round_up(60_000, 400), 150);
}

#[test]
fn div_round_up_at_the_ends_of_the_range() {
    assert_eq!(div_round_up(u128::MAX, 1), u128::MAX);
    assert_eq!(div_round_up(u128::MAX, 2), 1 << 127);
    assert_eq!(div_round_up(u128::MAX, u128::MAX), 1);
    assert_eq!(div_round_up(u128::MAX - 1, u128::MAX), 1);
    assert_eq!(div_round_up(7, u128::MAX), 1);
}

#[test]
fn values_can_be_cloned_printed_and_hashed() {
    let pair = YesNoValues::new(3, 2);
    assert_eq!(pair.clone(), pair);
    assert_eq!(format!("{:?}", pair), "YesNoValues { yes: 3, no: 2 }");
    assert_eq!(format!("{:?}", Outcome::Yes), "Yes");

    let mut seen = HashSet::new();
    seen.insert(Outcome::Yes);
    seen.insert(Outcome::No);
    seen.insert(Outcome::Yes.complement().complement());
    assert_eq!(seen.len(), 2);
}
