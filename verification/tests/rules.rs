use cell_automata::automatons::{CellState, Gol, Seeds, BB};
use cell_automata::color::{gray, red, white, Color};

#[test]
fn colors_of_states() {
    let white = Color { r: 255, g: 255, b: 255, a: 255 };
    let gray = Color { r: 128, g: 128, b: 128, a: 255 };
    let red = Color { r: 255, g: 0, b: 0, a: 255 };
    assert_eq!(Gol::White.color(), white);
    assert_eq!(Gol::Gray.color(), gray);
    assert_eq!(Seeds::White.color(), white);
    assert_eq!(Seeds::Gray.color(), gray);
    assert_eq!(BB::White.color(), white);
    assert_eq!(BB::Gray.color(), gray);
    assert_eq!(BB::Red.color(), red);
}

#[test]
fn named_colors() {
    assert_eq!(white(), Color { r: 255, g: 255, b: 255, a: 255 });
    assert_eq!(gray(), Color { r: 128, g: 128, b: 128, a: 255 });
    assert_eq!(red(), Color { r: 255, g: 0, b: 0, a: 255 });
}

#[test]
fn toggle_cycles_through_every_state() {
    assert_eq!(Gol::White.toggle(), Gol::Gray);
    assert_eq!(Gol::Gray.toggle(), Gol::White);
    assert_eq!(Seeds::White.toggle(), Seeds::Gray);
    assert_eq!(Seeds::Gray.toggle(), Seeds::White);
    assert_eq!(BB::White.toggle(), BB::Gray);
    assert_eq!(BB::Gray.toggle(), BB::Red);
    assert_eq!(BB::Red.toggle(), BB::White);
    assert_eq!(BB::White.toggle().toggle().toggle(), BB::White);
}

#[test]
fn place_mode_is_the_toggled_state() {
    assert_eq!(Gol::White.place_mode(), Gol::Gray);
    assert_eq!(Gol::Gray.place_mode(), Gol::White);
    assert_eq!(Seeds::White.place_mode(), Seeds::Gray);
    assert_eq!(BB::Gray.place_mode(), BB::Red);
}

#[test]
fn seed_is_zero() {
    assert_eq!(Gol::Gray.seed(), 0);
    assert_eq!(Seeds::White.seed(), 0);
    assert_eq!(BB::Red.seed(), 0);
}

#[test]
fn family_sizes() {
    assert_eq!(Gol::num(), 2);
    assert_eq!(Seeds::num(), 2);
    assert_eq!(BB::num(), 3);
}

#[test]
fn ordinals_and_states_correspond() {
    assert_eq!(Gol::from_ordinal(0), Gol::White);
    assert_eq!(Gol::from_ordinal(1), Gol::Gray);
    assert_eq!(Seeds::from_ordinal(0), Seeds::White);
    assert_eq!(Seeds::from_ordinal(1), Seeds::Gray);
    assert_eq!(BB::from_ordinal(0), BB::White);
    assert_eq!(BB::from_ordinal(1), BB::Red);
    assert_eq!(BB::from_ordinal(2), BB::Gray);
    for n in 0..Gol::num() {
        assert_eq!(Gol::from_ordinal(n).ordinal(), n);
    }
    for n in 0..Seeds::num() {
        assert_eq!(Seeds::from_ordinal(n).ordinal(), n);
    }
    for n in 0..BB::num() {
        assert_eq!(BB::from_ordinal(n).ordinal(), n);
    }
}

#[test]
fn defaults_are_the_zero_ordinal_states() {
    assert_eq!(Gol::default(), Gol::White);
    assert_eq!(Seeds::default(), Seeds::White);
    assert_eq!(BB::default(), BB::White);
    assert_eq!(Gol::default().ordinal(), 0);
    assert_eq!(Seeds::default().ordinal(), 0);
    assert_eq!(BB::default().ordinal(), 0);
}

#[test]
fn life_transition_table() {
    assert_eq!(Gol::White.transition(&[6, 2, 1]), Gol::Gray);
    assert_eq!(Gol::White.transition(&[5, 3, 1]), Gol::Gray);
    assert_eq!(Gol::White.transition(&[5, 3, 0]), Gol::Gray);
    assert_eq!(Gol::Gray.transition(&[6, 2, 0]), Gol::White);
    assert_eq!(Gol::Gray.transition(&[4, 4, 1]), Gol::White);
    assert_eq!(Gol::Gray.transition(&[7, 1, 1]), Gol::White);
    assert_eq!(Gol::Gray.transition(&[8, 0, 0]), Gol::White);
    assert_eq!(Gol::Gray.transition(&[0, 8, 1]), Gol::White);
}

#[test]
fn life_transition_ignores_the_receiver() {
    assert_eq!(Gol::White.transition(&[6, 2, 1]), Gol::Gray.transition(&[6, 2, 1]));
    assert_eq!(Gol::White.transition(&[6, 2, 0]), Gol::Gray.transition(&[6, 2, 0]));
}

#[test]
fn seeds_transition_table() {
    assert_eq!(Seeds::White.transition(&[6, 2, 0]), Seeds::Gray);
    assert_eq!(Seeds::White.transition(&[6, 2, 1]), Seeds::Gray);
    assert_eq!(Seeds::Gray.transition(&[5, 3, 0]), Seeds::White);
    assert_eq!(Seeds::Gray.transition(&[7, 1, 1]), Seeds::White);
    assert_eq!(Seeds::Gray.transition(&[8, 0, 1]), Seeds::White);
}

#[test]
fn brain_transition_table() {
    assert_eq!(BB::White.transition(&[6, 0, 2, 0]), BB::Gray);
    assert_eq!(BB::White.transition(&[5, 1, 2, 0]), BB::Gray);
    assert_eq!(BB::White.transition(&[6, 0, 2, 2]), BB::Red);
    assert_eq!(BB::White.transition(&[8, 0, 0, 2]), BB::Red);
    assert_eq!(BB::White.transition(&[6, 0, 2, 1]), BB::White);
    assert_eq!(BB::White.transition(&[8, 0, 0, 1]), BB::White);
    assert_eq!(BB::White.transition(&[8, 0, 0, 0]), BB::White);
    assert_eq!(BB::White.transition(&[5, 0, 3, 0]), BB::White);
    assert_eq!(BB::White.transition(&[6, 2, 0, 0]), BB::White);
}
