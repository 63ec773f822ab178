use snake::units::{ceil_div, round_cell, trunc_cell};

#[test]
fn rounding_halves_away_from_zero() {
    assert_eq!(round_cell(2700, 600), 5);
    assert_eq!(round_cell(2699, 600), 4);
    assert_eq!(round_cell(2400, 600), 4);
    assert_eq!(round_cell(-2700, 600), -5);
    assert_eq!(round_cell(-2699, 600), -4);
    assert_eq!(round_cell(0, 600), 0);
}

#[test]
fn truncation_drops_the_fraction_toward_zero() {
    assert_eq!(trunc_cell(2999, 600), 4);
    assert_eq!(trunc_cell(3000, 600), 5);
    assert_eq!(trunc_cell(-2999, 600), -4);
    assert_eq!(trunc_cell(599, 600), 0);
}

#[test]
fn ceiling_division() {
    assert_eq!(ceil_div(600, 600), 1);
    assert_eq!(ceil_div(600, 250), 3);
    assert_eq!(ceil_div(1, 600), 1);
    assert_eq!(ceil_div(600, 1), 600);
}
