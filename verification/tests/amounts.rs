use transaction_processor::Amount;

const LARGEST: i128 = 79228162514264337593543950335;

fn amount(mantissa: i128, scale: u32) -> Amount {
    Amount::new(mantissa, scale).unwrap()
}

fn parts(a: Amount) -> (i128, u32) {
    (a.mantissa(), a.scale())
}

#[test]
fn amounts_have_limits() {
    assert_eq!(parts(amount(LARGEST, 28)), (LARGEST, 28));
    assert_eq!(parts(amount(-LARGEST, 0)), (-LARGEST, 0));
    assert!(Amount::new(LARGEST + 1, 0).is_none());
    assert!(Amount::new(-LARGEST - 1, 0).is_none());
    assert!(Amount::new(0, 29).is_none());
    assert!(Amount::new(i128::MIN, 0).is_none());
    assert_eq!(parts(Amount::zero()), (0, 0));
}

#[test]
fn sums_take_the_larger_number_of_places() {
    let sum = amount(15, 1).checked_add(amount(250, 2)).unwrap();
    assert_eq!(parts(sum), (400, 2));
    let difference = amount(15, 1).checked_sub(amount(250, 2)).unwrap();
    assert_eq!(parts(difference), (-100, 2));
}

#[test]
fn zero_is_neutral_and_keeps_the_places_of_the_other_operand() {
    assert_eq!(parts(amount(0, 5).checked_add(amount(7, 2)).unwrap()), (7, 2));
    assert_eq!(parts(amount(7, 2).checked_add(amount(0, 5)).unwrap()), (7, 2));
    assert_eq!(parts(amount(0, 5).checked_sub(amount(7, 2)).unwrap()), (-7, 2));
    assert_eq!(parts(amount(7, 2).checked_sub(amount(0, 5)).unwrap()), (7, 2));
    assert_eq!(parts(amount(0, 3).checked_add(amount(0, 1)).unwrap()), (0, 1));
}

#[test]
fn a_difference_of_nothing_keeps_its_places() {
    assert_eq!(parts(amount(250, 2).checked_sub(amount(25, 1)).unwrap()), (0, 2));
}

#[test]
fn sums_that_do_not_fit_are_rounded_half_to_even() {
    // 79228162514264337593543950334 + 0.5 is half way, and the even neighbour is below it.
    let below = amount(LARGEST - 1, 0).checked_add(amount(5, 1)).unwrap();
    assert_eq!(parts(below), (LARGEST - 1, 0));
    // 79228162514264337593543950333 + 0.5 is half way, and the even neighbour is above it.
    let above = amount(LARGEST - 2, 0).checked_add(amount(5, 1)).unwrap();
    assert_eq!(parts(above), (LARGEST - 1, 0));
    let down = amount(LARGEST, 0).checked_add(amount(4, 1)).unwrap();
    assert_eq!(parts(down), (LARGEST, 0));
    let negative = amount(-LARGEST + 2, 0).checked_sub(amount(5, 1)).unwrap();
    assert_eq!(parts(negative), (-LARGEST + 1, 0));
}

#[test]
fn sums_that_do_not_fit_keep_as_many_places_as_they_can() {
    let sum = amount(LARGEST, 1).checked_add(amount(12345, 4)).unwrap();
    // 7922816251426433759354395033.5 + 1.2345 = 7922816251426433759354395034.7345
    assert_eq!(parts(sum), (7922816251426433759354395035, 0));
    let carried = amount(LARGEST, 1).checked_add(amount(4, 2)).unwrap();
    assert_eq!(parts(carried), (LARGEST, 1));
}

#[test]
fn sums_out_of_range_are_refused() {
    assert!(amount(LARGEST, 0).checked_add(amount(1, 0)).is_none());
    assert!(amount(LARGEST, 0).checked_add(amount(5, 1)).is_none());
    assert!(amount(-LARGEST, 0).checked_sub(amount(1, 0)).is_none());
    assert!(amount(LARGEST, 0).checked_sub(amount(-1, 0)).is_none());
    assert_eq!(parts(amount(LARGEST, 0).checked_sub(amount(1, 0)).unwrap()), (LARGEST - 1, 0));
}

#[test]
fn comparison_is_by_value() {
    assert!(amount(15, 1) == amount(1500, 3));
    assert!(amount(0, 0) == amount(0, 28));
    assert!(amount(15, 1) != amount(-15, 1));
    assert!(amount(149, 2).is_less_than(amount(15, 1)));
    assert!(!amount(150, 2).is_less_than(amount(15, 1)));
    assert!(!amount(16, 1).is_less_than(amount(15, 1)));
    assert!(amount(-1, 28).is_less_than(Amount::zero()));
    assert!(!amount(0, 28).is_less_than(Amount::zero()));
}

#[test]
fn rounding_goes_half_to_even() {
    assert_eq!(parts(amount(123450, 5).round_dp(4)), (12345, 4));
    assert_eq!(parts(amount(25, 1).round_dp(0)), (2, 0));
    assert_eq!(parts(amount(35, 1).round_dp(0)), (4, 0));
    assert_eq!(parts(amount(-25, 1).round_dp(0)), (-2, 0));
    assert_eq!(parts(amount(-35, 1).round_dp(0)), (-4, 0));
    assert_eq!(parts(amount(2500001, 6).round_dp(0)), (3, 0));
    assert_eq!(parts(amount(25, 1).round_dp(1)), (25, 1));
    assert_eq!(parts(amount(25, 1).round_dp(40)), (25, 1));
    assert_eq!(parts(amount(LARGEST, 28).round_dp(0)), (8, 0));
}

#[test]
fn normalizing_drops_trailing_zeros() {
    assert_eq!(parts(amount(1500, 3).normalize()), (15, 1));
    assert_eq!(parts(amount(1500, 2).normalize()), (15, 0));
    assert_eq!(parts(amount(1500, 0).normalize()), (1500, 0));
    assert_eq!(parts(amount(-1050, 2).normalize()), (-105, 1));
    assert_eq!(parts(amount(0, 9).normalize()), (0, 0));
}

#[test]
fn texts_show_every_place() {
    assert_eq!(amount(1500, 3).text(), "1.500");
    assert_eq!(amount(-5, 4).text(), "-0.0005");
    assert_eq!(amount(42, 0).text(), "42");
    assert_eq!(amount(0, 2).text(), "0.00");
    assert_eq!(amount(-LARGEST, 28).text(), "-7.9228162514264337593543950335");
    assert_eq!(amount(LARGEST, 0).text(), "79228162514264337593543950335");
}
