use brc20_index::amount::{
    parse_amount, parse_balance, parse_digits, render_amount, render_balance, AmountError,
};

#[test]
fn whole_amount_is_scaled_by_the_decimals() {
    assert_eq!(parse_amount("100", 0), Ok(100));
    assert_eq!(parse_amount("100", 2), Ok(10_000));
    assert_eq!(parse_amount("0", 18), Ok(0));
    assert_eq!(parse_amount("007", 1), Ok(70));
}

#[test]
fn fraction_is_padded_to_the_decimals() {
    assert_eq!(parse_amount("12.5", 2), Ok(1250));
    assert_eq!(parse_amount("12.50", 2), Ok(1250));
    assert_eq!(parse_amount("0.000000000000000001", 18), Ok(1));
    assert_eq!(parse_amount("1.000000000000000001", 18), Ok(1_000_000_000_000_000_001));
}

#[test]
fn a_digit_on_one_side_of_the_point_is_enough() {
    assert_eq!(parse_amount("12.", 2), Ok(1200));
    assert_eq!(parse_amount(".5", 2), Ok(50));
    assert_eq!(parse_amount("12.", 0), Ok(12));
}

#[test]
fn text_without_digits_is_malformed() {
    assert_eq!(parse_amount("", 2), Err(AmountError::Malformed));
    assert_eq!(parse_amount(".", 2), Err(AmountError::Malformed));
}

#[test]
fn signs_exponents_and_spaces_are_malformed() {
    assert_eq!(parse_amount("-5", 2), Err(AmountError::Malformed));
    assert_eq!(parse_amount("+5", 2), Err(AmountError::Malformed));
    assert_eq!(parse_amount("1e3", 2), Err(AmountError::Malformed));
    assert_eq!(parse_amount(" 5", 2), Err(AmountError::Malformed));
    assert_eq!(parse_amount("5 ", 2), Err(AmountError::Malformed));
    assert_eq!(parse_amount("abc", 2), Err(AmountError::Malformed));
    assert_eq!(parse_amount("１２", 2), Err(AmountError::Malformed));
}

#[test]
fn a_second_point_is_malformed_whatever_follows() {
    assert_eq!(parse_amount("1.2.3", 2), Err(AmountError::Malformed));
    assert_eq!(parse_amount("1..", 0), Err(AmountError::Malformed));
    assert_eq!(parse_amount("1.2345.6", 2), Err(AmountError::Malformed));
}

#[test]
fn too_long_a_fraction_is_reported_before_its_characters() {
    assert_eq!(parse_amount("1.234", 2), Err(AmountError::TooManyDecimals));
    assert_eq!(parse_amount("1.5", 0), Err(AmountError::TooManyDecimals));
    assert_eq!(parse_amount("1.abc", 2), Err(AmountError::TooManyDecimals));
    assert_eq!(parse_amount("1.ab", 2), Err(AmountError::Malformed));
}

#[test]
fn the_largest_amount_fits_and_the_next_does_not() {
    let max = "340282366920938463463374607431768211455";
    assert_eq!(parse_amount(max, 0), Ok(u128::MAX));
    assert_eq!(
        parse_amount("340282366920938463463374607431768211456", 0),
        Err(AmountError::Overflow)
    );
    assert_eq!(parse_amount(max, 1), Err(AmountError::Overflow));
    assert_eq!(parse_amount("1", 39), Err(AmountError::Overflow));
    assert_eq!(parse_amount("1", 38), Ok(100_000_000_000_000_000_000_000_000_000_000_000_000));
    assert_eq!(parse_amount("0", 255), Ok(0));
}

#[test]
fn amounts_are_written_without_leading_zeros() {
    assert_eq!(render_amount(0), "0");
    assert_eq!(render_amount(7), "7");
    assert_eq!(render_amount(10), "10");
    assert_eq!(render_amount(1250), "1250");
    assert_eq!(render_amount(u128::MAX), "340282366920938463463374607431768211455");
}

#[test]
fn written_amounts_are_read_back() {
    for v in [0u128, 1, 9, 10, 99, 100, 12345678901234567890, u128::MAX] {
        assert_eq!(parse_digits(&render_amount(v)), Ok(v));
        assert_eq!(parse_amount(&render_amount(v), 0), Ok(v));
    }
}

#[test]
fn digits_are_read_strictly() {
    assert_eq!(parse_digits("42"), Ok(42));
    assert_eq!(parse_digits("042"), Ok(42));
    assert_eq!(parse_digits(""), Err(AmountError::Malformed));
    assert_eq!(parse_digits("4.2"), Err(AmountError::Malformed));
    assert_eq!(parse_digits("42."), Err(AmountError::Malformed));
    assert_eq!(parse_digits("-42"), Err(AmountError::Malformed));
    assert_eq!(
        parse_digits("340282366920938463463374607431768211456"),
        Err(AmountError::Overflow)
    );
}

#[test]
fn balances_are_written_with_their_sign() {
    assert_eq!(render_balance(0), "0");
    assert_eq!(render_balance(15), "15");
    assert_eq!(render_balance(-15), "-15");
    assert_eq!(render_balance(i128::MAX), "170141183460469231731687303715884105727");
    assert_eq!(render_balance(i128::MIN), "-170141183460469231731687303715884105728");
}

#[test]
fn written_balances_are_read_back() {
    for v in [0i128, 1, -1, 10, -10, 123456789, -987654321, i128::MAX, i128::MIN] {
        assert_eq!(parse_balance(&render_balance(v)), Some(v));
    }
}

#[test]
fn balances_out_of_range_or_malformed_are_not_read() {
    assert_eq!(parse_balance("170141183460469231731687303715884105728"), None);
    assert_eq!(parse_balance("-170141183460469231731687303715884105729"), None);
    assert_eq!(parse_balance(""), None);
    assert_eq!(parse_balance("-"), None);
    assert_eq!(parse_balance("--1"), None);
    assert_eq!(parse_balance("1-"), None);
    assert_eq!(parse_balance("+1"), None);
    assert_eq!(parse_balance("-0"), Some(0));
}
