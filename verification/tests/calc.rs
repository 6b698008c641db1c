use nursearch::calc::evaluate;

#[test]
fn evaluates_basic_arithmetic() {
    assert_eq!(evaluate("2 + 3 * 4"), Some("14".to_string()));
    assert_eq!(evaluate("(2 + 3) * 4"), Some("20".to_string()));
    assert_eq!(evaluate("10 / 4"), Some("2.5".to_string()));
    assert_eq!(evaluate("-5 + 2"), Some("-3".to_string()));
    assert_eq!(evaluate("10 % 3"), Some("1".to_string()));
}

#[test]
fn rejects_non_expressions() {
    assert_eq!(evaluate("code"), None);
    assert_eq!(evaluate("firefox"), None);
    assert_eq!(evaluate(""), None);
    assert_eq!(evaluate("2 +"), None);
    assert_eq!(evaluate("(2 + 3"), None);
}

#[test]
fn accepts_german_decimal_comma_and_answers_in_kind() {
    assert_eq!(evaluate("2,5 * 4"), Some("10".to_string()));
    assert_eq!(evaluate("1,5 + 1,25"), Some("2,75".to_string()));
    assert_eq!(evaluate("1.5 + 1.25"), Some("2.75".to_string()));
}

#[test]
fn supports_powers_symbols_and_trailing_equals() {
    assert_eq!(evaluate("2^10"), Some("1024".to_string()));
    assert_eq!(evaluate("2^3^2"), Some("512".to_string()));
    assert_eq!(evaluate("-2^2"), Some("-4".to_string()));
    assert_eq!(evaluate("6 × 7"), Some("42".to_string()));
    assert_eq!(evaluate("9 ÷ 3"), Some("3".to_string()));
    assert_eq!(evaluate("5 + 5 ="), Some("10".to_string()));
}

#[test]
fn a_lone_number_is_not_a_calculation() {
    assert_eq!(evaluate("7"), None);
    assert_eq!(evaluate("-7"), None);
    assert_eq!(evaluate("(7)"), Some("7".to_string()));
}

#[test]
fn rejects_division_by_zero() {
    assert_eq!(evaluate("1 / 0"), None);
}

#[test]
fn rounds_to_six_decimals_and_trims_zeros() {
    assert_eq!(evaluate("1 / 3"), Some("0.333333".to_string()));
    assert_eq!(evaluate("2 / 3"), Some("0.666667".to_string()));
    assert_eq!(evaluate("-1 / 3"), Some("-0.333333".to_string()));
    assert_eq!(evaluate("0.5 * 0.5"), Some("0.25".to_string()));
    assert_eq!(evaluate("1 - 1"), Some("0".to_string()));
}

#[test]
fn remainder_takes_the_sign_of_the_dividend() {
    assert_eq!(evaluate("-7 % 3"), Some("-1".to_string()));
    assert_eq!(evaluate("7 % -3"), Some("1".to_string()));
    assert_eq!(evaluate("5.5 % 2"), Some("1.5".to_string()));
}

#[test]
fn negative_and_fractional_exponents() {
    assert_eq!(evaluate("2^-2"), Some("0.25".to_string()));
    assert_eq!(evaluate("0^0"), Some("1".to_string()));
    assert_eq!(evaluate("2^(4/2)"), Some("4".to_string()));
}

#[test]
fn mixed_separators_and_foreign_characters_are_rejected() {
    assert_eq!(evaluate("1.000,5 + 1"), None);
    assert_eq!(evaluate("2 + x"), None);
    assert_eq!(evaluate("1..2 + 1"), None);
    assert_eq!(evaluate("  3 * 3 =  "), Some("9".to_string()));
    assert_eq!(evaluate("1. + .5"), Some("1.5".to_string()));
}

#[test]
fn a_value_that_rounds_to_zero_prints_as_zero() {
    assert_eq!(evaluate("0 - 0.0000001"), Some("0".to_string()));
    assert_eq!(evaluate("-1 / 10000000"), Some("0".to_string()));
    assert_eq!(evaluate("0 - 0,0000001"), Some("0".to_string()));
}

#[test]
fn exact_ties_round_to_even() {
    assert_eq!(evaluate("1 / 128"), Some("0.007812".to_string()));
    assert_eq!(evaluate("3 / 128"), Some("0.023438".to_string()));
    assert_eq!(evaluate("-1 / 128"), Some("-0.007812".to_string()));
}

#[test]
fn long_chains_of_decimals_stay_exact() {
    let expr = vec!["0.1"; 40].join(" + ");
    assert_eq!(evaluate(&expr), Some("4".to_string()));
    let prod = vec!["1.25"; 12].join(" * ");
    assert_eq!(evaluate(&format!("({prod}) / ({prod})")), Some("1".to_string()));
    assert_eq!(evaluate("0.333 * 3 - 0.999"), Some("0".to_string()));
}
