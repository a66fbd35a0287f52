use dialogue_bot::numbers::i32_to_string;
use dialogue_bot::numbers::parse_i32;

#[test]
fn parse_accepts_the_documented_grammar() {
    assert_eq!(parse_i32("0"), Some(0));
    assert_eq!(parse_i32("42"), Some(42));
    assert_eq!(parse_i32("+7"), Some(7));
    assert_eq!(parse_i32("-17"), Some(-17));
    assert_eq!(parse_i32("-0"), Some(0));
    assert_eq!(parse_i32("0042"), Some(42));
    assert_eq!(parse_i32("2147483647"), Some(i32::MAX));
    assert_eq!(parse_i32("-2147483648"), Some(i32::MIN));
}

#[test]
fn parse_rejects_everything_else() {
    assert_eq!(parse_i32(""), None);
    assert_eq!(parse_i32("+"), None);
    assert_eq!(parse_i32("-"), None);
    assert_eq!(parse_i32(" 42"), None);
    assert_eq!(parse_i32("42 "), None);
    assert_eq!(parse_i32("4 2"), None);
    assert_eq!(parse_i32("4.2"), None);
    assert_eq!(parse_i32("--4"), None);
    assert_eq!(parse_i32("+-4"), None);
    assert_eq!(parse_i32("hello"), None);
    assert_eq!(parse_i32("2147483648"), None);
    assert_eq!(parse_i32("-2147483649"), None);
    assert_eq!(parse_i32("99999999999999999999"), None);
    assert_eq!(parse_i32("٤٢"), None);
}

#[test]
fn parse_agrees_with_the_standard_grammar() {
    for text in ["0", "-1", "+250", "2147483647", "-2147483648", "2147483648", "007", "x", ""] {
        assert_eq!(parse_i32(text), text.parse::<i32>().ok());
    }
}

#[test]
fn formatting_renders_exact_decimal() {
    assert_eq!(i32_to_string(0), "0");
    assert_eq!(i32_to_string(7), "7");
    assert_eq!(i32_to_string(-5), "-5");
    assert_eq!(i32_to_string(1234567890), "1234567890");
    assert_eq!(i32_to_string(i32::MAX), "2147483647");
    assert_eq!(i32_to_string(i32::MIN), "-2147483648");
}

#[test]
fn formatting_and_parsing_round_trip() {
    for n in [0, 1, -1, 42, -42, 1000, i32::MIN, i32::MAX] {
        assert_eq!(parse_i32(&i32_to_string(n)), Some(n));
    }
}
