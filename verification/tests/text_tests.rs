use rslogo::text::{parse_i32, display_i32, parse_bool, display_bool, chars_of};

fn chars(s: &str) -> Vec<char> {
    s.chars().collect()
}

fn text(v: Vec<char>) -> String {
    v.into_iter().collect()
}

#[test]
fn parse_i32_accepts_signs_and_digits() {
    assert_eq!(parse_i32(&chars("42")), Some(42));
    assert_eq!(parse_i32(&chars("+42")), Some(42));
    assert_eq!(parse_i32(&chars("-42")), Some(-42));
    assert_eq!(parse_i32(&chars("007")), Some(7));
    assert_eq!(parse_i32(&chars("-0")), Some(0));
}

#[test]
fn parse_i32_limits() {
    assert_eq!(parse_i32(&chars("2147483647")), Some(i32::MAX));
    assert_eq!(parse_i32(&chars("-2147483648")), Some(i32::MIN));
    assert_eq!(parse_i32(&chars("2147483648")), None);
    assert_eq!(parse_i32(&chars("-2147483649")), None);
    assert_eq!(parse_i32(&chars("99999999999999999999")), None);
}

#[test]
fn parse_i32_rejects_non_numbers() {
    assert_eq!(parse_i32(&chars("")), None);
    assert_eq!(parse_i32(&chars("-")), None);
    assert_eq!(parse_i32(&chars("+")), None);
    assert_eq!(parse_i32(&chars("+-1")), None);
    assert_eq!(parse_i32(&chars("1a")), None);
    assert_eq!(parse_i32(&chars(" 1")), None);
    assert_eq!(parse_i32(&chars("abc")), None);
}

#[test]
fn parse_i32_agrees_with_std() {
    for s in ["0", "12", "-12", "+3", "2147483647", "-2147483648", "2147483648", "", "-", "x1", "1 "] {
        assert_eq!(parse_i32(&chars(s)), s.parse::<i32>().ok(), "input {:?}", s);
    }
}

#[test]
fn display_i32_matches_to_string() {
    for n in [0, 7, 10, -1, -10, 123456, i32::MAX, i32::MIN] {
        assert_eq!(text(display_i32(n)), n.to_string());
    }
}

#[test]
fn display_then_parse_gives_number_back() {
    for n in [0, 1, -1, 99, -100, i32::MAX, i32::MIN] {
        assert_eq!(parse_i32(&display_i32(n)), Some(n));
    }
}

#[test]
fn booleans() {
    assert_eq!(parse_bool(&chars("true")), Some(true));
    assert_eq!(parse_bool(&chars("false")), Some(false));
    assert_eq!(parse_bool(&chars("TRUE")), None);
    assert_eq!(parse_bool(&chars("tru")), None);
    assert_eq!(text(display_bool(true)), "true");
    assert_eq!(text(display_bool(false)), "false");
    assert_eq!(parse_bool(&display_bool(false)), Some(false));
}

#[test]
fn chars_of_string() {
    assert_eq!(chars_of("héllo"), vec!['h', 'é', 'l', 'l', 'o']);
    assert_eq!(chars_of(""), Vec::<char>::new());
}
