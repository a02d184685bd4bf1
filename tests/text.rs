use user_pipeline::text::{parse_i32, push_int, push_nat};

#[test]
fn parse_accepts_decimal_i32() {
    assert_eq!(parse_i32("25"), Some(25));
    assert_eq!(parse_i32("+5"), Some(5));
    assert_eq!(parse_i32("-5"), Some(-5));
    assert_eq!(parse_i32("007"), Some(7));
    assert_eq!(parse_i32("0"), Some(0));
    assert_eq!(parse_i32("2147483647"), Some(i32::MAX));
    assert_eq!(parse_i32("-2147483648"), Some(i32::MIN));
}

#[test]
fn parse_rejects_other_text() {
    assert_eq!(parse_i32(""), None);
    assert_eq!(parse_i32("-"), None);
    assert_eq!(parse_i32("+"), None);
    assert_eq!(parse_i32("thirty"), None);
    assert_eq!(parse_i32(" 5"), None);
    assert_eq!(parse_i32("5 "), None);
    assert_eq!(parse_i32("1e3"), None);
    assert_eq!(parse_i32("--5"), None);
    assert_eq!(parse_i32("2147483648"), None);
    assert_eq!(parse_i32("-2147483649"), None);
    assert_eq!(parse_i32("99999999999999999999999"), None);
    assert_eq!(parse_i32("99999999999999999999999x"), None);
}

#[test]
fn decimal_rendering() {
    let mut s = String::from("n=");
    push_nat(&mut s, 0);
    s.push(',');
    push_nat(&mut s, 1090);
    s.push(',');
    push_int(&mut s, -42);
    s.push(',');
    push_int(&mut s, i32::MIN);
    assert_eq!(s, "n=0,1090,-42,-2147483648");
}
