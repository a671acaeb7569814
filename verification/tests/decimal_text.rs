use mercury::decimal::{i64_to_text, text_to_i32};
use mercury::text::remove_all;

#[test]
fn writes_positive_negative_and_zero() {
    assert_eq!(i64_to_text(0), "0");
    assert_eq!(i64_to_text(7), "7");
    assert_eq!(i64_to_text(1024), "1024");
    assert_eq!(i64_to_text(-42), "-42");
}

#[test]
fn writes_the_extremes() {
    assert_eq!(i64_to_text(i64::MIN), i64::MIN.to_string());
    assert_eq!(i64_to_text(i64::MAX), i64::MAX.to_string());
}

#[test]
fn reads_signed_decimal_text() {
    assert_eq!(text_to_i32("12"), Some(12));
    assert_eq!(text_to_i32("+5"), Some(5));
    assert_eq!(text_to_i32("-0"), Some(0));
    assert_eq!(text_to_i32("007"), Some(7));
    assert_eq!(text_to_i32("-2147483648"), Some(i32::MIN));
    assert_eq!(text_to_i32("2147483647"), Some(i32::MAX));
}

#[test]
fn refuses_what_parse_refuses() {
    for s in ["", "+", "-", "12a", " 1", "1 ", "2147483648", "-2147483649", "99999999999", "+-1", "١"] {
        assert_eq!(text_to_i32(s), None, "{:?}", s);
        assert!(s.parse::<i32>().is_err());
    }
}

#[test]
fn reads_as_std_does() {
    for s in ["0", "+0", "-7", "123456", "-2147483648", "+2147483647", "0000000000012"] {
        assert_eq!(text_to_i32(s), s.parse::<i32>().ok(), "{:?}", s);
    }
}

#[test]
fn reading_back_written_ids_gives_them_again() {
    for n in [0i32, 1, -1, 9, 10, -10, 12345, i32::MAX, i32::MIN] {
        assert_eq!(text_to_i32(&i64_to_text(n as i64)), Some(n));
    }
}

#[test]
fn removes_the_driver_suffix() {
    assert_eq!(
        remove_all("mysql+pymysql://user:pw@host/db", "+pymysql"),
        "mysql://user:pw@host/db"
    );
    assert_eq!(remove_all("mysql://host/db", "+pymysql"), "mysql://host/db");
}

#[test]
fn removes_every_occurrence_from_the_left() {
    assert_eq!(remove_all("a+pymysqlb+pymysql", "+pymysql"), "ab");
    assert_eq!(remove_all("++pymysqlpymysql", "+pymysql"), "+pymysql");
    assert_eq!(remove_all("aaaa", "aa"), "");
    assert_eq!(remove_all("aaa", "aa"), "a");
    assert_eq!(remove_all("abc", ""), "abc");
    assert_eq!(remove_all("", "x"), "");
    assert_eq!(remove_all("äöü+pymysql", "+pymysql"), "äöü");
}
