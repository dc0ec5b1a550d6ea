use scrap_advisor::number::{parse_i8, parse_u64};

#[test]
fn parse_i8_reads_signed_decimals() {
    assert_eq!(parse_i8("0"), Some(0));
    assert_eq!(parse_i8("7"), Some(7));
    assert_eq!(parse_i8("+7"), Some(7));
    assert_eq!(parse_i8("-7"), Some(-7));
    assert_eq!(parse_i8("-0"), Some(0));
    assert_eq!(parse_i8("007"), Some(7));
    assert_eq!(parse_i8("127"), Some(127));
    assert_eq!(parse_i8("-128"), Some(-128));
    assert_eq!(parse_i8("-0000128"), Some(-128));
}

#[test]
fn parse_i8_refuses_what_is_no_i8() {
    assert_eq!(parse_i8(""), None);
    assert_eq!(parse_i8("+"), None);
    assert_eq!(parse_i8("-"), None);
    assert_eq!(parse_i8("128"), None);
    assert_eq!(parse_i8("-129"), None);
    assert_eq!(parse_i8("1000"), None);
    assert_eq!(parse_i8(" 1"), None);
    assert_eq!(parse_i8("1 "), None);
    assert_eq!(parse_i8("1_0"), None);
    assert_eq!(parse_i8("--1"), None);
    assert_eq!(parse_i8("+-1"), None);
    assert_eq!(parse_i8("1.0"), None);
    assert_eq!(parse_i8("abc"), None);
    assert_eq!(parse_i8("\u{0661}"), None);
    assert_eq!(parse_i8("1\u{00e9}"), None);
}

#[test]
fn parse_i8_agrees_with_std() {
    let samples = [
        "", "0", "5", "-5", "+5", "12", "127", "128", "-128", "-129", "99999999999999999999",
        "0000000000000000000000000001", "x", "1x", "-", "+", "+-", " 5", "5 ", "\u{ff11}",
    ];
    for s in samples {
        assert_eq!(parse_i8(s), s.parse::<i8>().ok(), "{:?}", s);
    }
    for v in i8::MIN..=i8::MAX {
        assert_eq!(parse_i8(&v.to_string()), Some(v));
    }
}

#[test]
fn parse_u64_reads_unsigned_decimals() {
    assert_eq!(parse_u64("0"), Some(0));
    assert_eq!(parse_u64("+0"), Some(0));
    assert_eq!(parse_u64("6917529027641081856"), Some(6917529027641081856));
    assert_eq!(parse_u64("18446744073709551615"), Some(u64::MAX));
    assert_eq!(parse_u64("00018446744073709551615"), Some(u64::MAX));
}

#[test]
fn parse_u64_refuses_what_is_no_u64() {
    assert_eq!(parse_u64(""), None);
    assert_eq!(parse_u64("+"), None);
    assert_eq!(parse_u64("-"), None);
    assert_eq!(parse_u64("-0"), None);
    assert_eq!(parse_u64("-1"), None);
    assert_eq!(parse_u64("18446744073709551616"), None);
    assert_eq!(parse_u64("27394873298749238792"), None);
    assert_eq!(parse_u64("99999999999999999999999"), None);
    assert_eq!(parse_u64("12a"), None);
    assert_eq!(parse_u64("\"12\""), None);
}

#[test]
fn parse_u64_agrees_with_std() {
    let samples = [
        "", "0", "+0", "-0", "-1", "1", "18446744073709551615", "18446744073709551616",
        "18446744073709551609", "1844674407370955161", "184467440737095516150", "+", "-", "1 ",
        "0x10", "27394873298749238792",
    ];
    for s in samples {
        assert_eq!(parse_u64(s), s.parse::<u64>().ok(), "{:?}", s);
    }
}
