use csv_ingest::number::{format_i32, parse_i32, push_nat};

#[test]
fn parses_plain_decimal() {
    assert_eq!(parse_i32("42"), Some(42));
    assert_eq!(parse_i32("0"), Some(0));
    assert_eq!(parse_i32("007"), Some(7));
    assert_eq!(parse_i32("67890"), Some(67890));
}

#[test]
fn parses_signs() {
    assert_eq!(parse_i32("-3478347"), Some(-3478347));
    assert_eq!(parse_i32("+5"), Some(5));
    assert_eq!(parse_i32("-0"), Some(0));
}

#[test]
fn parses_the_ends_of_the_range() {
    assert_eq!(parse_i32("2147483647"), Some(i32::MAX));
    assert_eq!(parse_i32("-2147483648"), Some(i32::MIN));
    assert_eq!(parse_i32("2147483648"), None);
    assert_eq!(parse_i32("-2147483649"), None);
    assert_eq!(parse_i32("99999999999999999999999999"), None);
    assert_eq!(parse_i32("00000000000000000000000012"), Some(12));
}

#[test]
fn refuses_what_is_no_decimal_integer() {
    assert_eq!(parse_i32(""), None);
    assert_eq!(parse_i32("-"), None);
    assert_eq!(parse_i32("+"), None);
    assert_eq!(parse_i32("12a"), None);
    assert_eq!(parse_i32(" 1"), None);
    assert_eq!(parse_i32("1 "), None);
    assert_eq!(parse_i32("--1"), None);
    assert_eq!(parse_i32("1.0"), None);
    assert_eq!(parse_i32("ff"), None);
    assert_eq!(parse_i32("-0x10"), None);
    assert_eq!(parse_i32("0X10"), None);
    assert_eq!(parse_i32("\u{0663}"), None);
}

#[test]
fn formats_exact_text() {
    assert_eq!(format_i32(0), "0");
    assert_eq!(format_i32(7), "7");
    assert_eq!(format_i32(42), "42");
    assert_eq!(format_i32(-3478347), "-3478347");
    assert_eq!(format_i32(i32::MAX), "2147483647");
    assert_eq!(format_i32(i32::MIN), "-2147483648");
}

#[test]
fn text_of_every_sampled_value_reads_back() {
    let mut v: i64 = i32::MIN as i64;
    while v <= i32::MAX as i64 {
        let n = v as i32;
        assert_eq!(parse_i32(&format_i32(n)), Some(n));
        assert_eq!(format_i32(n), n.to_string());
        v += 7_654_321;
    }
}

#[test]
fn push_nat_appends() {
    let mut out = String::from("row ");
    push_nat(&mut out, 1203);
    assert_eq!(out, "row 1203");
    push_nat(&mut out, 0);
    assert_eq!(out, "row 12030");
    let mut big = String::new();
    push_nat(&mut big, u64::MAX);
    assert_eq!(big, "18446744073709551615");
}

#[test]
fn parses_hexadecimal_after_the_mark() {
    assert_eq!(parse_i32("0x10"), Some(16));
    assert_eq!(parse_i32("0xff"), Some(255));
    assert_eq!(parse_i32("0xFF"), Some(255));
    assert_eq!(parse_i32("0xaBc"), Some(2748));
    assert_eq!(parse_i32("0x+1f"), Some(31));
    assert_eq!(parse_i32("0x-1f"), Some(-31));
    assert_eq!(parse_i32("0x7fffffff"), Some(i32::MAX));
    assert_eq!(parse_i32("0x-80000000"), Some(i32::MIN));
    assert_eq!(parse_i32("0x80000000"), None);
    assert_eq!(parse_i32("0xffffffff"), None);
    assert_eq!(parse_i32("0x"), None);
    assert_eq!(parse_i32("0x-"), None);
    assert_eq!(parse_i32("0xg"), None);
    assert_eq!(parse_i32("0x0x1"), None);
    assert_eq!(parse_i32("0x000000000000000000001"), Some(1));
}

fn reference(text: &str) -> Option<i32> {
    match text.strip_prefix("0x") {
        Some(digits) => i32::from_str_radix(digits, 16).ok(),
        None => text.parse::<i32>().ok(),
    }
}

#[test]
fn agrees_with_the_standard_readers() {
    let pieces = ["", "0", "x", "0x", "-", "+", "1", "9", "a", "F", "g", "7fffffff", "80000000", "2147483647", "2147483648", " ", "\u{e9}", "00"];
    for a in pieces {
        for b in pieces {
            for c in pieces {
                let text = format!("{}{}{}", a, b, c);
                assert_eq!(parse_i32(&text), reference(&text), "{:?}", text);
            }
        }
    }
}

#[test]
fn a_long_run_of_zeros_is_read_quickly() {
    let text = "0".repeat(2_000_000) + "17";
    assert_eq!(parse_i32(&text), Some(17));
}
