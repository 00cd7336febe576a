use hypr_events::number::{format_decimal, parse_flag, parse_unsigned};

fn samples() -> Vec<String> {
    let mut all: Vec<String> = [
        "", "0", "1", "2", "9", "10", "42", "007", "+", "-", "+0", "-0", "+1", "-1", "++1", "+-1",
        "1+", " 1", "1 ", "1_000", "0x10", "1e3", "1.0", "a", "١", "３", "00", "01", "-00", "-01",
        "+01", "+00000000000000000000000000000000000", "000000000000000000000000000000000001",
        "4294967295", "4294967296", "2147483647", "2147483648", "-2147483648", "-2147483649",
        "18446744073709551615", "18446744073709551616", "18446744073709551620",
        "99999999999999999999", "340282366920938463463374607431768211456",
    ]
    .iter()
    .map(|s| s.to_string())
    .collect();
    all.push(usize::MAX.to_string());
    all.push(format!("+{}", usize::MAX));
    all.push(format!("0{}", usize::MAX));
    all.push(format!("{}0", usize::MAX));
    all
}

#[test]
fn unsigned_values() {
    assert_eq!(parse_unsigned("0"), Some(0));
    assert_eq!(parse_unsigned("3"), Some(3));
    assert_eq!(parse_unsigned("+3"), Some(3));
    assert_eq!(parse_unsigned("0042"), Some(42));
    assert_eq!(parse_unsigned("1234567890"), Some(1234567890));
}

#[test]
fn unsigned_refuses_what_is_no_number() {
    assert_eq!(parse_unsigned(""), None);
    assert_eq!(parse_unsigned("+"), None);
    assert_eq!(parse_unsigned("-3"), None);
    assert_eq!(parse_unsigned("-0"), None);
    assert_eq!(parse_unsigned("3 "), None);
    assert_eq!(parse_unsigned(" 3"), None);
    assert_eq!(parse_unsigned("3a"), None);
    assert_eq!(parse_unsigned("++3"), None);
    assert_eq!(parse_unsigned("1_000"), None);
}

#[test]
fn unsigned_stops_at_the_largest_value() {
    let largest = usize::MAX.to_string();
    assert_eq!(parse_unsigned(&largest), Some(usize::MAX));
    // The largest value ends in 5 on every width, so 6 in its place is one more.
    let mut above = largest.clone();
    above.pop();
    above.push('6');
    assert_eq!(parse_unsigned(&above), None);
    assert_eq!(parse_unsigned(&format!("{}0", largest)), None);
    assert_eq!(parse_unsigned(&format!("000{}", largest)), Some(usize::MAX));
}

#[test]
fn unsigned_agrees_with_the_standard_library() {
    for sample in samples() {
        assert_eq!(parse_unsigned(&sample), sample.parse::<usize>().ok(), "{:?}", sample);
    }
    for n in 0..2000usize {
        assert_eq!(parse_unsigned(&n.to_string()), Some(n));
    }
}

#[test]
fn flag_values() {
    assert_eq!(parse_flag("0"), Some(false));
    assert_eq!(parse_flag("1"), Some(true));
    assert_eq!(parse_flag("+0"), Some(false));
    assert_eq!(parse_flag("-0"), Some(false));
    assert_eq!(parse_flag("+1"), Some(true));
    assert_eq!(parse_flag("0001"), Some(true));
    assert_eq!(parse_flag("-1"), None);
    assert_eq!(parse_flag("2"), None);
    assert_eq!(parse_flag(""), None);
    assert_eq!(parse_flag("true"), None);
}

#[test]
fn flag_agrees_with_the_standard_library() {
    for sample in samples() {
        let expected = match sample.parse::<i32>() {
            Ok(0) => Some(false),
            Ok(1) => Some(true),
            _ => None,
        };
        assert_eq!(parse_flag(&sample), expected, "{:?}", sample);
    }
}

#[test]
fn decimal_text() {
    assert_eq!(format_decimal(0), "0");
    assert_eq!(format_decimal(7), "7");
    assert_eq!(format_decimal(10), "10");
    assert_eq!(format_decimal(1234567890), "1234567890");
    assert_eq!(format_decimal(usize::MAX), usize::MAX.to_string());
}

#[test]
fn decimal_text_agrees_with_the_standard_library() {
    for n in 0..2000usize {
        assert_eq!(format_decimal(n), n.to_string());
    }
}

#[test]
fn written_number_reads_back() {
    for n in [0usize, 1, 9, 10, 99, 100, 65535, 4294967295, usize::MAX - 1, usize::MAX] {
        assert_eq!(parse_unsigned(&format_decimal(n)), Some(n));
    }
}
