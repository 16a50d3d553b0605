use desktop_overlay::double::{Double, Float64};
use desktop_overlay::readings::{constant, format_speed, gib_of, percent, usage_string};
use desktop_overlay::text::{
    chars_of, decimal_string, first_line_of, lines_of, parse_u64_str, split_of, tokens_of, trimmed,
};

fn to_double(v: f64) -> Double {
    match Float64::from_bits(v.to_bits()) {
        Float64::Finite { negative: false, magnitude } => magnitude,
        _ => panic!("{v} is not a finite non-negative value"),
    }
}

/// The value of `d` as an odd significand and an exponent (zero as (0, 0)).
fn value(d: Double) -> (u64, i32) {
    if d.mant == 0 {
        return (0, 0);
    }
    let (mut m, mut e) = (d.mant, d.exp);
    while m % 2 == 0 {
        m /= 2;
        e += 1;
    }
    (m, e)
}

fn strings(parts: Vec<Vec<char>>) -> Vec<String> {
    parts.into_iter().map(|p| p.into_iter().collect()).collect()
}

#[test]
fn decimal_renders_without_leading_zeros() {
    assert_eq!(decimal_string(0), "0");
    assert_eq!(decimal_string(7), "7");
    assert_eq!(decimal_string(1200), "1200");
    assert_eq!(decimal_string(u64::MAX), "18446744073709551615");
}

#[test]
fn trimmed_removes_unicode_whitespace_at_both_ends() {
    assert_eq!(trimmed("  0x1002\n"), "0x1002");
    assert_eq!(trimmed("\t\u{3000}a b\u{a0}"), "a b");
    assert_eq!(trimmed(" \n\t"), "");
}

#[test]
fn parse_u64_follows_std() {
    for s in ["0", "42", "+7", "", "+", "-1", "12a", " 5", "18446744073709551615", "18446744073709551616"] {
        assert_eq!(parse_u64_str(s), s.parse::<u64>().ok(), "{s:?}");
    }
}

#[test]
fn tokens_and_split_follow_std() {
    let text = "  1: 800Mhz *\t\n2:  1200Mhz ";
    let expected: Vec<String> = text.split_whitespace().map(|t| t.to_string()).collect();
    assert_eq!(strings(tokens_of(&chars_of(text))), expected);
    let csv = "45,,1024, 8192,";
    let expected: Vec<String> = csv.split(',').map(|t| t.to_string()).collect();
    assert_eq!(strings(split_of(&chars_of(csv), ',')), expected);
    assert_eq!(strings(split_of(&chars_of(""), ',')), vec![String::new()]);
}

#[test]
fn lines_follow_std() {
    for text in ["", "a", "a\n", "a\r\nb", "a\n\nb\n", "x\r", "one\rtwo\r\n", "\n"] {
        let expected: Vec<String> = text.lines().map(|l| l.to_string()).collect();
        assert_eq!(lines_of(text), expected, "{text:?}");
        assert_eq!(first_line_of(text), text.lines().next().map(|l| l.to_string()), "{text:?}");
    }
}

#[test]
fn fixed_matches_std_formatting() {
    let values = [
        0.0, 0.05, 0.15, 0.25, 0.5, 1.5, 2.5, 2.675, 0.125, 123.456, 999.9995, 1e-7, 1e-300, 5e-324,
        1e15, 1e20, 3.0e35, 9007199254740993.0, 1.7976931348623157e308, 4.9406564584124654e-320,
    ];
    for v in values {
        let d = to_double(v);
        for k in 0..=3u32 {
            assert_eq!(d.fixed(k), format!("{:.*}", k as usize, v), "{v} with {k} decimals");
        }
    }
}

#[test]
fn signed_and_non_finite_values_print_like_std() {
    let values = [
        -1.5, -0.0, -0.04, -0.05, -2.675, -1e-310, f64::INFINITY, f64::NEG_INFINITY, f64::NAN, -f64::NAN,
        f64::MIN, 0.0, 7.25,
    ];
    for v in values {
        let x = Float64::from_bits(v.to_bits());
        for k in 0..=3u32 {
            assert_eq!(x.fixed(k), format!("{:.*}", k as usize, v), "{v} with {k} decimals");
        }
        assert_eq!(x.is_zero(), v == 0.0, "{v} == 0");
        assert_eq!(x.is_positive(), v > 0.0, "{v} > 0");
    }
    assert!(Float64::from_bits(f64::NAN.to_bits()) == Float64::NaN);
    assert!(Float64::from_bits(f64::NEG_INFINITY.to_bits()) == Float64::Infinite { negative: true });
}

#[test]
fn conversion_division_and_product_round_like_f64() {
    let xs: [u64; 8] = [0, 1, 3, 999, 123_456_789, 9_007_199_254_740_993, 18_446_744_073_709_551_615, 1 << 60];
    for x in xs {
        assert_eq!(value(Double::from_u64(x)), value(to_double(x as f64)), "{x}");
        let q = Double::from_u64(x).div(&constant(1000));
        assert_eq!(value(q), value(to_double(x as f64 / 1000.0)), "{x} / 1000");
        let p = Double::from_u64(x).mul(&constant(100));
        assert_eq!(value(p), value(to_double(x as f64 * 100.0)), "{x} * 100");
    }
}

#[test]
fn gib_and_percent_follow_f64() {
    let x = 17_179_869_184u64 + 123_456_789;
    assert_eq!(value(gib_of(x)), value(to_double(x as f64 / 1024.0 / 1024.0 / 1024.0)));
    assert_eq!(value(percent(1, 3)), value(to_double((1u64 as f64 / 3u64 as f64) * 100.0)));
}

#[test]
fn usage_line_format() {
    let s = usage_string(to_double(4.0), to_double(16.0), to_double(25.0));
    assert_eq!(s, "4.0/16.0 GB (25%)");
}

#[test]
fn format_speed_picks_the_unit() {
    assert_eq!(format_speed(0), "0 B/s");
    assert_eq!(format_speed(999), "999 B/s");
    assert_eq!(format_speed(1000), "1.0 KB/s");
    assert_eq!(format_speed(1050), format!("{:.1} KB/s", 1050f64 / 1000.0));
    assert_eq!(format_speed(999_999), "1000.0 KB/s");
    assert_eq!(format_speed(2_500_000), "2.5 MB/s");
    assert_eq!(format_speed(u64::MAX), format!("{:.1} MB/s", u64::MAX as f64 / 1_000_000.0));
}

#[test]
fn whitespace_is_unicode_white_space() {
    for code in 0..0x3100u32 {
        if let Some(c) = char::from_u32(code) {
            assert_eq!(desktop_overlay::text::is_whitespace(c), c.is_whitespace(), "{code:#x}");
        }
    }
}
