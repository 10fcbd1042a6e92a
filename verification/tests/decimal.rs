use dpia::decimal::{parse_u64, push_decimal, push_decimal_02, push_signed};

fn render(n: u64) -> Vec<u8> {
    let mut v = Vec::new();
    push_decimal(&mut v, n);
    v
}

#[test]
fn renders_decimal() {
    assert_eq!(render(0), b"0");
    assert_eq!(render(7), b"7");
    assert_eq!(render(120), b"120");
    assert_eq!(render(u64::MAX), b"18446744073709551615");
}

#[test]
fn renders_two_digits_and_signs() {
    let mut v = Vec::new();
    push_decimal_02(&mut v, 5);
    push_decimal_02(&mut v, 42);
    push_signed(&mut v, -17);
    push_signed(&mut v, i64::MIN);
    assert_eq!(v, b"0542-17-9223372036854775808");
}

#[test]
fn parses_like_str_parse() {
    let cases: [&str; 12] = [
        "123", "+7", "", "+", "-1", "007", "12a", " 1",
        "18446744073709551615", "18446744073709551616", "99999999999999999999", "1741338300000",
    ];
    for c in cases {
        assert_eq!(parse_u64(c.as_bytes()), c.parse::<u64>().ok(), "case {c:?}");
    }
}

#[test]
fn parse_reads_back_rendering() {
    for n in [0u64, 1, 9, 10, 99, 100, 65535, 1_741_338_300_000, u64::MAX] {
        assert_eq!(parse_u64(&render(n)), Some(n));
    }
}
