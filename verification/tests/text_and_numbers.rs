use hifi_core::decimal::{decimal_string, parse_u16_exec};
use hifi_core::text::{chars_of, string_of_all, white_space};
use hifi_core::ui::clock;

#[test]
fn white_space_agrees_with_char_is_whitespace() {
    for u in 0u32..=0x10FFFF {
        if let Some(c) = char::from_u32(u) {
            assert_eq!(white_space(c), c.is_whitespace(), "code point {:#x}", u);
        }
    }
}

#[test]
fn chars_round_trip_through_strings() {
    for s in ["", "abc", "héllo wörld", "日本語", "a\u{1F600}b"] {
        let v = chars_of(s);
        assert_eq!(v, s.chars().collect::<Vec<char>>());
        assert_eq!(string_of_all(&v), s);
    }
}

#[test]
fn decimal_string_matches_to_string() {
    for n in [0u64, 1, 9, 10, 11, 99, 100, 12345, u32::MAX as u64, u64::MAX] {
        assert_eq!(decimal_string(n), n.to_string());
    }
    for n in 0u64..2000 {
        assert_eq!(decimal_string(n), n.to_string());
    }
}

#[test]
fn parse_u16_matches_std_parse() {
    let cases = [
        "", "+", "-", "0", "7", "+7", "-7", "007", "1999", "65535", "65536", "99999999",
        " 12", "12 ", "1a", "a1", "++1", "+-1", "\u{0663}", "1_000", "1.5",
    ];
    for s in cases {
        assert_eq!(parse_u16_exec(s), s.parse::<u16>().ok(), "input {:?}", s);
    }
}

#[test]
fn parse_u16_reads_every_numeral_back() {
    for n in 0..=u16::MAX {
        assert_eq!(parse_u16_exec(&decimal_string(n as u64)), Some(n));
    }
}

#[test]
fn clock_writes_minutes_and_seconds() {
    assert_eq!(clock(0), "00:00");
    assert_eq!(clock(5), "00:05");
    assert_eq!(clock(65), "01:05");
    assert_eq!(clock(600), "10:00");
    assert_eq!(clock(3599), "59:59");
    assert_eq!(clock(6000), "100:00");
}
