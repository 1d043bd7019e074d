use batgauge::text::parse_u64;
use batgauge::text::str_eq;
use batgauge::text::trim_end;

#[test]
fn trim_removes_trailing_whitespace_only() {
    assert_eq!(trim_end("Battery\n"), "Battery");
    assert_eq!(trim_end("Battery"), "Battery");
    assert_eq!(trim_end("100 \t\r\n"), "100");
    assert_eq!(trim_end("  two words \n"), "  two words");
    assert_eq!(trim_end("\n"), "");
    assert_eq!(trim_end(""), "");
}

#[test]
fn parse_u64_accepts_plain_decimals() {
    assert_eq!(parse_u64("0"), Some(0));
    assert_eq!(parse_u64("123"), Some(123));
    assert_eq!(parse_u64("007"), Some(7));
    assert_eq!(parse_u64("+10"), Some(10));
    assert_eq!(parse_u64("18446744073709551615"), Some(u64::MAX));
}

#[test]
fn parse_u64_rejects_everything_else() {
    assert_eq!(parse_u64(""), None);
    assert_eq!(parse_u64("+"), None);
    assert_eq!(parse_u64("-1"), None);
    assert_eq!(parse_u64("12a"), None);
    assert_eq!(parse_u64(" 12"), None);
    assert_eq!(parse_u64("1 2"), None);
    assert_eq!(parse_u64("++1"), None);
    assert_eq!(parse_u64("18446744073709551616"), None);
    assert_eq!(parse_u64("99999999999999999999999999"), None);
}

#[test]
fn str_eq_is_exact() {
    assert!(str_eq("Battery", "Battery"));
    assert!(!str_eq("Battery", "battery"));
    assert!(!str_eq("Battery", "Battery "));
    assert!(str_eq("", ""));
    assert!(!str_eq("", " "));
}
