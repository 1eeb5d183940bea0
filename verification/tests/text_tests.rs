use systray::text::{format_duration, push_decimal, str_eq, str_eq_ignore_ascii_case, str_has_char, with_debug};

#[test]
fn format_duration_zero() {
    assert_eq!(format_duration(0), "00:00:00");
}

#[test]
fn format_duration_fields() {
    assert_eq!(format_duration(3725), "01:02:05");
    assert_eq!(format_duration(59), "00:00:59");
    assert_eq!(format_duration(3600), "01:00:00");
}

#[test]
fn format_duration_many_hours() {
    // More than 99 hours: the hours field grows.
    assert_eq!(format_duration(100 * 3600 + 61), "100:01:01");
}

#[test]
fn format_duration_recomposes_total() {
    for total in [0u64, 1, 59, 60, 61, 3599, 3600, 86399, 86400, 123456] {
        let s = format_duration(total);
        let fields: Vec<&str> = s.split(':').collect();
        assert_eq!(fields.len(), 3);
        assert!(fields.iter().all(|f| !f.is_empty() && f.chars().all(|c| c.is_ascii_digit())));
        assert!(fields[0].len() >= 2 && fields[1].len() == 2 && fields[2].len() == 2);
        let parts: Vec<u64> = fields.iter().map(|p| p.parse().unwrap()).collect();
        assert_eq!(parts.len(), 3);
        assert!(parts[1] < 60 && parts[2] < 60);
        assert_eq!(parts[0] * 3600 + parts[1] * 60 + parts[2], total);
    }
}

#[test]
fn decimal_rendering() {
    let mut s = String::from("n=");
    push_decimal(&mut s, 0);
    assert_eq!(s, "n=0");
    let mut s = String::new();
    push_decimal(&mut s, 18446744073709551615);
    assert_eq!(s, "18446744073709551615");
    let mut s = String::new();
    push_decimal(&mut s, 1000);
    assert_eq!(s, "1000");
}

#[test]
fn char_tests() {
    assert!(str_has_char("a/b", '/'));
    assert!(!str_has_char("ab", '/'));
    assert!(!str_has_char("", '/'));
    assert!(str_eq("show", "show"));
    assert!(!str_eq("show", "shows"));
    assert!(!str_eq("show", "shaw"));
    assert!(str_eq_ignore_ascii_case("PnG", "png"));
    assert!(!str_eq_ignore_ascii_case("pn", "png"));
    assert!(!str_eq_ignore_ascii_case("jpg", "png"));
}

#[test]
fn debug_quoting() {
    assert_eq!(with_debug("id ", "x"), "id \"x\"");
    assert_eq!(with_debug("", "a\"b"), "\"a\\\"b\"");
}
