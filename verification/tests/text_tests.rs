use musikquadrupled::text::{chars_of, push_decimal, same_text, string_of, trim_start_matches, trim_string};

#[test]
fn trim_removes_outer_whitespace() {
    assert_eq!(trim_string("  a b \r\n"), "a b");
    assert_eq!(trim_string("\u{3000}x\u{a0}"), "x");
    assert_eq!(trim_string(" \t "), "");
}

#[test]
fn trim_start_matches_strips_every_repetition() {
    assert_eq!(trim_start_matches("Basic Basic abc", "Basic "), "abc");
    assert_eq!(trim_start_matches("abc", "Basic "), "abc");
    assert_eq!(trim_start_matches("abc", ""), "abc");
    assert_eq!(trim_start_matches("default:default:", "default:"), "");
}

#[test]
fn decimal_rendering() {
    let mut s = String::from("port ");
    push_decimal(&mut s, 0);
    assert_eq!(s, "port 0");
    let mut t = String::new();
    push_decimal(&mut t, 18446744073709551615);
    assert_eq!(t, "18446744073709551615");
    let mut u = String::new();
    push_decimal(&mut u, 8080);
    assert_eq!(u, "8080");
}

#[test]
fn text_comparison_and_round_trip() {
    assert!(same_text("token", "token"));
    assert!(!same_text("token", "tokens"));
    assert!(!same_text("tokeN", "token"));
    let cs = chars_of("héllo");
    assert_eq!(cs, vec!['h', 'é', 'l', 'l', 'o']);
    assert_eq!(string_of(&cs), "héllo");
}
