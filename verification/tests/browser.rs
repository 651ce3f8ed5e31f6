use herdr_reviewr::browser::{hostile_char, openable_url};

#[test]
fn the_url_guard_admits_http_and_https_case_insensitively() {
    assert_eq!(openable_url("https://ci.example/1"), Ok("https://ci.example/1"));
    assert_eq!(openable_url("HTTP://ci.example"), Ok("HTTP://ci.example"));
    assert_eq!(openable_url("  https://x.dev  "), Ok("https://x.dev"), "trimmed");
}

#[test]
fn the_url_guard_rejects_other_schemes_and_hostile_bytes() {
    for bad in [
        "javascript:alert(1)",
        "file:///etc/passwd",
        "https:evil",
        "https://",
        "ftp://host",
        "https://a\u{202e}b",
        "https://a\u{1b}[31mb",
        "",
    ] {
        assert!(openable_url(bad).is_err(), "{bad:?} must not open");
    }
}

#[test]
fn the_refusal_names_the_scheme() {
    assert_eq!(openable_url("ftp://host"), Err("unsupported link scheme"));
    assert_eq!(openable_url("hTtPs://a"), Ok("hTtPs://a"));
    assert_eq!(openable_url("http://a"), Ok("http://a"));
    assert!(openable_url("http://").is_err());
}

#[test]
fn controls_and_bidi_formatting_are_hostile() {
    assert!(hostile_char('\u{0}'));
    assert!(hostile_char('\u{7f}'));
    assert!(hostile_char('\u{9b}'));
    assert!(hostile_char('\u{2066}'));
    assert!(!hostile_char('a'));
    assert!(!hostile_char('\u{a0}'));
}
