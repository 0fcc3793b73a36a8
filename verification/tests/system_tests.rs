use aid::build_custom_config;
use aid::IdConfig;
use aid::IdSystem;

fn default_system() -> IdSystem {
    IdSystem::new(IdConfig::default()).unwrap()
}

#[test]
fn new_rejects_invalid_configuration() {
    let config = build_custom_config(0, "ABC", &[]);
    let err = IdSystem::new(config).err().unwrap();
    assert_eq!(err, "max_length must be positive");
}

#[test]
fn config_accessor_returns_active_configuration() {
    let system = IdSystem::new(build_custom_config(5, "abc", &["ba"])).unwrap();
    assert_eq!(system.config().max_length, 5);
    assert_eq!(system.config().alphabet, "ABC");
    assert_eq!(system.config().banned_substrings, vec!["BA".to_string()]);
}

#[test]
fn normalize_strips_whitespace_and_uppercases() {
    let system = default_system();
    assert_eq!(system.normalize("ab cd"), "ABCD");
    assert_eq!(system.normalize(" a\tb\nc d "), "ABCD");
    assert_eq!(system.normalize(""), "");
    assert_eq!(system.normalize(" \t\n"), "");
    assert_eq!(system.normalize("x9z"), "X9Z");
}

#[test]
fn normalize_strips_unicode_whitespace() {
    let system = default_system();
    assert_eq!(system.normalize("a\u{00A0}b\u{2003}c"), "ABC");
    assert_eq!(system.normalize("\u{3000}x\u{2028}9\u{205F}"), "X9");
}

#[test]
fn sanitize_drops_characters_outside_alphabet() {
    let system = default_system();
    // Normalization turns "ab!cd" into "AB!CD"; the default alphabet has
    // no 'A' and no '!', so only "BCD" survives.
    assert_eq!(system.sanitize("ab!cd"), "BCD");
    assert_eq!(system.sanitize("  w x\t1 "), "WX");
    assert_eq!(system.sanitize(""), "");
}

#[test]
fn sanitize_is_idempotent_on_its_output() {
    let system = default_system();
    for s in ["ab!cd", "  w x\t1 ", "", "PASSED", "0O1IL", "H3LL0 W0RLD"] {
        let once = system.sanitize(s);
        assert_eq!(system.sanitize(&once), once);
    }
}

#[test]
fn is_allowed_rejects_empty_normalized_candidate() {
    let system = default_system();
    assert!(!system.is_allowed(""));
    assert!(!system.is_allowed("  \t "));
}

#[test]
fn is_allowed_rejects_candidate_over_max_length() {
    let system = default_system();
    assert!(!system.is_allowed("23456789BCDFGHJKM"));
}

#[test]
fn is_allowed_rejects_non_alphabet_character() {
    let system = default_system();
    // 'O' is excluded from the default alphabet as visually ambiguous.
    assert!(!system.is_allowed("BOB"));
}

#[test]
fn is_allowed_rejects_banned_substring_inside_longer_run() {
    // Banning "ASS" also rejects "PASSED": substrings are matched
    // literally, not word-bounded.
    let system = IdSystem::new(build_custom_config(10, "PASEDFG", &["ass"])).unwrap();
    assert!(!system.is_allowed("PASSED"));
    assert!(system.is_allowed("PADDED"));
}

#[test]
fn is_allowed_accepts_valid_candidate() {
    let system = default_system();
    assert!(system.is_allowed("XK9P"));
    // Whitespace and case are normalized away before the checks.
    assert!(system.is_allowed(" xk 9p "));
}

#[test]
fn allowed_candidate_survives_normalization_roundtrip() {
    let system = default_system();
    for s in ["XK9P", " xk 9p ", "bcd", "234567"] {
        if system.is_allowed(s) {
            let normalized = system.normalize(s);
            assert!(system.is_allowed(&normalized));
            assert_eq!(system.normalize(&normalized), normalized);
        }
    }
    assert!(system.is_allowed(" xk 9p "));
}

#[test]
fn contains_banned_substring_checks_literal_runs() {
    let system = default_system();
    assert!(system.contains_banned_substring("XASSX"));
    assert!(!system.contains_banned_substring("XKX"));
}

#[test]
fn empty_banned_substring_rejects_everything() {
    let system = IdSystem::new(build_custom_config(5, "AB", &[""])).unwrap();
    assert!(system.contains_banned_substring("A"));
    assert!(!system.is_allowed("A"));
}
