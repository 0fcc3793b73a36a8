use aid::build_custom_config;
use aid::IdConfig;
use aid::IdSystem;

#[test]
fn generate_rejects_zero_length() {
    let system = IdSystem::new(IdConfig::default()).unwrap();
    assert_eq!(system.generate(0), Err("length must be 1..16".to_string()));
}

#[test]
fn generate_rejects_length_over_max() {
    let system = IdSystem::new(IdConfig::default()).unwrap();
    assert_eq!(system.generate(17), Err("length must be 1..16".to_string()));
}

#[test]
fn generate_error_names_custom_range() {
    let system = IdSystem::new(build_custom_config(3, "ABC", &[])).unwrap();
    assert_eq!(system.generate(4), Err("length must be 1..3".to_string()));
}

#[test]
fn generate_error_renders_multi_digit_range() {
    let system = IdSystem::new(build_custom_config(120, "ABC", &[])).unwrap();
    assert_eq!(system.generate(0), Err("length must be 1..120".to_string()));
}

#[test]
fn generate_default_length_eight() {
    let system = IdSystem::new(IdConfig::default()).unwrap();
    let id = system.generate(8).unwrap();
    assert_eq!(id.chars().count(), 8);
    for c in id.chars() {
        assert!("23456789BCDFGHJKMNPQRSTVWXYZ".contains(c));
    }
    assert!(system.is_allowed(&id));
}

#[test]
fn generate_every_valid_length() {
    let system = IdSystem::new(IdConfig::default()).unwrap();
    for length in 1..=16 {
        let id = system.generate(length).unwrap();
        assert_eq!(id.chars().count(), length);
        for c in id.chars() {
            assert!("23456789BCDFGHJKMNPQRSTVWXYZ".contains(c));
        }
        assert!(system.is_allowed(&id));
    }
}

#[test]
fn generate_never_returns_banned_pair() {
    // With alphabet {A, B} and banned "AB", a length-1 identifier is
    // always accepted on the first draw, and a length-2 identifier can
    // only be "AA", "BB" or "BA".
    let system = IdSystem::new(build_custom_config(2, "AB", &["AB"])).unwrap();
    for _ in 0..50 {
        let one = system.generate(1).unwrap();
        assert!(one == "A" || one == "B");
        let two = system.generate(2).unwrap();
        assert!(two == "AA" || two == "BB" || two == "BA", "unexpected identifier {two}");
        assert_ne!(two, "AB");
    }
}

#[test]
fn generate_reports_exhaustion_when_everything_is_banned() {
    // Every length-1 candidate is banned, so sampling can never succeed.
    let system = IdSystem::new(build_custom_config(1, "A", &["A"])).unwrap();
    assert_eq!(system.generate(1), Err("exhausted retries".to_string()));
}

#[test]
fn generated_identifiers_avoid_banned_words() {
    let system = IdSystem::new(build_custom_config(6, "HELO", &["HELL"])).unwrap();
    for _ in 0..200 {
        let id = system.generate(4).unwrap();
        assert!(!id.contains("HELL"), "banned substring in {id}");
    }
}
