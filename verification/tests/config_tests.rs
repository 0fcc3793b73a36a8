use aid::build_custom_config;
use aid::IdConfig;
use aid::DEFAULT_MAX_LENGTH;

#[test]
fn default_config_is_valid() {
    let config = IdConfig::default();
    assert!(config.validate().is_ok());
    assert_eq!(config.max_length, DEFAULT_MAX_LENGTH);
    assert_eq!(config.alphabet, "23456789BCDFGHJKMNPQRSTVWXYZ");
    assert_eq!(config.banned_substrings.len(), 22);
    assert!(config.banned_substrings.iter().any(|b| b == "ASS"));
}

#[test]
fn validate_rejects_zero_max_length() {
    let config = build_custom_config(0, "ABC", &[]);
    assert_eq!(config.validate(), Err("max_length must be positive".to_string()));
}

#[test]
fn validate_rejects_duplicate_alphabet() {
    let config = build_custom_config(4, "AAB", &[]);
    assert_eq!(
        config.validate(),
        Err("alphabet must not contain duplicates".to_string())
    );
}

#[test]
fn validate_rejects_lowercase_alphabet() {
    let config = IdConfig {
        max_length: 4,
        alphabet: "ab1".to_string(),
        banned_substrings: Vec::new(),
    };
    assert_eq!(
        config.validate(),
        Err("alphabet must be alphanumeric uppercase characters only".to_string())
    );
}

#[test]
fn validate_rejects_symbols_in_alphabet() {
    let config = IdConfig {
        max_length: 4,
        alphabet: "AB-".to_string(),
        banned_substrings: Vec::new(),
    };
    assert_eq!(
        config.validate(),
        Err("alphabet must be alphanumeric uppercase characters only".to_string())
    );
}

#[test]
fn validate_accepts_empty_alphabet() {
    let config = IdConfig {
        max_length: 4,
        alphabet: String::new(),
        banned_substrings: Vec::new(),
    };
    assert!(config.validate().is_ok());
}

#[test]
fn build_custom_config_uppercases_inputs() {
    let config = build_custom_config(8, "abc123", &["bad", "Worse"]);
    assert_eq!(config.max_length, 8);
    assert_eq!(config.alphabet, "ABC123");
    assert_eq!(config.banned_substrings, vec!["BAD".to_string(), "WORSE".to_string()]);
}

#[test]
fn build_custom_config_performs_no_validation() {
    let config = build_custom_config(0, "AAB", &[]);
    assert_eq!(config.max_length, 0);
    assert_eq!(config.alphabet, "AAB");
    assert!(config.validate().is_err());
}
