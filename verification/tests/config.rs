use buildbench::config::{Features, Profile};

#[test]
fn test_profile_defaults_to_release() {
    assert!(matches!(Profile::default(), Profile::Release));
    assert!(matches!(Features::default(), Features::Defaults));
}

#[test]
fn test_profile_try_from() {
    assert!(matches!(Profile::try_from("dev"), Some(Profile::Dev)));
    assert!(matches!(Profile::try_from("release"), Some(Profile::Release)));
    assert!(Profile::try_from("debug").is_none());
    assert!(Profile::try_from("").is_none());
    assert!(Profile::try_from("releases").is_none());
}

#[test]
fn test_features_try_from() {
    assert!(matches!(Features::try_from("defaults"), Some(Features::Defaults)));
    assert!(matches!(Features::try_from("no-defaults"), Some(Features::NoDefaults)));
    assert!(Features::try_from("nodefaults").is_none());
}

#[test]
fn test_possible_values() {
    assert_eq!(Profile::possible_values(), &["dev", "release"]);
    assert_eq!(Features::possible_values(), &["defaults", "no-defaults"]);
}

#[test]
fn test_as_str() {
    assert_eq!(Profile::Dev.as_str(), "dev");
    assert_eq!(Profile::Release.as_str(), "release");
    assert_eq!(Features::Defaults.as_str(), "defaults");
    assert_eq!(Features::NoDefaults.as_str(), "no-defaults");
}

#[test]
fn test_get_flags() {
    assert_eq!(Profile::Dev.get_flags(), None);
    assert_eq!(Profile::Release.get_flags(), Some("--release"));
}

#[test]
fn test_get_toml_value() {
    assert_eq!(Features::Defaults.get_toml_value(), None);
    assert_eq!(Features::NoDefaults.get_toml_value(), Some("default-features = false"));
}

#[test]
fn test_name_bytes_match_as_str() {
    assert_eq!(Profile::Dev.name_bytes(), b"dev".to_vec());
    assert_eq!(Profile::Release.name_bytes(), b"release".to_vec());
    assert_eq!(Features::Defaults.name_bytes(), b"defaults".to_vec());
    assert_eq!(Features::NoDefaults.name_bytes(), b"no-defaults".to_vec());
}
