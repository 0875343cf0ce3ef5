use devkit::profile::load_profile;
use devkit::{CliConfig, CliError, Profile};

fn profile(name: &str, url: &str, key: &str) -> Profile {
    Profile { name: name.to_string(), base_url: url.to_string(), api_key: key.to_string() }
}

#[test]
fn load_absent_file_is_empty_store() {
    let cfg = CliConfig::load(None).unwrap();
    assert_eq!(cfg.profiles.len(), 0);
}

#[test]
fn round_trip_empty_store() {
    let cfg = CliConfig { profiles: vec![] };
    let text = cfg.save();
    assert_eq!(text, "{\"profiles\":[]}");
    let back = CliConfig::load(Some(&text)).unwrap();
    assert_eq!(back, cfg);
}

#[test]
fn round_trip_one_profile_exact_text() {
    let cfg = CliConfig { profiles: vec![profile("default", "https://api.example.com", "k1")] };
    let text = cfg.save();
    assert_eq!(
        text,
        "{\"profiles\":[{\"name\":\"default\",\"base_url\":\"https://api.example.com\",\"api_key\":\"k1\"}]}"
    );
    let back = CliConfig::load(Some(&text)).unwrap();
    assert_eq!(back, cfg);
}

#[test]
fn round_trip_many_profiles_with_escapes() {
    let cfg = CliConfig {
        profiles: vec![
            profile("default", "https://a.example.com", "k\"quoted\""),
            profile("staging", "https://b.example.com/x", "back\\slash"),
            profile("odd name\twith tab", "http://c", ""),
        ],
    };
    let text = cfg.save();
    let back = CliConfig::load(Some(&text)).unwrap();
    assert_eq!(back, cfg);
}

#[test]
fn load_rejects_invalid_text() {
    for bad in [
        "",
        "{}",
        "not json at all",
        "{\"profiles\":}",
        "{\"profiles\":[",
        "{\"profiles\":[]} ",
        "{\"profiles\":[{\"name\":\"a\"}]}",
    ] {
        match CliConfig::load(Some(bad)) {
            Err(CliError::Storage(_)) => {}
            other => panic!("expected a storage error for {:?}, got {:?}", bad, other),
        }
    }
}

#[test]
fn upsert_appends_new_name() {
    let mut cfg = CliConfig { profiles: vec![profile("a", "u1", "k1")] };
    cfg.upsert_profile(profile("b", "u2", "k2"));
    assert_eq!(cfg.profiles.len(), 2);
    assert_eq!(cfg.profiles[1].name, "b");
}

#[test]
fn upsert_replaces_in_place_without_duplicating() {
    let mut cfg = CliConfig {
        profiles: vec![profile("default", "u1", "k1"), profile("other", "u2", "k2")],
    };
    cfg.upsert_profile(profile("default", "u3", "k3"));
    assert_eq!(cfg.profiles.len(), 2);
    assert_eq!(cfg.profiles[0].name, "default");
    assert_eq!(cfg.profiles[0].base_url, "u3");
    assert_eq!(cfg.profiles[0].api_key, "k3");
    assert_eq!(cfg.profiles[1], profile("other", "u2", "k2"));
    let count = cfg.profiles.iter().filter(|p| p.name == "default").count();
    assert_eq!(count, 1);
}

#[test]
fn upsert_twice_is_idempotent() {
    let mut once = CliConfig { profiles: vec![profile("a", "u1", "k1")] };
    once.upsert_profile(profile("a", "u2", "k2"));
    let mut twice = once.clone();
    twice.upsert_profile(profile("a", "u2", "k2"));
    assert_eq!(once, twice);
}

#[test]
fn get_profile_finds_first_exact_match() {
    let cfg = CliConfig {
        profiles: vec![profile("a", "u1", "k1"), profile("b", "u2", "k2")],
    };
    let p = cfg.get_profile("b").unwrap();
    assert_eq!(p.base_url, "u2");
    assert!(cfg.get_profile("nope").is_none());
    assert!(cfg.get_profile("A").is_none());
}

#[test]
fn missing_profile_is_a_configuration_error() {
    let cfg = CliConfig { profiles: vec![] };
    match load_profile(&cfg, "nope") {
        Err(CliError::Configuration(m)) => {
            assert_eq!(m, "Profile 'nope' not found. Run devkit login.");
        }
        other => panic!("expected a configuration error, got {:?}", other),
    }
}
