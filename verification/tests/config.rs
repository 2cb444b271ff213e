use kqr::config::{default_profile_name, default_ttl_str, CacheConfig, Config, Profile};
use kqr::env::expand_env_in;
use kqr::error::Error;
use kqr::time::Span;

fn profile(brokers: &str) -> Profile {
    Profile {
        brokers: brokers.to_string(),
        ..Profile::default()
    }
}

fn config(default_profile: &str, profiles: Vec<(&str, Profile)>) -> Config {
    Config {
        default_profile: default_profile.to_string(),
        profiles: profiles.into_iter().map(|(n, p)| (n.to_string(), p)).collect(),
        cache: CacheConfig::default(),
    }
}

fn env(pairs: &[(&str, &str)]) -> Vec<(String, String)> {
    pairs.iter().map(|(k, v)| (k.to_string(), v.to_string())).collect()
}

#[test]
fn select_profile_default() {
    let cfg = config("x", vec![("x", profile("h:9092"))]);
    let p = cfg.select_profile(None, &[]).unwrap();
    assert_eq!(p.brokers, "h:9092");
}

#[test]
fn select_profile_explicit() {
    let cfg = config("x", vec![("x", profile("x:9092")), ("y", profile("y:9092"))]);
    let p = cfg.select_profile(Some("y"), &[]).unwrap();
    assert_eq!(p.brokers, "y:9092");
}

#[test]
fn select_profile_missing_errors() {
    let cfg = config("x", vec![]);
    let err = cfg.select_profile(None, &[]).unwrap_err();
    assert!(matches!(err, Error::ConfigProfileMissing(ref n) if n == "x"));
}

#[test]
fn env_expansion_replaces_var() {
    let e = env(&[("KQR_TEST_USER_VAR", "hunter2")]);
    assert_eq!(expand_env_in("u=${KQR_TEST_USER_VAR};", &e).unwrap(), "u=hunter2;");
}

#[test]
fn env_expansion_missing_errors() {
    let err = expand_env_in("${KQR_TEST_DEFINITELY_UNSET}", &[]).unwrap_err();
    assert!(matches!(err, Error::ConfigEnvMissing(_)));
}

#[test]
fn env_expansion_unterminated_errors() {
    let err = expand_env_in("oops ${UNCLOSED", &[]).unwrap_err();
    assert!(matches!(err, Error::ConfigEnvSyntax));
}

#[test]
fn env_expansion_no_dollar_passthrough() {
    assert_eq!(expand_env_in("plain text $bare", &[]).unwrap(), "plain text $bare");
}

#[test]
fn select_profile_expands_env() {
    let e = env(&[("KQR_TEST_PASS", "s3cret")]);
    let mut p = profile("h:9092");
    p.sasl_password = Some("${KQR_TEST_PASS}".to_string());
    let cfg = config("p", vec![("p", p)]);
    let prof = cfg.select_profile(None, &e).unwrap();
    assert_eq!(prof.sasl_password.as_deref(), Some("s3cret"));
}

#[test]
fn cache_ttl_default_one_hour() {
    let cfg = CacheConfig::default();
    assert_eq!(cfg.ttl_duration().unwrap(), Span::from_secs(3600));
}

#[test]
fn cache_ttl_custom() {
    let cfg = CacheConfig {
        ttl: "30m".to_string(),
    };
    assert_eq!(cfg.ttl_duration().unwrap(), Span::from_secs(1800));
}

// Further cases.

#[test]
fn cache_ttl_invalid_errors() {
    let cfg = CacheConfig {
        ttl: "soonish".to_string(),
    };
    match cfg.ttl_duration().unwrap_err() {
        Error::ConfigDuration(s, _) => assert_eq!(s, "soonish"),
        other => panic!("unexpected {:?}", other),
    }
}

#[test]
fn defaults_for_missing_fields() {
    assert_eq!(default_profile_name(), "default");
    assert_eq!(default_ttl_str(), "1h");
    let cfg = Config::default();
    assert_eq!(cfg.default_profile, "");
    assert!(cfg.profiles.is_empty());
    assert_eq!(cfg.cache.ttl, "1h");
}

#[test]
fn env_expansion_empty_name_errors() {
    assert!(matches!(expand_env_in("a${}b", &[]).unwrap_err(), Error::ConfigEnvSyntax));
}

#[test]
fn env_expansion_first_fault_decides() {
    let err = expand_env_in("${A} ${", &[]).unwrap_err();
    match err {
        Error::ConfigEnvMissing(n) => assert_eq!(n, "A"),
        other => panic!("unexpected {:?}", other),
    }
}

#[test]
fn env_expansion_several_and_adjacent() {
    let e = env(&[("A", "1"), ("B", "two"), ("A", "shadowed")]);
    assert_eq!(expand_env_in("$${A}${B}$", &e).unwrap(), "$1two$");
}

#[test]
fn select_profile_reports_env_fault_of_first_field() {
    let mut p = profile("${NOPE}");
    p.sasl_username = Some("${ALSO_NOPE".to_string());
    let cfg = config("p", vec![("p", p)]);
    match cfg.select_profile(None, &[]).unwrap_err() {
        Error::ConfigEnvMissing(n) => assert_eq!(n, "NOPE"),
        other => panic!("unexpected {:?}", other),
    }
}

#[test]
fn select_profile_first_of_duplicates() {
    let cfg = config("d", vec![("d", profile("first:1")), ("d", profile("second:2"))]);
    assert_eq!(cfg.select_profile(None, &[]).unwrap().brokers, "first:1");
}
