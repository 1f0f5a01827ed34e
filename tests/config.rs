use homehub::config::{parse_i64, Config, ConfigError, Setting};

fn vars(skip: &str, access_age: &str) -> Vec<(String, String)> {
    let all = [
        ("DATABASE_URL", "postgres://db"),
        ("ACCESS_TOKEN_PRIVATE_KEY", "apriv"),
        ("ACCESS_TOKEN_PUBLIC_KEY", "apub"),
        ("REFRESH_TOKEN_PRIVATE_KEY", "rpriv"),
        ("REFRESH_TOKEN_PUBLIC_KEY", "rpub"),
        ("ACCESS_TOKEN_MAX_AGE", access_age),
        ("REFRESH_TOKEN_MAX_AGE", "604800"),
    ];
    all.iter()
        .filter(|(k, _)| *k != skip)
        .map(|(k, v)| (k.to_string(), v.to_string()))
        .collect()
}

#[test]
fn reads_full_configuration() {
    let mut v = vars("", "900");
    v.insert(0, ("HOME".to_string(), "/root".to_string()));
    let c = Config::from_env(&v).unwrap();
    assert_eq!(c.database_url, "postgres://db");
    assert_eq!(c.access_token_private_key, "apriv");
    assert_eq!(c.access_token_public_key, "apub");
    assert_eq!(c.refresh_token_private_key, "rpriv");
    assert_eq!(c.refresh_token_public_key, "rpub");
    assert_eq!(c.access_token_max_age, 900);
    assert_eq!(c.refresh_token_max_age, 604800);
}

#[test]
fn missing_setting_is_reported() {
    let e = Config::from_env(&vars("REFRESH_TOKEN_PUBLIC_KEY", "900")).unwrap_err();
    assert_eq!(e, ConfigError::Missing(Setting::RefreshTokenPublicKey));
    let e = Config::from_env(&vars("DATABASE_URL", "900")).unwrap_err();
    assert_eq!(e, ConfigError::Missing(Setting::DatabaseUrl));
    let e = Config::from_env(&Vec::new()).unwrap_err();
    assert_eq!(e, ConfigError::Missing(Setting::DatabaseUrl));
}

#[test]
fn non_integer_age_is_reported() {
    let e = Config::from_env(&vars("", "fifteen")).unwrap_err();
    assert_eq!(e, ConfigError::NotAnInteger(Setting::AccessTokenMaxAge));
}

#[test]
fn first_occurrence_wins() {
    let mut v = vars("", "900");
    v.push(("ACCESS_TOKEN_MAX_AGE".to_string(), "1".to_string()));
    assert_eq!(Config::from_env(&v).unwrap().access_token_max_age, 900);
}

#[test]
fn setting_keys() {
    assert_eq!(Setting::DatabaseUrl.key(), "DATABASE_URL");
    assert_eq!(Setting::RefreshTokenMaxAge.key(), "REFRESH_TOKEN_MAX_AGE");
}

#[test]
fn parse_i64_values() {
    assert_eq!(parse_i64("0"), Some(0));
    assert_eq!(parse_i64("42"), Some(42));
    assert_eq!(parse_i64("+42"), Some(42));
    assert_eq!(parse_i64("-42"), Some(-42));
    assert_eq!(parse_i64("007"), Some(7));
    assert_eq!(parse_i64("9223372036854775807"), Some(i64::MAX));
    assert_eq!(parse_i64("-9223372036854775808"), Some(i64::MIN));
    assert_eq!(parse_i64("9223372036854775808"), None);
    assert_eq!(parse_i64("-9223372036854775809"), None);
    assert_eq!(parse_i64("99999999999999999999999"), None);
    assert_eq!(parse_i64(""), None);
    assert_eq!(parse_i64("-"), None);
    assert_eq!(parse_i64("+"), None);
    assert_eq!(parse_i64("12a"), None);
    assert_eq!(parse_i64(" 1"), None);
    assert_eq!(parse_i64("--1"), None);
}
