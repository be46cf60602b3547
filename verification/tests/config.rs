use rl_auth::config::{AuthConfig, ConfigError};

fn text(s: &str) -> Option<String> {
    Some(s.to_string())
}

#[test]
fn settings_give_a_configuration() {
    let config = AuthConfig::from_settings(text("s3cret"), text("900"), text("7")).unwrap();
    assert_eq!(config.secret, "s3cret");
    assert_eq!(config.access_token_exp_sec, 900);
    assert_eq!(config.refresh_token_exp_day, 7);
    assert_eq!(config, AuthConfig::new("s3cret".to_string(), 900, 7));
}

#[test]
fn a_missing_setting_is_reported() {
    assert_eq!(
        AuthConfig::from_settings(None, text("900"), text("7")),
        Err(ConfigError::MissingSecret)
    );
    assert_eq!(
        AuthConfig::from_settings(text("s"), None, text("7")),
        Err(ConfigError::MissingAccessLifetime)
    );
    assert_eq!(
        AuthConfig::from_settings(text("s"), text("900"), None),
        Err(ConfigError::MissingRefreshLifetime)
    );
}

#[test]
fn a_lifetime_that_is_no_number_is_reported() {
    assert_eq!(
        AuthConfig::from_settings(text("s"), text("soon"), text("7")),
        Err(ConfigError::InvalidAccessLifetime)
    );
    assert_eq!(
        AuthConfig::from_settings(text("s"), text("900"), text("7d")),
        Err(ConfigError::InvalidRefreshLifetime)
    );
    assert_eq!(
        AuthConfig::from_settings(text("s"), text(""), text("7")),
        Err(ConfigError::InvalidAccessLifetime)
    );
}

#[test]
fn the_first_fault_is_the_one_reported() {
    assert_eq!(AuthConfig::from_settings(None, None, None), Err(ConfigError::MissingSecret));
    assert_eq!(
        AuthConfig::from_settings(text("s"), text("x"), None),
        Err(ConfigError::InvalidAccessLifetime)
    );
    assert_eq!(
        AuthConfig::from_settings(text("s"), None, text("x")),
        Err(ConfigError::MissingAccessLifetime)
    );
}

#[test]
fn an_empty_secret_and_negative_lifetimes_are_taken_as_they_are() {
    let config = AuthConfig::from_settings(text(""), text("-1"), text("-2")).unwrap();
    assert_eq!(config.secret, "");
    assert_eq!(config.access_token_exp_sec, -1);
    assert_eq!(config.refresh_token_exp_day, -2);
}
