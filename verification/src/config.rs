//! The configuration of the token codec: made once, when the process
//! starts, and handed to every function that signs or verifies.

use crate::text::{parse_i64, parsed_i64};
use vstd::prelude::*;

verus! {

/// The signing secret and the lifetimes of the two kinds of token.
#[derive(Debug, Clone, PartialEq, Eq)]
pub struct AuthConfig {
    pub secret: String,
    /// The lifetime of an access token, in seconds.
    pub access_token_exp_sec: i64,
    /// The lifetime of a refresh token, in days.
    pub refresh_token_exp_day: i64,
}

/// What an `AuthConfig` holds.
pub struct ConfigView {
    pub secret: Seq<char>,
    pub access_token_exp_sec: i64,
    pub refresh_token_exp_day: i64,
}

impl View for AuthConfig {
    type V = ConfigView;

    open spec fn view(&self) -> ConfigView {
        ConfigView {
            secret: self.secret@,
            access_token_exp_sec: self.access_token_exp_sec,
            refresh_token_exp_day: self.refresh_token_exp_day,
        }
    }
}

/// Why no configuration could be made.
#[derive(Debug, Clone, Copy, PartialEq, Eq, Structural)]
pub enum ConfigError {
    /// `SECRET` is not set.
    MissingSecret,
    /// `ACCESS_TOKEN_EXP_SEC` is not set.
    MissingAccessLifetime,
    /// `ACCESS_TOKEN_EXP_SEC` is not a number.
    InvalidAccessLifetime,
    /// `REFRESH_TOKEN_EXP_DAY` is not set.
    MissingRefreshLifetime,
    /// `REFRESH_TOKEN_EXP_DAY` is not a number.
    InvalidRefreshLifetime,
}

/// The lifetime that a setting writes: `missing` where it is not set,
/// `invalid` where it is no decimal integer within `i64`.
pub open spec fn lifetime_setting(
    value: Option<Seq<char>>,
    missing: ConfigError,
    invalid: ConfigError,
) -> Result<i64, ConfigError> {
    match value {
        None => Err(missing),
        Some(text) => match parsed_i64(text) {
            Some(n) => Ok(n),
            None => Err(invalid),
        },
    }
}

/// The configuration that the three settings give, or the first thing that
/// is wrong with them: the secret is looked at first, then the lifetime of
/// access tokens, then that of refresh tokens.
pub open spec fn config_outcome(
    secret: Option<Seq<char>>,
    access_token_exp_sec: Option<Seq<char>>,
    refresh_token_exp_day: Option<Seq<char>>,
) -> Result<ConfigView, ConfigError> {
    match secret {
        None => Err(ConfigError::MissingSecret),
        Some(secret) => match lifetime_setting(
            access_token_exp_sec,
            ConfigError::MissingAccessLifetime,
            ConfigError::InvalidAccessLifetime,
        ) {
            Err(e) => Err(e),
            Ok(access) => match lifetime_setting(
                refresh_token_exp_day,
                ConfigError::MissingRefreshLifetime,
                ConfigError::InvalidRefreshLifetime,
            ) {
                Err(e) => Err(e),
                Ok(refresh) => Ok(
                    ConfigView {
                        secret,
                        access_token_exp_sec: access,
                        refresh_token_exp_day: refresh,
                    },
                ),
            },
        },
    }
}

/// What a text that may be absent holds.
pub open spec fn setting_text(value: Option<String>) -> Option<Seq<char>> {
    match value {
        Some(text) => Some(text@),
        None => None,
    }
}

/// What a result with a configuration in it holds.
pub open spec fn config_view(r: Result<AuthConfig, ConfigError>) -> Result<ConfigView, ConfigError> {
    match r {
        Ok(config) => Ok(config@),
        Err(e) => Err(e),
    }
}

fn read_lifetime(value: &Option<String>, missing: ConfigError, invalid: ConfigError) -> (r: Result<
    i64,
    ConfigError,
>)
    ensures
        r == lifetime_setting(setting_text(*value), missing, invalid),
{
    match value {
        None => Err(missing),
        Some(text) => match parse_i64(text.as_str()) {
            Some(n) => Ok(n),
            None => Err(invalid),
        },
    }
}

impl AuthConfig {
    /// A configuration with the given secret and lifetimes.
    pub fn new(secret: String, access_token_exp_sec: i64, refresh_token_exp_day: i64) -> (r: Self)
        ensures
            r.secret == secret,
            r.access_token_exp_sec == access_token_exp_sec,
            r.refresh_token_exp_day == refresh_token_exp_day,
    {
        AuthConfig { secret, access_token_exp_sec, refresh_token_exp_day }
    }

    /// The configuration that the settings `SECRET`, `ACCESS_TOKEN_EXP_SEC`
    /// and `REFRESH_TOKEN_EXP_DAY` give, each as the text it was set to or
    /// `None` where it is not set.
    pub fn from_settings(
        secret: Option<String>,
        access_token_exp_sec: Option<String>,
        refresh_token_exp_day: Option<String>,
    ) -> (r: Result<Self, ConfigError>)
        ensures
            config_view(r) == config_outcome(
                setting_text(secret),
                setting_text(access_token_exp_sec),
                setting_text(refresh_token_exp_day),
            ),
    {
        let secret = match secret {
            None => {
                return Err(ConfigError::MissingSecret);
            },
            Some(secret) => secret,
        };
        let access = match read_lifetime(
            &access_token_exp_sec,
            ConfigError::MissingAccessLifetime,
            ConfigError::InvalidAccessLifetime,
        ) {
            Err(e) => {
                return Err(e);
            },
            Ok(n) => n,
        };
        let refresh = match read_lifetime(
            &refresh_token_exp_day,
            ConfigError::MissingRefreshLifetime,
            ConfigError::InvalidRefreshLifetime,
        ) {
            Err(e) => {
                return Err(e);
            },
            Ok(n) => n,
        };
        Ok(AuthConfig { secret, access_token_exp_sec: access, refresh_token_exp_day: refresh })
    }
}

} // verus!
