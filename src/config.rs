//! Backend settings, and the value that holds the current ones: a read
//! hands out a full copy, a reload replaces the whole value.

use vstd::prelude::*;
use vstd::utf8::encode_utf8;
use vstd::slice::slice_subrange;
use crate::record::{bounded_decimal, parse_decimal, unsigned_value, parse_unsigned};

verus! {

pub const DEFAULT_ENVIRONMENT: &'static str = "development";
pub const DEFAULT_LOG_LEVEL: &'static str = "info";
pub const DEFAULT_API_HOST: &'static str = "127.0.0.1";
pub const DEFAULT_API_PORT: u16 = 8000;
pub const DEFAULT_DATABASE_URL: &'static str = "sqlite:///app/data/app.db";
pub const DEFAULT_API_TOKEN: &'static str = "dev_api_token";
pub const DEFAULT_JWT_SECRET: &'static str = "dev_jwt_secret";
pub const DEFAULT_TOKEN_EXPIRE_MINUTES: i64 = 30;
pub const DEFAULT_BACKEND_URL: &'static str = "http://localhost:5000";

/// The backend's settings.
pub struct Config {
    pub environment: String,
    pub log_level: String,
    pub api_host: String,
    pub api_port: u16,
    pub database_url: String,
    pub api_token: String,
    pub jwt_secret: String,
    pub access_token_expire_minutes: i64,
    pub backend_url: String,
}

/// The text of a setting: the given value, else the default.
pub open spec fn text_value(value: Option<Seq<char>>, default: Seq<char>) -> Seq<char> {
    match value {
        Some(v) => v,
        None => default,
    }
}

/// The byte `-`.
pub const MINUS: u8 = 45;

/// A 64-bit signed number as `str::parse` reads it: an optional `+` or `-`,
/// then decimal digits, with a value in the range of `i64`.
pub open spec fn signed_value(s: Seq<u8>) -> Option<i64> {
    if s.len() > 0 && s[0] == MINUS {
        match bounded_decimal(s.skip(1), 9_223_372_036_854_775_808) {
            Some(n) => Some((0 - n) as i64),
            None => None,
        }
    } else {
        match unsigned_value(s, 9_223_372_036_854_775_807) {
            Some(n) => Some(n as i64),
            None => None,
        }
    }
}

/// An unsigned setting: the given value where it reads as a number no
/// greater than `max`, else the default.
pub open spec fn number_value(value: Option<Seq<char>>, max: u64, default: u64) -> u64 {
    match value {
        Some(v) => match unsigned_value(encode_utf8(v), max) {
            Some(n) => n,
            None => default,
        },
        None => default,
    }
}

/// A signed setting: the given value where it reads as an `i64`, else the
/// default.
pub open spec fn signed_number_value(value: Option<Seq<char>>, default: i64) -> i64 {
    match value {
        Some(v) => match signed_value(encode_utf8(v)) {
            Some(n) => n,
            None => default,
        },
        None => default,
    }
}

/// Reads a 64-bit signed number: an optional `+` or `-`, then digits.
pub fn parse_signed(s: &[u8]) -> (r: Option<i64>)
    ensures
        r == signed_value(s@),
{
    if s.len() > 0 && s[0] == MINUS {
        let rest = slice_subrange(s, 1, s.len());
        assert(rest@ =~= s@.skip(1));
        match parse_decimal(rest, 9_223_372_036_854_775_808) {
            Some(n) => if n == 9_223_372_036_854_775_808 {
                Some(i64::MIN)
            } else {
                Some(-(n as i64))
            },
            None => None,
        }
    } else {
        match parse_unsigned(s, 9_223_372_036_854_775_807) {
            Some(n) => Some(n as i64),
            None => None,
        }
    }
}

pub open spec fn string_view(value: &Option<String>) -> Option<Seq<char>> {
    match value {
        Some(v) => Some(v@),
        None => None,
    }
}

/// The text of a setting: the given value, else the default.
pub fn text_setting(value: Option<String>, default: &str) -> (r: String)
    ensures
        r@ == text_value(string_view(&value), default@),
{
    match value {
        Some(v) => v,
        None => String::from_str(default),
    }
}

/// An unsigned setting: the given value where it reads as a number no
/// greater than `max`, else the default.
pub fn number_setting(value: &Option<String>, max: u64, default: u64) -> (r: u64)
    ensures
        r == number_value(string_view(value), max, default),
{
    match value {
        Some(v) => match parse_unsigned(v.as_str().as_bytes(), max) {
            Some(n) => n,
            None => default,
        },
        None => default,
    }
}

/// A signed setting: the given value where it reads as an `i64`, else the
/// default.
pub fn signed_setting(value: &Option<String>, default: i64) -> (r: i64)
    ensures
        r == signed_number_value(string_view(value), default),
{
    match value {
        Some(v) => match parse_signed(v.as_str().as_bytes()) {
            Some(n) => n,
            None => default,
        },
        None => default,
    }
}

impl Config {
    /// Settings from the values found for each (if any), with the defaults
    /// for those that are missing or do not read as numbers.
    pub fn from_settings(
        environment: Option<String>,
        log_level: Option<String>,
        api_host: Option<String>,
        api_port: Option<String>,
        database_url: Option<String>,
        api_token: Option<String>,
        jwt_secret: Option<String>,
        access_token_expire_minutes: Option<String>,
        backend_url: Option<String>,
    ) -> (r: Config)
        ensures
            r.environment@ == text_value(string_view(&environment), DEFAULT_ENVIRONMENT@),
            r.log_level@ == text_value(string_view(&log_level), DEFAULT_LOG_LEVEL@),
            r.api_host@ == text_value(string_view(&api_host), DEFAULT_API_HOST@),
            r.api_port == number_value(string_view(&api_port), 65535, DEFAULT_API_PORT as u64),
            r.database_url@ == text_value(string_view(&database_url), DEFAULT_DATABASE_URL@),
            r.api_token@ == text_value(string_view(&api_token), DEFAULT_API_TOKEN@),
            r.jwt_secret@ == text_value(string_view(&jwt_secret), DEFAULT_JWT_SECRET@),
            r.access_token_expire_minutes == signed_number_value(
                string_view(&access_token_expire_minutes),
                DEFAULT_TOKEN_EXPIRE_MINUTES,
            ),
            r.backend_url@ == text_value(string_view(&backend_url), DEFAULT_BACKEND_URL@),
    {
        let port = number_setting(&api_port, 65535, DEFAULT_API_PORT as u64);
        let minutes = signed_setting(&access_token_expire_minutes, DEFAULT_TOKEN_EXPIRE_MINUTES);
        Config {
            environment: text_setting(environment, DEFAULT_ENVIRONMENT),
            log_level: text_setting(log_level, DEFAULT_LOG_LEVEL),
            api_host: text_setting(api_host, DEFAULT_API_HOST),
            api_port: port as u16,
            database_url: text_setting(database_url, DEFAULT_DATABASE_URL),
            api_token: text_setting(api_token, DEFAULT_API_TOKEN),
            jwt_secret: text_setting(jwt_secret, DEFAULT_JWT_SECRET),
            access_token_expire_minutes: minutes,
            backend_url: text_setting(backend_url, DEFAULT_BACKEND_URL),
        }
    }

    /// A full copy of these settings.
    pub fn snapshot(&self) -> (r: Config)
        ensures
            r == *self,
    {
        Config {
            environment: self.environment.clone(),
            log_level: self.log_level.clone(),
            api_host: self.api_host.clone(),
            api_port: self.api_port,
            database_url: self.database_url.clone(),
            api_token: self.api_token.clone(),
            jwt_secret: self.jwt_secret.clone(),
            access_token_expire_minutes: self.access_token_expire_minutes,
            backend_url: self.backend_url.clone(),
        }
    }
}

/// The current settings. A read hands out a full copy; a reload replaces the
/// whole value. (Sharing between threads is up to the owner, e.g. behind a
/// reader/writer lock.)
pub struct ConfigStore {
    pub current: Config,
}

impl ConfigStore {
    pub fn new(config: Config) -> (r: ConfigStore)
        ensures
            r.current == config,
    {
        ConfigStore { current: config }
    }
}

/// A full copy of the current settings.
pub fn get_config(store: &ConfigStore) -> (r: Config)
    ensures
        r == store.current,
{
    store.current.snapshot()
}

/// Replaces the current settings with `fresh` as a whole.
pub fn reload_config(store: &mut ConfigStore, fresh: Config)
    ensures
        final(store).current == fresh,
{
    store.current = fresh;
}

} // verus!
