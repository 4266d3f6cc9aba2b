//! The page-rendering service: its settings, the data its pages show, and
//! how it addresses the backend.

use vstd::prelude::*;
use vstd::utf8::{encode_utf8, is_ascii_chars_encode_utf8};
use crate::auth::{AuthDecision, auth_decision, bearer_prefix, is_plain_token, lemma_bearer_scheme_case_sensitive};
use crate::config::{text_value, number_value, string_view, text_setting, number_setting};

verus! {

pub const DEFAULT_ENVIRONMENT: &'static str = "development";
pub const DEFAULT_LOG_LEVEL: &'static str = "info";
pub const DEFAULT_WEB_HOST: &'static str = "127.0.0.1";
pub const DEFAULT_WEB_PORT: u16 = 3000;
pub const DEFAULT_API_URL: &'static str = "http://localhost:8000";
pub const DEFAULT_API_TOKEN: &'static str = "dev_api_token";

/// The page service's settings.
pub struct Config {
    pub environment: String,
    pub log_level: String,
    pub web_host: String,
    pub web_port: u16,
    pub api_url: String,
    pub api_token: String,
}

impl Config {
    /// Settings from the values found for each (if any), with the defaults
    /// for those that are missing or do not read as numbers.
    pub fn from_settings(
        environment: Option<String>,
        log_level: Option<String>,
        web_host: Option<String>,
        web_port: Option<String>,
        api_url: Option<String>,
        api_token: Option<String>,
    ) -> (r: Config)
        ensures
            r.environment@ == text_value(string_view(&environment), DEFAULT_ENVIRONMENT@),
            r.log_level@ == text_value(string_view(&log_level), DEFAULT_LOG_LEVEL@),
            r.web_host@ == text_value(string_view(&web_host), DEFAULT_WEB_HOST@),
            r.web_port == number_value(string_view(&web_port), 65535, DEFAULT_WEB_PORT as u64),
            r.api_url@ == text_value(string_view(&api_url), DEFAULT_API_URL@),
            r.api_token@ == text_value(string_view(&api_token), DEFAULT_API_TOKEN@),
    {
        let port = number_setting(&web_port, 65535, DEFAULT_WEB_PORT as u64);
        Config {
            environment: text_setting(environment, DEFAULT_ENVIRONMENT),
            log_level: text_setting(log_level, DEFAULT_LOG_LEVEL),
            web_host: text_setting(web_host, DEFAULT_WEB_HOST),
            web_port: port as u16,
            api_url: text_setting(api_url, DEFAULT_API_URL),
            api_token: text_setting(api_token, DEFAULT_API_TOKEN),
        }
    }

    /// A full copy of these settings.
    pub fn snapshot(&self) -> (r: Config)
        ensures
            r == *self,
    {
        Config {
            environment: self.environment.clone(),
            log_level: self.log_level.clone(),
            web_host: self.web_host.clone(),
            web_port: self.web_port,
            api_url: self.api_url.clone(),
            api_token: self.api_token.clone(),
        }
    }
}

/// The current settings. A read hands out a full copy; a reload replaces the
/// whole value. (Sharing between threads is up to the owner, e.g. behind a
/// reader/writer lock.)
pub struct ConfigStore {
    pub current: Config,
}

impl ConfigStore {
    pub fn new(config: Config) -> (r: ConfigStore)
        ensures
            r.current == config,
    {
        ConfigStore { current: config }
    }
}

/// A full copy of the current settings.
pub fn get_config(store: &ConfigStore) -> (r: Config)
    ensures
        r == store.current,
{
    store.current.snapshot()
}

/// Replaces the current settings with `fresh` as a whole.
pub fn reload_config(store: &mut ConfigStore, fresh: Config)
    ensures
        final(store).current == fresh,
{
    store.current = fresh;
}

/// The value of the `Authorization` header that the backend expects:
/// `Bearer ` and the token.
pub fn authorization_value(token: &str) -> (r: String)
    ensures
        r@ == "Bearer "@ + token@,
{
    let r = String::from_str("Bearer ").concat(token);
    r
}

/// The UTF-8 bytes of two texts joined are the bytes of each, joined.
pub proof fn lemma_encode_utf8_concat(a: Seq<char>, b: Seq<char>)
    ensures
        encode_utf8(a + b) == encode_utf8(a) + encode_utf8(b),
    decreases a.len(),
{
    if a.len() == 0 {
        assert(a + b =~= b);
        assert(encode_utf8(a) + encode_utf8(b) =~= encode_utf8(b));
    } else {
        assert((a + b)[0] == a[0]);
        assert((a + b).drop_first() =~= a.drop_first() + b);
        lemma_encode_utf8_concat(a.drop_first(), b);
        assert(encode_utf8(a + b) =~= encode_utf8(a) + encode_utf8(b));
    }
}

/// The `Authorization` value that this service sends passes the backend's
/// check on every path whenever both hold the same token.
pub proof fn lemma_authorization_value_accepted(health: Seq<char>, path: Seq<char>, token: Seq<char>)
    requires
        is_plain_token(encode_utf8(token)),
    ensures
        auth_decision(health, path, Some(encode_utf8("Bearer "@ + token)), encode_utf8(token))
            == AuthDecision::Forward,
{
    reveal_strlit("Bearer ");
    lemma_encode_utf8_concat("Bearer "@, token);
    is_ascii_chars_encode_utf8("Bearer "@);
    assert(encode_utf8("Bearer "@) =~= bearer_prefix());
    lemma_bearer_scheme_case_sensitive(health, path, encode_utf8(token));
}

/// Whether an HTTP status reports success (2xx).
pub open spec fn is_success(status: u16) -> bool {
    200 <= status <= 299
}

/// What a backend answer amounts to before its body is read as data: success
/// for a 2xx status; otherwise the status with the error text, or `Unknown
/// error` where the text could not be read.
pub fn check_status(status: u16, error_text: Option<String>) -> (r: Result<(), (u16, String)>)
    ensures
        is_success(status) ==> r is Ok,
        !is_success(status) ==> (r matches Err(e) && e.0 == status && e.1@ == match error_text {
            Some(t) => t@,
            None => "Unknown error"@,
        }),
{
    if 200 <= status && status <= 299 {
        Ok(())
    } else {
        let text = match error_text {
            Some(t) => t,
            None => String::from_str("Unknown error"),
        };
        Err((status, text))
    }
}

/// The address of `path` on the backend at `base_url`.
pub fn endpoint_url(base_url: &str, path: &str) -> (r: String)
    ensures
        r@ == base_url@ + path@,
{
    String::from_str(base_url).concat(path)
}

pub struct User {
    pub id: i64,
    pub username: String,
    pub email: String,
    pub is_active: bool,
    pub is_admin: bool,
    pub created_at: String,
    pub updated_at: String,
}

pub struct Item {
    pub id: i64,
    pub name: String,
    pub description: Option<String>,
    pub user_id: i64,
    pub created_at: String,
    pub updated_at: String,
}

/// What every page shows: its title, a description, and the environment.
pub struct PageData {
    pub title: String,
    pub description: Option<String>,
    pub environment: String,
}

pub struct UsersPageData {
    pub page: PageData,
    pub users: Vec<User>,
}

pub struct ItemsPageData {
    pub page: PageData,
    pub items: Vec<Item>,
}

pub open spec fn description_view(d: &Option<String>) -> Option<Seq<char>> {
    match d {
        Some(v) => Some(v@),
        None => None,
    }
}

/// The header data of a page.
pub fn page(title: &str, description: &str, environment: &str) -> (r: PageData)
    ensures
        r.title@ == title@,
        description_view(&r.description) == Some(description@),
        r.environment@ == environment@,
{
    PageData {
        title: String::from_str(title),
        description: Some(String::from_str(description)),
        environment: String::from_str(environment),
    }
}

/// The home page's data.
pub fn home_page(config: &Config) -> (r: PageData)
    ensures
        r.title@ == "Home"@,
        description_view(&r.description) == Some("Welcome to My App"@),
        r.environment@ == config.environment@,
{
    page("Home", "Welcome to My App", config.environment.as_str())
}

/// The about page's data.
pub fn about_page(config: &Config) -> (r: PageData)
    ensures
        r.title@ == "About"@,
        description_view(&r.description) == Some("About My App"@),
        r.environment@ == config.environment@,
{
    page("About", "About My App", config.environment.as_str())
}

/// The users page's data: the users fetched from the backend, or none where
/// the fetch failed.
pub fn users_page(config: &Config, fetched: Option<Vec<User>>) -> (r: UsersPageData)
    ensures
        r.page.title@ == "Users"@,
        description_view(&r.page.description) == Some("User management"@),
        r.page.environment@ == config.environment@,
        r.users@ == match fetched {
            Some(v) => v@,
            None => Seq::<User>::empty(),
        },
{
    let users = match fetched {
        Some(v) => v,
        None => Vec::new(),
    };
    UsersPageData { page: page("Users", "User management", config.environment.as_str()), users }
}

/// The items page's data: the items fetched from the backend, or none where
/// the fetch failed.
pub fn items_page(config: &Config, fetched: Option<Vec<Item>>) -> (r: ItemsPageData)
    ensures
        r.page.title@ == "Items"@,
        description_view(&r.page.description) == Some("Item management"@),
        r.page.environment@ == config.environment@,
        r.items@ == match fetched {
            Some(v) => v@,
            None => Seq::<Item>::empty(),
        },
{
    let items = match fetched {
        Some(v) => v,
        None => Vec::new(),
    };
    ItemsPageData { page: page("Items", "Item management", config.environment.as_str()), items }
}

} // verus!
