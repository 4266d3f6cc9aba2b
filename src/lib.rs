//! Core of a small web service and its page front end.
//!
//! - `password`: salted, iterated password hashing (PBKDF2 with HMAC-SHA-256)
//!   and verification against a self-describing record; `record` holds the
//!   record's field splitting and decimal numbers.
//! - `auth`: the bearer-token check that guards every route but the health
//!   check, and the middleware that applies it with the current settings.
//! - `config`: the backend's settings and the slot that holds the current ones.
//! - `models` and `catalog`: the users and items that the routes serve.
//! - `frontend`: the page service's settings, page data and backend requests.

pub mod record;
pub mod password;
pub mod auth;
pub mod config;
pub mod models;
pub mod catalog;
pub mod frontend;
