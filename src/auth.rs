//! Request authentication: every request but the health check must carry
//! `Authorization: Bearer <token>` with the configured token.

use vstd::prelude::*;
use vstd::utf8::encode_utf8;
use vstd::slice::slice_subrange;
use crate::config::{ConfigStore, get_config};

verus! {

/// The path that is served without credentials.
pub const HEALTH_CHECK_PATH: &'static str = "/api/health";

/// The status of every rejection (401 Unauthorized).
pub const UNAUTHORIZED_STATUS: u16 = 401;

/// The JSON body of every rejection; it never says which check failed.
pub const UNAUTHORIZED_BODY: &'static str =
    "{\"error\":\"Unauthorized\",\"message\":\"Invalid or missing API token\"}";

/// Why the guard turned a request away (logged, never sent to the caller).
#[derive(Debug, Clone, Copy, PartialEq, Eq, Structural)]
pub enum RejectReason {
    /// No `Authorization` header.
    MissingCredential,
    /// The header is not text, or does not start with `Bearer `.
    MalformedCredential,
    /// The token differs from the configured one.
    InvalidCredential,
}

/// What the guard does with one request.
#[derive(Debug, Clone, Copy, PartialEq, Eq, Structural)]
pub enum AuthDecision {
    Forward,
    Reject(RejectReason),
}

/// The response that a rejected request gets.
pub struct Rejection {
    pub status: u16,
    pub body: String,
}

/// A header byte that may stand in header text: visible ASCII or a tab.
pub open spec fn is_header_byte(b: u8) -> bool {
    b == 9 || (32 <= b && b < 127)
}

/// Whether a header value reads as text.
pub open spec fn is_header_text(h: Seq<u8>) -> bool {
    forall|i: int| 0 <= i < h.len() ==> is_header_byte(#[trigger] h[i])
}

/// The bytes of `Bearer ` (one space included).
pub open spec fn bearer_prefix() -> Seq<u8> {
    seq![66u8, 101u8, 97u8, 114u8, 101u8, 114u8, 32u8]
}

/// The whitespace that header text can hold: space and tab.
pub open spec fn is_blank(b: u8) -> bool {
    b == 32 || b == 9
}

pub open spec fn trim_start(s: Seq<u8>) -> Seq<u8>
    decreases s.len(),
{
    if s.len() > 0 && is_blank(s[0]) {
        trim_start(s.drop_first())
    } else {
        s
    }
}

pub open spec fn trim_end(s: Seq<u8>) -> Seq<u8>
    decreases s.len(),
{
    if s.len() > 0 && is_blank(s.last()) {
        trim_end(s.drop_last())
    } else {
        s
    }
}

/// `s` without surrounding whitespace.
pub open spec fn trim(s: Seq<u8>) -> Seq<u8> {
    trim_end(trim_start(s))
}

/// Whether a header value has the form `Bearer <token>`.
pub open spec fn is_bearer(h: Seq<u8>) -> bool {
    is_header_text(h) && h.len() >= 7 && h.take(7) == bearer_prefix()
}

/// The token of a bearer header: what follows the prefix, trimmed.
pub open spec fn bearer_token(h: Seq<u8>) -> Seq<u8> {
    trim(h.skip(7))
}

/// The guard's decision for a request to `path` whose `Authorization` header
/// holds `header` (if any), when the configured token is `expected`.
pub open spec fn auth_decision(
    health: Seq<char>,
    path: Seq<char>,
    header: Option<Seq<u8>>,
    expected: Seq<u8>,
) -> AuthDecision {
    if path == health {
        AuthDecision::Forward
    } else {
        match header {
            None => AuthDecision::Reject(RejectReason::MissingCredential),
            Some(h) => if !is_bearer(h) {
                AuthDecision::Reject(RejectReason::MalformedCredential)
            } else if bearer_token(h) == expected {
                AuthDecision::Forward
            } else {
                AuthDecision::Reject(RejectReason::InvalidCredential)
            },
        }
    }
}

/// Compares two byte strings in time that depends on their lengths only,
/// never on where they differ.
pub fn fixed_time_eq(a: &[u8], b: &[u8]) -> (r: bool)
    ensures
        r == (a@ == b@),
{
    if a.len() != b.len() {
        return false;
    }
    let mut diff: u8 = 0;
    let mut i: usize = 0;
    while i < a.len()
        invariant
            a@.len() == b@.len(),
            0 <= i <= a@.len(),
            (diff == 0) == (forall|j: int| 0 <= j < i ==> a@[j] == b@[j]),
        decreases a.len() - i,
    {
        let x = a[i];
        let y = b[i];
        let d = diff;
        assert(((d | (x ^ y)) == 0u8) == (d == 0u8 && x == y)) by (bit_vector);
        diff = d | (x ^ y);
        i = i + 1;
    }
    assert(diff == 0 ==> a@ =~= b@);
    diff == 0
}

/// The value of an optional header, as bytes.
pub open spec fn header_view(header: Option<&[u8]>) -> Option<Seq<u8>> {
    match header {
        Some(h) => Some(h@),
        None => None,
    }
}

/// A token that a header can carry as is: header text without surrounding
/// whitespace.
pub open spec fn is_plain_token(t: Seq<u8>) -> bool {
    is_header_text(t) && trim(t) == t
}

/// `bearer ` in lower case, which the scheme does not accept.
pub open spec fn lowercase_bearer_prefix() -> Seq<u8> {
    seq![98u8, 101u8, 97u8, 114u8, 101u8, 114u8, 32u8]
}

/// A request to the health-check path is forwarded, with or without
/// credentials.
pub proof fn lemma_health_check_forwarded(
    health: Seq<char>,
    header: Option<Seq<u8>>,
    expected: Seq<u8>,
)
    ensures
        auth_decision(health, health, header, expected) == AuthDecision::Forward,
{
}

/// A request to any other path without an `Authorization` header is rejected.
pub proof fn lemma_missing_header_rejected(health: Seq<char>, path: Seq<char>, expected: Seq<u8>)
    requires
        path != health,
    ensures
        auth_decision(health, path, None, expected) == AuthDecision::Reject(
            RejectReason::MissingCredential,
        ),
{
}

/// `Bearer <expected>` is forwarded on every path; `bearer <expected>` is
/// rejected on every path but the health check.
pub proof fn lemma_bearer_scheme_case_sensitive(
    health: Seq<char>,
    path: Seq<char>,
    expected: Seq<u8>,
)
    requires
        is_plain_token(expected),
    ensures
        auth_decision(health, path, Some(bearer_prefix() + expected), expected)
            == AuthDecision::Forward,
        path != health ==> auth_decision(
            health,
            path,
            Some(lowercase_bearer_prefix() + expected),
            expected,
        ) == AuthDecision::Reject(RejectReason::MalformedCredential),
{
    let h = bearer_prefix() + expected;
    assert(h.take(7) =~= bearer_prefix());
    assert(h.skip(7) =~= expected);
    assert(is_header_text(h)) by {
        assert forall|i: int| 0 <= i < h.len() implies is_header_byte(#[trigger] h[i]) by {
            if i >= 7 {
                assert(h[i] == expected[i - 7]);
            }
        }
    }
    let l = lowercase_bearer_prefix() + expected;
    assert(l.take(7)[0] != bearer_prefix()[0]);
}

/// `Bearer <token>` with a token other than the configured one is rejected on
/// every path but the health check.
pub proof fn lemma_wrong_token_rejected(
    health: Seq<char>,
    path: Seq<char>,
    token: Seq<u8>,
    expected: Seq<u8>,
)
    requires
        path != health,
        is_plain_token(token),
        token != expected,
    ensures
        auth_decision(health, path, Some(bearer_prefix() + token), expected)
            == AuthDecision::Reject(RejectReason::InvalidCredential),
{
    let h = bearer_prefix() + token;
    assert(h.take(7) =~= bearer_prefix());
    assert(h.skip(7) =~= token);
    assert(is_header_text(h)) by {
        assert forall|i: int| 0 <= i < h.len() implies is_header_byte(#[trigger] h[i]) by {
            if i >= 7 {
                assert(h[i] == token[i - 7]);
            }
        }
    }
}

/// Whether every byte of `h` may stand in header text.
fn header_is_text(h: &[u8]) -> (r: bool)
    ensures
        r == is_header_text(h@),
{
    let mut i: usize = 0;
    while i < h.len()
        invariant
            0 <= i <= h@.len(),
            forall|j: int| 0 <= j < i ==> is_header_byte(#[trigger] h@[j]),
        decreases h.len() - i,
    {
        let b = h[i];
        if !(b == 9 || (32 <= b && b < 127)) {
            return false;
        }
        i = i + 1;
    }
    true
}

/// Whether `h` begins with `Bearer `.
fn has_bearer_prefix(h: &[u8]) -> (r: bool)
    ensures
        r == (h@.len() >= 7 && h@.take(7) == bearer_prefix()),
{
    if h.len() < 7 {
        return false;
    }
    let r = h[0] == 66 && h[1] == 101 && h[2] == 97 && h[3] == 114 && h[4] == 101 && h[5] == 114
        && h[6] == 32;
    assert(r ==> h@.take(7) =~= bearer_prefix());
    assert(h@.take(7) == bearer_prefix() ==> h@.take(7)[6] == 32u8);
    r
}

/// The bounds of `s[from..]` without surrounding whitespace.
fn trimmed_bounds(s: &[u8], from: usize) -> (r: (usize, usize))
    requires
        from <= s@.len(),
    ensures
        from <= r.0 <= r.1 <= s@.len(),
        s@.subrange(r.0 as int, r.1 as int) == trim(s@.skip(from as int)),
{
    let mut i: usize = from;
    while i < s.len() && (s[i] == 32 || s[i] == 9)
        invariant
            from <= i <= s@.len(),
            trim_start(s@.skip(from as int)) == trim_start(s@.skip(i as int)),
        decreases s.len() - i,
    {
        assert(s@.skip(i as int).drop_first() =~= s@.skip(i as int + 1));
        i = i + 1;
    }
    assert(trim_start(s@.skip(i as int)) == s@.skip(i as int));
    let mut j: usize = s.len();
    assert(s@.skip(i as int) =~= s@.subrange(i as int, j as int));
    while j > i && (s[j - 1] == 32 || s[j - 1] == 9)
        invariant
            i <= j <= s@.len(),
            trim(s@.skip(from as int)) == trim_end(s@.subrange(i as int, j as int)),
        decreases j,
    {
        assert(s@.subrange(i as int, j as int).drop_last() =~= s@.subrange(i as int, j as int - 1));
        j = j - 1;
    }
    (i, j)
}

/// The guard proper: `Authentication` holds the path that needs no credentials.
pub struct Authentication {
    pub health_path: String,
}

impl Authentication {
    /// A guard that lets the health check through.
    pub fn new() -> (r: Authentication)
        ensures
            r.health_path@ == HEALTH_CHECK_PATH@,
    {
        Authentication { health_path: String::from_str(HEALTH_CHECK_PATH) }
    }

    /// Decides on a request to `path` with the `Authorization` header value
    /// `header` (raw bytes, if any), against the configured token `expected`.
    pub fn decide(&self, path: &str, header: Option<&[u8]>, expected: &str) -> (r: AuthDecision)
        ensures
            r == auth_decision(
                self.health_path@,
                path@,
                header_view(header),
                encode_utf8(expected@),
            ),
    {
        let same_path = fixed_time_eq(path.as_bytes(), self.health_path.as_str().as_bytes());
        proof {
            vstd::utf8::encode_utf8_decode_utf8(path@);
            vstd::utf8::encode_utf8_decode_utf8(self.health_path@);
        }
        if same_path {
            return AuthDecision::Forward;
        }
        match header {
            None => AuthDecision::Reject(RejectReason::MissingCredential),
            Some(h) => {
                if !header_is_text(h) || !has_bearer_prefix(h) {
                    return AuthDecision::Reject(RejectReason::MalformedCredential);
                }
                let (start, end) = trimmed_bounds(h, 7);
                let token = slice_subrange(h, start, end);
                if fixed_time_eq(token, expected.as_bytes()) {
                    AuthDecision::Forward
                } else {
                    AuthDecision::Reject(RejectReason::InvalidCredential)
                }
            },
        }
    }
}

impl Authentication {
    /// The middleware that applies this guard to each request.
    pub fn new_transform(&self) -> (r: AuthenticationMiddleware)
        ensures
            r.guard.health_path@ == self.health_path@,
    {
        AuthenticationMiddleware { guard: Authentication { health_path: self.health_path.clone() } }
    }
}

/// The guard in front of the routes: it checks each request against the token
/// of the settings current when the request arrives.
pub struct AuthenticationMiddleware {
    pub guard: Authentication,
}

impl AuthenticationMiddleware {
    /// Decides on one request against the token of the current settings.
    pub fn call(&self, settings: &ConfigStore, path: &str, header: Option<&[u8]>) -> (r:
        AuthDecision)
        ensures
            r == auth_decision(
                self.guard.health_path@,
                path@,
                header_view(header),
                encode_utf8(settings.current.api_token@),
            ),
    {
        let current = get_config(settings);
        self.guard.decide(path, header, current.api_token.as_str())
    }
}

/// The response of a rejected request: 401 with the fixed JSON body.
pub fn rejection() -> (r: Rejection)
    ensures
        r.status == UNAUTHORIZED_STATUS,
        r.body@ == UNAUTHORIZED_BODY@,
{
    Rejection { status: UNAUTHORIZED_STATUS, body: String::from_str(UNAUTHORIZED_BODY) }
}

} // verus!
