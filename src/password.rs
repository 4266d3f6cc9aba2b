//! Credential hashing: PBKDF2 with HMAC-SHA-256 over a random salt, stored as
//! a self-describing record, and verification of a password against a record.

use vstd::prelude::*;
use vstd::utf8::encode_utf8;
use crate::record::{
    FIELD_SEPARATOR, split_fields, iteration_count, unsigned_value,
    split_record_fields, parse_iteration_count, has_no_separator, decimal_text, append_decimal,
    lemma_decimal_text_round_trip, lemma_split_three_fields,
};
use vstd::slice::slice_to_vec;

verus! {

/// Iteration count of every record this module produces.
pub const PBKDF2_ITERATIONS: u32 = 100_000;

/// Length in bytes of a freshly drawn salt.
pub const SALT_LEN: usize = 16;

/// Length in bytes of a derived key (the SHA-256 output length).
pub const CREDENTIAL_LEN: usize = 32;

/// Longest derived key that PBKDF2 with HMAC-SHA-256 can produce:
/// `(2^32 - 1)` blocks of 32 bytes.
pub const MAX_DERIVED_LEN: u64 = 137_438_953_440;

/// Why hashing or verification could not produce an answer.
#[derive(Debug, Clone, Copy, PartialEq, Eq, Structural)]
pub enum PasswordError {
    /// The platform could not supply secure random bytes for a salt.
    RandomnessUnavailable,
    /// The record does not consist of exactly three fields.
    MalformedRecord,
    /// The first field is not a positive decimal number that fits in 32 bits.
    InvalidIterationCount,
    /// The salt or the derived key field is not valid base64.
    InvalidEncoding,
}

/// The log text of each error.
pub open spec fn message_of(e: PasswordError) -> Seq<char> {
    match e {
        PasswordError::RandomnessUnavailable => "Failed to generate random salt"@,
        PasswordError::MalformedRecord => "Invalid hash format"@,
        PasswordError::InvalidIterationCount => "Invalid iteration count"@,
        PasswordError::InvalidEncoding => "Invalid base64 field"@,
    }
}

impl PasswordError {
    /// A short description for logs.
    pub fn message(&self) -> (r: &'static str)
        ensures
            r@ == message_of(*self),
    {
        match self {
            PasswordError::RandomnessUnavailable => "Failed to generate random salt",
            PasswordError::MalformedRecord => "Invalid hash format",
            PasswordError::InvalidIterationCount => "Invalid iteration count",
            PasswordError::InvalidEncoding => "Invalid base64 field",
        }
    }
}

// ---------------------------------------------------------------------------
// What the outside crates compute.

/// The base64 digit for `v < 64` in the standard alphabet.
pub open spec fn base64_digit(v: int) -> char {
    if v < 26 {
        ((65 + v) as u8) as char
    } else if v < 52 {
        ((97 + v - 26) as u8) as char
    } else if v < 62 {
        ((48 + v - 52) as u8) as char
    } else if v == 62 {
        '+'
    } else {
        '/'
    }
}

/// The standard, padded base64 text of `b` (RFC 4648, section 4): each group
/// of three bytes becomes four digits; a last group of one or two bytes is
/// padded with `=`.
pub open spec fn base64_encoded(b: Seq<u8>) -> Seq<char>
    decreases b.len(),
{
    if b.len() == 0 {
        seq![]
    } else {
        let x = b[0] as int;
        let y = if b.len() > 1 { b[1] as int } else { 0 };
        let z = if b.len() > 2 { b[2] as int } else { 0 };
        let d0 = base64_digit(x / 4);
        let d1 = base64_digit((x % 4) * 16 + y / 16);
        let d2 = base64_digit((y % 16) * 4 + z / 64);
        let d3 = base64_digit(z % 64);
        if b.len() == 1 {
            seq![d0, d1, '=', '=']
        } else if b.len() == 2 {
            seq![d0, d1, d2, '=']
        } else {
            seq![d0, d1, d2, d3] + base64_encoded(b.skip(3))
        }
    }
}

/// Base64 text uses only the standard alphabet and `=`.
pub proof fn lemma_base64_alphabet(b: Seq<u8>)
    ensures
        forall|i: int|
            0 <= i < base64_encoded(b).len() ==> is_base64_char(#[trigger] base64_encoded(b)[i]),
    decreases b.len(),
{
    assert forall|v: int| 0 <= v < 64 implies is_base64_char(#[trigger] base64_digit(v)) by {}
    if b.len() > 0 {
        let x = b[0] as int;
        let y = if b.len() > 1 { b[1] as int } else { 0 };
        let z = if b.len() > 2 { b[2] as int } else { 0 };
        assert(0 <= x / 4 < 64);
        assert(0 <= (x % 4) * 16 + y / 16 < 64);
        assert(0 <= (y % 16) * 4 + z / 64 < 64);
        assert(0 <= z % 64 < 64);
    }
    if b.len() >= 3 {
        lemma_base64_alphabet(b.skip(3));
        let t = base64_encoded(b);
        assert forall|i: int| 0 <= i < t.len() implies is_base64_char(#[trigger] t[i]) by {
            if i >= 4 {
                assert(t[i] == base64_encoded(b.skip(3))[i - 4]);
            }
        }
    }
}

/// What `base64::decode` makes of the text `s`: `None` where it rejects it.
pub uninterp spec fn base64_decoded(s: Seq<u8>) -> Option<Seq<u8>>;

/// The first `len` bytes of PBKDF2 with HMAC-SHA-256 (RFC 8018) of `secret`
/// under `salt` with `iterations` rounds.
pub uninterp spec fn pbkdf2_hmac_sha256(
    iterations: u32,
    salt: Seq<u8>,
    secret: Seq<u8>,
    len: nat,
) -> Seq<u8>;

pub open spec fn is_base64_char(c: char) -> bool {
    ||| 'A' <= c <= 'Z'
    ||| 'a' <= c <= 'z'
    ||| '0' <= c <= '9'
    ||| c == '+'
    ||| c == '/'
    ||| c == '='
}

/// The bytes of a text whose characters are all ASCII.
pub open spec fn ascii_bytes(s: Seq<char>) -> Seq<u8> {
    Seq::new(s.len(), |i: int| s[i] as u8)
}

#[verifier::external_type_specification]
#[verifier::external_body]
pub struct ExUnspecified(ring::error::Unspecified);

#[verifier::external_type_specification]
#[verifier::external_body]
pub struct ExRandomError(getrandom::Error);

/// Relies on `base64::encode` (standard alphabet, with padding), whose text
/// `base64::decode` reads back as `b`.
#[verifier::external_body]
fn base64_encode(b: &[u8]) -> (r: String)
    ensures
        r@ == base64_encoded(b@),
        base64_decoded(ascii_bytes(r@)) == Some(b@),
{
    base64::encode(b)
}

/// Relies on `base64::decode` (standard alphabet, padding optional).
#[verifier::external_body]
fn base64_decode(s: &[u8]) -> (r: Option<Vec<u8>>)
    ensures
        match r {
            Some(v) => base64_decoded(s@) == Some(v@),
            None => base64_decoded(s@) is None,
        },
{
    base64::decode(s).ok()
}

/// Relies on `ring::pbkdf2::derive` with `PBKDF2_HMAC_SHA256`, which fills an
/// output of `len` bytes; it panics on a zero count or a longer output than
/// the algorithm can give.
#[verifier::external_body]
fn pbkdf2_derive(iterations: u32, salt: &[u8], secret: &[u8], len: usize) -> (r: Vec<u8>)
    requires
        iterations > 0,
        len <= MAX_DERIVED_LEN,
    ensures
        r@.len() == len,
        r@ == pbkdf2_hmac_sha256(iterations, salt@, secret@, len as nat),
{
    let mut out = vec![0u8; len];
    let rounds = std::num::NonZeroU32::new(iterations).unwrap();
    ring::pbkdf2::derive(ring::pbkdf2::PBKDF2_HMAC_SHA256, rounds, salt, secret, &mut out);
    out
}

/// Relies on `ring::pbkdf2::verify` with `PBKDF2_HMAC_SHA256`: it succeeds
/// exactly when `previous` is non-empty, no longer than the algorithm can
/// derive, and equal to the key derived with its length. Each block is
/// compared with ring's `CRYPTO_memcmp`, which does not stop at the first
/// difference.
#[verifier::external_body]
fn pbkdf2_verify(iterations: u32, salt: &[u8], secret: &[u8], previous: &[u8]) -> (r: Result<
    (),
    ring::error::Unspecified,
>)
    requires
        iterations > 0,
    ensures
        r is Ok <==> (0 < previous@.len() <= MAX_DERIVED_LEN && previous@
            == pbkdf2_hmac_sha256(iterations, salt@, secret@, previous@.len())),
{
    let rounds = std::num::NonZeroU32::new(iterations).unwrap();
    ring::pbkdf2::verify(ring::pbkdf2::PBKDF2_HMAC_SHA256, rounds, salt, secret, previous)
}

/// Relies on `getrandom::getrandom`: on success every byte of the buffer
/// comes from the operating system's secure source.
#[verifier::external_body]
fn random_bytes(len: usize) -> (r: Result<Vec<u8>, getrandom::Error>)
    ensures
        r matches Ok(v) ==> v@.len() == len,
{
    let mut buf = vec![0u8; len];
    getrandom::getrandom(&mut buf).map(|_| buf)
}

// ---------------------------------------------------------------------------
// The record format.

/// The text of a record: `<iterations>:<base64 salt>:<base64 derived key>`.
pub open spec fn record_text(iterations: u32, salt: Seq<u8>, key: Seq<u8>) -> Seq<char> {
    decimal_text(iterations as nat) + seq![':'] + base64_encoded(salt) + seq![':']
        + base64_encoded(key)
}

/// What a record's bytes denote: its iteration count, salt and derived key,
/// or the first way in which they are malformed.
pub open spec fn parse_record(s: Seq<u8>) -> Result<(u32, Seq<u8>, Seq<u8>), PasswordError> {
    let f = split_fields(s);
    if f.len() != 3 {
        Err(PasswordError::MalformedRecord)
    } else {
        match iteration_count(f[0]) {
            None => Err(PasswordError::InvalidIterationCount),
            Some(n) => match (base64_decoded(f[1]), base64_decoded(f[2])) {
                (Some(salt), Some(key)) => Ok((n, salt, key)),
                _ => Err(PasswordError::InvalidEncoding),
            },
        }
    }
}

/// Whether the record's key is the 32-byte key that `password` derives under
/// the record's salt and count; a key of any other length never matches.
pub open spec fn key_matches(rec: (u32, Seq<u8>, Seq<u8>), password: Seq<u8>) -> bool {
    &&& rec.2.len() == CREDENTIAL_LEN
    &&& rec.2 == pbkdf2_hmac_sha256(rec.0, rec.1, password, CREDENTIAL_LEN as nat)
}

/// The answer of verification: whether `password` matches the record text
/// `s`, or why `s` is no record.
pub open spec fn verify_outcome(password: Seq<u8>, s: Seq<u8>) -> Result<bool, PasswordError> {
    match parse_record(s) {
        Ok(rec) => Ok(key_matches(rec, password)),
        Err(e) => Err(e),
    }
}

/// The key that hashing derives from `password` and `salt`.
pub open spec fn derived_key(password: Seq<u8>, salt: Seq<u8>) -> Seq<u8> {
    pbkdf2_hmac_sha256(PBKDF2_ITERATIONS, salt, password, CREDENTIAL_LEN as nat)
}

/// `t` is the record that hashing `password` with `salt` produces: its text,
/// which reads back as the fixed count, the salt and the 32-byte derived key.
pub open spec fn is_record_of(password: Seq<u8>, salt: Seq<u8>, t: Seq<char>) -> bool {
    &&& derived_key(password, salt).len() == CREDENTIAL_LEN
    &&& t == record_text(PBKDF2_ITERATIONS, salt, derived_key(password, salt))
    &&& parse_record(encode_utf8(t)) == Ok::<_, PasswordError>(
        (PBKDF2_ITERATIONS, salt, derived_key(password, salt)),
    )
}

/// A parsed hash record.
pub struct HashRecord {
    pub iterations: u32,
    pub salt: Vec<u8>,
    pub derived_key: Vec<u8>,
}

impl View for HashRecord {
    type V = (u32, Seq<u8>, Seq<u8>);

    open spec fn view(&self) -> (u32, Seq<u8>, Seq<u8>) {
        (self.iterations, self.salt@, self.derived_key@)
    }
}

impl HashRecord {
    /// Derives the key of `password` under `salt` with the fixed count.
    pub fn derive(password: &str, salt: &[u8]) -> (r: HashRecord)
        ensures
            r@ == (PBKDF2_ITERATIONS, salt@, derived_key(encode_utf8(password@), salt@)),
            r.derived_key@.len() == CREDENTIAL_LEN,
    {
        let key = pbkdf2_derive(PBKDF2_ITERATIONS, salt, password.as_bytes(), CREDENTIAL_LEN);
        HashRecord { iterations: PBKDF2_ITERATIONS, salt: slice_to_vec(salt), derived_key: key }
    }

    /// Reads a record from its text.
    pub fn parse(text: &str) -> (r: Result<HashRecord, PasswordError>)
        ensures
            match r {
                Ok(h) => parse_record(encode_utf8(text@)) == Ok::<_, PasswordError>(h@),
                Err(e) => parse_record(encode_utf8(text@)) == Err::<(u32, Seq<u8>, Seq<u8>), _>(e),
            },
    {
        let fields = split_record_fields(text.as_bytes());
        if fields.len() != 3 {
            return Err(PasswordError::MalformedRecord);
        }
        assert(fields[0]@ == fields.deep_view()[0]);
        assert(fields[1]@ == fields.deep_view()[1]);
        assert(fields[2]@ == fields.deep_view()[2]);
        let iterations = match parse_iteration_count(fields[0].as_slice()) {
            Some(n) => n,
            None => return Err(PasswordError::InvalidIterationCount),
        };
        let salt = base64_decode(fields[1].as_slice());
        let key = base64_decode(fields[2].as_slice());
        match (salt, key) {
            (Some(salt), Some(derived_key)) => Ok(HashRecord { iterations, salt, derived_key }),
            _ => Err(PasswordError::InvalidEncoding),
        }
    }

    /// Writes the record as text; the text reads back as this record.
    pub fn to_text(&self) -> (r: String)
        requires
            self.iterations > 0,
        ensures
            r@ == record_text(self.iterations, self.salt@, self.derived_key@),
            parse_record(encode_utf8(r@)) == Ok::<_, PasswordError>(self@),
    {
        let mut out = String::new();
        append_decimal(&mut out, self.iterations);
        let ghost digits = out@;
        out.append(":");
        let salt_text = base64_encode(self.salt.as_slice());
        out.append(salt_text.as_str());
        out.append(":");
        let key_text = base64_encode(self.derived_key.as_slice());
        out.append(key_text.as_str());
        proof {
            lemma_base64_alphabet(self.salt@);
            lemma_base64_alphabet(self.derived_key@);
            reveal_strlit(":");
            assert(digits =~= decimal_text(self.iterations as nat));
            assert(out@ =~= record_text(self.iterations, self.salt@, self.derived_key@));
            lemma_record_bytes(self.iterations, salt_text@, key_text@);
            lemma_decimal_text_round_trip(self.iterations as nat);
            let d = decimal_text(self.iterations as nat);
            assert(ascii_bytes(d) =~= Seq::new(d.len(), |i: int| d[i] as u8));
            assert(iteration_count(ascii_bytes(d)) == Some(self.iterations));
        }
        out
    }

    /// Whether `password` derives this record's key, compared in fixed time.
    pub fn matches(&self, password: &str) -> (r: bool)
        requires
            self.iterations > 0,
        ensures
            r == key_matches(self@, encode_utf8(password@)),
    {
        if self.derived_key.len() != CREDENTIAL_LEN {
            return false;
        }
        let outcome = pbkdf2_verify(
            self.iterations,
            self.salt.as_slice(),
            password.as_bytes(),
            self.derived_key.as_slice(),
        );
        outcome.is_ok()
    }
}

/// Hashes `password` under the given salt with the fixed iteration count.
pub fn hash_password_with_salt(password: &str, salt: &[u8]) -> (r: String)
    ensures
        is_record_of(encode_utf8(password@), salt@, r@),
{
    let record = HashRecord::derive(password, salt);
    record.to_text()
}

/// Hashes `password` under a fresh random salt of `SALT_LEN` bytes.
pub fn hash_password(password: &str) -> (r: Result<String, PasswordError>)
    ensures
        match r {
            Ok(t) => exists|salt: Seq<u8>|
                salt.len() == SALT_LEN && is_record_of(encode_utf8(password@), salt, t@),
            Err(e) => e == PasswordError::RandomnessUnavailable,
        },
{
    let drawn = match random_bytes(SALT_LEN) {
        Ok(salt) => Some(salt),
        Err(_) => None,
    };
    hash_with_drawn_salt(password, drawn)
}

/// Hashes `password` under the salt that was drawn, or fails with
/// `RandomnessUnavailable` where none could be drawn: there is no fallback
/// salt.
pub fn hash_with_drawn_salt(password: &str, drawn: Option<Vec<u8>>) -> (r: Result<
    String,
    PasswordError,
>)
    ensures
        drawn is None ==> r == Err::<String, _>(PasswordError::RandomnessUnavailable),
        drawn matches Some(s) ==> (r matches Ok(t) && is_record_of(
            encode_utf8(password@),
            s@,
            t@,
        )),
{
    match drawn {
        Some(salt) => Ok(hash_password_with_salt(password, salt.as_slice())),
        None => Err(PasswordError::RandomnessUnavailable),
    }
}

/// Verifies `password` against the record text `hash_string`.
pub fn verify_password(password: &str, hash_string: &str) -> (r: Result<bool, PasswordError>)
    ensures
        r == verify_outcome(encode_utf8(password@), encode_utf8(hash_string@)),
{
    match HashRecord::parse(hash_string) {
        Ok(record) => Ok(record.matches(password)),
        Err(e) => Err(e),
    }
}

/// A password verifies against every record that hashing it produces.
pub proof fn lemma_hash_then_verify(password: Seq<u8>, salt: Seq<u8>, t: Seq<char>)
    requires
        is_record_of(password, salt, t),
    ensures
        verify_outcome(password, encode_utf8(t)) == Ok::<bool, PasswordError>(true),
{
}

/// Changing one byte of the derived key of a record that hashing `password`
/// produced makes verification answer `false`, not fail: the altered record
/// still reads back, as the same count and salt with the altered key.
pub proof fn lemma_altered_key_rejected(
    password: Seq<u8>,
    salt: Seq<u8>,
    t: Seq<char>,
    key: Seq<u8>,
    i: int,
    altered: Seq<u8>,
)
    requires
        is_record_of(password, salt, t),
        key.len() == derived_key(password, salt).len(),
        0 <= i < key.len(),
        key[i] != derived_key(password, salt)[i],
        forall|j: int| 0 <= j < key.len() && j != i ==> key[j] == derived_key(password, salt)[j],
        parse_record(altered) == Ok::<_, PasswordError>((PBKDF2_ITERATIONS, salt, key)),
    ensures
        verify_outcome(password, altered) == Ok::<bool, PasswordError>(false),
{
    assert(key != derived_key(password, salt));
}

/// A record whose count field is not a number (an optional `+`, then
/// digits) fails with `InvalidIterationCount`, whatever its other fields hold.
pub proof fn lemma_non_numeric_count_rejected(password: Seq<u8>, s: Seq<u8>)
    requires
        split_fields(s).len() == 3,
        unsigned_value(split_fields(s)[0], 4_294_967_295) is None,
    ensures
        verify_outcome(password, s) == Err::<bool, _>(PasswordError::InvalidIterationCount),
{
}

/// The bytes of a record text are its fields, ASCII, joined by separators.
proof fn lemma_record_bytes(iterations: u32, salt_text: Seq<char>, key_text: Seq<char>)
    requires
        forall|i: int| 0 <= i < salt_text.len() ==> is_base64_char(#[trigger] salt_text[i]),
        forall|i: int| 0 <= i < key_text.len() ==> is_base64_char(#[trigger] key_text[i]),
    ensures
        ({
            let digits = decimal_text(iterations as nat);
            let t = digits + seq![':'] + salt_text + seq![':'] + key_text;
            &&& encode_utf8(t) == ascii_bytes(digits) + seq![FIELD_SEPARATOR] + ascii_bytes(
                salt_text,
            ) + seq![FIELD_SEPARATOR] + ascii_bytes(key_text)
            &&& split_fields(encode_utf8(t)) == seq![
                ascii_bytes(digits),
                ascii_bytes(salt_text),
                ascii_bytes(key_text),
            ]
        }),
{
    let digits = decimal_text(iterations as nat);
    let t = digits + seq![':'] + salt_text + seq![':'] + key_text;
    lemma_decimal_text_round_trip(iterations as nat);
    assert(vstd::utf8::is_ascii_chars(t));
    vstd::utf8::is_ascii_chars_encode_utf8(t);
    let b = ascii_bytes(digits) + seq![FIELD_SEPARATOR] + ascii_bytes(salt_text) + seq![
        FIELD_SEPARATOR,
    ] + ascii_bytes(key_text);
    assert(encode_utf8(t) =~= b);
    assert(has_no_separator(ascii_bytes(digits)));
    assert(has_no_separator(ascii_bytes(salt_text)));
    assert(has_no_separator(ascii_bytes(key_text)));
    lemma_split_three_fields(ascii_bytes(digits), ascii_bytes(salt_text), ascii_bytes(key_text));
}

} // verus!
