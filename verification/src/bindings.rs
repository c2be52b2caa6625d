//! Calls into outside crates, each behind a contract that Verus believes.
//!
//! Every function here is a thin wrapper: it converts its arguments, makes one
//! call, and converts the result. Where what a call returns takes pages to
//! state, the result is given a name (an uninterpreted spec function) and the
//! wrapper's contract ties the result to that name applied to its arguments.
use argon2::password_hash::{PasswordHash, PasswordHasher, PasswordVerifier, SaltString};
use argon2::Argon2;
use base64::engine::general_purpose::URL_SAFE_NO_PAD;
use base64::Engine;
use crate::ingest::JsonValue;
use hmac::{Hmac, Mac};
use rand::rngs::OsRng;
use rand::RngCore;
use sha2::{Digest, Sha256};
use std::io::Read;
use vstd::prelude::*;
use vstd::string::StringSliceAdditionalSpecFns;
use vstd::utf8::{decode_utf8, valid_utf8};

verus! {

// ------------------------------------------------------------------ sha2

/// The SHA-256 digest of the UTF-8 bytes of a text.
pub uninterp spec fn sha256_of_text(t: Seq<char>) -> Seq<u8>;

/// `sha2::Sha256::digest` over the UTF-8 bytes of `t`. The digest is named
/// `sha256_of_text`; the contract adds only that it is 32 bytes long, as the
/// crate's output size fixes.
#[verifier::external_body]
pub(crate) fn sha256_text(t: &str) -> (r: Vec<u8>)
    ensures
        r@ == sha256_of_text(t@),
        r@.len() == 32,
{
    Sha256::digest(t.as_bytes()).to_vec()
}

// ------------------------------------------------------------------ hmac

/// HMAC-SHA256 of the UTF-8 bytes of `msg` under the UTF-8 bytes of `key`.
pub uninterp spec fn hmac_sha256_of_text(key: Seq<char>, msg: Seq<char>) -> Seq<u8>;

/// `hmac::Hmac<Sha256>`: `new_from_slice` with the key, `update` with the
/// message, `finalize`. The tag is named `hmac_sha256_of_text`. The contract
/// claims that the result is always `Some`: the crate's `new_from_slice` for
/// `Hmac` accepts keys of every length (longer keys are hashed first), so its
/// error is never returned; and that the tag is 32 bytes, SHA-256's output size.
#[verifier::external_body]
pub(crate) fn hmac_sha256_text(key: &str, msg: &str) -> (r: Option<Vec<u8>>)
    ensures
        r is Some,
        r matches Some(tag) ==> tag@ == hmac_sha256_of_text(key@, msg@) && tag@.len() == 32,
{
    match <Hmac<Sha256> as Mac>::new_from_slice(key.as_bytes()) {
        Ok(mut mac) => {
            mac.update(msg.as_bytes());
            Some(mac.finalize().into_bytes().to_vec())
        },
        Err(_) => None,
    }
}

// ------------------------------------------------------------------ rand

/// `rand::rngs::OsRng::try_fill_bytes` into a buffer of `n` bytes: `None`
/// when the operating system refuses to supply random bytes. The bytes are
/// random: nothing is claimed of them but their number.
#[verifier::external_body]
pub(crate) fn os_random_bytes(n: usize) -> (r: Option<Vec<u8>>)
    requires
        n <= 1024,
    ensures
        r matches Some(b) ==> b@.len() == n,
{
    let mut bytes = vec![0u8; n];
    match OsRng.try_fill_bytes(&mut bytes) {
        Ok(()) => Some(bytes),
        Err(_) => None,
    }
}

// ------------------------------------------------------------------ argon2

/// Whether `password` matches the PHC-format Argon2 hash string `hash`.
pub uninterp spec fn argon2_verifies(password: Seq<char>, hash: Seq<char>) -> bool;

/// The PHC-format Argon2 hash of `password` with the B64 salt `salt`, or
/// `None` when the crate refuses the inputs.
pub uninterp spec fn argon2_phc_hash(password: Seq<char>, salt: Seq<char>) -> Option<Seq<char>>;

/// `argon2::Argon2::default().verify_password`, after parsing `hash` with
/// `PasswordHash::new`; a hash that does not parse verifies nothing. The
/// answer is named `argon2_verifies`.
#[verifier::external_body]
pub(crate) fn argon2_verify(password: &str, hash: &str) -> (r: bool)
    ensures
        r == argon2_verifies(password@, hash@),
{
    match PasswordHash::new(hash) {
        Ok(parsed) => Argon2::default().verify_password(password.as_bytes(), &parsed).is_ok(),
        Err(_) => false,
    }
}

/// The PHC salt text (B64, unpadded) of some bytes, or `None` when it
/// would not fit a salt.
pub uninterp spec fn phc_salt_text(bytes: Seq<u8>) -> Option<Seq<char>>;

/// `password_hash::SaltString::encode_b64`, as text. The text is named
/// `phc_salt_text`. The crate only fails when the encoding is longer than
/// 64 characters, so 16 bytes (22 characters) always encode.
#[verifier::external_body]
pub(crate) fn salt_b64(bytes: &[u8]) -> (r: Option<String>)
    ensures
        r matches Some(t) ==> phc_salt_text(bytes@) == Some(t@),
        r is None ==> phc_salt_text(bytes@) is None,
        bytes@.len() == 16 ==> r is Some,
{
    match SaltString::encode_b64(bytes) {
        Ok(salt) => Some(salt.as_str().to_string()),
        Err(_) => None,
    }
}

/// `argon2::Argon2::default().hash_password` with the salt parsed by
/// `SaltString::from_b64`, rendered as PHC text. The hash is named
/// `argon2_phc_hash`. The contract also states what the crate documents of
/// a hash it produced: verifying the same password against it succeeds.
/// The text of an error is not described.
#[verifier::external_body]
pub(crate) fn argon2_hash(password: &str, salt: &str) -> (r: Result<String, String>)
    ensures
        r is Ok <==> argon2_phc_hash(password@, salt@) is Some,
        r matches Ok(h) ==> argon2_phc_hash(password@, salt@) == Some(h@),
        r matches Ok(h) ==> argon2_verifies(password@, h@),
{
    let salt = match SaltString::from_b64(salt) {
        Ok(s) => s,
        Err(e) => return Err(e.to_string()),
    };
    match Argon2::default().hash_password(password.as_bytes(), &salt) {
        Ok(h) => Ok(h.to_string()),
        Err(e) => Err(e.to_string()),
    }
}

// ------------------------------------------------------------------ base64

/// Unpadded URL-safe Base64 text of the UTF-8 bytes of `t`.
pub uninterp spec fn b64url_encode_text(t: Seq<char>) -> Seq<char>;

/// The bytes that unpadded URL-safe Base64 text decodes to, if it is valid.
pub uninterp spec fn b64url_decode_text(t: Seq<char>) -> Option<Seq<u8>>;

/// `base64::engine::general_purpose::URL_SAFE_NO_PAD.encode` of the UTF-8
/// bytes of `t`. The text is named `b64url_encode_text`; the contract adds the
/// round trip the crate guarantees for one engine: decoding what it encoded
/// gives back the bytes.
#[verifier::external_body]
pub(crate) fn b64url_encode(t: &str) -> (r: String)
    ensures
        r@ == b64url_encode_text(t@),
        b64url_decode_text(r@) == Some(t.spec_bytes()),
{
    URL_SAFE_NO_PAD.encode(t)
}

/// `URL_SAFE_NO_PAD.decode`: `None` on invalid input (the crate's
/// `DecodeError`). The bytes are named `b64url_decode_text`.
#[verifier::external_body]
pub(crate) fn b64url_decode(t: &str) -> (r: Option<Vec<u8>>)
    ensures
        r matches Some(b) ==> b64url_decode_text(t@) == Some(b@),
        r is None ==> b64url_decode_text(t@) is None,
{
    match URL_SAFE_NO_PAD.decode(t) {
        Ok(b) => Some(b),
        Err(_) => None,
    }
}

// ------------------------------------------------------------------ std utf-8

/// std's `String::from_utf8`: `Some` exactly when the bytes are valid UTF-8,
/// holding the characters they encode.
#[verifier::external_body]
pub(crate) fn string_from_utf8(b: Vec<u8>) -> (r: Option<String>)
    ensures
        r is Some <==> valid_utf8(b@),
        r matches Some(s) ==> s@ == decode_utf8(b@),
{
    match String::from_utf8(b) {
        Ok(s) => Some(s),
        Err(_) => None,
    }
}

// ------------------------------------------------------------------ chrono

/// The instant an RFC 3339 text denotes, as seconds since the Unix epoch and
/// the sub-second nanoseconds, or `None` if it does not parse.
pub uninterp spec fn rfc3339_instant(t: Seq<char>) -> Option<(i64, u32)>;

/// The RFC 3339 text that chrono writes for a UTC instant, or `None` when the
/// seconds and nanoseconds do not form an instant chrono can represent.
pub uninterp spec fn rfc3339_utc_text(secs: i64, nanos: u32) -> Option<Seq<char>>;

/// `chrono::DateTime::parse_from_rfc3339`, then `timestamp()` and
/// `timestamp_subsec_nanos()`. The instant is named `rfc3339_instant`. The
/// contract adds what chrono documents of `DateTime::from_timestamp`: it
/// round-trips with these two values, so the instant can be written back.
#[verifier::external_body]
pub(crate) fn parse_rfc3339(t: &str) -> (r: Option<(i64, u32)>)
    ensures
        r == rfc3339_instant(t@),
        r matches Some(p) ==> rfc3339_utc_text(p.0, p.1) is Some,
{
    match chrono::DateTime::parse_from_rfc3339(t) {
        Ok(d) => Some((d.timestamp(), d.timestamp_subsec_nanos())),
        Err(_) => None,
    }
}

/// `chrono::DateTime::<Utc>::from_timestamp(secs, nanos)` written with
/// `to_rfc3339()`. The text is named `rfc3339_utc_text`.
#[verifier::external_body]
pub(crate) fn format_rfc3339_utc(secs: i64, nanos: u32) -> (r: Option<String>)
    ensures
        r matches Some(s) ==> rfc3339_utc_text(secs, nanos) == Some(s@),
        r is None ==> rfc3339_utc_text(secs, nanos) is None,
{
    match chrono::DateTime::from_timestamp(secs, nanos) {
        Some(d) => Some(d.to_rfc3339()),
        None => None,
    }
}

// ------------------------------------------------------------------ regex

/// The text of capture group 1 of the first match of `pattern` in `text`;
/// `None` when the pattern does not compile, nothing matches, or group 1
/// took no part in the match.
pub uninterp spec fn regex_first_group(pattern: Seq<char>, text: Seq<char>) -> Option<Seq<char>>;

/// `regex::Regex::captures` with the pattern compiled by `Regex::new`, and
/// group 1 of the result taken as text. Named `regex_first_group`.
#[verifier::external_body]
pub(crate) fn regex_capture_group1(pattern: &str, text: &str) -> (r: Option<String>)
    ensures
        r matches Some(s) ==> regex_first_group(pattern@, text@) == Some(s@),
        r is None ==> regex_first_group(pattern@, text@) is None,
{
    let re = match regex::Regex::new(pattern) {
        Ok(re) => re,
        Err(_) => return None,
    };
    match re.captures(text) {
        Some(caps) => match caps.get(1) {
            Some(m) => Some(m.as_str().to_string()),
            None => None,
        },
        None => None,
    }
}

// ------------------------------------------------------------------ flate2

/// The bytes that the first gzip member of `b` decompresses to, or `None` if
/// it is not valid gzip.
pub uninterp spec fn gunzip_first_member(b: Seq<u8>) -> Option<Seq<u8>>;

/// `flate2::read::GzDecoder` over `b`, read to the end. The bytes are named
/// `gunzip_first_member`; the text of an error is not described.
#[verifier::external_body]
pub(crate) fn gunzip(b: &[u8]) -> (r: Result<Vec<u8>, String>)
    ensures
        r matches Ok(v) ==> gunzip_first_member(b@) == Some(v@),
        r is Err ==> gunzip_first_member(b@) is None,
{
    let mut out = Vec::new();
    match flate2::read::GzDecoder::new(b).read_to_end(&mut out) {
        Ok(_) => Ok(out),
        Err(e) => Err(e.to_string()),
    }
}

// ------------------------------------------------------------ serde_json

/// `serde_json::Value`, carried through without its insides.
#[verifier::external_type_specification]
#[verifier::external_body]
pub struct ExJsonDocument(serde_json::Value);

/// The JSON value that some bytes hold, as the library models it, or `None`
/// when they are not JSON.
pub uninterp spec fn json_of_bytes(bytes: Seq<u8>) -> Option<JsonValue>;

/// A `serde_json::Value` as the library's `JsonValue`, variant for variant:
/// numbers as the text serde_json writes for them, objects as their fields
/// in the map's order.
#[verifier::external_body]
fn json_value_of(v: &serde_json::Value) -> JsonValue {
    match v {
        serde_json::Value::Null => JsonValue::Null,
        serde_json::Value::Bool(b) => JsonValue::Bool(*b),
        serde_json::Value::Number(n) => JsonValue::Number(n.to_string()),
        serde_json::Value::String(t) => JsonValue::Str(t.clone()),
        serde_json::Value::Array(a) => JsonValue::Array(a.iter().map(json_value_of).collect()),
        serde_json::Value::Object(o) => JsonValue::Object(
            o.iter().map(|(k, x)| (k.clone(), json_value_of(x))).collect(),
        ),
    }
}

/// `serde_json::from_slice::<serde_json::Value>`, converted to `JsonValue`.
/// The value is named `json_of_bytes`; the text of an error is not described.
#[verifier::external_body]
pub(crate) fn parse_json_bytes(bytes: &[u8]) -> (r: Result<JsonValue, String>)
    ensures
        r is Ok <==> json_of_bytes(bytes@) is Some,
        r matches Ok(v) ==> json_of_bytes(bytes@) == Some(v),
{
    match serde_json::from_slice::<serde_json::Value>(bytes) {
        Ok(v) => Ok(json_value_of(&v)),
        Err(e) => Err(e.to_string()),
    }
}

} // verus!
