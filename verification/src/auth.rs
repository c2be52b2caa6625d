//! API keys, admin credentials, sessions and signed session cookies.
use crate::bindings::{
    argon2_hash, argon2_phc_hash, argon2_verifies, argon2_verify,
    format_rfc3339_utc, rfc3339_utc_text,
    hmac_sha256_of_text, hmac_sha256_text, os_random_bytes, parse_rfc3339, phc_salt_text, rfc3339_instant,
    salt_b64,
    sha256_of_text, sha256_text,
};
use crate::error::{bad_request, internal, AppError};
use crate::hex::{hex_encode, hex_lower, lemma_hex_lower_no_dot};
use crate::text::{
    chars_of, concat, push_char, rsplit_once, rsplit_once_spec, lemma_rsplit_once_concat,
    str_eq, strip_prefix, strip_prefix_spec, take_chars, trim, trim_char, trim_char_spec,
    trim_spec,
};
use vstd::prelude::*;
use vstd::string::{StringExecFns, StringSliceAdditionalSpecFns};
use vstd::utf8::{encode_utf8, encode_utf8_decode_utf8};

verus! {

/// What an API key may be used for.
#[derive(Debug, Clone, Copy, PartialEq, Eq, Structural)]
pub struct KeyScopes {
    pub ingest: bool,
    pub query: bool,
}

/// An API key as stored, without its secret.
#[derive(Debug, Clone)]
pub struct ApiKeyRecord {
    pub id: String,
    pub name: String,
    pub key_prefix: String,
    pub scopes: KeyScopes,
}

/// The name under which the MCP query key is stored.
pub const MCP_QUERY_KEY_NAME: &'static str = "mcp-query";

/// The scope a request needs.
#[derive(Debug, Clone, Copy, PartialEq, Eq, Structural)]
pub enum Scope {
    Ingest,
    Query,
}

// ---------------------------------------------------------------- API keys

/// The API key text made from random bytes: `lk_` and their hex.
pub open spec fn api_key_spec(bytes: Seq<u8>) -> Seq<char> {
    "lk_"@ + hex_lower(bytes)
}

/// The API key text for the given bytes.
pub fn api_key_from_bytes(bytes: &[u8]) -> (r: String)
    ensures
        r@ == api_key_spec(bytes@),
{
    let h = hex_encode(bytes);
    concat("lk_", h.as_str())
}

/// A fresh API key: `lk_` followed by the hex of 24 random bytes; an
/// internal error when the operating system refuses random bytes.
pub fn generate_api_key() -> (r: Result<String, AppError>)
    ensures
        r matches Ok(k) ==> exists|b: Seq<u8>| b.len() == 24 && k@ == api_key_spec(b),
        r matches Err(e) ==> (e matches AppError::Internal(m) && m@ == "random bytes unavailable"@),
{
    let bytes = match os_random_bytes(24) {
        Some(b) => b,
        None => return Err(internal("random bytes unavailable")),
    };
    let r = api_key_from_bytes(bytes.as_slice());
    assert(bytes@.len() == 24 && r@ == api_key_spec(bytes@));
    Ok(r)
}

/// What is stored of a key instead of the key: the hex SHA-256 of its text.
pub fn hash_api_key(raw: &str) -> (r: String)
    ensures
        r@ == hex_lower(sha256_of_text(raw@)),
{
    let d = sha256_text(raw);
    hex_encode(d.as_slice())
}

/// The first 10 characters of a key, kept for display.
pub open spec fn key_prefix_spec(raw: Seq<char>) -> Seq<char> {
    raw.take(if raw.len() < 10 { raw.len() as int } else { 10 })
}

/// The first 10 characters of a key.
pub fn key_prefix(raw: &str) -> (r: String)
    ensures
        r@ == key_prefix_spec(raw@),
{
    take_chars(raw, 10)
}

/// Whether a key may be used with the given scope.
pub open spec fn has_scope(scopes: KeyScopes, need: Scope) -> bool {
    match need {
        Scope::Ingest => scopes.ingest,
        Scope::Query => scopes.query,
    }
}

/// The check in front of every keyed endpoint: no key (or an unknown or
/// revoked one) is `Unauthorized`; a key without the scope is `Forbidden`.
pub fn authorize(key: Option<ApiKeyRecord>, need: Scope) -> (r: Result<ApiKeyRecord, AppError>)
    ensures
        key is None ==> r matches Err(AppError::Unauthorized),
        key matches Some(k) ==> (if has_scope(k.scopes, need) {
            r == Ok::<ApiKeyRecord, AppError>(k)
        } else {
            r matches Err(AppError::Forbidden)
        }),
{
    match key {
        None => Err(AppError::Unauthorized),
        Some(k) => {
            let ok = match need {
                Scope::Ingest => k.scopes.ingest,
                Scope::Query => k.scopes.query,
            };
            if ok {
                Ok(k)
            } else {
                Err(AppError::Forbidden)
            }
        },
    }
}

// ------------------------------------------------------------ bearer tokens

/// The text after `Bearer ` or `bearer `, if the header starts with either.
pub open spec fn bearer_rest(auth: Seq<char>) -> Option<Seq<char>> {
    match strip_prefix_spec(auth, "Bearer "@) {
        Some(t) => Some(t),
        None => strip_prefix_spec(auth, "bearer "@),
    }
}

/// The token of an `Authorization` header as the REST endpoints read it:
/// after the scheme, trimmed, with surrounding `"` and `'` quotes removed and
/// trimmed again; an empty token counts as none.
pub open spec fn bearer_spec(auth: Seq<char>) -> Option<Seq<char>> {
    match bearer_rest(auth) {
        Some(t) => {
            let tok = trim_spec(trim_char_spec(trim_char_spec(trim_spec(t), '"'), '\''));
            if tok.len() == 0 {
                None
            } else {
                Some(tok)
            }
        },
        None => None,
    }
}

fn strip_bearer(auth: &str) -> (r: Option<String>)
    ensures
        r matches Some(t) ==> bearer_rest(auth@) == Some(t@),
        r is None ==> bearer_rest(auth@) is None,
{
    match strip_prefix(auth, "Bearer ") {
        Some(t) => Some(t),
        None => strip_prefix(auth, "bearer "),
    }
}

/// The bearer token of an `Authorization` header value.
pub fn bearer_token(auth: &str) -> (r: Option<String>)
    ensures
        r matches Some(t) ==> bearer_spec(auth@) == Some(t@),
        r is None ==> bearer_spec(auth@) is None,
{
    match strip_bearer(auth) {
        Some(t) => {
            let a = trim(t.as_str());
            let b = trim_char(a.as_str(), '"');
            let c = trim_char(b.as_str(), '\'');
            let tok = trim(c.as_str());
            if tok.as_str().is_empty() {
                None
            } else {
                Some(tok)
            }
        },
        None => None,
    }
}

/// The token as the MCP endpoint reads it: after the scheme, trimmed.
pub open spec fn mcp_bearer_spec(auth: Seq<char>) -> Option<Seq<char>> {
    match bearer_rest(auth) {
        Some(t) => Some(trim_spec(t)),
        None => None,
    }
}

/// The bearer token of an `Authorization` header for the MCP endpoint.
pub fn mcp_bearer_token(auth: &str) -> (r: Option<String>)
    ensures
        r matches Some(t) ==> mcp_bearer_spec(auth@) == Some(t@),
        r is None ==> mcp_bearer_spec(auth@) is None,
{
    match strip_bearer(auth) {
        Some(t) => Some(trim(t.as_str())),
        None => None,
    }
}

// --------------------------------------------------------- signed cookies

/// A cookie value signed with `secret`: the value, `.`, and the hex
/// HMAC-SHA256 of the value.
pub open spec fn signed_cookie_spec(secret: Seq<char>, value: Seq<char>) -> Seq<char> {
    value + seq!['.'] + hex_lower(hmac_sha256_of_text(secret, value))
}

/// What verification accepts: the text before the last `.`, when the text
/// after it is the hex HMAC of that value.
pub open spec fn verified_cookie_spec(secret: Seq<char>, signed: Seq<char>) -> Option<Seq<char>> {
    match rsplit_once_spec(signed, '.') {
        Some((value, sig)) => if sig == hex_lower(hmac_sha256_of_text(secret, value)) {
            Some(value)
        } else {
            None
        },
        None => None,
    }
}

/// Signs a cookie value.
pub fn sign_cookie_value(secret: &str, value: &str) -> (r: Result<String, AppError>)
    ensures
        r matches Ok(s) && s@ == signed_cookie_spec(secret@, value@),
{
    match hmac_sha256_text(secret, value) {
        Some(tag) => {
            let sig = hex_encode(tag.as_slice());
            let mut out = String::from_str(value);
            push_char(&mut out, '.');
            out.append(sig.as_str());
            assert(out@ =~= signed_cookie_spec(secret@, value@));
            Ok(out)
        },
        None => Err(internal("hmac key")),
    }
}

/// Comparison of two byte strings whose time does not depend on where they differ.
pub fn constant_time_eq(a: &[u8], b: &[u8]) -> (r: bool)
    ensures
        r == (a@ == b@),
{
    if a.len() != b.len() {
        return false;
    }
    let mut acc: u8 = 0;
    let mut i: usize = 0;
    while i < a.len()
        invariant
            i <= a@.len() == b@.len(),
            acc == 0 <==> forall|j: int| 0 <= j < i ==> a@[j] == b@[j],
        decreases a@.len() - i,
    {
        let x = a[i];
        let y = b[i];
        let next = acc | (x ^ y);
        assert(next == 0 <==> (acc == 0 && x == y)) by (bit_vector)
            requires
                next == acc | (x ^ y),
        ;
        acc = next;
        i = i + 1;
    }
    assert(acc == 0 ==> a@ =~= b@);
    acc == 0
}

/// Checks a signed cookie and gives back the value it carries.
pub fn verify_cookie_value(secret: &str, signed: &str) -> (r: Option<String>)
    ensures
        r matches Some(v) ==> verified_cookie_spec(secret@, signed@) == Some(v@),
        r is None ==> verified_cookie_spec(secret@, signed@) is None,
{
    let (value, sig) = match rsplit_once(signed, '.') {
        Some(p) => p,
        None => return None,
    };
    let tag = match hmac_sha256_text(secret, value.as_str()) {
        Some(t) => t,
        None => return None,
    };
    let expected = hex_encode(tag.as_slice());
    let same = constant_time_eq(sig.as_str().as_bytes(), expected.as_str().as_bytes());
    proof {
        encode_utf8_decode_utf8(sig@);
        encode_utf8_decode_utf8(expected@);
    }
    if same {
        Some(value)
    } else {
        None
    }
}

/// A cookie signed with a secret verifies under the same secret, and gives
/// back exactly the value that was signed.
pub proof fn lemma_cookie_roundtrip(secret: Seq<char>, value: Seq<char>)
    ensures
        verified_cookie_spec(secret, signed_cookie_spec(secret, value)) == Some(value),
{
    let sig = hex_lower(hmac_sha256_of_text(secret, value));
    lemma_hex_lower_no_dot(hmac_sha256_of_text(secret, value));
    lemma_rsplit_once_concat(value, '.', sig);
}

/// A cookie accepted under a secret is exactly the signature of the value it
/// gives back: nothing else verifies.
pub proof fn lemma_cookie_sound(secret: Seq<char>, signed: Seq<char>, value: Seq<char>)
    requires
        verified_cookie_spec(secret, signed) == Some(value),
    ensures
        signed == signed_cookie_spec(secret, value),
{
    let i = choose|i: int| crate::text::is_last_at(signed, '.', i);
    crate::text::lemma_rsplit_once_at(signed, '.', i);
    assert(signed =~= signed.take(i) + seq!['.'] + signed.skip(i + 1));
}

// ------------------------------------------------------- admin credentials

/// The error of a failed password hash: `hash password: ` and the detail.
fn hash_error(detail: &str) -> (r: AppError)
    ensures
        r matches AppError::Internal(m) && m@ == "hash password: "@ + detail@,
{
    AppError::Internal(concat("hash password: ", detail))
}

/// Hashes a password with Argon2 under the given B64 salt: the PHC text,
/// or an internal error when the salt or the inputs are refused.
pub fn hash_password_with_salt(password: &str, salt: &str) -> (r: Result<String, AppError>)
    ensures
        r is Ok <==> argon2_phc_hash(password@, salt@) is Some,
        r matches Ok(h) ==> argon2_phc_hash(password@, salt@) == Some(h@),
        r matches Ok(h) ==> argon2_verifies(password@, h@),
        r matches Err(e) ==> (e matches AppError::Internal(m) && exists|t: Seq<char>|
            m@ == "hash password: "@ + t),
{
    match argon2_hash(password, salt) {
        Ok(h) => Ok(h),
        Err(e) => Err(hash_error(e.as_str())),
    }
}

/// Hashes a password with Argon2 under the PHC salt text of 16 random bytes.
pub fn hash_password(password: &str) -> (r: Result<String, AppError>)
    ensures
        r matches Ok(h) ==> argon2_verifies(password@, h@),
        r matches Ok(h) ==> exists|b: Seq<u8>, salt: Seq<char>|
            b.len() == 16 && phc_salt_text(b) == Some(salt) && argon2_phc_hash(password@, salt)
                == Some(h@),
        r matches Err(e) ==> (e matches AppError::Internal(m) && exists|t: Seq<char>|
            m@ == "hash password: "@ + t),
{
    let bytes = match os_random_bytes(16) {
        Some(b) => b,
        None => return Err(hash_error("random bytes unavailable")),
    };
    let salt = match salt_b64(bytes.as_slice()) {
        Some(t) => t,
        None => return Err(hash_error("salt encoding")),
    };
    let r = hash_password_with_salt(password, salt.as_str());
    proof {
        if r is Ok {
            let h = r->Ok_0;
            assert(bytes@.len() == 16 && phc_salt_text(bytes@) == Some(salt@) && argon2_phc_hash(
                password@,
                salt@,
            ) == Some(h@));
        }
    }
    r
}

/// Whether `password` matches the stored Argon2 hash.
pub fn verify_password(password: &str, hash: &str) -> (r: bool)
    ensures
        r == argon2_verifies(password@, hash@),
{
    argon2_verify(password, hash)
}

/// The admin user name in effect: the stored one, else `admin`.
pub open spec fn admin_user_spec(stored_user: Option<String>) -> Seq<char> {
    match stored_user {
        Some(u) => u@,
        None => "admin"@,
    }
}

/// The admin login check over the stored user name and password hash.
pub fn check_admin_login(
    stored_user: Option<String>,
    stored_hash: Option<String>,
    username: &str,
    password: &str,
) -> (r: Result<bool, AppError>)
    ensures
        stored_hash is None ==> (r matches Err(AppError::Internal(m)) && m@ == "admin not initialized"@),
        stored_hash matches Some(h) ==> r == Ok::<bool, AppError>(
            admin_user_spec(stored_user) == username@ && argon2_verifies(password@, h@),
        ),
{
    let user = match stored_user {
        Some(u) => u,
        None => String::from_str("admin"),
    };
    let hash = match stored_hash {
        Some(h) => h,
        None => return Err(internal("admin not initialized")),
    };
    Ok(str_eq(user.as_str(), username) && verify_password(password, hash.as_str()))
}

/// The admin password re-check over the stored hash.
pub fn check_admin_password(stored_hash: Option<String>, password: &str) -> (r: Result<bool, AppError>)
    ensures
        stored_hash is None ==> (r matches Err(AppError::Internal(m)) && m@ == "admin not initialized"@),
        stored_hash matches Some(h) ==> r == Ok::<bool, AppError>(argon2_verifies(password@, h@)),
{
    match stored_hash {
        Some(h) => Ok(verify_password(password, h.as_str())),
        None => Err(internal("admin not initialized")),
    }
}

// ----------------------------------------------------------------- sessions

/// What the stored expiry of a session says about it.
#[derive(Debug, Clone, Copy, PartialEq, Eq, Structural)]
pub enum SessionState {
    /// No such session.
    Missing,
    /// The session has expired and is to be deleted.
    Expired,
    /// The session is valid.
    Active,
}

/// When a session opened at `now_secs` seconds and `now_nanos` nanoseconds
/// after the epoch expires after `ttl_hours` hours, as RFC 3339 UTC text;
/// `None` when that instant cannot be written.
pub fn session_expiry(now_secs: i64, now_nanos: u32, ttl_hours: i64) -> (r: Option<String>)
    ensures
        ({
            let end = now_secs + ttl_hours * 3600;
            if end < i64::MIN || end > i64::MAX {
                r is None
            } else {
                match rfc3339_utc_text(end as i64, now_nanos) {
                    Some(t) => r matches Some(s) && s@ == t,
                    None => r is None,
                }
            }
        }),
{
    let end: i128 = now_secs as i128 + ttl_hours as i128 * 3600;
    if end < -0x8000_0000_0000_0000i128 || end > 0x7fff_ffff_ffff_ffffi128 {
        return None;
    }
    format_rfc3339_utc(end as i64, now_nanos)
}

/// Instant `a` lies strictly before instant `b`; instants are seconds since
/// the epoch and sub-second nanoseconds.
pub open spec fn instant_before(a: (i64, u32), b: (i64, u32)) -> bool {
    a.0 < b.0 || (a.0 == b.0 && a.1 < b.1)
}

/// Decides a session from its stored expiry (RFC 3339) and the time now.
pub fn validate_session(expires_at: Option<String>, now_secs: i64, now_nanos: u32) -> (r: Result<
    SessionState,
    AppError,
>)
    ensures
        expires_at is None ==> r == Ok::<SessionState, AppError>(SessionState::Missing),
        expires_at matches Some(e) ==> match rfc3339_instant(e@) {
            None => r matches Err(AppError::Internal(m)) && m@ == "invalid session expiry"@,
            Some(t) => r == Ok::<SessionState, AppError>(
                if instant_before(t, (now_secs, now_nanos)) {
                    SessionState::Expired
                } else {
                    SessionState::Active
                },
            ),
        },
{
    let e = match expires_at {
        Some(e) => e,
        None => return Ok(SessionState::Missing),
    };
    match parse_rfc3339(e.as_str()) {
        None => Err(internal("invalid session expiry")),
        Some((secs, nanos)) => {
            if secs < now_secs || (secs == now_secs && nanos < now_nanos) {
                Ok(SessionState::Expired)
            } else {
                Ok(SessionState::Active)
            }
        },
    }
}

// ------------------------------------------------------------------- agents

/// A validated request to create an agent: its host name, the name of its
/// ingest key, and the key's scopes.
#[derive(Debug, Clone)]
pub struct AgentRegistration {
    pub hostname: String,
    pub key_name: String,
    pub scopes: KeyScopes,
}

/// Validates the name of a new agent and derives its key: the name is
/// trimmed; it must not be empty nor longer than 128 bytes of UTF-8.
pub fn agent_registration(hostname: &str) -> (r: Result<AgentRegistration, AppError>)
    ensures
        ({
            let t = trim_spec(hostname@);
            &&& t.len() == 0 ==> (r matches Err(AppError::BadRequest(m)) && m@ == "name is required"@)
            &&& t.len() > 0 && encode_utf8(t).len() > 128 ==> (r matches Err(AppError::BadRequest(m))
                && m@ == "name too long"@)
            &&& t.len() > 0 && encode_utf8(t).len() <= 128 ==> (r matches Ok(reg) && reg.hostname@ == t
                && reg.key_name@ == "agent:"@ + t && reg.scopes == (KeyScopes {
                ingest: true,
                query: false,
            }))
        }),
{
    let name = trim(hostname);
    if name.as_str().is_empty() {
        return Err(bad_request("name is required"));
    }
    if name.as_str().as_bytes().len() > 128 {
        return Err(bad_request("name too long"));
    }
    let key_name = concat("agent:", name.as_str());
    Ok(AgentRegistration { hostname: name, key_name, scopes: KeyScopes { ingest: true, query: false } })
}

/// What the agent lookup for connect info returned: the agent's name and
/// its key's stored secret and revocation time.
#[derive(Debug, Clone)]
pub struct AgentSecretRow {
    pub name: String,
    pub secret: Option<String>,
    pub revoked_at: Option<String>,
}

/// The (host name, token) of a wizard-created agent, from its row.
pub fn agent_connect_secret(row: Option<AgentSecretRow>) -> (r: Result<(String, String), AppError>)
    ensures
        row is None ==> r matches Err(AppError::NotFound),
        row matches Some(a) ==> {
            if a.revoked_at is Some {
                r matches Err(AppError::BadRequest(m)) && m@ == "agent key revoked"@
            } else {
                match a.secret {
                    Some(s) => if s@.len() > 0 {
                        r matches Ok(p) && p.0@ == a.name@ && p.1@ == s@
                    } else {
                        r matches Err(AppError::NotFound)
                    },
                    None => r matches Err(AppError::NotFound),
                }
            }
        },
{
    let a = match row {
        Some(a) => a,
        None => return Err(AppError::NotFound),
    };
    if a.revoked_at.is_some() {
        return Err(bad_request("agent key revoked"));
    }
    match a.secret {
        Some(s) => {
            if s.as_str().is_empty() {
                Err(AppError::NotFound)
            } else {
                Ok((a.name, s))
            }
        },
        None => Err(AppError::NotFound),
    }
}

} // verus!
