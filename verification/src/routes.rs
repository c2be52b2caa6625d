//! Request-level helpers of the HTTP API: body decoding and the MCP client
//! configuration bundle.
use crate::bindings::{gunzip, gunzip_first_member, json_of_bytes, parse_json_bytes};
use crate::ingest::JsonValue;
use crate::auth::{authorize, has_scope, ApiKeyRecord, Scope};
use crate::error::AppError;
use crate::text::{concat, eq_ignore_ascii_case, eq_ignore_ascii_case_spec, trim_end_char, trim_end_char_spec};
use vstd::prelude::*;
use vstd::slice::slice_to_vec;
use vstd::string::StringExecFns;

verus! {

/// The body of an ingest request: gunzipped when its `Content-Encoding` is
/// `gzip` in any case, else as sent. Invalid gzip is a bad request.
pub fn maybe_gunzip(content_encoding: Option<&str>, body: &[u8]) -> (r: Result<Vec<u8>, AppError>)
    ensures
        ({
            let enc = match content_encoding {
                Some(e) => e@,
                None => ""@,
            };
            if eq_ignore_ascii_case_spec(enc, "gzip"@) {
                match gunzip_first_member(body@) {
                    Some(b) => r matches Ok(v) && v@ == b,
                    None => r matches Err(AppError::BadRequest(m)) && exists|t: Seq<char>|
                        m@ == "gzip decode: "@ + t,
                }
            } else {
                r matches Ok(v) && v@ == body@
            }
        }),
{
    let enc = match content_encoding {
        Some(e) => e,
        None => "",
    };
    if eq_ignore_ascii_case(enc, "gzip") {
        match gunzip(body) {
            Ok(v) => Ok(v),
            Err(e) => {
                let m = concat("gzip decode: ", e.as_str());
                assert(m@ == "gzip decode: "@ + e@);
                Err(AppError::BadRequest(m))
            },
        }
    } else {
        Ok(slice_to_vec(body))
    }
}

/// The next step of an ingest request after a check.
#[derive(Debug, Clone)]
pub enum IngestStep {
    /// Check the key's rate limit next.
    CheckRate(ApiKeyRecord),
    /// Read the body next: the key may ingest and is within its rate.
    ReadBody(ApiKeyRecord),
    /// Answer with the error; `counted` says whether the refusal counts as a 429.
    Refuse { error: AppError, counted: bool },
}

/// The step after the key lookup: no (or an unknown) key is `Unauthorized`,
/// a key without the ingest scope is `Forbidden`; otherwise the rate limit
/// comes next. Nothing is counted.
pub fn ingest_after_key(key: Option<ApiKeyRecord>) -> (r: IngestStep)
    ensures
        key is None ==> r matches IngestStep::Refuse { error: AppError::Unauthorized, counted: false },
        key matches Some(k) ==> (if has_scope(k.scopes, Scope::Ingest) {
            r == IngestStep::CheckRate(k)
        } else {
            r matches IngestStep::Refuse { error: AppError::Forbidden, counted: false }
        }),
{
    match authorize(key, Scope::Ingest) {
        Ok(k) => IngestStep::CheckRate(k),
        Err(e) => IngestStep::Refuse { error: e, counted: false },
    }
}

/// The step after the rate check: within its rate the body is read next;
/// over it the request is refused with a retry after one second, counted.
pub fn ingest_after_rate(key: ApiKeyRecord, within_rate: bool) -> (r: IngestStep)
    ensures
        within_rate ==> r == IngestStep::ReadBody(key),
        !within_rate ==> r matches IngestStep::Refuse {
            error: AppError::TooManyRequests { retry_after_secs: 1 },
            counted: true,
        },
{
    if within_rate {
        IngestStep::ReadBody(key)
    } else {
        IngestStep::Refuse { error: AppError::TooManyRequests { retry_after_secs: 1 }, counted: true }
    }
}

/// The bytes of an ingest body once its encoding is undone: gunzipped when
/// the `Content-Encoding` is `gzip` in any case, else as sent.
pub open spec fn decoded_body(content_encoding: Option<&str>, body: Seq<u8>) -> Option<Seq<u8>> {
    let enc = match content_encoding {
        Some(e) => e@,
        None => ""@,
    };
    if eq_ignore_ascii_case_spec(enc, "gzip"@) {
        gunzip_first_member(body)
    } else {
        Some(body)
    }
}

/// Parses JSON bytes; bytes that are not JSON are a bad request.
fn parse_body(bytes: &[u8]) -> (r: Result<JsonValue, AppError>)
    ensures
        json_of_bytes(bytes@) matches Some(v) ==> r == Ok::<JsonValue, AppError>(v),
        json_of_bytes(bytes@) is None ==> (r matches Err(AppError::BadRequest(m)) && exists|t: Seq<
            char,
        >| m@ == "invalid json: "@ + t),
{
    match parse_json_bytes(bytes) {
        Ok(v) => Ok(v),
        Err(e) => {
            let m = concat("invalid json: ", e.as_str());
            assert(m@ == "invalid json: "@ + e@);
            Err(AppError::BadRequest(m))
        },
    }
}

/// The JSON value of an ingest body: decoded as `maybe_gunzip` does (invalid
/// gzip is a bad request), then parsed (bytes that are not JSON are a bad
/// request).
pub fn ingest_payload(content_encoding: Option<&str>, body: &[u8]) -> (r: Result<JsonValue, AppError>)
    ensures
        decoded_body(content_encoding, body@) is None ==> (r matches Err(AppError::BadRequest(m))
            && exists|t: Seq<char>| m@ == "gzip decode: "@ + t),
        decoded_body(content_encoding, body@) matches Some(b) ==> {
            &&& json_of_bytes(b) matches Some(v) ==> r == Ok::<JsonValue, AppError>(v)
            &&& json_of_bytes(b) is None ==> (r matches Err(AppError::BadRequest(m)) && exists|
                t: Seq<char>,
            | m@ == "invalid json: "@ + t)
        },
{
    let bytes = maybe_gunzip(content_encoding, body)?;
    parse_body(bytes.as_slice())
}

/// The JSON value of an MCP request body; bytes that are not JSON are a bad
/// request.
pub fn mcp_payload(body: &[u8]) -> (r: Result<JsonValue, AppError>)
    ensures
        json_of_bytes(body@) matches Some(v) ==> r == Ok::<JsonValue, AppError>(v),
        json_of_bytes(body@) is None ==> (r matches Err(AppError::BadRequest(m)) && exists|t: Seq<
            char,
        >| m@ == "invalid json: "@ + t),
{
    parse_body(body)
}

/// What an MCP client needs: the query token, the endpoint URL, an
/// environment line and a client configuration.
#[derive(Debug, Clone)]
pub struct McpBundle {
    pub token: String,
    pub url: String,
    pub env: String,
    pub yaml: String,
}

/// The MCP client configuration before the URL.
pub const MCP_YAML_HEAD: &'static str = "mcp_servers:\n  vector_collector:\n    url: \"";

/// Between the URL and the token.
pub const MCP_YAML_AUTH: &'static str = "\"\n    headers:\n      Authorization: \"Bearer ";

/// After the token.
pub const MCP_YAML_TAIL: &'static str = "\"\n    timeout: 120\n    tools:\n      resources: false\n      prompts: false\n";

/// The MCP endpoint URL for a base URL.
pub open spec fn mcp_url_spec(public_base_url: Seq<char>) -> Seq<char> {
    trim_end_char_spec(public_base_url, '/') + "/mcp"@
}

/// The MCP connection bundle for a query token.
pub fn mcp_bundle(public_base_url: &str, token: &str) -> (r: McpBundle)
    ensures
        r.token@ == token@,
        r.url@ == mcp_url_spec(public_base_url@),
        r.env@ == "LOGDB_QUERY_KEY="@ + token@,
        r.yaml@ == MCP_YAML_HEAD@ + mcp_url_spec(public_base_url@) + MCP_YAML_AUTH@ + token@
            + MCP_YAML_TAIL@,
{
    let base = trim_end_char(public_base_url, '/');
    let url = concat(base.as_str(), "/mcp");
    let mut yaml = concat(MCP_YAML_HEAD, url.as_str());
    yaml.append(MCP_YAML_AUTH);
    yaml.append(token);
    yaml.append(MCP_YAML_TAIL);
    let env = concat("LOGDB_QUERY_KEY=", token);
    McpBundle { token: String::from_str(token), url, env, yaml }
}

} // verus!
