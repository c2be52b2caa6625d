use flate2::write::GzEncoder;
use flate2::Compression;
use logdb::error::{bad_request, internal, AppError};
use logdb::auth::{ApiKeyRecord, KeyScopes};
use logdb::ingest::JsonValue;
use logdb::routes::{ingest_after_key, ingest_after_rate, ingest_payload, maybe_gunzip, mcp_payload, IngestStep};
use std::io::Write;

#[test]
fn gzip_bodies_are_decoded() {
    let mut enc = GzEncoder::new(Vec::new(), Compression::default());
    enc.write_all(b"[{\"message\":\"hi\"}]").unwrap();
    let gz = enc.finish().unwrap();
    assert_eq!(maybe_gunzip(Some("gzip"), &gz).unwrap(), b"[{\"message\":\"hi\"}]".to_vec());
    assert_eq!(maybe_gunzip(Some("GZip"), &gz).unwrap(), b"[{\"message\":\"hi\"}]".to_vec());
    assert_eq!(maybe_gunzip(None, b"plain").unwrap(), b"plain".to_vec());
    assert_eq!(maybe_gunzip(Some("identity"), &gz).unwrap(), gz);
    assert!(matches!(maybe_gunzip(Some("gzip"), b"not gzip"), Err(AppError::BadRequest(_))));
}

#[test]
fn errors_map_to_statuses_and_bodies() {
    let cases = vec![
        (bad_request("nope"), 400, "nope", "nope"),
        (AppError::Unauthorized, 401, "unauthorized", "unauthorized"),
        (AppError::Forbidden, 403, "forbidden", "forbidden"),
        (AppError::NotFound, 404, "not found", "not found"),
        (AppError::TooManyRequests { retry_after_secs: 3 }, 429, "too many requests", "too many requests"),
        (AppError::Unavailable("db down".to_string()), 503, "service unavailable", "db down"),
        (internal("secret detail"), 500, "secret detail", "internal server error"),
    ];
    for (e, status, msg, body) in cases {
        assert_eq!(e.status_code(), status);
        assert_eq!(e.message(), msg);
        assert_eq!(e.body_message(), body);
    }
    assert_eq!(AppError::TooManyRequests { retry_after_secs: 3 }.retry_after(), Some(3));
    assert_eq!(AppError::NotFound.retry_after(), None);
    assert_eq!(AppError::Unavailable("x".to_string()).retry_after(), Some(2));
}

#[test]
fn ingest_bodies_are_decoded_then_parsed() {
    let mut enc = GzEncoder::new(Vec::new(), Compression::default());
    enc.write_all(b"{\"message\":\"hi\",\"n\":1.5}").unwrap();
    let gz = enc.finish().unwrap();
    match ingest_payload(Some("gzip"), &gz).unwrap() {
        JsonValue::Object(fields) => {
            assert_eq!(fields.len(), 2);
            assert!(matches!(&fields[0], (k, JsonValue::Str(v)) if k == "message" && v == "hi"));
            assert!(matches!(&fields[1], (k, JsonValue::Number(v)) if k == "n" && v == "1.5"));
        }
        other => panic!("unexpected {other:?}"),
    }
    assert!(matches!(ingest_payload(None, b"[1, true, null]").unwrap(), JsonValue::Array(a) if a.len() == 3));
    match ingest_payload(None, b"{not json") {
        Err(AppError::BadRequest(m)) => assert!(m.starts_with("invalid json: ")),
        other => panic!("unexpected {other:?}"),
    }
    match ingest_payload(Some("gzip"), b"{}") {
        Err(AppError::BadRequest(m)) => assert!(m.starts_with("gzip decode: ")),
        other => panic!("unexpected {other:?}"),
    }
    assert!(matches!(mcp_payload(b"{\"id\":1}").unwrap(), JsonValue::Object(_)));
    assert!(matches!(mcp_payload(b""), Err(AppError::BadRequest(_))));
}

#[test]
fn ingest_checks_key_scope_then_rate() {
    let key = |ingest: bool| ApiKeyRecord {
        id: "k".to_string(),
        name: "n".to_string(),
        key_prefix: "lk_".to_string(),
        scopes: KeyScopes { ingest, query: !ingest },
    };
    assert!(matches!(
        ingest_after_key(None),
        IngestStep::Refuse { error: AppError::Unauthorized, counted: false }
    ));
    assert!(matches!(
        ingest_after_key(Some(key(false))),
        IngestStep::Refuse { error: AppError::Forbidden, counted: false }
    ));
    assert!(matches!(ingest_after_key(Some(key(true))), IngestStep::CheckRate(k) if k.id == "k"));
    assert!(matches!(ingest_after_rate(key(true), true), IngestStep::ReadBody(_)));
    assert!(matches!(
        ingest_after_rate(key(true), false),
        IngestStep::Refuse { error: AppError::TooManyRequests { retry_after_secs: 1 }, counted: true }
    ));
}
