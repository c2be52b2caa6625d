use logdb::error::AppError;
use logdb::ingest::{
    agent_display_name, batch_objects, event_owner, embed_decision, extract_correlation, get_field,
    normalize_host, normalize_one, queue_refusal, should_embed_event, string_field, AgentTally,
    EmbedDecision, IngestStats, JsonValue,
};

fn s(v: &str) -> JsonValue {
    JsonValue::Str(v.to_string())
}

fn obj(fields: &[(&str, JsonValue)]) -> Vec<(String, JsonValue)> {
    fields.iter().map(|(k, v)| (k.to_string(), clone(v))).collect()
}

fn clone(v: &JsonValue) -> JsonValue {
    match v {
        JsonValue::Null => JsonValue::Null,
        JsonValue::Bool(b) => JsonValue::Bool(*b),
        JsonValue::Number(n) => JsonValue::Number(n.clone()),
        JsonValue::Str(t) => JsonValue::Str(t.clone()),
        JsonValue::Array(a) => JsonValue::Array(a.iter().map(clone).collect()),
        JsonValue::Object(o) => JsonValue::Object(o.iter().map(|(k, v)| (k.clone(), clone(v))).collect()),
    }
}

#[test]
fn fields_read_as_text() {
    let f = obj(&[
        ("message", s("hi")),
        ("code", JsonValue::Number("42".to_string())),
        ("ok", JsonValue::Bool(true)),
        ("none", JsonValue::Null),
        ("list", JsonValue::Array(vec![])),
    ]);
    assert_eq!(string_field(&f, "message"), Some("hi".to_string()));
    assert_eq!(string_field(&f, "code"), Some("42".to_string()));
    assert_eq!(string_field(&f, "ok"), Some("true".to_string()));
    assert_eq!(string_field(&f, "none"), None);
    assert_eq!(string_field(&f, "list"), None);
    assert_eq!(string_field(&f, "missing"), None);
    assert!(get_field(&f, "none").is_some());
}

#[test]
fn batches_are_arrays_or_events_objects() {
    let e1 = JsonValue::Object(obj(&[("message", s("a"))]));
    let e2 = JsonValue::Object(obj(&[("message", s("b"))]));
    let body = JsonValue::Array(vec![clone(&e1), JsonValue::Number("1".to_string()), clone(&e2)]);
    let objs = batch_objects(&body).unwrap();
    assert_eq!(objs.len(), 2);
    assert_eq!(string_field(objs[1], "message"), Some("b".to_string()));

    let wrapped = JsonValue::Object(obj(&[("events", JsonValue::Array(vec![clone(&e1)]))]));
    assert_eq!(batch_objects(&wrapped).unwrap().len(), 1);

    let single = JsonValue::Object(obj(&[("message", s("hello"))]));
    let objs = batch_objects(&single).unwrap();
    assert_eq!(objs.len(), 1);
    assert_eq!(string_field(objs[0], "message"), Some("hello".to_string()));
    let odd = JsonValue::Object(obj(&[("events", s("x")), ("message", s("m"))]));
    assert_eq!(batch_objects(&odd).unwrap().len(), 1);

    for bad in [s("x"), JsonValue::Number("1".to_string()), JsonValue::Null] {
        match batch_objects(&bad) {
            Err(AppError::BadRequest(m)) => assert_eq!(m, "body must be a JSON array of Vector events"),
            other => panic!("unexpected {other:?}"),
        }
    }
    for empty in [JsonValue::Array(vec![]), JsonValue::Array(vec![s("a"), JsonValue::Null])] {
        match batch_objects(&empty) {
            Err(AppError::BadRequest(m)) => assert_eq!(m, "no events in batch"),
            other => panic!("unexpected {other:?}"),
        }
    }
}

#[test]
fn hosts_default_to_unknown() {
    assert_eq!(normalize_host(Some("  web-1 ")), "web-1");
    assert_eq!(normalize_host(Some("   ")), "unknown");
    assert_eq!(normalize_host(None), "unknown");
    assert_eq!(agent_display_name("prod", "web-1"), "prod @ web-1");
}

#[test]
fn correlation_prefers_fields_then_labels_then_message() {
    let f = obj(&[("traceId", s("t-field"))]);
    let labels = JsonValue::Object(obj(&[("trace_id", s("t-label")), ("requestId", s("r-label"))]));
    assert_eq!(
        extract_correlation(&f, "trace_id=deadbeef00", Some(&labels)),
        (Some("t-field".to_string()), Some("r-label".to_string()))
    );
    let none = obj(&[]);
    assert_eq!(
        extract_correlation(&none, "GET / request_id=abc123 TraceID: DEADBEEF-1234", None),
        (Some("DEADBEEF-1234".to_string()), Some("abc123".to_string()))
    );
    assert_eq!(extract_correlation(&none, "traceid=short reqid=ab", None), (None, None));
    // Labels that are not an object are ignored.
    assert_eq!(
        extract_correlation(&none, "nothing here", Some(&s("trace_id"))),
        (None, None)
    );
}

#[test]
fn embedding_policy() {
    assert_eq!(embed_decision(Some("stderr"), "short"), EmbedDecision::Skip);
    assert_eq!(embed_decision(Some("stdout"), "        "), EmbedDecision::Skip);
    assert_eq!(embed_decision(Some("stderr"), "GET /healthz 200 OK"), EmbedDecision::Skip);
    assert_eq!(embed_decision(None, "probe /ready returned"), EmbedDecision::Skip);
    assert_eq!(embed_decision(Some("stderr"), "something happened"), EmbedDecision::Embed);
    assert_eq!(embed_decision(Some("stdout"), "ERROR: disk full"), EmbedDecision::Embed);
    assert_eq!(embed_decision(None, "thread panicked at"), EmbedDecision::Embed);
    assert_eq!(embed_decision(Some("stdout"), "user logged in"), EmbedDecision::Sample);
    assert!(!should_embed_event(Some("stdout"), "user logged in", false));
    assert!(should_embed_event(Some("stdout"), "user logged in", true));
    assert!(should_embed_event(Some("stdout"), "Warning: low memory", false));
    assert!(!should_embed_event(Some("stderr"), "healthcheck ok!!", true));
}

#[test]
fn events_are_normalised() {
    let f = obj(&[
        ("message", s("hello world")),
        ("timestamp", s("2024-05-01T12:00:00+02:00")),
        ("host", s("web-1")),
        ("container_id", s("c1")),
        ("container_name", s("api")),
        ("stream", s("stdout")),
        ("label", JsonValue::Object(obj(&[("request_id", s("req-9"))]))),
    ]);
    let e = normalize_one(
        &f,
        "2024-05-01T10:05:00+00:00",
        "01HZX0".to_string(),
        "{\"request_id\":\"req-9\"}".to_string(),
        "{}".to_string(),
        false,
    );
    assert_eq!(e.id, "01HZX0");
    assert_eq!(e.ts, "2024-05-01T10:00:00+00:00");
    assert_eq!(e.ingested_at, "2024-05-01T10:05:00+00:00");
    assert_eq!(e.message, "hello world");
    assert_eq!(e.host.as_deref(), Some("web-1"));
    assert_eq!(e.container_name.as_deref(), Some("api"));
    assert_eq!(e.image, None);
    assert_eq!(e.agent_id, None);
    assert_eq!(e.trace_id, None);
    assert_eq!(e.request_id.as_deref(), Some("req-9"));
    assert_eq!(e.labels_json, "{\"request_id\":\"req-9\"}");
    assert_eq!(
        e.content_hash,
        "d8bd57d55df7e48cf23d108eeb1fde84c6d80391b8db0f313eeffdd2283d3dec"
    );
    assert!(!e.should_embed);
}

#[test]
fn events_without_a_valid_time_take_the_ingest_time() {
    let f = obj(&[("timestamp", s("yesterday")), ("message", JsonValue::Number("7".to_string()))]);
    let e = normalize_one(&f, "2024-05-01T10:05:00+00:00", "x".to_string(), "{}".to_string(), "{}".to_string(), true);
    assert_eq!(e.ts, "2024-05-01T10:05:00+00:00");
    assert_eq!(e.message, "7");
    let e = normalize_one(&obj(&[]), "2024-05-01T10:05:00+00:00", "y".to_string(), "{}".to_string(), "{}".to_string(), true);
    assert_eq!(e.message, "");
    assert!(!e.should_embed);
}

#[test]
fn counters_wrap_and_tally_agents() {
    let mut st = IngestStats::new();
    st.record_accepted(10);
    st.record_accepted(5);
    st.record_rejected();
    assert_eq!(st, IngestStats { accepted: 2, rejected_429: 1, written: 15 });
    let mut w = IngestStats { accepted: u64::MAX, rejected_429: u64::MAX, written: u64::MAX };
    w.record_accepted(2);
    w.record_rejected();
    assert_eq!(w, IngestStats { accepted: 0, rejected_429: 0, written: 1 });

    let mut t = AgentTally::new();
    t.record("a", true);
    t.record("b", false);
    t.record("a", true);
    t.record("a", false);
    assert_eq!(t.entries(), &vec![("a".to_string(), 2), ("b".to_string(), 0)]);
}

#[test]
fn refused_batches() {
    assert!(matches!(queue_refusal(true), AppError::TooManyRequests { retry_after_secs: 1 }));
    match queue_refusal(false) {
        AppError::Unavailable(m) => assert_eq!(m, "ingest writer stopped"),
        other => panic!("unexpected {other:?}"),
    }
}

#[test]
fn dedicated_agents_force_the_host() {
    let d = Some(("a1".to_string(), "web-1".to_string()));
    assert_eq!(event_owner(&d, Some("other")), ("web-1".to_string(), Some("a1".to_string())));
    assert_eq!(event_owner(&None, Some("  box ")), ("box".to_string(), None));
    assert_eq!(event_owner(&None, None), ("unknown".to_string(), None));
}
