//! Normalisation of Vector events into stored log rows.
use crate::bindings::{
    format_rfc3339_utc, parse_rfc3339, regex_capture_group1, regex_first_group, rfc3339_instant,
    rfc3339_utc_text, sha256_of_text, sha256_text,
};
use crate::error::{bad_request, AppError};
use crate::hex::{hex_encode, hex_lower};
use crate::text::{
    ascii_lower_spec, chars_of, concat, contains_chars, contains_spec, lower_chars, str_eq, trim,
    trim_spec,
};
use vstd::prelude::*;
use vstd::string::{StringExecFns, StringSliceAdditionalSpecFns};
use vstd::utf8::encode_utf8;

verus! {

// --------------------------------------------------------------- JSON model

/// A JSON value as the normaliser reads it. Numbers are held as the text
/// `serde_json` writes for them; objects as their fields in order, each key
/// once.
#[derive(Debug)]
pub enum JsonValue {
    Null,
    Bool(bool),
    Number(String),
    Str(String),
    Array(Vec<JsonValue>),
    Object(Vec<(String, JsonValue)>),
}

/// The value of the first field named `key`.
pub open spec fn lookup(fields: Seq<(String, JsonValue)>, key: Seq<char>) -> Option<JsonValue>
    decreases fields.len(),
{
    if fields.len() == 0 {
        None
    } else if fields[0].0@ == key {
        Some(fields[0].1)
    } else {
        lookup(fields.drop_first(), key)
    }
}

proof fn lemma_lookup_skip(fields: Seq<(String, JsonValue)>, key: Seq<char>, i: int)
    requires
        0 <= i <= fields.len(),
        forall|j: int| 0 <= j < i ==> (#[trigger] fields[j]).0@ != key,
    ensures
        lookup(fields, key) == lookup(fields.skip(i), key),
    decreases i,
{
    if i > 0 {
        let t = fields.drop_first();
        assert forall|j: int| 0 <= j < i - 1 implies (#[trigger] t[j]).0@ != key by {
            assert(t[j] == fields[j + 1]);
        }
        lemma_lookup_skip(t, key, i - 1);
        assert(t.skip(i - 1) =~= fields.skip(i));
    } else {
        assert(fields.skip(0) =~= fields);
    }
}

/// The value of the field named `key` (`Map::get`).
pub fn get_field<'a>(fields: &'a Vec<(String, JsonValue)>, key: &str) -> (r: Option<&'a JsonValue>)
    ensures
        match r {
            Some(v) => lookup(fields@, key@) == Some(*v),
            None => lookup(fields@, key@) is None,
        },
{
    let mut i: usize = 0;
    while i < fields.len()
        invariant
            i <= fields@.len(),
            forall|j: int| 0 <= j < i ==> (#[trigger] fields@[j]).0@ != key@,
        decreases fields@.len() - i,
    {
        if str_eq(fields[i].0.as_str(), key) {
            proof {
                lemma_lookup_skip(fields@, key@, i as int);
                assert(fields@.skip(i as int)[0] == fields@[i as int]);
            }
            return Some(&fields[i].1);
        }
        i = i + 1;
    }
    proof {
        lemma_lookup_skip(fields@, key@, i as int);
        assert(fields@.skip(i as int).len() == 0);
    }
    None
}

/// A field read as text: strings as they are, numbers and booleans as
/// written; other values and missing fields give nothing.
pub open spec fn string_field_spec(fields: Seq<(String, JsonValue)>, key: Seq<char>) -> Option<Seq<char>> {
    match lookup(fields, key) {
        Some(JsonValue::Str(s)) => Some(s@),
        Some(JsonValue::Number(n)) => Some(n@),
        Some(JsonValue::Bool(b)) => Some(
            if b {
                "true"@
            } else {
                "false"@
            },
        ),
        _ => None,
    }
}

/// A field read as text.
pub fn string_field(fields: &Vec<(String, JsonValue)>, key: &str) -> (r: Option<String>)
    ensures
        match r {
            Some(s) => string_field_spec(fields@, key@) == Some(s@),
            None => string_field_spec(fields@, key@) is None,
        },
{
    match get_field(fields, key) {
        Some(JsonValue::Str(s)) => Some(s.clone()),
        Some(JsonValue::Number(n)) => Some(n.clone()),
        Some(JsonValue::Bool(b)) => {
            if *b {
                Some(String::from_str("true"))
            } else {
                Some(String::from_str("false"))
            }
        },
        _ => None,
    }
}

/// The first of two fields present as text.
pub open spec fn either_field_spec(fields: Seq<(String, JsonValue)>, a: Seq<char>, b: Seq<char>) -> Option<
    Seq<char>,
> {
    match string_field_spec(fields, a) {
        Some(x) => Some(x),
        None => string_field_spec(fields, b),
    }
}

fn either_field(fields: &Vec<(String, JsonValue)>, a: &str, b: &str) -> (r: Option<String>)
    ensures
        match r {
            Some(s) => either_field_spec(fields@, a@, b@) == Some(s@),
            None => either_field_spec(fields@, a@, b@) is None,
        },
{
    match string_field(fields, a) {
        Some(x) => Some(x),
        None => string_field(fields, b),
    }
}

// ---------------------------------------------------------------- batches

/// The items of an ingest body: the body itself when it is an array; its
/// `events` array when it is an object that has one; else, for an object,
/// the object alone (a single event).
pub open spec fn batch_items_spec(payload: JsonValue) -> Option<Seq<JsonValue>> {
    match payload {
        JsonValue::Array(a) => Some(a@),
        JsonValue::Object(o) => match lookup(o@, "events"@) {
            Some(JsonValue::Array(a)) => Some(a@),
            _ => Some(seq![payload]),
        },
        _ => None,
    }
}

/// The fields of the items that are objects, in order.
pub open spec fn object_items(items: Seq<JsonValue>) -> Seq<Seq<(String, JsonValue)>>
    decreases items.len(),
{
    if items.len() == 0 {
        Seq::empty()
    } else {
        let p = object_items(items.drop_last());
        match items.last() {
            JsonValue::Object(f) => p.push(f@),
            _ => p,
        }
    }
}

/// The event objects of an ingest body: a JSON event or an array of events
/// (bare, or under `events`). A body that is neither an array nor an object
/// is refused, and so is one without any object among its items.
pub fn batch_objects(payload: &JsonValue) -> (r: Result<Vec<&Vec<(String, JsonValue)>>, AppError>)
    ensures
        batch_items_spec(*payload) is None ==> (r matches Err(AppError::BadRequest(m)) && m@
            == "body must be a JSON array of Vector events"@),
        batch_items_spec(*payload) matches Some(items) ==> {
            let objs = object_items(items);
            &&& objs.len() == 0 ==> (r matches Err(AppError::BadRequest(m)) && m@
                == "no events in batch"@)
            &&& objs.len() > 0 ==> (r matches Ok(v) && v@.map_values(
                |f: &Vec<(String, JsonValue)>| f@,
            ) == objs)
        },
{
    let items: &Vec<JsonValue> = match payload {
        JsonValue::Array(a) => a,
        JsonValue::Object(o) => match get_field(o, "events") {
            Some(JsonValue::Array(a)) => a,
            _ => {
                proof {
                    let one = seq![*payload];
                    assert(one.drop_last() =~= Seq::<JsonValue>::empty());
                    assert(object_items(one) == object_items(Seq::<JsonValue>::empty()).push(o@));
                }
                let mut single: Vec<&Vec<(String, JsonValue)>> = Vec::new();
                single.push(o);
                assert(single@.map_values(|f: &Vec<(String, JsonValue)>| f@) =~= seq![o@]);
                return Ok(single);
            },
        },
        _ => return Err(bad_request("body must be a JSON array of Vector events")),
    };
    assert(batch_items_spec(*payload) == Some(items@));
    let mut out: Vec<&Vec<(String, JsonValue)>> = Vec::new();
    let mut i: usize = 0;
    while i < items.len()
        invariant
            i <= items@.len(),
            out@.map_values(|f: &Vec<(String, JsonValue)>| f@) == object_items(items@.take(i as int)),
        decreases items@.len() - i,
    {
        let ghost before = out@;
        match &items[i] {
            JsonValue::Object(f) => {
                out.push(f);
                assert(out@.map_values(|f: &Vec<(String, JsonValue)>| f@) =~= before.map_values(
                    |f: &Vec<(String, JsonValue)>| f@,
                ).push(f@));
            },
            _ => {},
        }
        proof {
            let t = items@.take(i + 1);
            assert(t.drop_last() =~= items@.take(i as int));
            assert(t.last() == items@[i as int]);
        }
        i = i + 1;
    }
    assert(items@.take(items@.len() as int) =~= items@);
    if out.len() == 0 {
        return Err(bad_request("no events in batch"));
    }
    Ok(out)
}

// ------------------------------------------------------------------- hosts

/// The host an event is filed under: its trimmed host, or `unknown` when it
/// has none or only whitespace.
pub open spec fn normalize_host_spec(host: Option<Seq<char>>) -> Seq<char> {
    match host {
        Some(h) => if trim_spec(h).len() > 0 {
            trim_spec(h)
        } else {
            "unknown"@
        },
        None => "unknown"@,
    }
}

/// The host an event is filed under.
pub fn normalize_host(host: Option<&str>) -> (r: String)
    ensures
        r@ == normalize_host_spec(crate::vector_presets::opt_view(host)),
{
    match host {
        Some(h) => {
            let t = trim(h);
            if t.as_str().is_empty() {
                String::from_str("unknown")
            } else {
                t
            }
        },
        None => String::from_str("unknown"),
    }
}

/// Where an event of a batch is filed, as (host, agent id): under an agent
/// that owns the key (created with a stored secret), its name is the host
/// whatever the event says; otherwise the event's normalised host, with the
/// agent of that key and host to be found or created (`None`).
pub fn event_owner(dedicated: &Option<(String, String)>, host: Option<&str>) -> (r: (String, Option<String>))
    ensures
        match *dedicated {
            Some(d) => r.0@ == d.1@ && (r.1 matches Some(id) && id@ == d.0@),
            None => r.0@ == normalize_host_spec(crate::vector_presets::opt_view(host)) && r.1 is None,
        },
{
    match dedicated {
        Some((id, name)) => (name.clone(), Some(id.clone())),
        None => (normalize_host(host), None),
    }
}

/// The name of an agent created on first contact from a host: the key's
/// name, ` @ `, the host.
pub fn agent_display_name(key_name: &str, host: &str) -> (r: String)
    ensures
        r@ == key_name@ + " @ "@ + host@,
{
    let mut s = concat(key_name, " @ ");
    s.append(host);
    s
}

// -------------------------------------------------------------- correlation

/// The pattern that finds a trace id in a message.
pub const TRACE_PATTERN: &'static str = "(?i)\\b(?:trace[_-]?id|traceid)[=: ]+([a-f0-9-]{8,})\\b";

/// The pattern that finds a request id in a message.
pub const REQUEST_PATTERN: &'static str = "(?i)\\b(?:request[_-]?id|reqid|requestid)[=: ]+([a-zA-Z0-9-]{6,})\\b";

/// The trace and request ids of an event: from its own fields
/// (`trace_id`/`traceId`, `request_id`/`requestId`), else from its labels
/// (when they are an object; absent labels count as an empty object), else
/// from its message by pattern.
pub open spec fn correlation_spec(
    fields: Seq<(String, JsonValue)>,
    message: Seq<char>,
    labels: Option<JsonValue>,
) -> (Option<Seq<char>>, Option<Seq<char>>) {
    let t0 = either_field_spec(fields, "trace_id"@, "traceId"@);
    let r0 = either_field_spec(fields, "request_id"@, "requestId"@);
    let t1 = match labels {
        Some(JsonValue::Object(l)) => if t0 is None {
            either_field_spec(l@, "trace_id"@, "traceId"@)
        } else {
            t0
        },
        _ => t0,
    };
    let r1 = match labels {
        Some(JsonValue::Object(l)) => if r0 is None {
            either_field_spec(l@, "request_id"@, "requestId"@)
        } else {
            r0
        },
        _ => r0,
    };
    let t2 = if t1 is None {
        regex_first_group(TRACE_PATTERN@, message)
    } else {
        t1
    };
    let r2 = if r1 is None {
        regex_first_group(REQUEST_PATTERN@, message)
    } else {
        r1
    };
    (t2, r2)
}

/// An event's own `trace_id` (else `traceId`) text field is its trace id,
/// and its own `request_id` (else `requestId`) its request id, whatever its
/// labels or message say.
pub proof fn lemma_own_ids_win(fields: Seq<(String, JsonValue)>, message: Seq<char>, labels: Option<JsonValue>)
    ensures
        string_field_spec(fields, "trace_id"@) is Some ==> correlation_spec(fields, message, labels).0
            == string_field_spec(fields, "trace_id"@),
        string_field_spec(fields, "trace_id"@) is None && string_field_spec(fields, "traceId"@) is Some
            ==> correlation_spec(fields, message, labels).0 == string_field_spec(fields, "traceId"@),
        string_field_spec(fields, "request_id"@) is Some ==> correlation_spec(fields, message, labels).1
            == string_field_spec(fields, "request_id"@),
        string_field_spec(fields, "request_id"@) is None && string_field_spec(fields, "requestId"@)
            is Some ==> correlation_spec(fields, message, labels).1 == string_field_spec(
            fields,
            "requestId"@,
        ),
{
}

/// The view of an optional string.
pub open spec fn sview(o: Option<String>) -> Option<Seq<char>> {
    match o {
        Some(s) => Some(s@),
        None => None,
    }
}

/// The trace and request ids of an event.
pub fn extract_correlation(
    fields: &Vec<(String, JsonValue)>,
    message: &str,
    labels: Option<&JsonValue>,
) -> (r: (Option<String>, Option<String>))
    ensures
        (sview(r.0), sview(r.1)) == correlation_spec(
            fields@,
            message@,
            match labels {
                Some(l) => Some(*l),
                None => None,
            },
        ),
{
    let mut trace = either_field(fields, "trace_id", "traceId");
    let mut request = either_field(fields, "request_id", "requestId");
    if let Some(JsonValue::Object(l)) = labels {
        if trace.is_none() {
            trace = either_field(l, "trace_id", "traceId");
        }
        if request.is_none() {
            request = either_field(l, "request_id", "requestId");
        }
    }
    if trace.is_none() {
        trace = regex_capture_group1(TRACE_PATTERN, message);
    }
    if request.is_none() {
        request = regex_capture_group1(REQUEST_PATTERN, message);
    }
    (trace, request)
}

// ---------------------------------------------------------------- embedding

/// Whether an event is queued for a semantic embedding.
#[derive(Debug, Clone, Copy, PartialEq, Eq, Structural)]
pub enum EmbedDecision {
    /// Never: empty, short, or health-check noise.
    Skip,
    /// Always: stderr, or a message about an error, exception, panic or warning.
    Embed,
    /// Left to the sample rate.
    Sample,
}

/// The embedding decision for a message on a stream.
pub open spec fn embed_decision_spec(stream: Option<Seq<char>>, message: Seq<char>) -> EmbedDecision {
    let msg = ascii_lower_spec(message);
    if trim_spec(message).len() == 0 || encode_utf8(message).len() < 8 {
        EmbedDecision::Skip
    } else if contains_spec(msg, "healthcheck"@) || contains_spec(msg, "healthz"@) || contains_spec(
        msg,
        "/ready"@,
    ) {
        EmbedDecision::Skip
    } else if stream == Some("stderr"@) {
        EmbedDecision::Embed
    } else if contains_spec(msg, "error"@) || contains_spec(msg, "exception"@) || contains_spec(
        msg,
        "panic"@,
    ) || contains_spec(msg, "warn"@) {
        EmbedDecision::Embed
    } else {
        EmbedDecision::Sample
    }
}

/// The embedding decision for a message on a stream.
pub fn embed_decision(stream: Option<&str>, message: &str) -> (r: EmbedDecision)
    ensures
        r == embed_decision_spec(crate::vector_presets::opt_view(stream), message@),
{
    let msg = lower_chars(&chars_of(message));
    let t = trim(message);
    if t.as_str().is_empty() || message.as_bytes().len() < 8 {
        return EmbedDecision::Skip;
    }
    if contains_chars(&msg, &chars_of("healthcheck")) || contains_chars(&msg, &chars_of("healthz"))
        || contains_chars(&msg, &chars_of("/ready")) {
        return EmbedDecision::Skip;
    }
    let is_stderr = match stream {
        Some(s) => str_eq(s, "stderr"),
        None => false,
    };
    if is_stderr {
        return EmbedDecision::Embed;
    }
    if contains_chars(&msg, &chars_of("error")) || contains_chars(&msg, &chars_of("exception"))
        || contains_chars(&msg, &chars_of("panic")) || contains_chars(&msg, &chars_of("warn")) {
        return EmbedDecision::Embed;
    }
    EmbedDecision::Sample
}

/// Whether an event is embedded, given the outcome of the sample draw
/// (`sampled`: the sample rate is positive and a uniform draw fell below it).
pub fn should_embed_event(stream: Option<&str>, message: &str, sampled: bool) -> (r: bool)
    ensures
        r == match embed_decision_spec(crate::vector_presets::opt_view(stream), message@) {
            EmbedDecision::Skip => false,
            EmbedDecision::Embed => true,
            EmbedDecision::Sample => sampled,
        },
{
    match embed_decision(stream, message) {
        EmbedDecision::Skip => false,
        EmbedDecision::Embed => true,
        EmbedDecision::Sample => sampled,
    }
}

// ----------------------------------------------------------------- events

/// A log event ready to be stored.
#[derive(Debug, Clone)]
pub struct NormalizedEvent {
    pub id: String,
    pub ts: String,
    pub ingested_at: String,
    pub host: Option<String>,
    pub container_name: Option<String>,
    pub container_id: Option<String>,
    pub image: Option<String>,
    pub stream: Option<String>,
    pub source_type: Option<String>,
    pub agent_id: Option<String>,
    pub trace_id: Option<String>,
    pub request_id: Option<String>,
    pub message: String,
    pub labels_json: String,
    pub raw_json: String,
    pub content_hash: String,
    pub should_embed: bool,
}

/// The event time: its `timestamp` written back in UTC when it parses as
/// RFC 3339, else the time of ingest.
pub open spec fn event_ts_spec(fields: Seq<(String, JsonValue)>, now: Seq<char>) -> Seq<char> {
    match string_field_spec(fields, "timestamp"@) {
        Some(t) => match rfc3339_instant(t) {
            Some(i) => match rfc3339_utc_text(i.0, i.1) {
                Some(s) => s,
                None => now,
            },
            None => now,
        },
        None => now,
    }
}

/// An optional text, empty when absent.
pub open spec fn or_empty(o: Option<Seq<char>>) -> Seq<char> {
    match o {
        Some(s) => s,
        None => Seq::empty(),
    }
}

/// The text whose SHA-256 identifies an event's content: time, host,
/// container id and message.
pub open spec fn content_text(
    ts: Seq<char>,
    host: Option<Seq<char>>,
    container_id: Option<Seq<char>>,
    message: Seq<char>,
) -> Seq<char> {
    ts + or_empty(host) + or_empty(container_id) + message
}


fn event_ts(fields: &Vec<(String, JsonValue)>, now: &str) -> (r: String)
    ensures
        r@ == event_ts_spec(fields@, now@),
{
    match string_field(fields, "timestamp") {
        Some(t) => match parse_rfc3339(t.as_str()) {
            Some((secs, nanos)) => match format_rfc3339_utc(secs, nanos) {
                Some(s) => s,
                None => String::from_str(now),
            },
            None => String::from_str(now),
        },
        None => String::from_str(now),
    }
}

fn content_hash(ts: &str, host: &Option<String>, container_id: &Option<String>, message: &str) -> (r:
    String)
    ensures
        r@ == hex_lower(sha256_of_text(content_text(ts@, sview(*host), sview(*container_id), message@))),
{
    let mut t = String::from_str(ts);
    match host {
        Some(h) => t.append(h.as_str()),
        None => {},
    }
    match container_id {
        Some(c) => t.append(c.as_str()),
        None => {},
    }
    t.append(message);
    assert(t@ =~= content_text(ts@, sview(*host), sview(*container_id), message@));
    let d = sha256_text(t.as_str());
    hex_encode(d.as_slice())
}

/// Normalises one Vector event (an object's fields). The caller supplies the
/// new event's id, the time of ingest as RFC 3339 text, the JSON text of its
/// labels and of the whole event, and the outcome of the sample draw.
pub fn normalize_one(
    fields: &Vec<(String, JsonValue)>,
    now: &str,
    id: String,
    labels_json: String,
    raw_json: String,
    sampled: bool,
) -> (e: NormalizedEvent)
    ensures
        ({
            let f = fields@;
            let message = or_empty(string_field_spec(f, "message"@));
            let ts = event_ts_spec(f, now@);
            let corr = correlation_spec(f, message, lookup(f, "label"@));
            &&& e.id == id
            &&& e.ts@ == ts
            &&& e.ingested_at@ == now@
            &&& e.message@ == message
            &&& sview(e.host) == string_field_spec(f, "host"@)
            &&& sview(e.container_name) == string_field_spec(f, "container_name"@)
            &&& sview(e.container_id) == string_field_spec(f, "container_id"@)
            &&& sview(e.image) == string_field_spec(f, "image"@)
            &&& sview(e.stream) == string_field_spec(f, "stream"@)
            &&& sview(e.source_type) == string_field_spec(f, "source_type"@)
            &&& e.agent_id is None
            &&& sview(e.trace_id) == corr.0
            &&& sview(e.request_id) == corr.1
            &&& e.labels_json == labels_json
            &&& e.raw_json == raw_json
            &&& e.content_hash@ == hex_lower(
                sha256_of_text(
                    content_text(
                        ts,
                        string_field_spec(f, "host"@),
                        string_field_spec(f, "container_id"@),
                        message,
                    ),
                ),
            )
            &&& e.should_embed == match embed_decision_spec(
                string_field_spec(f, "stream"@),
                message,
            ) {
                EmbedDecision::Skip => false,
                EmbedDecision::Embed => true,
                EmbedDecision::Sample => sampled,
            }
        }),
{
    let message = match string_field(fields, "message") {
        Some(m) => m,
        None => String::new(),
    };
    let ts = event_ts(fields, now);
    let host = string_field(fields, "host");
    let container_name = string_field(fields, "container_name");
    let container_id = string_field(fields, "container_id");
    let image = string_field(fields, "image");
    let stream = string_field(fields, "stream");
    let source_type = string_field(fields, "source_type");
    let labels = get_field(fields, "label");
    let (trace_id, request_id) = extract_correlation(fields, message.as_str(), labels);
    let hash = content_hash(ts.as_str(), &host, &container_id, message.as_str());
    let stream_ref = match &stream {
        Some(s) => Some(s.as_str()),
        None => None,
    };
    let should_embed = should_embed_event(stream_ref, message.as_str(), sampled);
    NormalizedEvent {
        id,
        ts,
        ingested_at: String::from_str(now),
        host,
        container_name,
        container_id,
        image,
        stream,
        source_type,
        agent_id: None,
        trace_id,
        request_id,
        message,
        labels_json,
        raw_json,
        content_hash: hash,
        should_embed,
    }
}

// ------------------------------------------------------------------ counts

/// Counters of the ingest endpoint: batches accepted, batches refused with
/// 429, events written. They wrap around like the atomic counters they mirror.
#[derive(Debug, Clone, Copy, PartialEq, Eq, Structural, Default)]
pub struct IngestStats {
    pub accepted: u64,
    pub rejected_429: u64,
    pub written: u64,
}

impl IngestStats {
    /// All counters at zero.
    pub fn new() -> (r: IngestStats)
        ensures
            r == (IngestStats { accepted: 0, rejected_429: 0, written: 0 }),
    {
        IngestStats { accepted: 0, rejected_429: 0, written: 0 }
    }

    /// A batch refused for rate or queue pressure.
    pub fn record_rejected(&mut self)
        ensures
            *final(self) == (IngestStats {
                rejected_429: vstd::wrapping::u64_specs::wrapping_add(old(self).rejected_429, 1),
                ..*old(self)
            }),
    {
        self.rejected_429 = self.rejected_429.wrapping_add(1);
    }

    /// A batch accepted, with the number of events it wrote.
    pub fn record_accepted(&mut self, written: u64)
        ensures
            *final(self) == (IngestStats {
                accepted: vstd::wrapping::u64_specs::wrapping_add(old(self).accepted, 1),
                written: vstd::wrapping::u64_specs::wrapping_add(old(self).written, written),
                ..*old(self)
            }),
    {
        self.accepted = self.accepted.wrapping_add(1);
        self.written = self.written.wrapping_add(written);
    }
}

/// Events written per agent during one batch, each agent seen once, in the
/// order first seen.
#[derive(Debug)]
pub struct AgentTally {
    entries: Vec<(String, u64)>,
}

impl AgentTally {
    /// The (agent id, events written) pairs.
    pub closed spec fn view_entries(&self) -> Seq<(Seq<char>, u64)> {
        self.entries@.map_values(|e: (String, u64)| (e.0@, e.1))
    }

    /// No agent appears twice.
    pub closed spec fn wf(&self) -> bool {
        forall|i: int, j: int|
            0 <= i < j < self.view_entries().len() ==> self.view_entries()[i].0
                != self.view_entries()[j].0
    }

    /// An empty tally.
    pub fn new() -> (r: AgentTally)
        ensures
            r.wf(),
            r.view_entries().len() == 0,
    {
        let r = AgentTally { entries: Vec::new() };
        assert(r.view_entries() =~= Seq::<(Seq<char>, u64)>::empty());
        r
    }

    /// Records an event of `agent_id`; it counts when it was written.
    pub fn record(&mut self, agent_id: &str, written: bool)
        requires
            old(self).wf(),
            forall|i: int| 0 <= i < old(self).view_entries().len() ==> #[trigger] old(self).view_entries()[i].1 < u64::MAX,
        ensures
            final(self).wf(),
            ({
                let before = old(self).view_entries();
                let after = final(self).view_entries();
                let add: u64 = if written { 1 } else { 0 };
                if exists|i: int| 0 <= i < before.len() && #[trigger] before[i].0 == agent_id@ {
                    let i = choose|i: int| 0 <= i < before.len() && #[trigger] before[i].0 == agent_id@;
                    after == before.update(i, (agent_id@, (before[i].1 + add) as u64))
                } else {
                    after == before.push((agent_id@, add))
                }
            }),
    {
        let add: u64 = if written { 1 } else { 0 };
        let ghost before = self.view_entries();
        let mut i: usize = 0;
        while i < self.entries.len()
            invariant
                i <= self.entries@.len(),
                add == (if written { 1u64 } else { 0u64 }),
                before == old(self).view_entries(),
                self.view_entries() == before,
                self.wf(),
                forall|k: int| 0 <= k < before.len() ==> #[trigger] before[k].1 < u64::MAX,
                forall|j: int| 0 <= j < i ==> (#[trigger] before[j]).0 != agent_id@,
            decreases self.entries@.len() - i,
        {
            if str_eq(self.entries[i].0.as_str(), agent_id) {
                assert(before[i as int].0 == agent_id@);
                let count = self.entries[i].1;
                assert(before[i as int] == (self.entries@[i as int].0@, self.entries@[i as int].1));
                assert(count < u64::MAX);
                let name = self.entries[i].0.clone();
                let ghost old_entries = self.entries@;
                self.entries.set(i, (name, count + add));
                assert(self.entries@ == old_entries.update(i as int, (name, (count + add) as u64)));
                proof {
                    assert forall|k: int| 0 <= k < before.len() && #[trigger] before[k].0 == agent_id@ implies k == i by {
                        if k != i {
                            if k < i {
                            } else {
                                assert(before[i as int].0 != before[k].0);
                            }
                        }
                    }
                    let c = choose|k: int| 0 <= k < before.len() && #[trigger] before[k].0 == agent_id@;
                    assert(c == i);
                    assert(self.view_entries() =~= before.update(i as int, (agent_id@, (before[i as int].1 + add) as u64)));
                }
                return;
            }
            i = i + 1;
        }
        self.entries.push((String::from_str(agent_id), add));
        assert(self.view_entries() =~= before.push((agent_id@, add)));
    }

    /// The (agent id, events written) pairs.
    pub fn entries(&self) -> (r: &Vec<(String, u64)>)
        ensures
            r@.map_values(|e: (String, u64)| (e.0@, e.1)) == self.view_entries(),
    {
        &self.entries
    }
}


/// The answer to a batch the write queue did not take: a full queue asks the
/// agent to retry in a second; a closed one means the writer has stopped.
pub fn queue_refusal(full: bool) -> (r: AppError)
    ensures
        full ==> r matches AppError::TooManyRequests { retry_after_secs: 1 },
        !full ==> (r matches AppError::Unavailable(m) && m@ == "ingest writer stopped"@),
{
    if full {
        AppError::TooManyRequests { retry_after_secs: 1 }
    } else {
        AppError::Unavailable(String::from_str("ingest writer stopped"))
    }
}

} // verus!
