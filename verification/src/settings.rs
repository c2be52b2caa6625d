//! Runtime settings: how stored text values and defaults combine into the
//! settings in effect, and what is stored for given settings.
//!
//! The two rate settings that are floating-point numbers (requests per
//! second per key, embedding sample rate) are not held here.
use crate::bindings::{format_rfc3339_utc, rfc3339_utc_text};
use crate::text::{dec, parse_unsigned, parse_unsigned_spec, trim, trim_spec, u64_to_string, lemma_parse_dec_roundtrip};
use vstd::prelude::*;
use vstd::string::StringExecFns;

verus! {

/// The stored text of each setting, `None` where nothing is stored.
#[derive(Debug, Clone, Default)]
pub struct StoredSettings {
    pub retention_days: Option<String>,
    pub max_events: Option<String>,
    pub write_queue_capacity: Option<String>,
    pub max_body_bytes: Option<String>,
    pub public_base_url: Option<String>,
    pub embeddings_base_url: Option<String>,
    pub embeddings_model: Option<String>,
    pub embeddings_api_key: Option<String>,
    pub embedding_dim: Option<String>,
}

/// The values a setting takes when nothing usable is stored.
#[derive(Debug, Clone)]
pub struct SettingDefaults {
    pub retention_days: u32,
    pub max_events: Option<u64>,
    pub write_queue_capacity: usize,
    pub max_body_bytes: usize,
    pub public_base_url: String,
    pub embeddings_base_url: Option<String>,
    pub embeddings_model: Option<String>,
    pub embeddings_api_key: Option<String>,
    pub embedding_dim: usize,
}

/// The settings in effect.
#[derive(Debug, Clone)]
pub struct RuntimeSettings {
    pub retention_days: u32,
    pub max_events: Option<u64>,
    pub write_queue_capacity: usize,
    pub max_body_bytes: usize,
    pub public_base_url: String,
    pub embeddings_base_url: Option<String>,
    pub embeddings_model: Option<String>,
    pub embeddings_api_key: Option<String>,
    pub embedding_dim: usize,
}

/// The view of an optional string.
pub open spec fn oview(o: Option<String>) -> Option<Seq<char>> {
    match o {
        Some(s) => Some(s@),
        None => None,
    }
}

/// An optional text that is present and not empty.
pub open spec fn present_spec(o: Option<Seq<char>>) -> bool {
    match o {
        Some(s) => s.len() > 0,
        None => false,
    }
}

impl RuntimeSettings {
    /// Semantic search is on when both the embeddings URL and model are set
    /// and not empty.
    pub open spec fn embeddings_enabled_spec(&self) -> bool {
        present_spec(oview(self.embeddings_base_url)) && present_spec(oview(self.embeddings_model))
    }

    /// Whether semantic search is on.
    pub fn embeddings_enabled(&self) -> (r: bool)
        ensures
            r == self.embeddings_enabled_spec(),
    {
        let a = match &self.embeddings_base_url {
            Some(s) => !s.as_str().is_empty(),
            None => false,
        };
        let b = match &self.embeddings_model {
            Some(s) => !s.as_str().is_empty(),
            None => false,
        };
        a && b
    }

    /// The values a loaded setting can hold: the lower bounds are met, the
    /// base URL is not blank, and a stored embeddings text is trimmed and not empty.
    pub open spec fn well_formed(&self) -> bool {
        &&& self.write_queue_capacity >= 1
        &&& self.max_body_bytes >= 1024
        &&& self.embedding_dim >= 1
        &&& trim_spec(self.public_base_url@).len() > 0
        &&& trimmed_present(oview(self.embeddings_base_url))
        &&& trimmed_present(oview(self.embeddings_model))
        &&& trimmed_present(oview(self.embeddings_api_key))
    }
}

/// Semantic search is on exactly when both an embeddings URL and a model
/// are set to non-empty text; without a URL, or without a model, it is off.
pub proof fn lemma_embeddings_need_url_and_model(s: RuntimeSettings)
    ensures
        s.embeddings_enabled_spec() <==> (s.embeddings_base_url is Some
            && s.embeddings_base_url.unwrap()@.len() > 0 && s.embeddings_model is Some
            && s.embeddings_model.unwrap()@.len() > 0),
        s.embeddings_base_url is None ==> !s.embeddings_enabled_spec(),
        s.embeddings_model is None ==> !s.embeddings_enabled_spec(),
{
}

/// Absent, or trimmed and not empty.
pub open spec fn trimmed_present(o: Option<Seq<char>>) -> bool {
    match o {
        Some(s) => s.len() > 0 && trim_spec(s) == s,
        None => true,
    }
}

/// A stored unsigned number no larger than `max`, else the default.
pub open spec fn number_or(stored: Option<Seq<char>>, max: nat, default: nat) -> nat {
    match stored {
        Some(s) => match parse_unsigned_spec(s, max) {
            Some(v) => v,
            None => default,
        },
        None => default,
    }
}

/// A stored number, if it parses.
pub open spec fn number_opt(stored: Option<Seq<char>>, max: nat) -> Option<nat> {
    match stored {
        Some(s) => parse_unsigned_spec(s, max),
        None => None,
    }
}

/// A stored text that is not blank (kept as stored), else the default.
pub open spec fn text_or(stored: Option<Seq<char>>, default: Seq<char>) -> Seq<char> {
    match stored {
        Some(s) => if trim_spec(s).len() > 0 {
            s
        } else {
            default
        },
        None => default,
    }
}

/// A stored text trimmed, if that leaves something; else the default.
pub open spec fn trimmed_or(stored: Option<Seq<char>>, default: Option<Seq<char>>) -> Option<Seq<char>> {
    match stored {
        Some(s) => if trim_spec(s).len() > 0 {
            Some(trim_spec(s))
        } else {
            default
        },
        None => default,
    }
}

/// The larger of two numbers.
pub open spec fn max_nat(a: nat, b: nat) -> nat {
    if a < b {
        b
    } else {
        a
    }
}

/// Each setting of `r` is the one that `stored` and `d` give.
pub open spec fn loads_to(stored: StoredSettings, d: SettingDefaults, r: RuntimeSettings) -> bool {
    &&& r.retention_days as nat == number_or(oview(stored.retention_days), u32::MAX as nat, d.retention_days as nat)
    &&& r.max_events == match number_opt(oview(stored.max_events), u64::MAX as nat) {
        Some(v) => Some(v as u64),
        None => d.max_events,
    }
    &&& r.write_queue_capacity as nat == max_nat(
        number_or(oview(stored.write_queue_capacity), usize::MAX as nat, d.write_queue_capacity as nat),
        1,
    )
    &&& r.max_body_bytes as nat == max_nat(
        number_or(oview(stored.max_body_bytes), usize::MAX as nat, d.max_body_bytes as nat),
        1024,
    )
    &&& r.public_base_url@ == text_or(oview(stored.public_base_url), d.public_base_url@)
    &&& oview(r.embeddings_base_url) == trimmed_or(oview(stored.embeddings_base_url), oview(d.embeddings_base_url))
    &&& oview(r.embeddings_model) == trimmed_or(oview(stored.embeddings_model), oview(d.embeddings_model))
    &&& oview(r.embeddings_api_key) == trimmed_or(oview(stored.embeddings_api_key), oview(d.embeddings_api_key))
    &&& r.embedding_dim as nat == max_nat(
        number_or(oview(stored.embedding_dim), usize::MAX as nat, d.embedding_dim as nat),
        1,
    )
}

fn number_or_default(stored: &Option<String>, max: u64, default: u64) -> (r: u64)
    requires
        default <= max,
    ensures
        r as nat == number_or(oview(*stored), max as nat, default as nat),
        r <= max,
{
    match stored {
        Some(s) => match parse_unsigned(s.as_str(), max) {
            Some(v) => v,
            None => default,
        },
        None => default,
    }
}

fn trimmed_or_default(stored: &Option<String>, default: &Option<String>) -> (r: Option<String>)
    ensures
        oview(r) == trimmed_or(oview(*stored), oview(*default)),
{
    match stored {
        Some(s) => {
            let t = trim(s.as_str());
            if t.as_str().is_empty() {
                default.clone()
            } else {
                Some(t)
            }
        },
        None => default.clone(),
    }
}

/// The settings in effect for what is stored and the defaults.
pub fn load_settings(stored: &StoredSettings, d: &SettingDefaults) -> (r: RuntimeSettings)
    ensures
        loads_to(*stored, *d, r),
{
    let retention_days = number_or_default(&stored.retention_days, u32::MAX as u64, d.retention_days as u64) as u32;
    let max_events = match &stored.max_events {
        Some(s) => match parse_unsigned(s.as_str(), u64::MAX) {
            Some(v) => Some(v),
            None => d.max_events,
        },
        None => d.max_events,
    };
    let wq = number_or_default(&stored.write_queue_capacity, usize::MAX as u64, d.write_queue_capacity as u64) as usize;
    let write_queue_capacity = if wq < 1 { 1 } else { wq };
    let mb = number_or_default(&stored.max_body_bytes, usize::MAX as u64, d.max_body_bytes as u64) as usize;
    let max_body_bytes = if mb < 1024 { 1024 } else { mb };
    let public_base_url = match &stored.public_base_url {
        Some(s) => {
            let t = trim(s.as_str());
            if t.as_str().is_empty() {
                d.public_base_url.clone()
            } else {
                s.clone()
            }
        },
        None => d.public_base_url.clone(),
    };
    let dim = number_or_default(&stored.embedding_dim, usize::MAX as u64, d.embedding_dim as u64) as usize;
    let embedding_dim = if dim < 1 { 1 } else { dim };
    RuntimeSettings {
        retention_days,
        max_events,
        write_queue_capacity,
        max_body_bytes,
        public_base_url,
        embeddings_base_url: trimmed_or_default(&stored.embeddings_base_url, &d.embeddings_base_url),
        embeddings_model: trimmed_or_default(&stored.embeddings_model, &d.embeddings_model),
        embeddings_api_key: trimmed_or_default(&stored.embeddings_api_key, &d.embeddings_api_key),
        embedding_dim,
    }
}

/// The decimal text of an optional number.
pub open spec fn dec_opt(o: Option<u64>) -> Option<Seq<char>> {
    match o {
        Some(n) => Some(dec(n as nat)),
        None => None,
    }
}

/// A text kept only when it is not empty.
pub open spec fn nonempty_opt(o: Option<Seq<char>>) -> Option<Seq<char>> {
    match o {
        Some(s) => if s.len() > 0 {
            Some(s)
        } else {
            None
        },
        None => None,
    }
}

/// What is stored for settings: numbers as decimal text; no maximum event
/// count, and no (or an empty) embeddings text, are stored as nothing.
pub open spec fn stores_as(s: RuntimeSettings, st: StoredSettings) -> bool {
    &&& oview(st.retention_days) == Some(dec(s.retention_days as nat))
    &&& oview(st.max_events) == dec_opt(s.max_events)
    &&& oview(st.write_queue_capacity) == Some(dec(s.write_queue_capacity as nat))
    &&& oview(st.max_body_bytes) == Some(dec(s.max_body_bytes as nat))
    &&& oview(st.public_base_url) == Some(s.public_base_url@)
    &&& oview(st.embeddings_base_url) == nonempty_opt(oview(s.embeddings_base_url))
    &&& oview(st.embeddings_model) == nonempty_opt(oview(s.embeddings_model))
    &&& oview(st.embeddings_api_key) == nonempty_opt(oview(s.embeddings_api_key))
    &&& oview(st.embedding_dim) == Some(dec(s.embedding_dim as nat))
}

fn nonempty_clone(o: &Option<String>) -> (r: Option<String>)
    ensures
        oview(r) == nonempty_opt(oview(*o)),
{
    match o {
        Some(v) => if v.as_str().is_empty() {
            None
        } else {
            Some(v.clone())
        },
        None => None,
    }
}

/// What to store for the settings: `Some` text is written under the key,
/// `None` removes the key.
pub fn persist_settings(s: &RuntimeSettings) -> (r: StoredSettings)
    ensures
        stores_as(*s, r),
{
    StoredSettings {
        retention_days: Some(u64_to_string(s.retention_days as u64)),
        max_events: match s.max_events {
            Some(n) => Some(u64_to_string(n)),
            None => None,
        },
        write_queue_capacity: Some(u64_to_string(s.write_queue_capacity as u64)),
        max_body_bytes: Some(u64_to_string(s.max_body_bytes as u64)),
        public_base_url: Some(s.public_base_url.clone()),
        embeddings_base_url: nonempty_clone(&s.embeddings_base_url),
        embeddings_model: nonempty_clone(&s.embeddings_model),
        embeddings_api_key: nonempty_clone(&s.embeddings_api_key),
        embedding_dim: Some(u64_to_string(s.embedding_dim as u64)),
    }
}

/// Settings stored and loaded again are the same settings, when they are
/// well formed and every absent optional setting has no default either
/// (an absent value is stored as nothing, and nothing loads as the default).
pub proof fn lemma_persist_load_roundtrip(
    s: RuntimeSettings,
    st: StoredSettings,
    d: SettingDefaults,
    r: RuntimeSettings,
)
    requires
        s.well_formed(),
        stores_as(s, st),
        loads_to(st, d, r),
        s.max_events is None ==> d.max_events is None,
        s.embeddings_base_url is None ==> d.embeddings_base_url is None,
        s.embeddings_model is None ==> d.embeddings_model is None,
        s.embeddings_api_key is None ==> d.embeddings_api_key is None,
    ensures
        r.retention_days == s.retention_days,
        r.max_events == s.max_events,
        r.write_queue_capacity == s.write_queue_capacity,
        r.max_body_bytes == s.max_body_bytes,
        r.public_base_url@ == s.public_base_url@,
        oview(r.embeddings_base_url) == oview(s.embeddings_base_url),
        oview(r.embeddings_model) == oview(s.embeddings_model),
        oview(r.embeddings_api_key) == oview(s.embeddings_api_key),
        r.embedding_dim == s.embedding_dim,
{
    lemma_parse_dec_roundtrip(s.retention_days as nat, u32::MAX as nat);
    lemma_parse_dec_roundtrip(s.write_queue_capacity as nat, usize::MAX as nat);
    lemma_parse_dec_roundtrip(s.max_body_bytes as nat, usize::MAX as nat);
    lemma_parse_dec_roundtrip(s.embedding_dim as nat, usize::MAX as nat);
    if let Some(n) = s.max_events {
        lemma_parse_dec_roundtrip(n as nat, u64::MAX as nat);
    }
}

/// The text of a default that is stored when nothing is stored yet:
/// `Some` is inserted if the key is absent.
pub fn seed_settings(d: &SettingDefaults) -> (r: StoredSettings)
    ensures
        oview(r.retention_days) == Some(dec(d.retention_days as nat)),
        oview(r.max_events) == dec_opt(d.max_events),
        oview(r.write_queue_capacity) == Some(dec(d.write_queue_capacity as nat)),
        oview(r.max_body_bytes) == Some(dec(d.max_body_bytes as nat)),
        oview(r.public_base_url) == Some(d.public_base_url@),
        oview(r.embeddings_base_url) == oview(d.embeddings_base_url),
        oview(r.embeddings_model) == oview(d.embeddings_model),
        oview(r.embeddings_api_key) == oview(d.embeddings_api_key),
        oview(r.embedding_dim) == Some(dec(d.embedding_dim as nat)),
{
    StoredSettings {
        retention_days: Some(u64_to_string(d.retention_days as u64)),
        max_events: match d.max_events {
            Some(n) => Some(u64_to_string(n)),
            None => None,
        },
        write_queue_capacity: Some(u64_to_string(d.write_queue_capacity as u64)),
        max_body_bytes: Some(u64_to_string(d.max_body_bytes as u64)),
        public_base_url: Some(d.public_base_url.clone()),
        embeddings_base_url: d.embeddings_base_url.clone(),
        embeddings_model: d.embeddings_model.clone(),
        embeddings_api_key: d.embeddings_api_key.clone(),
        embedding_dim: Some(u64_to_string(d.embedding_dim as u64)),
    }
}

/// How old events may get, and how many may be kept, as the retention
/// worker reads them: 14 days unless a valid number is stored; no cap
/// unless a valid number is stored.
pub fn retention_policy(stored_days: &Option<String>, stored_max: &Option<String>) -> (r: (u32, Option<u64>))
    ensures
        r.0 as nat == number_or(oview(*stored_days), u32::MAX as nat, 14),
        match number_opt(oview(*stored_max), u64::MAX as nat) {
            Some(v) => r.1 == Some(v as u64),
            None => r.1 is None,
        },
{
    let days = number_or_default(stored_days, u32::MAX as u64, 14) as u32;
    let max = match stored_max {
        Some(s) => parse_unsigned(s.as_str(), u64::MAX),
        None => None,
    };
    (days, max)
}

/// The time before which events are old enough to delete: `days` days before
/// the instant `now_secs` seconds and `now_nanos` nanoseconds after the epoch,
/// as RFC 3339 UTC text; `None` when that instant cannot be written.
pub fn retention_cutoff(days: u32, now_secs: i64, now_nanos: u32) -> (r: Option<String>)
    ensures
        ({
            let start = now_secs - days * 86400;
            if start < i64::MIN {
                r is None
            } else {
                match rfc3339_utc_text(start as i64, now_nanos) {
                    Some(t) => r matches Some(s) && s@ == t,
                    None => r is None,
                }
            }
        }),
{
    let start: i128 = now_secs as i128 - days as i128 * 86400;
    if start < -0x8000_0000_0000_0000i128 {
        return None;
    }
    format_rfc3339_utc(start as i64, now_nanos)
}

/// How many of the oldest events to delete for a cap: the excess over the
/// cap (the cap taken as `i64`, as the count is), at most 5000 at a time.
pub open spec fn retention_batch_spec(total: i64, max_events: Option<u64>) -> Option<i64> {
    match max_events {
        Some(m) => {
            let cap = m as i64;
            if total > cap {
                Some((if total - cap < 5000 { total - cap } else { 5000 }) as i64)
            } else {
                None
            }
        },
        None => None,
    }
}

/// How many of the oldest events to delete for a cap.
pub fn retention_batch(total: i64, max_events: Option<u64>) -> (r: Option<i64>)
    ensures
        r == retention_batch_spec(total, max_events),
{
    match max_events {
        Some(m) => {
            let cap = m as i64;
            if total > cap {
                let over: i128 = total as i128 - cap as i128;
                if over < 5000 {
                    Some(over as i64)
                } else {
                    Some(5000)
                }
            } else {
                None
            }
        },
        None => None,
    }
}

} // verus!
