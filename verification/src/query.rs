//! Search requests: full-text query building, cursors, the SQL `WHERE`
//! clause built from filters, pagination and result shaping.
use crate::bindings::{
    format_rfc3339_utc, rfc3339_utc_text, parse_rfc3339, rfc3339_instant, b64url_decode, b64url_decode_text, b64url_encode, b64url_encode_text, string_from_utf8,
};
use crate::error::{bad_request, AppError};
use crate::text::{
    chars_of, concat, is_alphanumeric, is_whitespace, join, join_spec, push_char, push_dec, dec,
    split_once, split_once_spec, lemma_split_once_concat, string_of, trim, trim_spec,
    all_digits, digits_value, is_digit, parse_unsigned, parse_unsigned_spec,
    unicode_alphanumeric, unicode_white_space, views,
};
use vstd::prelude::*;
use vstd::string::{StringExecFns, StringSliceAdditionalSpecFns};
use vstd::utf8::{decode_utf8, encode_utf8, encode_utf8_decode_utf8, encode_utf8_valid_utf8, valid_utf8};

verus! {

// ------------------------------------------------------------ request types

/// Structured filters of a search or facet request. `label_equals` holds
/// label/value pairs; each key counts once, with the last value given for
/// it, as in a JSON object. Read from a JSON object into a sorted map, the
/// pairs come with keys ascending (`labels_ascending`), and then each pair
/// gives its own condition, in order (`lemma_ascending_labels_all_kept`).
#[derive(Debug, Clone, Default)]
pub struct Filters {
    /// RFC 3339 lower bound on the event time.
    pub ts_from: Option<String>,
    /// RFC 3339 upper bound on the event time.
    pub ts_to: Option<String>,
    pub hosts: Option<Vec<String>>,
    pub containers: Option<Vec<String>>,
    pub streams: Option<Vec<String>>,
    pub agent_ids: Option<Vec<String>>,
    pub trace_id: Option<String>,
    pub request_id: Option<String>,
    pub label_equals: Option<Vec<(String, String)>>,
    /// A window back from now: a number and a unit `s`, `m`, `h` or `d`
    /// (`15m`, `1h`, `24h`, `7d`).
    pub since: Option<String>,
    /// A window back from now, in minutes.
    pub last_minutes: Option<u64>,
}

/// A search request.
#[derive(Debug, Clone, Default)]
pub struct SearchRequest {
    pub filters: Option<Filters>,
    /// Full-text keywords.
    pub text: Option<String>,
    /// Optional semantic query when embeddings are enabled.
    pub semantic_query: Option<String>,
    pub limit: Option<usize>,
    pub cursor: Option<String>,
    pub fields: Option<Vec<String>>,
    pub include_raw: Option<bool>,
}

/// A facet request.
#[derive(Debug, Clone, Default)]
pub struct FacetsRequest {
    pub filters: Option<Filters>,
}

/// A request for the lines around an event.
#[derive(Debug, Clone)]
pub struct ContextRequest {
    pub id: String,
    pub before: Option<usize>,
    pub after: Option<usize>,
}

// ------------------------------------------------------- full-text queries

/// One step of `split_whitespace` over a character: the finished words and
/// the word being read.
pub open spec fn split_ws_step(st: (Seq<Seq<char>>, Seq<char>), c: char) -> (Seq<Seq<char>>, Seq<char>) {
    if unicode_white_space(c) {
        if st.1.len() > 0 {
            (st.0.push(st.1), Seq::empty())
        } else {
            st
        }
    } else {
        (st.0, st.1.push(c))
    }
}

/// The state of `split_whitespace` after reading `s`.
pub open spec fn split_ws_state(s: Seq<char>) -> (Seq<Seq<char>>, Seq<char>)
    decreases s.len(),
{
    if s.len() == 0 {
        (Seq::empty(), Seq::empty())
    } else {
        split_ws_step(split_ws_state(s.drop_last()), s.last())
    }
}

/// `str::split_whitespace`: the maximal runs of non-White_Space characters.
pub open spec fn split_whitespace_spec(s: Seq<char>) -> Seq<Seq<char>> {
    let st = split_ws_state(s);
    if st.1.len() > 0 {
        st.0.push(st.1)
    } else {
        st.0
    }
}

/// A character kept in a full-text term.
pub open spec fn fts_keep(c: char) -> bool {
    unicode_alphanumeric(c) || c == '-' || c == '_'
}

/// A word with every character that is not kept removed.
pub open spec fn fts_clean(w: Seq<char>) -> Seq<char>
    decreases w.len(),
{
    if w.len() == 0 {
        Seq::empty()
    } else {
        let p = fts_clean(w.drop_last());
        if fts_keep(w.last()) {
            p.push(w.last())
        } else {
            p
        }
    }
}

/// A word that FTS5 reads as an operator.
pub open spec fn fts_operator(w: Seq<char>) -> bool {
    w == "OR"@ || w == "AND"@ || w == "NOT"@
}

/// A cleaned word as an FTS5 phrase: between double quotes.
pub open spec fn quoted(c: Seq<char>) -> Seq<char> {
    seq!['"'] + c + seq!['"']
}

/// One word of the query text added to the query built so far and the
/// operator waiting to join the next term. An operator word waits (the last
/// one wins) once some term is written; a word is written as a quoted term
/// when cleaning leaves something of it, joined to the query by the waiting
/// operator, else by `AND`.
pub open spec fn fts_step(st: (Seq<char>, Option<Seq<char>>), w: Seq<char>) -> (Seq<char>, Option<Seq<char>>) {
    if fts_operator(w) {
        if st.0.len() > 0 {
            (st.0, Some(w))
        } else {
            st
        }
    } else {
        let c = fts_clean(w);
        if c.len() == 0 {
            st
        } else if st.0.len() == 0 {
            (quoted(c), None)
        } else {
            (
                st.0 + seq![' '] + match st.1 {
                    Some(op) => op,
                    None => "AND"@,
                } + seq![' '] + quoted(c),
                None,
            )
        }
    }
}

/// The query built from some words, and the operator still waiting.
pub open spec fn fts_fold(ws: Seq<Seq<char>>) -> (Seq<char>, Option<Seq<char>>)
    decreases ws.len(),
{
    if ws.len() == 0 {
        (Seq::empty(), None)
    } else {
        fts_step(fts_fold(ws.drop_last()), ws.last())
    }
}

/// The FTS5 query for a keyword text: its whitespace-separated words,
/// cleaned and quoted, adjacent terms joined by `AND`, and the words `OR`,
/// `AND`, `NOT` kept as operators between terms (an operator with no term
/// after it is dropped).
pub open spec fn fts_query_spec(text: Seq<char>) -> Seq<char> {
    fts_fold(split_whitespace_spec(text)).0
}

/// A letter or digit of ASCII, `-` or `_`.
pub open spec fn ascii_word_char(c: char) -> bool {
    (48 <= c as u32 && c as u32 <= 57) || (65 <= c as u32 && c as u32 <= 90) || (97 <= c as u32
        && c as u32 <= 122) || c == '-' || c == '_'
}

proof fn lemma_split_ws_extend(p: Seq<char>, w: Seq<char>)
    requires
        forall|i: int| 0 <= i < w.len() ==> ascii_word_char(#[trigger] w[i]),
    ensures
        split_ws_state(p + w) == (split_ws_state(p).0, split_ws_state(p).1 + w),
    decreases w.len(),
{
    if w.len() == 0 {
        assert(p + w =~= p);
        assert(split_ws_state(p).1 + w =~= split_ws_state(p).1);
    } else {
        let d = w.drop_last();
        lemma_split_ws_extend(p, d);
        assert((p + w).drop_last() =~= p + d);
        assert((p + w).last() == w.last());
        assert(ascii_word_char(w[w.len() - 1]));
        assert(split_ws_state(p).1 + d + seq![w.last()] =~= split_ws_state(p).1 + w);
    }
}

proof fn lemma_clean_plain(w: Seq<char>)
    requires
        forall|i: int| 0 <= i < w.len() ==> ascii_word_char(#[trigger] w[i]),
    ensures
        fts_clean(w) == w,
    decreases w.len(),
{
    if w.len() > 0 {
        let d = w.drop_last();
        assert forall|i: int| 0 <= i < d.len() implies ascii_word_char(#[trigger] d[i]) by {
            assert(d[i] == w[i]);
        }
        lemma_clean_plain(d);
        assert(ascii_word_char(w[w.len() - 1]));
        assert(d.push(w.last()) =~= w);
    }
}

/// A keyword made of ASCII letters, digits, `-` and `_` (and not an
/// operator word) is searched for as itself, quoted; two such keywords
/// separated by a space are both searched for, joined by `AND`.
pub proof fn lemma_fts_keeps_plain_words(w1: Seq<char>, w2: Seq<char>)
    requires
        w1.len() > 0,
        w2.len() > 0,
        forall|i: int| 0 <= i < w1.len() ==> ascii_word_char(#[trigger] w1[i]),
        forall|i: int| 0 <= i < w2.len() ==> ascii_word_char(#[trigger] w2[i]),
        w1 != "OR"@ && w1 != "AND"@ && w1 != "NOT"@,
        w2 != "OR"@ && w2 != "AND"@ && w2 != "NOT"@,
    ensures
        fts_query_spec(w1) == seq!['"'] + w1 + seq!['"'],
        fts_query_spec(w1 + seq![' '] + w2) == seq!['"'] + w1 + seq!['"'] + " AND "@ + seq!['"'] + w2
            + seq!['"'],
{
    reveal_strlit(" AND ");
    reveal_strlit("AND");
    let e = Seq::<char>::empty();
    lemma_split_ws_extend(e, w1);
    assert(e + w1 =~= w1);
    assert(split_ws_state(e) == (Seq::<Seq<char>>::empty(), e));
    assert(e + w1 == w1);
    assert(split_ws_state(w1) == (Seq::<Seq<char>>::empty(), w1));
    assert(split_whitespace_spec(w1) =~= seq![w1]);
    lemma_clean_plain(w1);
    lemma_clean_plain(w2);
    assert(seq![w1].drop_last() =~= Seq::<Seq<char>>::empty());
    assert(fts_fold(seq![w1]) == fts_step(fts_fold(Seq::<Seq<char>>::empty()), w1));
    // Two words.
    let p = w1 + seq![' '];
    assert(p.drop_last() =~= w1);
    assert(p.last() == ' ');
    assert(split_ws_state(p) == (seq![w1], e));
    lemma_split_ws_extend(p, w2);
    assert(e + w2 =~= w2);
    assert(split_whitespace_spec(p + w2) =~= seq![w1, w2]);
    assert(seq![w1, w2].drop_last() =~= seq![w1]);
    assert(fts_fold(seq![w1, w2]) == fts_step(fts_fold(seq![w1]), w2));
    assert(seq!['"'] + w1 + seq!['"'] + seq![' '] + "AND"@ + seq![' '] + (seq!['"'] + w2 + seq!['"'])
        =~= seq!['"'] + w1 + seq!['"'] + " AND "@ + seq!['"'] + w2 + seq!['"']);
}

fn clean_word(w: &Vec<char>) -> (r: Vec<char>)
    ensures
        r@ == fts_clean(w@),
{
    let mut out: Vec<char> = Vec::new();
    let mut i: usize = 0;
    while i < w.len()
        invariant
            i <= w@.len(),
            out@ == fts_clean(w@.take(i as int)),
        decreases w@.len() - i,
    {
        let c = w[i];
        if is_alphanumeric(c) || c == '-' || c == '_' {
            out.push(c);
        }
        proof {
            let t = w@.take(i + 1);
            assert(t.drop_last() =~= w@.take(i as int));
            assert(t.last() == c);
        }
        i = i + 1;
    }
    assert(w@.take(w@.len() as int) =~= w@);
    out
}

fn operator_of(w: &Vec<char>) -> (r: Option<&'static str>)
    ensures
        match r {
            Some(op) => fts_operator(w@) && op@ == w@,
            None => !fts_operator(w@),
        },
{
    let s = string_of(w);
    if crate::text::str_eq(s.as_str(), "OR") {
        Some("OR")
    } else if crate::text::str_eq(s.as_str(), "AND") {
        Some("AND")
    } else if crate::text::str_eq(s.as_str(), "NOT") {
        Some("NOT")
    } else {
        None
    }
}

fn fts_push_word(q: &mut String, pending: &mut Option<&'static str>, word: &Vec<char>)
    ensures
        (final(q)@, match *final(pending) {
            Some(p) => Some(p@),
            None => None,
        }) == fts_step(
            (old(q)@, match *old(pending) {
                Some(p) => Some(p@),
                None => None,
            }),
            word@,
        ),
{
    match operator_of(word) {
        Some(op) => {
            if !q.as_str().is_empty() {
                *pending = Some(op);
            }
        },
        None => {
            let c = clean_word(word);
            if c.len() > 0 {
                let body = string_of(&c);
                let mut term = String::new();
                push_char(&mut term, '"');
                term.append(body.as_str());
                push_char(&mut term, '"');
                assert(term@ =~= quoted(c@));
                if q.as_str().is_empty() {
                    *q = term;
                } else {
                    push_char(q, ' ');
                    match *pending {
                        Some(op) => q.append(op),
                        None => q.append("AND"),
                    }
                    push_char(q, ' ');
                    q.append(term.as_str());
                }
                *pending = None;
            }
        },
    }
}

/// The FTS5 query for a keyword text.
pub fn fts_query(text: &str) -> (r: String)
    ensures
        r@ == fts_query_spec(text@),
{
    let cs = chars_of(text);
    let mut q = String::new();
    let mut pending: Option<&'static str> = None;
    let mut cur: Vec<char> = Vec::new();
    let ghost mut done: Seq<Seq<char>> = Seq::empty();
    let mut i: usize = 0;
    while i < cs.len()
        invariant
            i <= cs@.len(),
            split_ws_state(cs@.take(i as int)) == (done, cur@),
            (q@, match pending {
                Some(p) => Some(p@),
                None => None,
            }) == fts_fold(done),
        decreases cs@.len() - i,
    {
        let c = cs[i];
        proof {
            let t = cs@.take(i + 1);
            assert(t.drop_last() =~= cs@.take(i as int));
            assert(t.last() == c);
        }
        if is_whitespace(c) {
            if cur.len() > 0 {
                fts_push_word(&mut q, &mut pending, &cur);
                proof {
                    assert(done.push(cur@).drop_last() =~= done);
                    done = done.push(cur@);
                }
                cur = Vec::new();
                assert(cur@ =~= Seq::<char>::empty());
            }
        } else {
            cur.push(c);
        }
        i = i + 1;
    }
    assert(cs@.take(cs@.len() as int) =~= cs@);
    if cur.len() > 0 {
        fts_push_word(&mut q, &mut pending, &cur);
        proof {
            assert(done.push(cur@).drop_last() =~= done);
        }
    }
    q
}

// --------------------------------------------------------- message preview

/// A message cut to `max` characters, with `…` appended when it was cut.
pub open spec fn truncate_spec(s: Seq<char>, max: nat) -> (Seq<char>, bool) {
    if s.len() <= max {
        (s, false)
    } else {
        (s.take(max as int) + seq!['\u{2026}'], true)
    }
}

/// Cuts a message to `max` characters; the flag says whether it was cut.
pub fn truncate_msg(s: &str, max: usize) -> (r: (String, bool))
    ensures
        (r.0@, r.1) == truncate_spec(s@, max as nat),
{
    let cs = chars_of(s);
    if cs.len() <= max {
        (String::from_str(s), false)
    } else {
        let mut out = crate::text::string_from(&cs, 0, max);
        push_char(&mut out, '\u{2026}');
        (out, true)
    }
}

// ------------------------------------------------------------------ cursors

/// The position after which the next page starts: the time and id of the
/// last event of a page.
#[derive(Debug, Clone)]
pub struct Cursor {
    pub ts: String,
    pub id: String,
}

/// The text a cursor is encoded from: time, `|`, id.
pub open spec fn cursor_text(ts: Seq<char>, id: Seq<char>) -> Seq<char> {
    ts + seq!['|'] + id
}

/// The (time, id) a cursor token stands for, if it is a valid token: Base64
/// that decodes to UTF-8 text holding a `|`; the time is what precedes the
/// first `|`.
pub open spec fn decode_cursor_spec(token: Seq<char>) -> Option<(Seq<char>, Seq<char>)> {
    match b64url_decode_text(token) {
        Some(b) => if valid_utf8(b) {
            split_once_spec(decode_utf8(b), '|')
        } else {
            None
        },
        None => None,
    }
}

/// Encodes a cursor as a URL-safe token.
pub fn encode_cursor(c: &Cursor) -> (r: String)
    ensures
        r@ == b64url_encode_text(cursor_text(c.ts@, c.id@)),
        b64url_decode_text(r@) == Some(encode_utf8(cursor_text(c.ts@, c.id@))),
{
    let mut t = String::from_str(c.ts.as_str());
    push_char(&mut t, '|');
    t.append(c.id.as_str());
    assert(t@ =~= cursor_text(c.ts@, c.id@));
    b64url_encode(t.as_str())
}

/// Decodes a cursor token; a token that is not one is a bad request.
pub fn decode_cursor(s: &str) -> (r: Result<Cursor, AppError>)
    ensures
        decode_cursor_spec(s@) matches Some(p) ==> (r matches Ok(c) && c.ts@ == p.0 && c.id@ == p.1),
        decode_cursor_spec(s@) is None ==> (r matches Err(AppError::BadRequest(m)) && m@
            == "invalid cursor"@),
{
    let bytes = match b64url_decode(s) {
        Some(b) => b,
        None => return Err(bad_request("invalid cursor")),
    };
    let text = match string_from_utf8(bytes) {
        Some(t) => t,
        None => return Err(bad_request("invalid cursor")),
    };
    match split_once(text.as_str(), '|') {
        Some((ts, id)) => Ok(Cursor { ts, id }),
        None => Err(bad_request("invalid cursor")),
    }
}

/// Decoding a token that holds the encoding of a cursor gives the cursor
/// back, provided its time holds no `|` (RFC 3339 times never do).
pub proof fn lemma_cursor_roundtrip(token: Seq<char>, ts: Seq<char>, id: Seq<char>)
    requires
        b64url_decode_text(token) == Some(encode_utf8(cursor_text(ts, id))),
        !ts.contains('|'),
    ensures
        decode_cursor_spec(token) == Some((ts, id)),
{
    let t = cursor_text(ts, id);
    encode_utf8_valid_utf8(t);
    encode_utf8_decode_utf8(t);
    lemma_split_once_concat(ts, '|', id);
}


// ------------------------------------------------------------ WHERE clause

/// One condition of the `WHERE` clause of a search, before it is written as SQL.
pub enum Cond {
    /// Events at or after a time.
    TsFrom(Seq<char>),
    /// Events at or before a time.
    TsTo(Seq<char>),
    /// A column holding one of several values.
    AnyOf(Seq<char>, Seq<Seq<char>>),
    /// A column holding a value.
    Equals(Seq<char>, Seq<char>),
    /// A label (by key) holding a value.
    Label(Seq<char>, Seq<char>),
    /// Events strictly before a cursor position (time, then id).
    Before(Seq<char>, Seq<char>),
    /// Events matching a full-text query.
    Matches(Seq<char>),
}

/// The SQL parameter `?n`.
pub open spec fn ph(n: nat) -> Seq<char> {
    seq!['?'] + dec(n)
}

/// The parameters `?start`, `?start+1`, ..., `count` of them.
pub open spec fn placeholders(start: nat, count: nat) -> Seq<Seq<char>> {
    Seq::new(count, |i: int| ph(start + i as nat))
}

/// The SQL of a condition when `n` parameters are bound before it.
pub open spec fn cond_sql(c: Cond, n: nat) -> Seq<char> {
    match c {
        Cond::TsFrom(_) => "e.ts >= "@ + ph(n + 1),
        Cond::TsTo(_) => "e.ts <= "@ + ph(n + 1),
        Cond::AnyOf(col, vals) => "e."@ + col + " IN ("@ + join_spec(
            placeholders(n + 1, vals.len()),
            ","@,
        ) + ")"@,
        Cond::Equals(col, _) => "e."@ + col + " = "@ + ph(n + 1),
        Cond::Label(_, _) => "json_extract(e.labels_json, "@ + ph(n + 1) + ") = "@ + ph(n + 2),
        Cond::Before(_, _) => "(e.ts < "@ + ph(n + 1) + " OR (e.ts = "@ + ph(n + 1) + " AND e.id < "@
            + ph(n + 2) + "))"@,
        Cond::Matches(_) => "log_events_fts MATCH "@ + ph(n + 1),
    }
}

/// The values a condition binds, in parameter order.
pub open spec fn cond_binds(c: Cond) -> Seq<Seq<char>> {
    match c {
        Cond::TsFrom(v) => seq![v],
        Cond::TsTo(v) => seq![v],
        Cond::AnyOf(_, vals) => vals,
        Cond::Equals(_, v) => seq![v],
        Cond::Label(k, v) => seq!["$."@ + k, v],
        Cond::Before(ts, id) => seq![ts, id],
        Cond::Matches(q) => seq![q],
    }
}

/// The SQL clauses and bound values of a list of conditions, numbered in order.
pub open spec fn render(cs: Seq<Cond>) -> (Seq<Seq<char>>, Seq<Seq<char>>)
    decreases cs.len(),
{
    if cs.len() == 0 {
        (Seq::empty(), Seq::empty())
    } else {
        let p = render(cs.drop_last());
        (p.0.push(cond_sql(cs.last(), p.1.len())), p.1 + cond_binds(cs.last()))
    }
}

/// The `WHERE` text of some clauses.
pub open spec fn where_sql_spec(clauses: Seq<Seq<char>>) -> Seq<char> {
    if clauses.len() == 0 {
        "WHERE 1=1"@
    } else {
        "WHERE "@ + join_spec(clauses, " AND "@)
    }
}

/// The condition of an optional single value.
pub open spec fn opt_cond(o: Option<Seq<char>>, mk: spec_fn(Seq<char>) -> Cond) -> Seq<Cond> {
    match o {
        Some(v) => seq![mk(v)],
        None => Seq::empty(),
    }
}

/// The condition of an optional list of values on a column; none for an empty list.
pub open spec fn any_of_cond(col: Seq<char>, o: Option<Vec<String>>) -> Seq<Cond> {
    match o {
        Some(v) => if v@.len() > 0 {
            seq![Cond::AnyOf(col, views(v@))]
        } else {
            Seq::empty()
        },
        None => Seq::empty(),
    }
}

/// The pair at `i` is the last one with its key.
pub open spec fn label_kept(l: Seq<(String, String)>, i: int) -> bool {
    forall|j: int| i < j < l.len() ==> #[trigger] l[j].0@ != l[i].0@
}

/// The label conditions of the first `n` pairs: one per pair that is the
/// last with its key, in the order of the pairs.
pub open spec fn kept_labels(l: Seq<(String, String)>, n: int) -> Seq<Cond>
    decreases n,
{
    if n <= 0 {
        Seq::empty()
    } else {
        let p = kept_labels(l, n - 1);
        if label_kept(l, n - 1) {
            p.push(Cond::Label(l[n - 1].0@, l[n - 1].1@))
        } else {
            p
        }
    }
}

/// Code-point order of texts, the order in which std compares `String`s
/// (UTF-8 byte order agrees with it).
pub open spec fn text_less(a: Seq<char>, b: Seq<char>) -> bool
    decreases a.len(),
{
    if a.len() == 0 {
        b.len() > 0
    } else if b.len() == 0 {
        false
    } else if a[0] != b[0] {
        (a[0] as u32) < (b[0] as u32)
    } else {
        text_less(a.drop_first(), b.drop_first())
    }
}

/// Label pairs as a JSON object gives them once read into a sorted map:
/// keys strictly ascending, so each key once.
pub open spec fn labels_ascending(l: Seq<(String, String)>) -> bool {
    forall|i: int, j: int| 0 <= i < j < l.len() ==> text_less(#[trigger] l[i].0@, #[trigger] l[j].0@)
}

proof fn lemma_text_less_irreflexive(a: Seq<char>)
    ensures
        !text_less(a, a),
    decreases a.len(),
{
    if a.len() > 0 {
        lemma_text_less_irreflexive(a.drop_first());
    }
}

/// With keys ascending, every pair gives its condition, in order.
pub proof fn lemma_ascending_labels_all_kept(l: Seq<(String, String)>)
    requires
        labels_ascending(l),
    ensures
        kept_labels(l, l.len() as int) == l.map_values(|p: (String, String)| Cond::Label(p.0@, p.1@)),
{
    assert forall|i: int| 0 <= i < l.len() implies label_kept(l, i) by {
        assert forall|j: int| i < j < l.len() implies #[trigger] l[j].0@ != l[i].0@ by {
            lemma_text_less_irreflexive(l[i].0@);
            assert(text_less(l[i].0@, l[j].0@));
        }
    }
    lemma_kept_prefix(l, l.len() as int);
    assert(l.take(l.len() as int) =~= l);
}

proof fn lemma_kept_prefix(l: Seq<(String, String)>, n: int)
    requires
        0 <= n <= l.len(),
        forall|i: int| 0 <= i < l.len() ==> label_kept(l, i),
    ensures
        kept_labels(l, n) == l.take(n).map_values(|p: (String, String)| Cond::Label(p.0@, p.1@)),
    decreases n,
{
    if n > 0 {
        lemma_kept_prefix(l, n - 1);
        assert(label_kept(l, n - 1));
        assert(l.take(n).map_values(|p: (String, String)| Cond::Label(p.0@, p.1@)) =~= l.take(
            n - 1,
        ).map_values(|p: (String, String)| Cond::Label(p.0@, p.1@)).push(
            Cond::Label(l[n - 1].0@, l[n - 1].1@),
        ));
    } else {
        assert(l.take(0).map_values(|p: (String, String)| Cond::Label(p.0@, p.1@)) =~= Seq::<Cond>::empty());
    }
}

/// The conditions of label equalities: each key once, with the last value
/// given for it (as in a JSON object), in the order of those last pairs.
pub open spec fn label_conds(o: Option<Vec<(String, String)>>) -> Seq<Cond> {
    match o {
        Some(v) => kept_labels(v@, v@.len() as int),
        None => Seq::empty(),
    }
}

/// The conditions of the filters, in the order they are written, with
/// `from` as the lower time bound.
pub open spec fn filter_conds(f: Filters, from: Option<Seq<char>>) -> Seq<Cond> {
    opt_cond(from, |v: Seq<char>| Cond::TsFrom(v)) + opt_cond(
        opt_text(f.ts_to),
        |v: Seq<char>| Cond::TsTo(v),
    ) + any_of_cond("host"@, f.hosts) + any_of_cond("container_name"@, f.containers) + any_of_cond(
        "stream"@,
        f.streams,
    ) + any_of_cond("agent_id"@, f.agent_ids) + opt_cond(
        opt_text(f.trace_id),
        |v: Seq<char>| Cond::Equals("trace_id"@, v),
    ) + opt_cond(opt_text(f.request_id), |v: Seq<char>| Cond::Equals("request_id"@, v)) + label_conds(
        f.label_equals,
    )
}

/// The full-text condition of an optional text: present when the trimmed
/// text and its query are both non-empty.
pub open spec fn text_cond(text: Option<Seq<char>>) -> Seq<Cond> {
    match text {
        Some(t) => {
            let tt = trim_spec(t);
            if tt.len() > 0 && fts_query_spec(tt).len() > 0 {
                seq![Cond::Matches(fts_query_spec(tt))]
            } else {
                Seq::empty()
            }
        },
        None => Seq::empty(),
    }
}

/// The cursor condition, if there is a cursor.
pub open spec fn cursor_cond(c: Option<(Seq<char>, Seq<char>)>) -> Seq<Cond> {
    match c {
        Some(p) => seq![Cond::Before(p.0, p.1)],
        None => Seq::empty(),
    }
}

/// The position of an optional cursor.
pub open spec fn cursor_pos(c: Option<&Cursor>) -> Option<(Seq<char>, Seq<char>)> {
    match c {
        Some(c) => Some((c.ts@, c.id@)),
        None => None,
    }
}

/// All conditions of a search: filters (with `from` as the lower time
/// bound), then cursor, then text.
pub open spec fn where_conds(
    f: Filters,
    from: Option<Seq<char>>,
    text: Option<Seq<char>>,
    cursor: Option<(Seq<char>, Seq<char>)>,
) -> Seq<Cond> {
    filter_conds(f, from) + cursor_cond(cursor) + text_cond(text)
}

proof fn lemma_render_push(cs: Seq<Cond>, c: Cond)
    ensures
        render(cs.push(c)) == ({
            let p = render(cs);
            (p.0.push(cond_sql(c, p.1.len())), p.1 + cond_binds(c))
        }),
{
    assert(cs.push(c).drop_last() =~= cs);
}

/// The SQL parameter `?n`.
pub fn placeholder(n: u128) -> (r: String)
    ensures
        r@ == ph(n as nat),
{
    let mut s = String::new();
    push_char(&mut s, '?');
    push_dec(&mut s, n);
    assert(s@ =~= ph(n as nat));
    s
}

/// The clauses and binds built so far correspond to the conditions `cs`.
pub open spec fn built(clauses: Seq<String>, binds: Seq<String>, cs: Seq<Cond>) -> bool {
    (views(clauses), views(binds)) == render(cs)
}

fn push_single(
    clauses: &mut Vec<String>,
    binds: &mut Vec<String>,
    head: &str,
    v: &str,
    Ghost(cs): Ghost<Seq<Cond>>,
    Ghost(c): Ghost<Cond>,
)
    requires
        built(old(clauses)@, old(binds)@, cs),
        cond_binds(c) == seq![v@],
        cond_sql(c, old(binds)@.len() as nat) == head@ + ph(old(binds)@.len() + 1),
    ensures
        built(final(clauses)@, final(binds)@, cs.push(c)),
{
    proof {
        lemma_render_push(cs, c);
    }
    let n = binds.len() as u128;
    let mut clause = String::from_str(head);
    let p = placeholder(n + 1);
    clause.append(p.as_str());
    let ghost oc = clauses@;
    let ghost ob = binds@;
    clauses.push(clause);
    binds.push(String::from_str(v));
    assert(views(clauses@) =~= views(oc).push(clause@));
    assert(views(binds@) =~= views(ob) + seq![v@]);
}

/// Adds the condition that `col` holds one of `values`; nothing for no or no values.
fn push_in(
    clauses: &mut Vec<String>,
    binds: &mut Vec<String>,
    col: &str,
    values: Option<&Vec<String>>,
    Ghost(cs): Ghost<Seq<Cond>>,
)
    requires
        built(old(clauses)@, old(binds)@, cs),
    ensures
        built(
            final(clauses)@,
            final(binds)@,
            cs + any_of_cond(
                col@,
                match values {
                    Some(v) => Some(*v),
                    None => None,
                },
            ),
        ),
{
    let vals = match values {
        Some(v) => v,
        None => {
            assert(cs + Seq::<Cond>::empty() =~= cs);
            return;
        },
    };
    if vals.len() == 0 {
        assert(cs + Seq::<Cond>::empty() =~= cs);
        return;
    }
    let c = Ghost(Cond::AnyOf(col@, views(vals@)));
    proof {
        lemma_render_push(cs, c@);
    }
    let n = binds.len() as u128;
    let ghost ob = binds@;
    let mut parts: Vec<String> = Vec::new();
    let mut i: usize = 0;
    while i < vals.len()
        invariant
            i <= vals@.len(),
            n == ob.len(),
            n < 0x1_0000_0000_0000_0000,
            views(parts@) == placeholders((n + 1) as nat, i as nat),
            views(binds@) == views(ob) + views(vals@).take(i as int),
        decreases vals@.len() - i,
    {
        let p = placeholder(n + 1 + i as u128);
        let ghost op = parts@;
        let ghost obb = binds@;
        parts.push(p);
        binds.push(vals[i].clone());
        assert(views(parts@) =~= placeholders((n + 1) as nat, (i + 1) as nat)) by {
            assert(views(parts@) =~= views(op).push(p@));
        }
        assert(views(binds@) =~= views(ob) + views(vals@).take(i + 1)) by {
            assert(views(binds@) =~= views(obb).push(vals@[i as int]@));
            assert(views(vals@).take(i + 1) =~= views(vals@).take(i as int).push(vals@[i as int]@));
        }
        i = i + 1;
    }
    assert(views(vals@).take(vals@.len() as int) =~= views(vals@));
    let mut clause = concat("e.", col);
    clause.append(" IN (");
    let joined = join(&parts, ",");
    clause.append(joined.as_str());
    clause.append(")");
    let ghost oc = clauses@;
    clauses.push(clause);
    assert(views(clauses@) =~= views(oc).push(clause@));
    assert(cs + any_of_cond(col@, Some(*vals)) =~= cs.push(c@));
}

fn push_pair(
    clauses: &mut Vec<String>,
    binds: &mut Vec<String>,
    clause: String,
    a: String,
    b: String,
    Ghost(cs): Ghost<Seq<Cond>>,
    Ghost(c): Ghost<Cond>,
)
    requires
        built(old(clauses)@, old(binds)@, cs),
        cond_binds(c) == seq![a@, b@],
        cond_sql(c, old(binds)@.len() as nat) == clause@,
    ensures
        built(final(clauses)@, final(binds)@, cs.push(c)),
{
    proof {
        lemma_render_push(cs, c);
    }
    let ghost oc = clauses@;
    let ghost ob = binds@;
    let ghost cv = clause@;
    clauses.push(clause);
    binds.push(a);
    binds.push(b);
    assert(views(clauses@) =~= views(oc).push(cv));
    assert(views(binds@) =~= views(ob) + cond_binds(c));
}

fn push_opt_single(
    clauses: &mut Vec<String>,
    binds: &mut Vec<String>,
    head: &str,
    v: &Option<String>,
    Ghost(cs): Ghost<Seq<Cond>>,
    Ghost(mk): Ghost<spec_fn(Seq<char>) -> Cond>,
)
    requires
        built(old(clauses)@, old(binds)@, cs),
        forall|x: Seq<char>| #[trigger] cond_binds(mk(x)) == seq![x],
        forall|x: Seq<char>, n: nat| #[trigger] cond_sql(mk(x), n) == head@ + ph(n + 1),
    ensures
        built(final(clauses)@, final(binds)@, cs + opt_cond(opt_text(*v), mk)),
{
    match v {
        Some(x) => {
            push_single(clauses, binds, head, x.as_str(), Ghost(cs), Ghost(mk(x@)));
            assert(cs + opt_cond(opt_text(*v), mk) =~= cs.push(mk(x@)));
        },
        None => {
            assert(cs + opt_cond(opt_text(*v), mk) =~= cs);
        },
    }
}

fn is_last_of_key(labels: &Vec<(String, String)>, i: usize) -> (r: bool)
    requires
        i < labels@.len(),
    ensures
        r == label_kept(labels@, i as int),
{
    let n = labels.len();
    let mut j: usize = i + 1;
    while j < n
        invariant
            i < j <= n == labels@.len(),
            forall|k: int| i < k < j ==> #[trigger] labels@[k].0@ != labels@[i as int].0@,
        decreases labels@.len() - j,
    {
        if crate::text::str_eq(labels[j].0.as_str(), labels[i].0.as_str()) {
            return false;
        }
        j = j + 1;
    }
    true
}

fn push_labels(
    clauses: &mut Vec<String>,
    binds: &mut Vec<String>,
    labels: &Option<Vec<(String, String)>>,
    Ghost(cs0): Ghost<Seq<Cond>>,
)
    requires
        built(old(clauses)@, old(binds)@, cs0),
    ensures
        built(final(clauses)@, final(binds)@, cs0 + label_conds(*labels)),
{
    let labels = match labels {
        Some(l) => l,
        None => {
            assert(cs0 + Seq::<Cond>::empty() =~= cs0);
            return;
        },
    };
    let ghost mut cs = cs0;
    assert(cs0 + kept_labels(labels@, 0) =~= cs0);
    let mut i: usize = 0;
    while i < labels.len()
        invariant
            i <= labels@.len(),
            built(clauses@, binds@, cs),
            cs == cs0 + kept_labels(labels@, i as int),
        decreases labels@.len() - i,
    {
        if is_last_of_key(labels, i) {
            let (k, v) = &labels[i];
            let ghost c = Cond::Label(k@, v@);
            let n = binds.len() as u128;
            let mut clause = String::from_str("json_extract(e.labels_json, ");
            let p1 = placeholder(n + 1);
            clause.append(p1.as_str());
            clause.append(") = ");
            let p2 = placeholder(n + 2);
            clause.append(p2.as_str());
            let key = concat("$.", k.as_str());
            push_pair(clauses, binds, clause, key, v.clone(), Ghost(cs), Ghost(c));
            proof {
                assert(kept_labels(labels@, i + 1) == kept_labels(labels@, i as int).push(c));
                assert(cs0 + kept_labels(labels@, i + 1) =~= cs.push(c));
                cs = cs.push(c);
            }
        } else {
            assert(kept_labels(labels@, i + 1) == kept_labels(labels@, i as int));
        }
        i = i + 1;
    }
}

fn push_filters(
    clauses: &mut Vec<String>,
    binds: &mut Vec<String>,
    filters: &Filters,
    from: &Option<String>,
)
    requires
        old(clauses)@.len() == 0,
        old(binds)@.len() == 0,
    ensures
        built(final(clauses)@, final(binds)@, filter_conds(*filters, opt_text(*from))),
{
    let ghost cs: Seq<Cond> = Seq::empty();
    assert(views(clauses@) =~= Seq::<Seq<char>>::empty());
    assert(views(binds@) =~= Seq::<Seq<char>>::empty());
    let ghost fr = |v: Seq<char>| Cond::TsFrom(v);
    let ghost to = |v: Seq<char>| Cond::TsTo(v);
    let ghost tr = |v: Seq<char>| Cond::Equals("trace_id"@, v);
    let ghost rq = |v: Seq<char>| Cond::Equals("request_id"@, v);
    push_opt_single(clauses, binds, "e.ts >= ", from, Ghost(cs), Ghost(fr));
    let ghost cs = cs + opt_cond(opt_text(*from), fr);
    push_opt_single(clauses, binds, "e.ts <= ", &filters.ts_to, Ghost(cs), Ghost(to));
    let ghost cs = cs + opt_cond(opt_text(filters.ts_to), to);
    push_in(clauses, binds, "host", filters.hosts.as_ref(), Ghost(cs));
    let ghost cs = cs + any_of_cond("host"@, filters.hosts);
    push_in(clauses, binds, "container_name", filters.containers.as_ref(), Ghost(cs));
    let ghost cs = cs + any_of_cond("container_name"@, filters.containers);
    push_in(clauses, binds, "stream", filters.streams.as_ref(), Ghost(cs));
    let ghost cs = cs + any_of_cond("stream"@, filters.streams);
    push_in(clauses, binds, "agent_id", filters.agent_ids.as_ref(), Ghost(cs));
    let ghost cs = cs + any_of_cond("agent_id"@, filters.agent_ids);
    let mut head = concat("e.", "trace_id");
    head.append(" = ");
    push_opt_single(clauses, binds, head.as_str(), &filters.trace_id, Ghost(cs), Ghost(tr));
    let ghost cs = cs + opt_cond(opt_text(filters.trace_id), tr);
    let mut head = concat("e.", "request_id");
    head.append(" = ");
    push_opt_single(clauses, binds, head.as_str(), &filters.request_id, Ghost(cs), Ghost(rq));
    let ghost cs = cs + opt_cond(opt_text(filters.request_id), rq);
    push_labels(clauses, binds, &filters.label_equals, Ghost(cs));
    assert(cs + label_conds(filters.label_equals) =~= filter_conds(*filters, opt_text(*from)));
}

fn push_cursor(
    clauses: &mut Vec<String>,
    binds: &mut Vec<String>,
    cursor: Option<&Cursor>,
    Ghost(cs): Ghost<Seq<Cond>>,
)
    requires
        built(old(clauses)@, old(binds)@, cs),
    ensures
        built(
            final(clauses)@,
            final(binds)@,
            cs + cursor_cond(cursor_pos(cursor)),
        ),
{
    match cursor {
        Some(c) => {
            let ghost cc = Cond::Before(c.ts@, c.id@);
            let n = binds.len() as u128;
            let a = placeholder(n + 1);
            let b = placeholder(n + 2);
            let mut clause = String::from_str("(e.ts < ");
            clause.append(a.as_str());
            clause.append(" OR (e.ts = ");
            clause.append(a.as_str());
            clause.append(" AND e.id < ");
            clause.append(b.as_str());
            clause.append("))");
            push_pair(clauses, binds, clause, c.ts.clone(), c.id.clone(), Ghost(cs), Ghost(cc));
            assert(cs + cursor_cond(Some((c.ts@, c.id@))) =~= cs.push(cc));
        },
        None => {
            assert(cs + cursor_cond(None) =~= cs);
        },
    }
}

fn push_text(
    clauses: &mut Vec<String>,
    binds: &mut Vec<String>,
    text: Option<&str>,
    Ghost(cs): Ghost<Seq<Cond>>,
)
    requires
        built(old(clauses)@, old(binds)@, cs),
    ensures
        built(
            final(clauses)@,
            final(binds)@,
            cs + text_cond(
                match text {
                    Some(t) => Some(t@),
                    None => None,
                },
            ),
        ),
{
    if let Some(t) = text {
        let tt = trim(t);
        if !tt.as_str().is_empty() {
            let q = fts_query(tt.as_str());
            if !q.as_str().is_empty() {
                let ghost c = Cond::Matches(q@);
                push_single(clauses, binds, "log_events_fts MATCH ", q.as_str(), Ghost(cs), Ghost(c));
                assert(cs + text_cond(Some(t@)) =~= cs.push(c));
                return;
            }
        }
        assert(cs + text_cond(Some(t@)) =~= cs);
    } else {
        assert(cs + text_cond(None) =~= cs);
    }
}

/// The `WHERE` text and bound values of a search with the given filters,
/// lower time bound, keyword text and cursor; columns are those of the
/// events table aliased `e`.
pub fn build_where(
    filters: &Filters,
    from: &Option<String>,
    text: Option<&str>,
    cursor: Option<&Cursor>,
) -> (r: (
    String,
    Vec<String>,
))
    ensures
        ({
            let rr = render(
                where_conds(
                    *filters,
                    opt_text(*from),
                    match text {
                        Some(t) => Some(t@),
                        None => None,
                    },
                    cursor_pos(cursor),
                ),
            );
            r.0@ == where_sql_spec(rr.0) && views(r.1@) == rr.1
        }),
{
    let mut clauses: Vec<String> = Vec::new();
    let mut binds: Vec<String> = Vec::new();
    push_filters(&mut clauses, &mut binds, filters, from);
    let ghost cs = filter_conds(*filters, opt_text(*from));
    push_cursor(&mut clauses, &mut binds, cursor, Ghost(cs));
    let ghost cs = cs + cursor_cond(cursor_pos(cursor));
    push_text(&mut clauses, &mut binds, text, Ghost(cs));
    let sql = if clauses.len() == 0 {
        String::from_str("WHERE 1=1")
    } else {
        let j = join(&clauses, " AND ");
        concat("WHERE ", j.as_str())
    };
    (sql, binds)
}


// ------------------------------------------------------- WHERE clause laws

/// Every condition binds at least one value.
pub open spec fn binds_something(cs: Seq<Cond>) -> bool {
    forall|i: int| 0 <= i < cs.len() ==> #[trigger] cond_binds(cs[i]).len() > 0
}

/// Every clause is non-empty and does not start with `1`.
spec fn clauses_plain(cl: Seq<Seq<char>>) -> bool {
    forall|i: int| 0 <= i < cl.len() ==> (#[trigger] cl[i]).len() > 0 && cl[i][0] != '1'
}

proof fn lemma_cond_sql_head(c: Cond, n: nat)
    ensures
        cond_sql(c, n).len() > 0,
        cond_sql(c, n)[0] != '1',
{
    reveal_strlit("e.ts >= ");
    reveal_strlit("e.ts <= ");
    reveal_strlit("e.");
    reveal_strlit("json_extract(e.labels_json, ");
    reveal_strlit("(e.ts < ");
    reveal_strlit("log_events_fts MATCH ");
}

proof fn lemma_render_shape(cs: Seq<Cond>)
    ensures
        render(cs).0.len() == cs.len(),
        clauses_plain(render(cs).0),
        binds_something(cs) ==> render(cs).1.len() >= cs.len(),
    decreases cs.len(),
{
    if cs.len() > 0 {
        let d = cs.drop_last();
        lemma_render_shape(d);
        let p = render(d);
        lemma_cond_sql_head(cs.last(), p.1.len());
        if binds_something(cs) {
            assert forall|i: int| 0 <= i < d.len() implies #[trigger] cond_binds(d[i]).len() > 0 by {
                assert(d[i] == cs[i]);
            }
            assert(cond_binds(cs[cs.len() - 1]).len() > 0);
        }
        assert forall|i: int| 0 <= i < render(cs).0.len() implies (#[trigger] render(cs).0[i]).len() > 0
            && render(cs).0[i][0] != '1' by {
            if i < d.len() {
                assert(render(cs).0[i] == p.0[i]);
            }
        }
    }
}

proof fn lemma_join_head(parts: Seq<Seq<char>>, sep: Seq<char>)
    requires
        parts.len() > 0,
        parts[0].len() > 0,
    ensures
        join_spec(parts, sep).len() > 0,
        join_spec(parts, sep)[0] == parts[0][0],
    decreases parts.len(),
{
    if parts.len() > 1 {
        let d = parts.drop_last();
        lemma_join_head(d, sep);
        assert(d[0] == parts[0]);
    }
}

proof fn lemma_binds_concat(a: Seq<Cond>, b: Seq<Cond>)
    requires
        binds_something(a),
        binds_something(b),
    ensures
        binds_something(a + b),
{
    assert forall|i: int| 0 <= i < (a + b).len() implies #[trigger] cond_binds((a + b)[i]).len() > 0 by {
        if i < a.len() {
            assert((a + b)[i] == a[i]);
        } else {
            assert((a + b)[i] == b[i - a.len()]);
        }
    }
}

proof fn lemma_kept_labels(l: Seq<(String, String)>, n: int)
    requires
        0 <= n <= l.len(),
    ensures
        binds_something(kept_labels(l, n)),
        n == l.len() ==> (kept_labels(l, n).len() == 0 <==> l.len() == 0),
    decreases n,
{
    if n > 0 {
        lemma_kept_labels(l, n - 1);
        let p = kept_labels(l, n - 1);
        if label_kept(l, n - 1) {
            let c = Cond::Label(l[n - 1].0@, l[n - 1].1@);
            assert(binds_something(seq![c]));
            assert(p.push(c) == p + seq![c]);
            lemma_binds_concat(p, seq![c]);
        }
    }
}

/// The filters with every empty list taken as no list.
pub open spec fn without_empty_lists(f: Filters) -> Filters {
    let drop = |o: Option<Vec<String>>|
        match o {
            Some(v) => if v@.len() == 0 {
                None
            } else {
                Some(v)
            },
            None => None,
        };
    Filters {
        hosts: drop(f.hosts),
        containers: drop(f.containers),
        streams: drop(f.streams),
        agent_ids: drop(f.agent_ids),
        label_equals: match f.label_equals {
            Some(v) => if v@.len() == 0 {
                None
            } else {
                Some(v)
            },
            None => None,
        },
        ..f
    }
}

/// Whether an optional list is absent or empty.
pub open spec fn no_items<T>(o: Option<Vec<T>>) -> bool {
    match o {
        Some(v) => v@.len() == 0,
        None => true,
    }
}

proof fn lemma_any_of_binds(col: Seq<char>, o: Option<Vec<String>>)
    ensures
        binds_something(any_of_cond(col, o)),
        any_of_cond(col, o).len() == 0 <==> no_items(o),
        any_of_cond(col, o) == any_of_cond(
            col,
            match o {
                Some(v) => if v@.len() == 0 {
                    None
                } else {
                    Some(v)
                },
                None => None,
            },
        ),
{
    match o {
        Some(v) => {
            if v@.len() > 0 {
                assert(views(v@).len() > 0);
                assert(cond_binds(any_of_cond(col, o)[0]).len() > 0);
            }
        },
        None => {},
    }
}

proof fn lemma_opt_binds(o: Option<Seq<char>>, mk: spec_fn(Seq<char>) -> Cond)
    requires
        forall|v: Seq<char>| #[trigger] cond_binds(mk(v)).len() > 0,
    ensures
        binds_something(opt_cond(o, mk)),
        opt_cond(o, mk).len() == 0 <==> o is None,
{
    match o {
        Some(v) => {
            assert(cond_binds(opt_cond(o, mk)[0]) == cond_binds(mk(v)));
        },
        None => {},
    }
}

proof fn lemma_text_cond(text: Option<Seq<char>>)
    ensures
        binds_something(text_cond(text)),
        text_cond(text).len() == 0 <==> match text {
            Some(t) => fts_query_spec(trim_spec(t)).len() == 0,
            None => true,
        },
{
    match text {
        Some(t) => {
            if trim_spec(t).len() == 0 {
                assert(trim_spec(t) =~= Seq::<char>::empty());
                assert(split_whitespace_spec(Seq::<char>::empty()) =~= Seq::<Seq<char>>::empty());
            }
        },
        None => {},
    }
}

/// The filter conditions of a search, in pieces.
spec fn filter_pieces(f: Filters, from: Option<Seq<char>>) -> Seq<Seq<Cond>> {
    seq![
        opt_cond(from, |v: Seq<char>| Cond::TsFrom(v)),
        opt_cond(opt_text(f.ts_to), |v: Seq<char>| Cond::TsTo(v)),
        any_of_cond("host"@, f.hosts),
        any_of_cond("container_name"@, f.containers),
        any_of_cond("stream"@, f.streams),
        any_of_cond("agent_id"@, f.agent_ids),
        opt_cond(opt_text(f.trace_id), |v: Seq<char>| Cond::Equals("trace_id"@, v)),
        opt_cond(opt_text(f.request_id), |v: Seq<char>| Cond::Equals("request_id"@, v)),
        label_conds(f.label_equals),
    ]
}

proof fn lemma_pieces(f: Filters, from: Option<Seq<char>>)
    ensures
        ({
            let p = filter_pieces(f, from);
            &&& filter_conds(f, from) == p[0] + p[1] + p[2] + p[3] + p[4] + p[5] + p[6] + p[7] + p[8]
            &&& forall|i: int| 0 <= i < 9 ==> binds_something(#[trigger] p[i])
            &&& p[0].len() == 0 <==> from is None
            &&& p[1].len() == 0 <==> f.ts_to is None
            &&& p[2].len() == 0 <==> no_items(f.hosts)
            &&& p[3].len() == 0 <==> no_items(f.containers)
            &&& p[4].len() == 0 <==> no_items(f.streams)
            &&& p[5].len() == 0 <==> no_items(f.agent_ids)
            &&& p[6].len() == 0 <==> f.trace_id is None
            &&& p[7].len() == 0 <==> f.request_id is None
            &&& p[8].len() == 0 <==> no_items(f.label_equals)
        }),
{
    lemma_opt_binds(from, |v: Seq<char>| Cond::TsFrom(v));
    lemma_opt_binds(opt_text(f.ts_to), |v: Seq<char>| Cond::TsTo(v));
    lemma_any_of_binds("host"@, f.hosts);
    lemma_any_of_binds("container_name"@, f.containers);
    lemma_any_of_binds("stream"@, f.streams);
    lemma_any_of_binds("agent_id"@, f.agent_ids);
    lemma_opt_binds(opt_text(f.trace_id), |v: Seq<char>| Cond::Equals("trace_id"@, v));
    lemma_opt_binds(opt_text(f.request_id), |v: Seq<char>| Cond::Equals("request_id"@, v));
    match f.label_equals {
        Some(v) => lemma_kept_labels(v@, v@.len() as int),
        None => {},
    }
    let p = filter_pieces(f, from);
    assert(forall|i: int| 0 <= i < 9 ==> binds_something(#[trigger] p[i])) by {
        assert(binds_something(p[0]) && binds_something(p[1]) && binds_something(p[2]));
        assert(binds_something(p[3]) && binds_something(p[4]) && binds_something(p[5]));
        assert(binds_something(p[6]) && binds_something(p[7]) && binds_something(p[8]));
    }
}

/// The conditions of a search all bind something.
#[verifier::spinoff_prover]
proof fn lemma_where_binds(
    f: Filters,
    from: Option<Seq<char>>,
    text: Option<Seq<char>>,
    cursor: Option<(Seq<char>, Seq<char>)>,
)
    ensures
        binds_something(where_conds(f, from, text, cursor)),
{
    lemma_pieces(f, from);
    let p = filter_pieces(f, from);
    assert(binds_something(p[0]) && binds_something(p[1]) && binds_something(p[2]));
    assert(binds_something(p[3]) && binds_something(p[4]) && binds_something(p[5]));
    assert(binds_something(p[6]) && binds_something(p[7]) && binds_something(p[8]));
    lemma_binds_concat(p[0], p[1]);
    lemma_binds_concat(p[0] + p[1], p[2]);
    lemma_binds_concat(p[0] + p[1] + p[2], p[3]);
    lemma_binds_concat(p[0] + p[1] + p[2] + p[3], p[4]);
    lemma_binds_concat(p[0] + p[1] + p[2] + p[3] + p[4], p[5]);
    lemma_binds_concat(p[0] + p[1] + p[2] + p[3] + p[4] + p[5], p[6]);
    lemma_binds_concat(p[0] + p[1] + p[2] + p[3] + p[4] + p[5] + p[6], p[7]);
    lemma_binds_concat(p[0] + p[1] + p[2] + p[3] + p[4] + p[5] + p[6] + p[7], p[8]);
    let fc = filter_conds(f, from);
    lemma_text_cond(text);
    assert(binds_something(cursor_cond(cursor)));
    lemma_binds_concat(fc, cursor_cond(cursor));
    lemma_binds_concat(fc + cursor_cond(cursor), text_cond(text));
}

/// A search has no conditions exactly when nothing narrows it.
#[verifier::spinoff_prover]
proof fn lemma_where_parts(
    f: Filters,
    from: Option<Seq<char>>,
    text: Option<Seq<char>>,
    cursor: Option<(Seq<char>, Seq<char>)>,
)
    ensures
        binds_something(where_conds(f, from, text, cursor)),
        where_conds(f, from, text, cursor).len() == 0 <==> {
            &&& from is None
            &&& f.ts_to is None
            &&& f.trace_id is None
            &&& f.request_id is None
            &&& cursor is None
            &&& no_items(f.hosts)
            &&& no_items(f.containers)
            &&& no_items(f.streams)
            &&& no_items(f.agent_ids)
            &&& no_items(f.label_equals)
            &&& match text {
                Some(t) => fts_query_spec(trim_spec(t)).len() == 0,
                None => true,
            }
        },
{
    lemma_where_binds(f, from, text, cursor);
    lemma_pieces(f, from);
    lemma_text_cond(text);
}

/// A search's `WHERE` clause is `WHERE 1=1` exactly when it binds nothing,
/// and that is exactly when no lower or upper time bound, trace or request
/// id, cursor or usable keyword is given and every list filter is absent or
/// empty. An empty list filter means the same as none.
pub proof fn lemma_where_without_conditions(
    f: Filters,
    from: Option<Seq<char>>,
    text: Option<Seq<char>>,
    cursor: Option<(Seq<char>, Seq<char>)>,
)
    ensures
        ({
            let cs = where_conds(f, from, text, cursor);
            let rr = render(cs);
            &&& (where_sql_spec(rr.0) == "WHERE 1=1"@ <==> rr.1.len() == 0)
            &&& (rr.1.len() == 0 <==> {
                &&& from is None
                &&& f.ts_to is None
                &&& f.trace_id is None
                &&& f.request_id is None
                &&& cursor is None
                &&& no_items(f.hosts)
                &&& no_items(f.containers)
                &&& no_items(f.streams)
                &&& no_items(f.agent_ids)
                &&& no_items(f.label_equals)
                &&& match text {
                    Some(t) => fts_query_spec(trim_spec(t)).len() == 0,
                    None => true,
                }
            })
            &&& where_conds(without_empty_lists(f), from, text, cursor) == cs
        }),
{
    let cs = where_conds(f, from, text, cursor);
    let rr = render(cs);
    lemma_where_parts(f, from, text, cursor);
    lemma_render_shape(cs);
    if rr.0.len() > 0 {
        lemma_join_head(rr.0, " AND "@);
        reveal_strlit("WHERE ");
        reveal_strlit("WHERE 1=1");
        assert(where_sql_spec(rr.0)[6] != "WHERE 1=1"@[6]);
    }
    lemma_where_same_without_empty(f, from);
}

proof fn lemma_where_same_without_empty(f: Filters, from: Option<Seq<char>>)
    ensures
        filter_conds(without_empty_lists(f), from) == filter_conds(f, from),
{
    lemma_any_of_binds("host"@, f.hosts);
    lemma_any_of_binds("container_name"@, f.containers);
    lemma_any_of_binds("stream"@, f.streams);
    lemma_any_of_binds("agent_id"@, f.agent_ids);
    match f.label_equals {
        Some(v) => {
            if v@.len() == 0 {
                assert(kept_labels(v@, 0) == Seq::<Cond>::empty());
            }
        },
        None => {},
    }
    assert(filter_conds(without_empty_lists(f), from) =~= filter_conds(f, from));
}

// ------------------------------------------------------------------ search

// ------------------------------------------------------------- time window

/// Where the time window of a search or facet request starts.
pub enum WindowStart {
    /// At a given RFC 3339 time.
    Given(Seq<char>),
    /// This many seconds before now.
    Ago(nat),
    /// Nowhere: no lower bound.
    Unbounded,
    /// The window cannot be read.
    Invalid,
}

/// A `since` value as seconds: digits followed by `s`, `m`, `h` or `d`.
pub open spec fn since_secs_spec(s: Seq<char>) -> Option<nat> {
    if s.len() >= 2 && all_digits(s.drop_last()) {
        let n = digits_value(s.drop_last());
        let u = s.last();
        if u == 's' {
            Some(n)
        } else if u == 'm' {
            Some(n * 60)
        } else if u == 'h' {
            Some(n * 3600)
        } else if u == 'd' {
            Some(n * 86400)
        } else {
            None
        }
    } else {
        None
    }
}

/// The start of the window: an explicit `ts_from` first, then `since`
/// (trimmed), then `last_minutes`; with none of them and no `ts_to`, the
/// last hour.
pub open spec fn window_start_spec(f: Filters) -> WindowStart {
    match f.ts_from {
        Some(t) => WindowStart::Given(t@),
        None => match f.since {
            Some(s) => match since_secs_spec(trim_spec(s@)) {
                Some(n) => WindowStart::Ago(n),
                None => WindowStart::Invalid,
            },
            None => match f.last_minutes {
                Some(m) => WindowStart::Ago((m * 60) as nat),
                None => if f.ts_to is None {
                    WindowStart::Ago(3600)
                } else {
                    WindowStart::Unbounded
                },
            },
        },
    }
}

/// The lower time bound a request gets at `now_secs` (seconds since the
/// epoch): `Some(None)` for none, `None` when the window cannot be read or
/// starts before the earliest time that can be written.
pub open spec fn window_spec(f: Filters, now_secs: i64) -> Option<Option<Seq<char>>> {
    match window_start_spec(f) {
        WindowStart::Given(t) => Some(Some(t)),
        WindowStart::Unbounded => Some(None),
        WindowStart::Invalid => None,
        WindowStart::Ago(n) => {
            let start = now_secs - n;
            if start < i64::MIN {
                None
            } else {
                match rfc3339_utc_text(start as i64, 0) {
                    Some(t) => Some(Some(t)),
                    None => None,
                }
            }
        },
    }
}

fn since_secs(s: &str) -> (r: Option<u128>)
    ensures
        match since_secs_spec(trim_spec(s@)) {
            Some(n) => match r {
                Some(v) => v as nat == n,
                None => n > u64::MAX,
            },
            None => r is None && (since_secs_spec(trim_spec(s@)) is None),
        },
{
    let t = trim(s);
    let cs = chars_of(t.as_str());
    if cs.len() < 2 {
        return None;
    }
    let n = cs.len();
    let mut i: usize = 0;
    while i < n - 1
        invariant
            n == cs@.len() >= 2,
            cs@ == trim_spec(s@),
            i <= n - 1,
            forall|j: int| 0 <= j < i ==> is_digit(#[trigger] cs@[j]),
        decreases n - 1 - i,
    {
        if !('0' <= cs[i] && cs[i] <= '9') {
            assert(!all_digits(cs@.drop_last())) by {
                assert(cs@.drop_last()[i as int] == cs@[i as int]);
            }
            return None;
        }
        i = i + 1;
    }
    assert(all_digits(cs@.drop_last())) by {
        assert forall|j: int| 0 <= j < cs@.drop_last().len() implies is_digit(#[trigger] cs@.drop_last()[j]) by {
            assert(cs@.drop_last()[j] == cs@[j]);
        }
    }
    let unit = cs[n - 1];
    let mult: u128 = if unit == 's' {
        1
    } else if unit == 'm' {
        60
    } else if unit == 'h' {
        3600
    } else if unit == 'd' {
        86400
    } else {
        return None;
    };
    let body = crate::text::string_from(&cs, 0, n - 1);
    assert(body@ =~= cs@.drop_last());
    match parse_unsigned(body.as_str(), u64::MAX) {
        Some(v) => {
            assert(parse_unsigned_spec(body@, u64::MAX as nat) == Some(digits_value(body@))) by {
                if body@.len() > 0 && body@[0] == '+' {
                    assert(is_digit(body@[0]));
                }
            }
            assert(v as u128 * mult <= 0xffff_ffff_ffff_ffff * 86400) by (nonlinear_arith)
                requires
                    v <= 0xffff_ffff_ffff_ffffu64,
                    mult <= 86400,
            ;
            Some(v as u128 * mult)
        },
        None => {
            proof {
                if body@.len() > 0 && body@[0] == '+' {
                    assert(is_digit(body@[0]));
                }
                let dv = digits_value(body@);
                assert(dv > u64::MAX);
                assert(dv * (mult as nat) >= dv) by (nonlinear_arith)
                    requires
                        mult >= 1,
                ;
            }
            None
        },
    }
}

/// The lower time bound of a request at `now_secs`.
pub fn window_from(f: &Filters, now_secs: i64) -> (r: Result<Option<String>, AppError>)
    ensures
        window_spec(*f, now_secs) is None ==> (r matches Err(AppError::BadRequest(m)) && m@
            == "invalid time window"@),
        window_spec(*f, now_secs) matches Some(w) ==> (r matches Ok(x) && opt_text(x) == w),
{
    let ago: u128 = match &f.ts_from {
        Some(t) => return Ok(Some(t.clone())),
        None => match &f.since {
            Some(s) => match since_secs(s.as_str()) {
                Some(n) => n,
                None => return Err(bad_request("invalid time window")),
            },
            None => match f.last_minutes {
                Some(m) => m as u128 * 60,
                None => {
                    if f.ts_to.is_none() {
                        3600
                    } else {
                        return Ok(None);
                    }
                },
            },
        },
    };
    if ago > 0x8000_0000_0000_0000u128 + 0x7fff_ffff_ffff_ffffu128 {
        return Err(bad_request("invalid time window"));
    }
    let start: i128 = now_secs as i128 - ago as i128;
    if start < -0x8000_0000_0000_0000i128 {
        return Err(bad_request("invalid time window"));
    }
    match format_rfc3339_utc(start as i64, 0) {
        Some(t) => Ok(Some(t)),
        None => Err(bad_request("invalid time window")),
    }
}

/// Filters that filter nothing.
pub open spec fn no_filters() -> Filters {
    Filters {
        ts_from: None,
        ts_to: None,
        hosts: None,
        containers: None,
        streams: None,
        agent_ids: None,
        trace_id: None,
        request_id: None,
        label_equals: None,
        since: None,
        last_minutes: None,
    }
}

/// Filters that filter nothing.
pub fn empty_filters() -> (r: Filters)
    ensures
        r == no_filters(),
{
    Filters {
        ts_from: None,
        ts_to: None,
        hosts: None,
        containers: None,
        streams: None,
        agent_ids: None,
        trace_id: None,
        request_id: None,
        label_equals: None,
        since: None,
        last_minutes: None,
    }
}

/// The page size of a search: 25 unless given, kept within 1..=200.
pub open spec fn clamp_limit_spec(limit: Option<usize>) -> usize {
    let v = match limit {
        Some(l) => l,
        None => 25,
    };
    if v < 1 {
        1
    } else if v > 200 {
        200
    } else {
        v
    }
}

/// The page size of a search.
pub fn clamp_limit(limit: Option<usize>) -> (r: usize)
    ensures
        r == clamp_limit_spec(limit),
        1 <= r <= 200,
{
    let v = match limit {
        Some(l) => l,
        None => 25,
    };
    if v < 1 {
        1
    } else if v > 200 {
        200
    } else {
        v
    }
}

/// The columns a search selects, up to the rank, when the full-text index is joined.
pub const SEARCH_FTS_HEAD: &'static str = "SELECT e.id, e.ts, e.host, e.container_name, e.container_id, e.image, e.stream, e.source_type, e.agent_id, e.trace_id, e.request_id, e.message, e.labels_json, e.raw_json, bm25(log_events_fts) AS rank FROM log_events e JOIN log_events_fts ON log_events_fts.rowid = e.rowid ";

/// The columns a search selects when no full-text index is joined.
pub const SEARCH_PLAIN_HEAD: &'static str = "SELECT e.id, e.ts, e.host, e.container_name, e.container_id, e.image, e.stream, e.source_type, e.agent_id, e.trace_id, e.request_id, e.message, e.labels_json, e.raw_json, 0.0 AS rank FROM log_events e ";

/// The order and limit of a search.
pub const SEARCH_TAIL: &'static str = " ORDER BY e.ts DESC, e.id DESC LIMIT ";

/// The query a search runs: its SQL, its text parameters (the limit comes
/// after them), the page size, and the number of rows to fetch (one more than
/// a page, to know whether another page follows).
#[derive(Debug, Clone)]
pub struct SearchPlan {
    pub sql: String,
    pub binds: Vec<String>,
    pub limit: usize,
    pub fetch: i64,
}

/// Whether a search uses the full-text index.
pub open spec fn uses_fts(text: Option<Seq<char>>) -> bool {
    match text {
        Some(t) => fts_query_spec(trim_spec(t)).len() > 0,
        None => false,
    }
}

/// The view of an optional text.
pub open spec fn opt_text(o: Option<String>) -> Option<Seq<char>> {
    match o {
        Some(s) => Some(s@),
        None => None,
    }
}

/// The decoded cursor of a request, if it has one that decodes.
pub open spec fn decode_cursor_spec_opt(c: Option<String>) -> Option<(Seq<char>, Seq<char>)> {
    match c {
        Some(t) => decode_cursor_spec(t@),
        None => None,
    }
}

/// The plan runs the search that the filters, keywords and cursor position describe.
pub open spec fn plan_matches(
    plan: SearchPlan,
    f: Filters,
    from: Option<Seq<char>>,
    text: Option<Seq<char>>,
    cursor: Option<(Seq<char>, Seq<char>)>,
) -> bool {
    let rr = render(where_conds(f, from, text, cursor));
    &&& views(plan.binds@) == rr.1
    &&& plan.sql@ == (if uses_fts(text) {
        SEARCH_FTS_HEAD@
    } else {
        SEARCH_PLAIN_HEAD@
    }) + where_sql_spec(rr.0) + SEARCH_TAIL@ + ph(rr.1.len() + 1)
}

/// Whether a request carries a cursor that does not decode.
pub open spec fn cursor_invalid(req: SearchRequest) -> bool {
    req.cursor matches Some(c) && decode_cursor_spec(c@) is None
}

/// The filters of a request, none when it has none.
pub open spec fn req_filters(req: SearchRequest) -> Filters {
    match req.filters {
        Some(f) => f,
        None => no_filters(),
    }
}

/// Plans a search at `now_secs` (seconds since the epoch): a cursor that does
/// not decode, then a time window that cannot be read, is a bad request;
/// otherwise the SQL selects events matching the filters within the window,
/// the cursor and the keywords, newest first, one more than the page size.
pub fn search_plan(req: &SearchRequest, now_secs: i64) -> (r: Result<SearchPlan, AppError>)
    ensures
        cursor_invalid(*req) ==> (r matches Err(AppError::BadRequest(m)) && m@
            == "invalid cursor"@),
        !cursor_invalid(*req) && window_spec(req_filters(*req), now_secs) is None ==> (r matches Err(
            AppError::BadRequest(m),
        ) && m@ == "invalid time window"@),
        !cursor_invalid(*req) && window_spec(req_filters(*req), now_secs) is Some ==> (r matches Ok(
            plan,
        ) && plan.limit == clamp_limit_spec(req.limit) && plan.fetch == plan.limit + 1
            && plan_matches(
            plan,
            req_filters(*req),
            window_spec(req_filters(*req), now_secs).unwrap(),
            opt_text(req.text),
            decode_cursor_spec_opt(req.cursor),
        )),
{
    let limit = clamp_limit(req.limit);
    let cursor = match &req.cursor {
        Some(c) => match decode_cursor(c.as_str()) {
            Ok(cur) => Some(cur),
            Err(e) => return Err(e),
        },
        None => None,
    };
    let empty = empty_filters();
    let filters = match &req.filters {
        Some(f) => f,
        None => &empty,
    };
    let text = match &req.text {
        Some(t) => Some(t.as_str()),
        None => None,
    };
    let from = match window_from(filters, now_secs) {
        Ok(w) => w,
        Err(e) => return Err(e),
    };
    let cref = cursor.as_ref();
    let (where_sql, binds) = build_where(filters, &from, text, cref);
    let use_fts = match text {
        Some(t) => {
            let tt = trim(t);
            let q = fts_query(tt.as_str());
            !q.as_str().is_empty()
        },
        None => false,
    };
    let mut sql = if use_fts {
        String::from_str(SEARCH_FTS_HEAD)
    } else {
        String::from_str(SEARCH_PLAIN_HEAD)
    };
    sql.append(where_sql.as_str());
    sql.append(SEARCH_TAIL);
    let p = placeholder(binds.len() as u128 + 1);
    sql.append(p.as_str());
    assert(cursor_pos(cref) == decode_cursor_spec_opt(req.cursor));
    assert(opt_text(req.text) == match text {
        Some(t) => Some(t@),
        None => None::<Seq<char>>,
    });
    Ok(SearchPlan { sql, binds, limit, fetch: limit as i64 + 1 })
}


/// The advice attached to a search that found nothing.
pub const EMPTY_SEARCH_HINT: &'static str =
    "no events matched: widen the window (since, last_minutes), drop filters, or check host names in GET /v1/query/schema";

/// The hint of a search response: present exactly when the page is empty.
pub fn search_hint(count: usize) -> (r: Option<&'static str>)
    ensures
        count == 0 ==> r == Some(EMPTY_SEARCH_HINT),
        count > 0 ==> r is None,
{
    if count == 0 {
        Some(EMPTY_SEARCH_HINT)
    } else {
        None
    }
}

// -------------------------------------------------------------- pagination

/// Cuts fetched rows to a page. `keys` are the (time, id) of the rows as
/// fetched, in order. The page keeps `limit` rows when more were fetched,
/// and then carries the cursor of its last row; otherwise it keeps all rows
/// and has no cursor.
pub fn paginate(keys: &Vec<Cursor>, limit: usize) -> (r: (usize, Option<String>))
    requires
        limit >= 1,
    ensures
        keys@.len() <= limit ==> r.0 == keys@.len() && r.1 is None,
        keys@.len() > limit ==> r.0 == limit && (r.1 matches Some(t) && {
            let last = keys@[limit - 1];
            &&& t@ == b64url_encode_text(cursor_text(last.ts@, last.id@))
            &&& !last.ts@.contains('|') ==> decode_cursor_spec(t@) == Some((last.ts@, last.id@))
        }),
{
    if keys.len() > limit {
        let last = &keys[limit - 1];
        let t = encode_cursor(last);
        proof {
            if !last.ts@.contains('|') {
                lemma_cursor_roundtrip(t@, last.ts@, last.id@);
            }
        }
        (limit, Some(t))
    } else {
        (keys.len(), None)
    }
}

// ------------------------------------------------------------ event fields

/// The fields of an event in a result, in order; `raw` only on request.
pub open spec fn event_fields(include_raw: bool) -> Seq<Seq<char>> {
    let base = seq![
        "id"@,
        "ts"@,
        "host"@,
        "container_name"@,
        "container_id"@,
        "image"@,
        "stream"@,
        "source_type"@,
        "agent_id"@,
        "trace_id"@,
        "request_id"@,
        "message"@,
        "message_truncated"@,
        "labels"@,
        "score"@,
    ];
    if include_raw {
        base.push("raw"@)
    } else {
        base
    }
}

/// The names in `names` that a field selection keeps: all of them without a
/// selection, else those it lists.
pub open spec fn keep_selected(names: Seq<Seq<char>>, fields: Option<Seq<Seq<char>>>) -> Seq<Seq<char>>
    decreases names.len(),
{
    if names.len() == 0 {
        Seq::empty()
    } else {
        let p = keep_selected(names.drop_last(), fields);
        let keep = match fields {
            Some(f) => f.contains(names.last()),
            None => true,
        };
        if keep {
            p.push(names.last())
        } else {
            p
        }
    }
}

fn listed(fields: &Vec<String>, k: &str) -> (r: bool)
    ensures
        r == views(fields@).contains(k@),
{
    let mut i: usize = 0;
    while i < fields.len()
        invariant
            i <= fields@.len(),
            forall|j: int| 0 <= j < i ==> fields@[j]@ != k@,
        decreases fields@.len() - i,
    {
        if crate::text::str_eq(fields[i].as_str(), k) {
            assert(views(fields@)[i as int] == k@);
            return true;
        }
        i = i + 1;
    }
    assert forall|j: int| 0 <= j < views(fields@).len() implies views(fields@)[j] != k@ by {
        assert(views(fields@)[j] == fields@[j]@);
    }
    false
}

fn all_event_fields(include_raw: bool) -> (r: Vec<&'static str>)
    ensures
        r@.map_values(|s: &str| s@) == event_fields(include_raw),
{
    let mut v: Vec<&'static str> = Vec::new();
    v.push("id");
    v.push("ts");
    v.push("host");
    v.push("container_name");
    v.push("container_id");
    v.push("image");
    v.push("stream");
    v.push("source_type");
    v.push("agent_id");
    v.push("trace_id");
    v.push("request_id");
    v.push("message");
    v.push("message_truncated");
    v.push("labels");
    v.push("score");
    if include_raw {
        v.push("raw");
    }
    assert(v@.map_values(|s: &str| s@) =~= event_fields(include_raw));
    v
}

/// The fields a result event carries, in order, given whether the raw
/// payload was asked for and the optional field selection.
pub fn selected_fields(include_raw: bool, fields: Option<&Vec<String>>) -> (r: Vec<&'static str>)
    ensures
        r@.map_values(|s: &str| s@) == keep_selected(
            event_fields(include_raw),
            match fields {
                Some(f) => Some(views(f@)),
                None => None,
            },
        ),
{
    let all = all_event_fields(include_raw);
    let ghost names = all@.map_values(|s: &str| s@);
    let ghost sel = match fields {
        Some(f) => Some(views(f@)),
        None => None::<Seq<Seq<char>>>,
    };
    let mut out: Vec<&'static str> = Vec::new();
    let mut i: usize = 0;
    while i < all.len()
        invariant
            i <= all@.len(),
            names == all@.map_values(|s: &str| s@),
            sel == match fields {
                Some(f) => Some(views(f@)),
                None => None::<Seq<Seq<char>>>,
            },
            out@.map_values(|s: &str| s@) == keep_selected(names.take(i as int), sel),
        decreases all@.len() - i,
    {
        let k = all[i];
        let keep = match fields {
            Some(f) => listed(f, k),
            None => true,
        };
        let ghost before = out@;
        if keep {
            out.push(k);
            assert(out@.map_values(|s: &str| s@) =~= before.map_values(|s: &str| s@).push(k@));
        }
        proof {
            let t = names.take(i + 1);
            assert(t.drop_last() =~= names.take(i as int));
            assert(t.last() == k@);
        }
        i = i + 1;
    }
    assert(names.take(all@.len() as int) =~= names);
    out
}

// ------------------------------------------------------------------- facets

/// The dimensions facets are counted over, in order.
pub open spec fn facet_dims() -> Seq<Seq<char>> {
    seq!["host"@, "container_name"@, "image"@, "stream"@, "agent_id"@]
}

/// The counting query of one facet dimension under a `WHERE` text.
pub open spec fn facet_sql_spec(dim: Seq<char>, where_sql: Seq<char>) -> Seq<char> {
    "SELECT coalesce("@ + dim + ", '') AS k, COUNT(*) AS c FROM log_events e "@ + where_sql
        + " GROUP BY k ORDER BY c DESC LIMIT 50"@
}

/// The counting query of one facet dimension.
pub fn facet_sql(dim: &str, where_sql: &str) -> (r: String)
    ensures
        r@ == facet_sql_spec(dim@, where_sql@),
{
    let mut s = concat("SELECT coalesce(", dim);
    s.append(", '') AS k, COUNT(*) AS c FROM log_events e ");
    s.append(where_sql);
    s.append(" GROUP BY k ORDER BY c DESC LIMIT 50");
    s
}

/// One facet dimension and its counting query.
#[derive(Debug, Clone)]
pub struct FacetQuery {
    pub dim: &'static str,
    pub sql: String,
}

/// The facet queries of some filters, one per dimension in order, and the
/// values they all bind.
pub fn facet_queries(filters: &Filters, now_secs: i64) -> (r: Result<
    (Vec<FacetQuery>, Vec<String>),
    AppError,
>)
    ensures
        window_spec(*filters, now_secs) is None ==> (r matches Err(AppError::BadRequest(m)) && m@
            == "invalid time window"@),
        window_spec(*filters, now_secs) matches Some(w) ==> (r matches Ok(q) && {
            let rr = render(where_conds(*filters, w, None, None));
            &&& views(q.1@) == rr.1
            &&& q.0@.len() == 5
            &&& forall|i: int|
                0 <= i < 5 ==> (#[trigger] q.0@[i]).dim@ == facet_dims()[i] && q.0@[i].sql@
                    == facet_sql_spec(facet_dims()[i], where_sql_spec(rr.0))
        }),
{
    let from = match window_from(filters, now_secs) {
        Ok(w) => w,
        Err(e) => return Err(e),
    };
    let (where_sql, binds) = build_where(filters, &from, None, None);
    let mut dims: Vec<&'static str> = Vec::new();
    dims.push("host");
    dims.push("container_name");
    dims.push("image");
    dims.push("stream");
    dims.push("agent_id");
    assert(dims@.map_values(|s: &str| s@) =~= facet_dims());
    let mut out: Vec<FacetQuery> = Vec::new();
    let mut i: usize = 0;
    while i < dims.len()
        invariant
            i <= dims@.len() == 5,
            dims@.map_values(|s: &str| s@) == facet_dims(),
            out@.len() == i,
            forall|k: int|
                0 <= k < i ==> (#[trigger] out@[k]).dim@ == facet_dims()[k] && out@[k].sql@
                    == facet_sql_spec(facet_dims()[k], where_sql@),
        decreases dims@.len() - i,
    {
        let d = dims[i];
        assert(d@ == facet_dims()[i as int]);
        let sql = facet_sql(d, where_sql.as_str());
        out.push(FacetQuery { dim: d, sql });
        i = i + 1;
    }
    Ok((out, binds))
}

// ---------------------------------------------------------- semantic boost

/// The query that reads the stored embeddings of `n` events, bound to their ids.
pub open spec fn embedding_lookup_sql_spec(n: nat) -> Seq<char> {
    "SELECT event_id, embedding FROM log_embeddings WHERE event_id IN ("@ + join_spec(
        placeholders(1, n),
        ","@,
    ) + ")"@
}

/// The query that reads the stored embeddings of `n` events.
pub fn embedding_lookup_sql(n: usize) -> (r: String)
    ensures
        r@ == embedding_lookup_sql_spec(n as nat),
{
    let mut parts: Vec<String> = Vec::new();
    let mut i: usize = 0;
    while i < n
        invariant
            i <= n,
            views(parts@) == placeholders(1, i as nat),
        decreases n - i,
    {
        let p = placeholder(i as u128 + 1);
        let ghost op = parts@;
        parts.push(p);
        assert(views(parts@) =~= placeholders(1, (i + 1) as nat)) by {
            assert(views(parts@) =~= views(op).push(p@));
        }
        i = i + 1;
    }
    let j = join(&parts, ",");
    let mut sql = String::from_str("SELECT event_id, embedding FROM log_embeddings WHERE event_id IN (");
    sql.append(j.as_str());
    sql.append(")");
    sql
}

/// The columns of the events that have an embedding, newest first.
pub const NEIGHBORS_HEAD: &'static str = "SELECT e.id, e.ts, e.host, e.container_name, e.container_id, e.image, e.stream, e.source_type, e.agent_id, e.trace_id, e.request_id, e.message, e.labels_json, e.raw_json, emb.embedding FROM log_embeddings emb JOIN log_events e ON e.id = emb.event_id ";

/// The order and bound of the embedded events a semantic search considers.
pub const NEIGHBORS_TAIL: &'static str = " ORDER BY e.ts DESC LIMIT 200";

/// The query for embedded events under the same filters and time window as a
/// search, and its bound values; a window that cannot be read is a bad request.
pub fn semantic_neighbors_query(filters: &Filters, now_secs: i64) -> (r: Result<
    (String, Vec<String>),
    AppError,
>)
    ensures
        window_spec(*filters, now_secs) is None ==> (r matches Err(AppError::BadRequest(m)) && m@
            == "invalid time window"@),
        window_spec(*filters, now_secs) matches Some(w) ==> (r matches Ok(q) && {
            let rr = render(where_conds(*filters, w, None, None));
            &&& views(q.1@) == rr.1
            &&& q.0@ == NEIGHBORS_HEAD@ + where_sql_spec(rr.0) + NEIGHBORS_TAIL@
        }),
{
    let from = match window_from(filters, now_secs) {
        Ok(w) => w,
        Err(e) => return Err(e),
    };
    let (where_sql, binds) = build_where(filters, &from, None, None);
    let mut sql = String::from_str(NEIGHBORS_HEAD);
    sql.append(where_sql.as_str());
    sql.append(NEIGHBORS_TAIL);
    Ok((sql, binds))
}

// ------------------------------------------------------------------ context

/// The number of lines on one side of a context: 20 unless given, at most 100.
pub open spec fn context_window_spec(n: Option<usize>) -> usize {
    let v = match n {
        Some(v) => v,
        None => 20,
    };
    if v > 100 {
        100
    } else {
        v
    }
}

/// The number of lines on one side of a context.
pub fn context_window(n: Option<usize>) -> (r: usize)
    ensures
        r == context_window_spec(n),
{
    let v = match n {
        Some(v) => v,
        None => 20,
    };
    if v > 100 {
        100
    } else {
        v
    }
}

/// The column that relates an event to its context.
#[derive(Debug, Clone, Copy, PartialEq, Eq, Structural)]
pub enum ContextColumn {
    TraceId,
    ContainerName,
    Host,
}

impl ContextColumn {
    /// The column's name.
    pub open spec fn name_spec(self) -> Seq<char> {
        match self {
            ContextColumn::TraceId => "trace_id"@,
            ContextColumn::ContainerName => "container_name"@,
            ContextColumn::Host => "host"@,
        }
    }

    /// The column's name.
    pub fn name(self) -> (r: &'static str)
        ensures
            r@ == self.name_spec(),
    {
        match self {
            ContextColumn::TraceId => "trace_id",
            ContextColumn::ContainerName => "container_name",
            ContextColumn::Host => "host",
        }
    }
}

/// How an event's context is found: by its trace id when it has a non-empty
/// one, else by its container name when it has one, else by its host (empty
/// if it has none).
pub open spec fn context_anchor_spec(
    trace_id: Option<Seq<char>>,
    container_name: Option<Seq<char>>,
    host: Option<Seq<char>>,
) -> (ContextColumn, Seq<char>) {
    match trace_id {
        Some(t) if t.len() > 0 => (ContextColumn::TraceId, t),
        _ => match container_name {
            Some(c) => (ContextColumn::ContainerName, c),
            None => (
                ContextColumn::Host,
                match host {
                    Some(h) => h,
                    None => Seq::empty(),
                },
            ),
        },
    }
}

/// The context of an event follows its trace when it has a non-empty trace
/// id; otherwise its container when it names one; only without both does it
/// follow the host (empty when there is none).
pub proof fn lemma_context_anchor_preference(
    trace_id: Option<Seq<char>>,
    container_name: Option<Seq<char>>,
    host: Option<Seq<char>>,
)
    ensures
        trace_id is Some && trace_id.unwrap().len() > 0 ==> context_anchor_spec(
            trace_id,
            container_name,
            host,
        ) == (ContextColumn::TraceId, trace_id.unwrap()),
        (trace_id is None || trace_id.unwrap().len() == 0) && container_name is Some
            ==> context_anchor_spec(trace_id, container_name, host) == (
            ContextColumn::ContainerName,
            container_name.unwrap(),
        ),
        (trace_id is None || trace_id.unwrap().len() == 0) && container_name is None && host is Some
            ==> context_anchor_spec(trace_id, container_name, host) == (
            ContextColumn::Host,
            host.unwrap(),
        ),
        (trace_id is None || trace_id.unwrap().len() == 0) && container_name is None && host is None
            ==> context_anchor_spec(trace_id, container_name, host) == (
            ContextColumn::Host,
            Seq::<char>::empty(),
        ),
{
}

/// The column and value that relate an event to its context.
pub fn context_anchor(trace_id: Option<&str>, container_name: Option<&str>, host: Option<&str>) -> (r: (
    ContextColumn,
    String,
))
    ensures
        (r.0, r.1@) == context_anchor_spec(
            crate::vector_presets::opt_view(trace_id),
            crate::vector_presets::opt_view(container_name),
            crate::vector_presets::opt_view(host),
        ),
{
    if let Some(t) = trace_id {
        if !t.is_empty() {
            return (ContextColumn::TraceId, String::from_str(t));
        }
    }
    match container_name {
        Some(c) => (ContextColumn::ContainerName, String::from_str(c)),
        None => match host {
            Some(h) => (ContextColumn::Host, String::from_str(h)),
            None => (ContextColumn::Host, String::new()),
        },
    }
}

/// The query of the lines before (or after) an event: same anchor value,
/// not the event itself, nearest first, at most `?4` of them; `?1` is the
/// anchor value, `?2` the event's time, `?3` its id.
pub open spec fn context_sql_spec(col: ContextColumn, before: bool) -> Seq<char> {
    "SELECT id, ts, host, container_name, stream, message FROM log_events WHERE "@ + col.name_spec()
        + (if before {
        " = ?1 AND ts <= ?2 AND id != ?3 ORDER BY ts DESC, id DESC LIMIT ?4"@
    } else {
        " = ?1 AND ts >= ?2 AND id != ?3 ORDER BY ts ASC, id ASC LIMIT ?4"@
    })
}

/// The query of the lines before or after an event.
pub fn context_sql(col: ContextColumn, before: bool) -> (r: String)
    ensures
        r@ == context_sql_spec(col, before),
{
    let mut s = concat(
        "SELECT id, ts, host, container_name, stream, message FROM log_events WHERE ",
        col.name(),
    );
    if before {
        s.append(" = ?1 AND ts <= ?2 AND id != ?3 ORDER BY ts DESC, id DESC LIMIT ?4");
    } else {
        s.append(" = ?1 AND ts >= ?2 AND id != ?3 ORDER BY ts ASC, id ASC LIMIT ?4");
    }
    s
}


// ------------------------------------------------------------------- agents

/// The agents with their key's name and prefix and whether a connect secret
/// is stored, most recently seen (or created) first.
pub const AGENTS_SQL: &'static str = "SELECT a.id, a.name, a.api_key_id, a.host_hint, a.last_seen_at, a.events_ingested, a.created_at, k.name, k.key_prefix, CASE WHEN k.secret IS NOT NULL AND trim(k.secret) != '' THEN 1 ELSE 0 END FROM agents a LEFT JOIN api_keys k ON k.id = a.api_key_id ORDER BY coalesce(a.last_seen_at, a.created_at) DESC";

/// The busiest named containers of a host (`?1`), at most `?2` of them.
pub const TOP_CONTAINERS_SQL: &'static str = "SELECT coalesce(container_name, '') AS c, COUNT(*) AS n FROM log_events WHERE host = ?1 AND container_name IS NOT NULL AND container_name != '' GROUP BY c ORDER BY n DESC LIMIT ?2";

/// Nanoseconds since the epoch of an instant given as seconds and nanoseconds.
pub open spec fn instant_nanos(p: (i64, u32)) -> int {
    p.0 * 1_000_000_000 + p.1
}

/// An agent's status from when it was last seen: `never` without a time,
/// `unknown` when the time does not parse, else `online` if seen less than
/// two minutes ago, `stale` if less than fifteen, `offline` otherwise.
pub open spec fn agent_status_spec(last_seen_at: Option<Seq<char>>, now: (i64, u32)) -> Seq<char> {
    match last_seen_at {
        None => "never"@,
        Some(raw) => match rfc3339_instant(raw) {
            None => "unknown"@,
            Some(t) => {
                let age = instant_nanos(now) - instant_nanos(t);
                if age < 120_000_000_000 {
                    "online"@
                } else if age < 900_000_000_000 {
                    "stale"@
                } else {
                    "offline"@
                }
            },
        },
    }
}

/// An agent's status at `now` (seconds and nanoseconds since the epoch).
pub fn agent_status(last_seen_at: Option<&str>, now_secs: i64, now_nanos: u32) -> (r: &'static str)
    ensures
        r@ == agent_status_spec(crate::vector_presets::opt_view(last_seen_at), (now_secs, now_nanos)),
{
    let raw = match last_seen_at {
        Some(s) => s,
        None => return "never",
    };
    let (secs, nanos) = match parse_rfc3339(raw) {
        Some(p) => p,
        None => return "unknown",
    };
    let now_ns: i128 = now_secs as i128 * 1_000_000_000 + now_nanos as i128;
    let ts_ns: i128 = secs as i128 * 1_000_000_000 + nanos as i128;
    let age: i128 = now_ns - ts_ns;
    if age < 120_000_000_000 {
        "online"
    } else if age < 900_000_000_000 {
        "stale"
    } else {
        "offline"
    }
}

/// The host shown for an agent: its name for agents created with a stored
/// connect secret, else the host Vector reported (or `unknown`).
pub open spec fn agent_host_spec(has_connect_secret: bool, name: Seq<char>, host_hint: Option<Seq<char>>) -> Seq<char> {
    if has_connect_secret {
        name
    } else {
        match host_hint {
            Some(h) => h,
            None => "unknown"@,
        }
    }
}

/// The host shown for an agent.
pub fn agent_host(has_connect_secret: bool, name: &str, host_hint: Option<&str>) -> (r: String)
    ensures
        r@ == agent_host_spec(has_connect_secret, name@, crate::vector_presets::opt_view(host_hint)),
{
    if has_connect_secret {
        String::from_str(name)
    } else {
        match host_hint {
            Some(h) => String::from_str(h),
            None => String::from_str("unknown"),
        }
    }
}

} // verus!
