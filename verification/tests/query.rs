use logdb::error::AppError;
use logdb::query::{
    agent_host, agent_status, build_where, clamp_limit, context_anchor, context_sql,
    context_window, decode_cursor, embedding_lookup_sql, encode_cursor, facet_queries, facet_sql,
    fts_query, paginate, search_hint, search_plan, selected_fields, semantic_neighbors_query,
    truncate_msg, window_from, ContextColumn, Cursor, Filters, SearchRequest, EMPTY_SEARCH_HINT,
    NEIGHBORS_HEAD, NEIGHBORS_TAIL, SEARCH_FTS_HEAD, SEARCH_PLAIN_HEAD, SEARCH_TAIL,
};

// 2024-05-01T10:00:00Z
const NOW: i64 = 1714557600;

fn cursor(ts: &str, id: &str) -> Cursor {
    Cursor { ts: ts.to_string(), id: id.to_string() }
}

fn bad_request(r: Result<impl std::fmt::Debug, AppError>) -> String {
    match r {
        Err(AppError::BadRequest(m)) => m,
        other => panic!("expected a bad request, got {other:?}"),
    }
}

#[test]
fn fts_terms_are_quoted_and_joined_by_and() {
    assert_eq!(fts_query("timeout db"), "\"timeout\" AND \"db\"");
    assert_eq!(fts_query("  conn-reset  user_id!  "), "\"conn-reset\" AND \"user_id\"");
    assert_eq!(fts_query("!!! ???"), "");
    assert_eq!(fts_query(""), "");
    assert_eq!(fts_query("café"), "\"café\"");
}

#[test]
fn fts_operators_stay_operators() {
    assert_eq!(fts_query("timeout OR refused"), "\"timeout\" OR \"refused\"");
    assert_eq!(fts_query("error NOT health"), "\"error\" NOT \"health\"");
    assert_eq!(fts_query("a AND b"), "\"a\" AND \"b\"");
    assert_eq!(fts_query("OR timeout"), "\"timeout\"");
    assert_eq!(fts_query("timeout OR"), "\"timeout\"");
    assert_eq!(fts_query("or timeout"), "\"or\" AND \"timeout\"");
}

#[test]
fn messages_are_cut_with_an_ellipsis() {
    assert_eq!(truncate_msg("short", 500), ("short".to_string(), false));
    assert_eq!(truncate_msg("abcdef", 3), ("abc…".to_string(), true));
    assert_eq!(truncate_msg("ééé", 3), ("ééé".to_string(), false));
    let long = "x".repeat(501);
    let (m, cut) = truncate_msg(&long, 500);
    assert!(cut);
    assert_eq!(m.chars().count(), 501);
    assert!(m.ends_with('…'));
}

#[test]
fn cursor_encoding_is_unpadded_url_safe_base64() {
    let t = encode_cursor(&cursor("2024-05-01T10:00:00+00:00", "01HZX0"));
    assert_eq!(t, "MjAyNC0wNS0wMVQxMDowMDowMCswMDowMHwwMUhaWDA");
}

#[test]
fn cursors_round_trip() {
    for (ts, id) in [("2024-05-01T10:00:00+00:00", "01HZX0"), ("t", ""), ("", "a|b")] {
        let c = decode_cursor(&encode_cursor(&cursor(ts, id))).unwrap();
        assert_eq!(c.ts, ts);
        assert_eq!(c.id, id);
    }
}

#[test]
fn bad_cursors_are_rejected() {
    assert_eq!(bad_request(decode_cursor("***")), "invalid cursor");
    // "nobar" has no separator.
    assert_eq!(bad_request(decode_cursor("bm9iYXI")), "invalid cursor");
    // 0xff 0xfe is not UTF-8.
    assert_eq!(bad_request(decode_cursor("__4")), "invalid cursor");
}

#[test]
fn where_clause_lists_filters_in_order() {
    let f = Filters {
        ts_to: Some("2024-05-02T00:00:00Z".to_string()),
        hosts: Some(vec!["a".to_string(), "b".to_string()]),
        streams: Some(vec![]),
        trace_id: Some("t1".to_string()),
        label_equals: Some(vec![("app".to_string(), "api".to_string())]),
        ..Default::default()
    };
    let from = Some("2024-05-01T00:00:00Z".to_string());
    let c = cursor("2024-05-01T09:00:00+00:00", "01A");
    let (sql, binds) = build_where(&f, &from, Some("  timeout  "), Some(&c));
    assert_eq!(
        sql,
        "WHERE e.ts >= ?1 AND e.ts <= ?2 AND e.host IN (?3,?4) AND e.trace_id = ?5 AND \
         json_extract(e.labels_json, ?6) = ?7 AND (e.ts < ?8 OR (e.ts = ?8 AND e.id < ?9)) AND \
         log_events_fts MATCH ?10"
    );
    assert_eq!(
        binds,
        vec![
            "2024-05-01T00:00:00Z",
            "2024-05-02T00:00:00Z",
            "a",
            "b",
            "t1",
            "$.app",
            "api",
            "2024-05-01T09:00:00+00:00",
            "01A",
            "\"timeout\""
        ]
    );
    let (sql, binds) = build_where(&Filters::default(), &None, Some("   "), None);
    assert_eq!(sql, "WHERE 1=1");
    assert!(binds.is_empty());
}

#[test]
fn time_window_prefers_explicit_bounds() {
    let f = Filters { since: Some("1h".to_string()), ..Default::default() };
    assert_eq!(window_from(&f, NOW).unwrap(), Some("2024-05-01T09:00:00+00:00".to_string()));
    let f = Filters { since: Some(" 15m ".to_string()), ..Default::default() };
    assert_eq!(window_from(&f, NOW).unwrap(), Some("2024-05-01T09:45:00+00:00".to_string()));
    let f = Filters { since: Some("7d".to_string()), ..Default::default() };
    assert_eq!(window_from(&f, NOW).unwrap(), Some("2024-04-24T10:00:00+00:00".to_string()));
    let f = Filters { last_minutes: Some(30), ..Default::default() };
    assert_eq!(window_from(&f, NOW).unwrap(), Some("2024-05-01T09:30:00+00:00".to_string()));
    // No time at all: the last hour.
    assert_eq!(
        window_from(&Filters::default(), NOW).unwrap(),
        Some("2024-05-01T09:00:00+00:00".to_string())
    );
    // An explicit ts_from wins over since.
    let f = Filters {
        ts_from: Some("2024-01-01T00:00:00Z".to_string()),
        since: Some("1h".to_string()),
        ..Default::default()
    };
    assert_eq!(window_from(&f, NOW).unwrap(), Some("2024-01-01T00:00:00Z".to_string()));
    // Only an upper bound: no lower bound.
    let f = Filters { ts_to: Some("2024-01-01T00:00:00Z".to_string()), ..Default::default() };
    assert_eq!(window_from(&f, NOW).unwrap(), None);
}

#[test]
fn unreadable_windows_are_bad_requests() {
    for s in ["1w", "h", "", "-1h", "1.5h", "99999999999999999999d"] {
        let f = Filters { since: Some(s.to_string()), ..Default::default() };
        assert_eq!(bad_request(window_from(&f, NOW)), "invalid time window");
    }
    let f = Filters { last_minutes: Some(u64::MAX), ..Default::default() };
    assert_eq!(bad_request(window_from(&f, NOW)), "invalid time window");
}

#[test]
fn limits_are_clamped() {
    assert_eq!(clamp_limit(None), 25);
    assert_eq!(clamp_limit(Some(0)), 1);
    assert_eq!(clamp_limit(Some(50)), 50);
    assert_eq!(clamp_limit(Some(10_000)), 200);
}

#[test]
fn search_plan_uses_the_index_only_for_keywords() {
    let req = SearchRequest {
        filters: Some(Filters { since: Some("1h".to_string()), ..Default::default() }),
        text: Some("timeout".to_string()),
        limit: Some(10),
        ..Default::default()
    };
    let plan = search_plan(&req, NOW).unwrap();
    assert_eq!(plan.limit, 10);
    assert_eq!(plan.fetch, 11);
    assert_eq!(
        plan.sql,
        format!(
            "{SEARCH_FTS_HEAD}WHERE e.ts >= ?1 AND log_events_fts MATCH ?2{SEARCH_TAIL}?3"
        )
    );
    assert_eq!(plan.binds, vec!["2024-05-01T09:00:00+00:00", "\"timeout\""]);

    let req = SearchRequest { text: Some("!!!".to_string()), ..Default::default() };
    let plan = search_plan(&req, NOW).unwrap();
    assert_eq!(plan.limit, 25);
    assert_eq!(plan.sql, format!("{SEARCH_PLAIN_HEAD}WHERE e.ts >= ?1{SEARCH_TAIL}?2"));
}

#[test]
fn search_plan_reports_bad_input() {
    let req = SearchRequest { cursor: Some("***".to_string()), ..Default::default() };
    assert_eq!(bad_request(search_plan(&req, NOW)), "invalid cursor");
    let req = SearchRequest {
        filters: Some(Filters { since: Some("soon".to_string()), ..Default::default() }),
        ..Default::default()
    };
    assert_eq!(bad_request(search_plan(&req, NOW)), "invalid time window");
    // A bad cursor is reported first.
    let req = SearchRequest {
        filters: Some(Filters { since: Some("soon".to_string()), ..Default::default() }),
        cursor: Some("***".to_string()),
        ..Default::default()
    };
    assert_eq!(bad_request(search_plan(&req, NOW)), "invalid cursor");
}

#[test]
fn next_page_starts_after_the_last_row() {
    let keys = vec![
        cursor("2024-05-01T10:00:03+00:00", "c"),
        cursor("2024-05-01T10:00:02+00:00", "b"),
        cursor("2024-05-01T10:00:01+00:00", "a"),
    ];
    let (n, next) = paginate(&keys, 2);
    assert_eq!(n, 2);
    let next = next.unwrap();
    let c = decode_cursor(&next).unwrap();
    assert_eq!((c.ts.as_str(), c.id.as_str()), ("2024-05-01T10:00:02+00:00", "b"));
    let req = SearchRequest { cursor: Some(next), limit: Some(2), ..Default::default() };
    let plan = search_plan(&req, NOW).unwrap();
    assert_eq!(
        plan.binds,
        vec!["2024-05-01T09:00:00+00:00", "2024-05-01T10:00:02+00:00", "b"]
    );
    assert_eq!(paginate(&keys, 3), (3, None));
    assert_eq!(paginate(&keys, 5), (3, None));
}

#[test]
fn empty_results_carry_a_hint() {
    assert_eq!(search_hint(0), Some(EMPTY_SEARCH_HINT));
    assert_eq!(search_hint(1), None);
}

#[test]
fn field_selection_keeps_the_listed_fields() {
    assert_eq!(selected_fields(false, None).len(), 15);
    assert_eq!(selected_fields(true, None).last(), Some(&"raw"));
    let sel = vec!["message".to_string(), "ts".to_string(), "raw".to_string(), "nope".to_string()];
    assert_eq!(selected_fields(false, Some(&sel)), vec!["ts", "message"]);
    assert_eq!(selected_fields(true, Some(&sel)), vec!["ts", "message", "raw"]);
}

#[test]
fn facets_count_five_dimensions() {
    let (qs, binds) = facet_queries(&Filters::default(), NOW).unwrap();
    let dims: Vec<&str> = qs.iter().map(|q| q.dim).collect();
    assert_eq!(dims, vec!["host", "container_name", "image", "stream", "agent_id"]);
    assert_eq!(
        qs[0].sql,
        "SELECT coalesce(host, '') AS k, COUNT(*) AS c FROM log_events e WHERE e.ts >= ?1 \
         GROUP BY k ORDER BY c DESC LIMIT 50"
    );
    assert_eq!(binds, vec!["2024-05-01T09:00:00+00:00"]);
    assert_eq!(facet_sql("image", "WHERE 1=1"), "SELECT coalesce(image, '') AS k, COUNT(*) AS c FROM log_events e WHERE 1=1 GROUP BY k ORDER BY c DESC LIMIT 50");
    let f = Filters { since: Some("x".to_string()), ..Default::default() };
    assert_eq!(bad_request(facet_queries(&f, NOW)), "invalid time window");
}

#[test]
fn semantic_queries() {
    assert_eq!(
        embedding_lookup_sql(3),
        "SELECT event_id, embedding FROM log_embeddings WHERE event_id IN (?1,?2,?3)"
    );
    let (sql, binds) = semantic_neighbors_query(&Filters::default(), NOW).unwrap();
    assert_eq!(sql, format!("{NEIGHBORS_HEAD}WHERE e.ts >= ?1{NEIGHBORS_TAIL}"));
    assert_eq!(binds, vec!["2024-05-01T09:00:00+00:00"]);
}

#[test]
fn context_is_anchored_on_the_most_specific_column() {
    assert_eq!(context_window(None), 20);
    assert_eq!(context_window(Some(5)), 5);
    assert_eq!(context_window(Some(1000)), 100);
    assert_eq!(
        context_anchor(Some("t1"), Some("api"), Some("h")),
        (ContextColumn::TraceId, "t1".to_string())
    );
    assert_eq!(
        context_anchor(Some(""), Some("api"), Some("h")),
        (ContextColumn::ContainerName, "api".to_string())
    );
    assert_eq!(context_anchor(None, None, Some("h")), (ContextColumn::Host, "h".to_string()));
    assert_eq!(context_anchor(None, None, None), (ContextColumn::Host, String::new()));
    assert_eq!(
        context_sql(ContextColumn::TraceId, true),
        "SELECT id, ts, host, container_name, stream, message FROM log_events WHERE trace_id = ?1 \
         AND ts <= ?2 AND id != ?3 ORDER BY ts DESC, id DESC LIMIT ?4"
    );
    assert_eq!(
        context_sql(ContextColumn::Host, false),
        "SELECT id, ts, host, container_name, stream, message FROM log_events WHERE host = ?1 \
         AND ts >= ?2 AND id != ?3 ORDER BY ts ASC, id ASC LIMIT ?4"
    );
}

#[test]
fn agent_status_follows_last_contact() {
    assert_eq!(agent_status(None, NOW, 0), "never");
    assert_eq!(agent_status(Some("garbage"), NOW, 0), "unknown");
    assert_eq!(agent_status(Some("2024-05-01T09:59:00Z"), NOW, 0), "online");
    assert_eq!(agent_status(Some("2024-05-01T09:58:00Z"), NOW, 0), "stale");
    assert_eq!(agent_status(Some("2024-05-01T09:45:01Z"), NOW, 0), "stale");
    assert_eq!(agent_status(Some("2024-05-01T09:45:00Z"), NOW, 0), "offline");
    assert_eq!(agent_status(Some("2024-05-01T11:58:30+02:00"), NOW, 0), "online");
    assert_eq!(agent_host(true, "web-1", Some("vec-host")), "web-1");
    assert_eq!(agent_host(false, "web-1", Some("vec-host")), "vec-host");
    assert_eq!(agent_host(false, "web-1", None), "unknown");
}

#[test]
fn repeated_label_keys_count_once_with_the_last_value() {
    let f = Filters {
        label_equals: Some(vec![
            ("app".to_string(), "web".to_string()),
            ("env".to_string(), "prod".to_string()),
            ("app".to_string(), "api".to_string()),
        ]),
        ..Default::default()
    };
    let (sql, binds) = build_where(&f, &None, None, None);
    assert_eq!(
        sql,
        "WHERE json_extract(e.labels_json, ?1) = ?2 AND json_extract(e.labels_json, ?3) = ?4"
    );
    assert_eq!(binds, vec!["$.env", "prod", "$.app", "api"]);
}

#[test]
fn empty_lists_filter_nothing() {
    let f = Filters {
        hosts: Some(vec![]),
        containers: Some(vec![]),
        label_equals: Some(vec![]),
        ..Default::default()
    };
    let (sql, binds) = build_where(&f, &None, Some("  !! "), None);
    assert_eq!(sql, "WHERE 1=1");
    assert!(binds.is_empty());
}
