use logdb::settings::{
    load_settings, persist_settings, retention_batch, retention_cutoff, retention_policy, seed_settings,
    RuntimeSettings, SettingDefaults, StoredSettings,
};

fn defaults() -> SettingDefaults {
    SettingDefaults {
        retention_days: 14,
        max_events: None,
        write_queue_capacity: 4096,
        max_body_bytes: 10 * 1024 * 1024,
        public_base_url: "http://localhost:8080".to_string(),
        embeddings_base_url: None,
        embeddings_model: None,
        embeddings_api_key: None,
        embedding_dim: 384,
    }
}

#[test]
fn stored_values_override_defaults() {
    let stored = StoredSettings {
        retention_days: Some("30".to_string()),
        max_events: Some("1000000".to_string()),
        write_queue_capacity: Some("0".to_string()),
        max_body_bytes: Some("12".to_string()),
        public_base_url: Some("   ".to_string()),
        embeddings_base_url: Some("  http://emb:11434/v1  ".to_string()),
        embeddings_model: Some("".to_string()),
        embeddings_api_key: None,
        embedding_dim: Some("oops".to_string()),
    };
    let r = load_settings(&stored, &defaults());
    assert_eq!(r.retention_days, 30);
    assert_eq!(r.max_events, Some(1_000_000));
    assert_eq!(r.write_queue_capacity, 1);
    assert_eq!(r.max_body_bytes, 1024);
    assert_eq!(r.public_base_url, "http://localhost:8080");
    assert_eq!(r.embeddings_base_url.as_deref(), Some("http://emb:11434/v1"));
    assert_eq!(r.embeddings_model, None);
    assert_eq!(r.embedding_dim, 384);
    assert!(!r.embeddings_enabled());
}

#[test]
fn nothing_stored_loads_the_defaults() {
    let r = load_settings(&StoredSettings::default(), &defaults());
    assert_eq!(r.retention_days, 14);
    assert_eq!(r.max_events, None);
    assert_eq!(r.write_queue_capacity, 4096);
    assert_eq!(r.max_body_bytes, 10 * 1024 * 1024);
    assert_eq!(r.embedding_dim, 384);
}

#[test]
fn persisted_settings_load_back() {
    let s = RuntimeSettings {
        retention_days: 7,
        max_events: Some(500),
        write_queue_capacity: 64,
        max_body_bytes: 2048,
        public_base_url: "https://logs.example.com".to_string(),
        embeddings_base_url: Some("http://emb/v1".to_string()),
        embeddings_model: Some("nomic".to_string()),
        embeddings_api_key: None,
        embedding_dim: 768,
    };
    let st = persist_settings(&s);
    assert_eq!(st.retention_days.as_deref(), Some("7"));
    assert_eq!(st.max_events.as_deref(), Some("500"));
    assert_eq!(st.embeddings_api_key, None);
    let r = load_settings(&st, &defaults());
    assert_eq!(r.retention_days, s.retention_days);
    assert_eq!(r.max_events, s.max_events);
    assert_eq!(r.write_queue_capacity, s.write_queue_capacity);
    assert_eq!(r.max_body_bytes, s.max_body_bytes);
    assert_eq!(r.public_base_url, s.public_base_url);
    assert_eq!(r.embeddings_base_url, s.embeddings_base_url);
    assert_eq!(r.embeddings_model, s.embeddings_model);
    assert_eq!(r.embeddings_api_key, s.embeddings_api_key);
    assert_eq!(r.embedding_dim, s.embedding_dim);
    assert!(r.embeddings_enabled());
}

#[test]
fn seeding_writes_every_default() {
    let st = seed_settings(&defaults());
    assert_eq!(st.retention_days.as_deref(), Some("14"));
    assert_eq!(st.max_events, None);
    assert_eq!(st.write_queue_capacity.as_deref(), Some("4096"));
    assert_eq!(st.public_base_url.as_deref(), Some("http://localhost:8080"));
    assert_eq!(st.embedding_dim.as_deref(), Some("384"));
}

#[test]
fn retention_reads_days_and_cap() {
    assert_eq!(retention_policy(&None, &None), (14, None));
    assert_eq!(retention_policy(&Some("3".to_string()), &Some("100".to_string())), (3, Some(100)));
    assert_eq!(retention_policy(&Some("x".to_string()), &Some("-1".to_string())), (14, None));
    assert_eq!(retention_batch(120, Some(100)), Some(20));
    assert_eq!(retention_batch(100, Some(100)), None);
    assert_eq!(retention_batch(1_000_000, Some(10)), Some(5000));
    assert_eq!(retention_batch(1_000_000, None), None);
    // A cap beyond i64 reads as negative, as the count is compared in i64.
    assert_eq!(retention_batch(3, Some(u64::MAX)), Some(4));
}

#[test]
fn retention_cutoff_is_days_before_now() {
    // 2024-05-01T10:00:00Z
    assert_eq!(
        retention_cutoff(14, 1714557600, 0).as_deref(),
        Some("2024-04-17T10:00:00+00:00")
    );
    assert_eq!(
        retention_cutoff(0, 1714557600, 500_000_000).as_deref(),
        Some("2024-05-01T10:00:00.500+00:00")
    );
    assert_eq!(retention_cutoff(1, i64::MIN, 0), None);
}
