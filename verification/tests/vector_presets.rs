use logdb::vector_presets::{
    docker_yaml, files_yaml, http_sink, linux_yaml, macos_yaml, normalize_platform, preset_yaml,
    presets, vector_agent_bundle, windows_yaml,
};

#[test]
fn normalize_falls_back_to_docker() {
    assert_eq!(normalize_platform(None), "docker");
    assert_eq!(normalize_platform(Some("nope")), "docker");
    assert_eq!(normalize_platform(Some("Windows")), "windows");
}

#[test]
fn bundle_includes_all_presets() {
    let v = vector_agent_bundle("http://example:8080", "lk_test", Some("linux"));
    assert_eq!(v.platform, "linux");
    assert!(v.yaml.contains("journald"));
    assert_eq!(v.presets.len(), presets().len());
    assert!(v.yaml.contains("http://example:8080/v1/logs"));
}

#[test]
fn every_preset_id_normalises_to_itself() {
    let ps = presets();
    assert_eq!(ps.len(), 5);
    for p in &ps {
        assert_eq!(normalize_platform(Some(p.id)), p.id);
        assert_eq!(normalize_platform(Some(&p.id.to_uppercase())), p.id);
    }
}

#[test]
fn preset_yaml_selects_by_platform() {
    let (u, h, t) = ("http://h/v1/logs", "http://h/v1/ingest/health", "lk_abc");
    assert_eq!(preset_yaml("docker", u, h, t), docker_yaml(u, h, t));
    assert_eq!(preset_yaml("linux", u, h, t), linux_yaml(u, h, t));
    assert_eq!(preset_yaml("windows", u, h, t), windows_yaml(u, h, t));
    assert_eq!(preset_yaml("macos", u, h, t), macos_yaml(u, h, t));
    assert_eq!(preset_yaml("files", u, h, t), files_yaml(u, h, t));
    assert_eq!(preset_yaml("other", u, h, t), docker_yaml(u, h, t));
    let sink = http_sink("normalize", u, h, "${INGEST_TOKEN}");
    assert!(sink.contains("normalize"));
    assert!(sink.contains(u));
    assert!(docker_yaml(u, h, t).contains(&sink));
    assert!(!docker_yaml(u, h, t).contains(t));
}

#[test]
fn windows_preset_inlines_the_token() {
    let v = vector_agent_bundle("http://c:8080", "lk_abc", Some("windows"));
    assert!(v.yaml.contains("token: \"lk_abc\""));
    assert!(!v.yaml.contains("${INGEST_TOKEN}"));
    let d = vector_agent_bundle("http://c:8080", "lk_abc", Some("docker"));
    assert!(!d.yaml.contains("lk_abc"));
    assert!(d.yaml.contains("${INGEST_TOKEN}"));
}

#[test]
fn every_preset_has_a_heartbeat() {
    let v = vector_agent_bundle("http://c:8080/", "lk_abc", None);
    for p in &v.presets {
        let y = &p.yaml;
        let hb = y.find("  heartbeat:\n    type: http_client\n    endpoint: http://c:8080/v1/ingest/health\n    scrape_interval_secs: 30\n").expect("heartbeat");
        let sources = y.find("sources:").unwrap();
        let transforms = y.find("\ntransforms:").unwrap();
        assert!(sources < hb && hb < transforms, "{}", p.id);
    }
}

#[test]
fn bundle_uses_the_trimmed_base_url() {
    let v = vector_agent_bundle("http://example:8080/", "lk_test", None);
    assert_eq!(v.platform, "docker");
    assert!(v.yaml.contains("http://example:8080/v1/logs"));
    assert!(!v.yaml.contains("8080//v1"));
}
