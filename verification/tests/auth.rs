use logdb::auth::{
    agent_connect_secret, agent_registration, authorize, bearer_token, check_admin_login,
    check_admin_password, constant_time_eq, generate_api_key, hash_api_key, hash_password,
    hash_password_with_salt, session_expiry,
    key_prefix, mcp_bearer_token, sign_cookie_value, validate_session, verify_cookie_value,
    verify_password, AgentSecretRow, ApiKeyRecord, KeyScopes, Scope, SessionState,
};
use logdb::error::AppError;

fn record(ingest: bool, query: bool) -> ApiKeyRecord {
    ApiKeyRecord {
        id: "k1".to_string(),
        name: "test".to_string(),
        key_prefix: "lk_0123456".to_string(),
        scopes: KeyScopes { ingest, query },
    }
}

#[test]
fn api_key_hash_is_hex_sha256() {
    assert_eq!(
        hash_api_key("abc"),
        "ba7816bf8f01cfea414140de5dae2223b00361a396177a9cb410ff61f20015ad"
    );
    assert_eq!(hash_api_key("abc"), hash_api_key("abc"));
    assert_ne!(hash_api_key("abc"), hash_api_key("abd"));
}

#[test]
fn generated_keys_have_the_documented_shape() {
    let a = generate_api_key().unwrap();
    let b = generate_api_key().unwrap();
    assert_eq!(a.len(), 3 + 48);
    assert!(a.starts_with("lk_"));
    assert!(a[3..].chars().all(|c| c.is_ascii_hexdigit() && !c.is_ascii_uppercase()));
    assert_ne!(a, b);
    assert_eq!(key_prefix(&a), a[..10].to_string());
    assert_eq!(key_prefix("lk_ab"), "lk_ab");
}

#[test]
fn authorize_checks_presence_then_scope() {
    assert!(matches!(authorize(None, Scope::Query), Err(AppError::Unauthorized)));
    assert!(matches!(
        authorize(Some(record(true, false)), Scope::Query),
        Err(AppError::Forbidden)
    ));
    let ok = authorize(Some(record(true, false)), Scope::Ingest).unwrap();
    assert_eq!(ok.id, "k1");
    assert!(authorize(Some(record(false, true)), Scope::Query).is_ok());
}

#[test]
fn bearer_tokens_are_trimmed_and_unquoted() {
    assert_eq!(bearer_token("Bearer abc"), Some("abc".to_string()));
    assert_eq!(bearer_token("bearer  \"abc\" "), Some("abc".to_string()));
    assert_eq!(bearer_token("Bearer 'abc'"), Some("abc".to_string()));
    assert_eq!(bearer_token("Bearer   "), None);
    assert_eq!(bearer_token("Basic abc"), None);
    assert_eq!(mcp_bearer_token("Bearer  tok "), Some("tok".to_string()));
    assert_eq!(mcp_bearer_token("Bearer "), Some(String::new()));
    assert_eq!(mcp_bearer_token("Token tok"), None);
}

#[test]
fn cookie_signature_is_hex_hmac_sha256() {
    assert_eq!(
        sign_cookie_value("key", "The quick brown fox jumps over the lazy dog").unwrap(),
        "The quick brown fox jumps over the lazy dog.f7bc83f430538424b13298e6aa6fb143ef4d59a14946175997479dbc2d1a3cd8"
    );
    assert_eq!(
        sign_cookie_value("secret", "sess123").unwrap(),
        "sess123.de7b63f1b31611194780b6b8fe1a47350303d11aee4652a002895c94f7b79959"
    );
}

#[test]
fn signed_cookies_verify_under_their_secret_only() {
    for value in ["sess123", "a.b.c", "", "01HZX0ABCDEF"] {
        let signed = sign_cookie_value("secret", value).unwrap();
        assert_eq!(verify_cookie_value("secret", &signed), Some(value.to_string()));
        assert_eq!(verify_cookie_value("other", &signed), None);
    }
    let signed = sign_cookie_value("secret", "sess123").unwrap();
    let tampered = signed.replacen("sess123", "sess124", 1);
    assert_eq!(verify_cookie_value("secret", &tampered), None);
    assert_eq!(verify_cookie_value("secret", "no-dot-here"), None);
    assert_eq!(verify_cookie_value("secret", "sess123.00"), None);
}

#[test]
fn constant_time_eq_is_equality() {
    assert!(constant_time_eq(b"abc", b"abc"));
    assert!(!constant_time_eq(b"abc", b"abd"));
    assert!(!constant_time_eq(b"abc", b"ab"));
    assert!(constant_time_eq(b"", b""));
}

#[test]
fn password_hashes_verify_the_password_they_hash() {
    let h = hash_password("hunter2").unwrap();
    assert!(h.starts_with("$argon2"));
    assert!(verify_password("hunter2", &h));
    assert!(!verify_password("hunter3", &h));
    assert!(!verify_password("hunter2", "not a phc string"));
    let h2 = hash_password("hunter2").unwrap();
    assert_ne!(h, h2);
}

#[test]
fn admin_checks_use_stored_credentials() {
    let h = hash_password("pw").unwrap();
    assert_eq!(check_admin_login(None, Some(h.clone()), "admin", "pw").unwrap(), true);
    assert_eq!(check_admin_login(None, Some(h.clone()), "root", "pw").unwrap(), false);
    assert_eq!(
        check_admin_login(Some("ops".to_string()), Some(h.clone()), "ops", "pw").unwrap(),
        true
    );
    assert_eq!(
        check_admin_login(Some("ops".to_string()), Some(h.clone()), "ops", "nope").unwrap(),
        false
    );
    match check_admin_login(None, None, "admin", "pw") {
        Err(AppError::Internal(m)) => assert_eq!(m, "admin not initialized"),
        other => panic!("unexpected {other:?}"),
    }
    assert_eq!(check_admin_password(Some(h.clone()), "pw").unwrap(), true);
    assert_eq!(check_admin_password(Some(h), "px").unwrap(), false);
    assert!(matches!(check_admin_password(None, "pw"), Err(AppError::Internal(_))));
}

#[test]
fn sessions_expire_at_their_stored_time() {
    // 2024-05-01T10:00:00Z is 1714557600 seconds after the epoch.
    let exp = Some("2024-05-01T10:00:00Z".to_string());
    assert_eq!(validate_session(None, 0, 0).unwrap(), SessionState::Missing);
    assert_eq!(validate_session(exp.clone(), 1714557599, 0).unwrap(), SessionState::Active);
    assert_eq!(validate_session(exp.clone(), 1714557600, 0).unwrap(), SessionState::Active);
    assert_eq!(validate_session(exp.clone(), 1714557600, 1).unwrap(), SessionState::Expired);
    assert_eq!(
        validate_session(Some("2024-05-01T12:00:00+02:00".to_string()), 1714557601, 0).unwrap(),
        SessionState::Expired
    );
    assert!(matches!(
        validate_session(Some("yesterday".to_string()), 0, 0),
        Err(AppError::Internal(_))
    ));
}

#[test]
fn agent_names_are_trimmed_and_bounded() {
    let r = agent_registration("  web-1 ").unwrap();
    assert_eq!(r.hostname, "web-1");
    assert_eq!(r.key_name, "agent:web-1");
    assert_eq!(r.scopes, KeyScopes { ingest: true, query: false });
    match agent_registration("   ") {
        Err(AppError::BadRequest(m)) => assert_eq!(m, "name is required"),
        other => panic!("unexpected {other:?}"),
    }
    let long = "x".repeat(129);
    match agent_registration(&long) {
        Err(AppError::BadRequest(m)) => assert_eq!(m, "name too long"),
        other => panic!("unexpected {other:?}"),
    }
    assert!(agent_registration(&"x".repeat(128)).is_ok());
    // 43 three-byte characters are 129 bytes.
    assert!(agent_registration(&"€".repeat(43)).is_err());
}

#[test]
fn connect_secrets_need_a_live_stored_key() {
    assert!(matches!(agent_connect_secret(None), Err(AppError::NotFound)));
    let row = |secret: Option<&str>, revoked: Option<&str>| AgentSecretRow {
        name: "web-1".to_string(),
        secret: secret.map(|s| s.to_string()),
        revoked_at: revoked.map(|s| s.to_string()),
    };
    assert_eq!(
        agent_connect_secret(Some(row(Some("lk_x"), None))).unwrap(),
        ("web-1".to_string(), "lk_x".to_string())
    );
    match agent_connect_secret(Some(row(Some("lk_x"), Some("2024-01-01T00:00:00Z")))) {
        Err(AppError::BadRequest(m)) => assert_eq!(m, "agent key revoked"),
        other => panic!("unexpected {other:?}"),
    }
    assert!(matches!(agent_connect_secret(Some(row(None, None))), Err(AppError::NotFound)));
    assert!(matches!(agent_connect_secret(Some(row(Some(""), None))), Err(AppError::NotFound)));
}

#[test]
fn hashing_under_a_given_salt_is_deterministic() {
    let salt = "c29tZXNhbHR2YWx1ZTE";
    let a = hash_password_with_salt("pw", salt).unwrap();
    let b = hash_password_with_salt("pw", salt).unwrap();
    assert_eq!(a, b);
    assert!(a.contains(salt));
    assert!(verify_password("pw", &a));
    assert_ne!(hash_password_with_salt("pw2", salt).unwrap(), a);
    match hash_password_with_salt("pw", "!") {
        Err(AppError::Internal(m)) => assert!(m.starts_with("hash password: ")),
        other => panic!("unexpected {other:?}"),
    }
}

#[test]
fn sessions_expire_ttl_hours_later() {
    // 2024-05-01T10:00:00Z
    assert_eq!(
        session_expiry(1714557600, 0, 24 * 7).as_deref(),
        Some("2024-05-08T10:00:00+00:00")
    );
    let exp = session_expiry(1714557600, 0, 1).unwrap();
    assert_eq!(validate_session(Some(exp.clone()), 1714557600, 0).unwrap(), SessionState::Active);
    assert_eq!(validate_session(Some(exp), 1714561201, 0).unwrap(), SessionState::Expired);
    assert_eq!(session_expiry(i64::MAX, 0, 1), None);
}
