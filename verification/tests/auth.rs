use voquill::auth::{
    built_in_url, classify_refresh_failure, mint_failure, navigation_script, parse_expires_in, parse_i64_decimal,
    read_flavor_value, sign_in_failure, signed_in_decision, AuthSessionError, FirebaseConfig, FlavorSettings,
    SessionTokens, SignedInCheck, SignedInDecision,
};

fn settings(api_key: Option<&str>, project_id: Option<&str>, flavor: Option<&str>, emulators: Option<&str>) -> FlavorSettings {
    FlavorSettings {
        api_key: api_key.map(|s| s.to_string()),
        project_id: project_id.map(|s| s.to_string()),
        flavor: flavor.map(|s| s.to_string()),
        use_emulators: emulators.map(|s| s.to_string()),
    }
}

#[test]
fn error_messages_name_their_kind() {
    assert_eq!(AuthSessionError::MissingConfig("VITE_FIREBASE_API_KEY".to_string()).to_user_string(), "missing firebase configuration: VITE_FIREBASE_API_KEY");
    assert_eq!(AuthSessionError::NotSignedIn.to_user_string(), "not signed in");
    assert_eq!(AuthSessionError::Network("down".to_string()).to_user_string(), "network error: down");
    assert_eq!(AuthSessionError::Firebase("no".to_string()).to_user_string(), "firebase error: no");
    assert_eq!(AuthSessionError::Io("disk".to_string()).to_user_string(), "io error: disk");
    assert_eq!(AuthSessionError::Crypto("key".to_string()).to_user_string(), "crypto error: key");
    assert_eq!(AuthSessionError::Serde("json".to_string()).to_user_string(), "serde error: json");
}

#[test]
fn flavor_value_prefers_compile_time_and_trims() {
    assert_eq!(read_flavor_value(Some("  abc "), Some("xyz")), Some("abc".to_string()));
    assert_eq!(read_flavor_value(Some("   "), Some(" xyz")), Some("xyz".to_string()));
    assert_eq!(read_flavor_value(None, Some("")), None);
    assert_eq!(read_flavor_value(None, None), None);
}

#[test]
fn firebase_config_requires_key_and_project() {
    match FirebaseConfig::from_env(settings(None, Some("p"), None, None)) {
        Err(AuthSessionError::MissingConfig(k)) => assert_eq!(k, "VITE_FIREBASE_API_KEY"),
        _ => panic!("expected a missing key"),
    }
    match FirebaseConfig::from_env(settings(Some("k"), None, None, None)) {
        Err(AuthSessionError::MissingConfig(k)) => assert_eq!(k, "VITE_FIREBASE_PROJECT_ID"),
        _ => panic!("expected a missing project"),
    }
}

#[test]
fn firebase_config_emulator_flag() {
    let dev_on = FirebaseConfig::from_env(settings(Some("k"), Some("p"), None, Some(" TRUE "))).ok().unwrap();
    assert!(dev_on.use_emulators);
    let dev_off = FirebaseConfig::from_env(settings(Some("k"), Some("p"), Some("dev"), Some("no"))).ok().unwrap();
    assert!(!dev_off.use_emulators);
    let emu = FirebaseConfig::from_env(settings(Some("k"), Some("p"), Some("emulators"), None)).ok().unwrap();
    assert!(emu.use_emulators);
    let prod = FirebaseConfig::from_env(settings(Some("k"), Some("p"), Some("prod"), Some("true"))).ok().unwrap();
    assert!(!prod.use_emulators);
    assert_eq!(prod.api_key, "k");
    assert_eq!(prod.project_id, "p");
}

#[test]
fn firebase_endpoints() {
    let prod = FirebaseConfig { api_key: "KEY".to_string(), project_id: "proj".to_string(), use_emulators: false };
    assert_eq!(prod.identity_toolkit_base(), "https://identitytoolkit.googleapis.com/v1");
    assert_eq!(prod.secure_token_base(), "https://securetoken.googleapis.com/v1");
    assert_eq!(prod.functions_handler_url(), "https://us-central1-proj.cloudfunctions.net/handler");
    assert_eq!(prod.refresh_url(), "https://securetoken.googleapis.com/v1/token?key=KEY");
    assert_eq!(prod.sign_in_url(), "https://identitytoolkit.googleapis.com/v1/accounts:signInWithCustomToken?key=KEY");
    let emu = FirebaseConfig { api_key: "KEY".to_string(), project_id: "proj".to_string(), use_emulators: true };
    assert_eq!(emu.identity_toolkit_base(), "http://localhost:9099/identitytoolkit.googleapis.com/v1");
    assert_eq!(emu.secure_token_base(), "http://localhost:9099/securetoken.googleapis.com/v1");
    assert_eq!(emu.functions_handler_url(), "http://localhost:5001/proj/us-central1/handler");
}

#[test]
fn parse_i64_like_std() {
    assert_eq!(parse_i64_decimal("42"), Some(42));
    assert_eq!(parse_i64_decimal("+7"), Some(7));
    assert_eq!(parse_i64_decimal("-9223372036854775808"), Some(i64::MIN));
    assert_eq!(parse_i64_decimal("9223372036854775807"), Some(i64::MAX));
    assert_eq!(parse_i64_decimal("9223372036854775808"), None);
    assert_eq!(parse_i64_decimal(""), None);
    assert_eq!(parse_i64_decimal("-"), None);
    assert_eq!(parse_i64_decimal(" 1"), None);
    assert_eq!(parse_i64_decimal("12a"), None);
    for s in ["0", "-1", "+15", "123456789", "1_0", "0x10", "--1"] {
        assert_eq!(parse_i64_decimal(s), s.parse::<i64>().ok(), "{s}");
    }
}

#[test]
fn expires_in_defaults_to_an_hour() {
    assert_eq!(parse_expires_in("120"), 120);
    assert_eq!(parse_expires_in("soon"), 3600);
}

#[test]
fn new_token_is_fresh_and_expires_with_skew() {
    let mut tokens = SessionTokens::signed_out();
    assert!(tokens.cached_id_token(0).is_none());
    assert!(matches!(tokens.refresh_token_for_request(), Err(AuthSessionError::NotSignedIn)));
    tokens.record_sign_in("refresh".to_string(), "id".to_string(), "3600", 1000);
    assert_eq!(tokens.cached_id_token(1000), Some("id".to_string()));
    assert_eq!(tokens.cached_id_token(4569), Some("id".to_string()));
    assert_eq!(tokens.cached_id_token(4570), None);
    assert_eq!(tokens.refresh_token_for_request().ok(), Some("refresh".to_string()));
}

#[test]
fn cleared_session_is_signed_out() {
    let mut tokens = SessionTokens::signed_out();
    tokens.record_sign_in("refresh".to_string(), "id".to_string(), "3600", 0);
    tokens.clear();
    assert!(tokens.cached_id_token(0).is_none());
    assert!(matches!(tokens.refresh_token_for_request(), Err(AuthSessionError::NotSignedIn)));
}

#[test]
fn refresh_keeps_or_replaces_refresh_token() {
    let mut tokens = SessionTokens::signed_out();
    tokens.record_sign_in("r1".to_string(), "id1".to_string(), "60", 0);
    assert_eq!(tokens.refresh_token_to_persist("r1", &None), None);
    assert_eq!(tokens.refresh_token_to_persist("r1", &Some("r2".to_string())), Some("r2".to_string()));
    tokens.record_refresh("r1", "id2".to_string(), None, "bad", 100);
    assert_eq!(tokens.refresh_token_for_request().ok(), Some("r1".to_string()));
    assert_eq!(tokens.cached_id_token(100), Some("id2".to_string()));
    assert_eq!(tokens.cached_id_token(3670), None);
    tokens.record_refresh("r1", "id3".to_string(), Some("r3".to_string()), "60", 200);
    assert_eq!(tokens.refresh_token_for_request().ok(), Some("r3".to_string()));
}

#[test]
fn refresh_failures_are_classified() {
    for code in [400u16, 401, 403] {
        match classify_refresh_failure(code, "401 Unauthorized", "body") {
            AuthSessionError::Firebase(m) => assert_eq!(m, "refresh rejected (401 Unauthorized): body"),
            _ => panic!("expected a firebase error"),
        }
    }
    match classify_refresh_failure(500, "500 Internal Server Error", "oops") {
        AuthSessionError::Network(m) => assert_eq!(m, "refresh failed (500 Internal Server Error): oops"),
        _ => panic!("expected a network error"),
    }
    match sign_in_failure("400 Bad Request", "x") {
        AuthSessionError::Firebase(m) => assert_eq!(m, "signInWithCustomToken failed (400 Bad Request): x"),
        _ => panic!("expected a firebase error"),
    }
    match mint_failure("403 Forbidden", "y") {
        AuthSessionError::Firebase(m) => assert_eq!(m, "mintCustomToken failed (403 Forbidden): y"),
        _ => panic!("expected a firebase error"),
    }
}

#[test]
fn signed_in_decision_clears_refused_sessions() {
    assert!(matches!(signed_in_decision(Ok(())), SignedInDecision::SignedIn));
    assert!(matches!(signed_in_decision(Err(AuthSessionError::NotSignedIn)), SignedInDecision::ClearAndSignOut));
    assert!(matches!(signed_in_decision(Err(AuthSessionError::Firebase("x".to_string()))), SignedInDecision::ClearAndSignOut));
    assert!(matches!(signed_in_decision(Err(AuthSessionError::Network("x".to_string()))), SignedInDecision::Fail(AuthSessionError::Network(_))));
}

#[test]
fn built_in_url_parses_the_bundled_page() {
    assert_eq!(built_in_url(Some("http://localhost:1420".to_string()), false), Ok("http://localhost:1420".to_string()));
    assert_eq!(built_in_url(None, false), Ok("tauri://localhost/index.html".to_string()));
    assert_eq!(built_in_url(None, true), Ok("http://tauri.localhost/index.html".to_string()));
}

#[test]
fn navigation_script_quotes_the_url() {
    assert_eq!(navigation_script(&"https://a.b/c?d=\"e\"".to_string()), "window.location.replace(\"https://a.b/c?d=\\\"e\\\"\");");
    assert_eq!(navigation_script(&"x\ny\u{1}".to_string()), "window.location.replace(\"x\\ny\\u0001\");");
}

#[test]
fn sign_in_check_without_session_makes_no_request() {
    let tokens = SessionTokens::signed_out();
    assert_eq!(tokens.signed_in_check(), SignedInCheck::NoSession);
    assert!(tokens.refresh_token.is_none());
    let mut tokens = SessionTokens::signed_out();
    tokens.record_sign_in("refresh".to_string(), "id".to_string(), "3600", 1000);
    assert_eq!(tokens.signed_in_check(), SignedInCheck::Refresh);
}
