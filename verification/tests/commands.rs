use plaxo_otp::commands::{
    add_app, callback_outcome, delete_app, edit_app_name, generate_otp, has_master_password,
    import_2fas_file, merge_cloud_apps, parse_callback_query, require_encryption_key,
    unlock_vault, cloud_sync_action, CallbackOutcome, QueryParam, SyncAction, UnlockStep,
};
use plaxo_otp::crypto::{encrypt_data, VaultKey};
use plaxo_otp::state::AppState;
use plaxo_otp::types::{AppError, OtpApp};

fn app(id: &str, name: &str) -> OtpApp {
    OtpApp { id: id.to_string(), name: name.to_string(), secret: "JBSWY3DPEHPK3PXP".to_string() }
}

fn pairs(params: &[QueryParam]) -> Vec<(String, String)> {
    params.iter().map(|p| (p.key.clone(), p.value.clone())).collect()
}

#[test]
fn vault_exists_when_unlocked_or_on_disk() {
    let mut state = AppState::new();
    assert!(!has_master_password(&state, false));
    assert!(has_master_password(&state, true));
    state.set_encryption_key(VaultKey::derive("pw", [0u8; 16]).unwrap());
    assert!(has_master_password(&state, false));
}

#[test]
fn add_app_trims_and_uppercases() {
    let mut state = AppState::new();
    add_app("  My App ", " jbswy3dpehpk3pxp ", &mut state).unwrap();
    let apps = state.get_apps();
    assert_eq!(apps.len(), 1);
    assert_eq!(apps[0].name, "My App");
    assert_eq!(apps[0].secret, "JBSWY3DPEHPK3PXP");
    assert_eq!(apps[0].id.len(), 36);
}

#[test]
fn add_app_rejections() {
    let mut state = AppState::new();
    match add_app("   ", "JBSWY3DPEHPK3PXP", &mut state) {
        Err(AppError::InvalidSecret(m)) => assert_eq!(m, "App name cannot be empty"),
        other => panic!("unexpected: {:?}", other),
    }
    match add_app("App", " ", &mut state) {
        Err(AppError::InvalidSecret(m)) => assert_eq!(m, "Secret cannot be empty"),
        other => panic!("unexpected: {:?}", other),
    }
    assert!(add_app("App", "SHORT", &mut state).is_err());
    assert!(state.get_apps().is_empty());
}

#[test]
fn edit_and_delete_report_missing_apps() {
    let mut state = AppState::new();
    state.add_app(app("1", "a"));
    assert!(matches!(edit_app_name("2", "x".to_string(), &mut state), Err(AppError::AppNotFound)));
    edit_app_name("1", "b".to_string(), &mut state).unwrap();
    assert_eq!(state.get_apps()[0].name, "b");
    assert!(matches!(delete_app("2", &mut state), Err(AppError::AppNotFound)));
    delete_app("1", &mut state).unwrap();
    assert!(state.get_apps().is_empty());
}

#[test]
fn generate_otp_needs_a_known_app() {
    let mut state = AppState::new();
    assert!(matches!(generate_otp("1", &state), Err(AppError::AppNotFound)));
    state.add_app(app("1", "a"));
    let code = generate_otp("1", &state).unwrap();
    assert_eq!(code.len(), 6);
}

#[test]
fn saving_needs_a_key() {
    let mut state = AppState::new();
    assert!(matches!(require_encryption_key(&state), Err(AppError::NoMasterPassword)));
    state.set_encryption_key(VaultKey::derive("pw", [3u8; 16]).unwrap());
    assert_eq!(require_encryption_key(&state).unwrap().salt(), [3u8; 16]);
}

#[test]
fn import_keeps_named_valid_services() {
    let mut state = AppState::new();
    state.add_app(app("0", "existing"));
    let content = r#"{"services": [
        {"name": "Good", "secret": "JBSWY3DPEHPK3PXP"},
        {"name": "Bad", "secret": "INVALID@SECRET"},
        {"secret": "JBSWY3DPEHPK3PXP"},
        {"name": 5, "secret": "JBSWY3DPEHPK3PXP"},
        {"name": "Other", "secret": "GEZDGNBVGY3TQOJQ"}
    ]}"#;
    assert_eq!(import_2fas_file(content, &mut state).unwrap(), 2);
    let apps = state.get_apps();
    assert_eq!(apps.len(), 3);
    assert_eq!(apps[0].name, "existing");
    assert_eq!(apps[1].name, "Good");
    assert_eq!(apps[2].name, "Other");
    assert_eq!(apps[2].secret, "GEZDGNBVGY3TQOJQ");
}

#[test]
fn import_rejects_bad_files() {
    let mut state = AppState::new();
    match import_2fas_file(r#"{"apps": []}"#, &mut state) {
        Err(AppError::Serialization(m)) => assert_eq!(m, "Invalid 2FAS file format"),
        other => panic!("unexpected: {:?}", other),
    }
    assert!(matches!(import_2fas_file("not json", &mut state), Err(AppError::Serialization(_))));
    assert!(state.get_apps().is_empty());
}

#[test]
fn merge_keeps_local_and_adds_new_cloud_ids() {
    let local = vec![app("1", "local"), app("2", "local2")];
    let cloud = vec![app("2", "cloud2"), app("3", "cloud3"), app("3", "again")];
    let merged = merge_cloud_apps(local, cloud);
    let ids: Vec<(&str, &str)> = merged.iter().map(|a| (a.id.as_str(), a.name.as_str())).collect();
    assert_eq!(ids, vec![("1", "local"), ("2", "local2"), ("3", "cloud3")]);
}

#[test]
fn unlock_without_a_vault_creates_one() {
    let mut state = AppState::new();
    assert!(matches!(unlock_vault("pw", None, &mut state), Ok(UnlockStep::Created)));
    assert!(state.has_master_password());
    assert!(state.get_apps().is_empty());
}

#[test]
fn unlock_uses_the_vault_salt() {
    let key = VaultKey::derive("pw", [6u8; 16]).unwrap();
    let payload = encrypt_data("[]", &key).unwrap();
    let mut state = AppState::new();
    match unlock_vault("pw", Some(&payload), &mut state) {
        Ok(UnlockStep::Load { key: k, migrate }) => {
            assert!(!migrate);
            assert_eq!(k.salt(), [6u8; 16]);
            assert_eq!(k.key_bytes(), key.key_bytes());
        }
        _ => panic!("expected a key to load with"),
    }
    assert!(!state.has_master_password());
}

#[test]
fn unlock_rejects_a_corrupt_payload() {
    let mut state = AppState::new();
    assert!(matches!(unlock_vault("pw", Some("%%%"), &mut state), Err(AppError::Encryption(_))));
}

#[test]
fn callback_query_is_split_and_decoded() {
    let params = parse_callback_query("GET /?code=4%2F0Ab&state=xyz%20q HTTP/1.1\r\nHost: localhost\r\n");
    assert_eq!(
        pairs(&params),
        vec![("code".to_string(), "4/0Ab".to_string()), ("state".to_string(), "xyz q".to_string())]
    );
    assert!(parse_callback_query("GET /favicon.ico HTTP/1.1\r\n").is_empty());
    assert!(parse_callback_query("").is_empty());
    assert!(parse_callback_query("GET").is_empty());
    assert_eq!(pairs(&parse_callback_query("GET /?a&b=&=c HTTP/1.1")), vec![
        ("b".to_string(), String::new()),
        (String::new(), "c".to_string()),
    ]);
}

#[test]
fn callback_decisions() {
    let req = |s: &str| parse_callback_query(s);
    assert!(matches!(callback_outcome(&req("GET /x HTTP/1.1"), "s1"), CallbackOutcome::NotTheRedirect));
    assert!(matches!(
        callback_outcome(&req("GET /?error=access_denied&state=s1 HTTP/1.1"), "s1"),
        CallbackOutcome::Denied(e) if e == "access_denied"
    ));
    assert!(matches!(
        callback_outcome(&req("GET /?code=c&state=other HTTP/1.1"), "s1"),
        CallbackOutcome::StateMismatch
    ));
    assert!(matches!(callback_outcome(&req("GET /?code=c HTTP/1.1"), "s1"), CallbackOutcome::StateMismatch));
    assert!(matches!(callback_outcome(&req("GET /?state=s1 HTTP/1.1"), "s1"), CallbackOutcome::MissingCode));
    assert!(matches!(
        callback_outcome(&req("GET /?code=abc&state=s1 HTTP/1.1"), "s1"),
        CallbackOutcome::Code(c) if c == "abc"
    ));
    // The last occurrence of a parameter wins, as in a map.
    assert!(matches!(
        callback_outcome(&req("GET /?state=x&code=abc&state=s1 HTTP/1.1"), "s1"),
        CallbackOutcome::Code(_)
    ));
}

#[test]
fn only_one_sync_at_a_time() {
    let mut state = AppState::new();
    assert!(plaxo_otp::commands::try_begin_sync(&mut state));
    assert!(state.is_syncing());
    assert!(!plaxo_otp::commands::try_begin_sync(&mut state));
    state.set_syncing(false);
    assert!(plaxo_otp::commands::try_begin_sync(&mut state));
}

#[test]
fn generate_otp_reports_a_stored_secret_that_has_no_code() {
    let mut state = AppState::new();
    state.add_app(OtpApp { id: "e".to_string(), name: "empty".to_string(), secret: " = ".to_string() });
    state.add_app(OtpApp { id: "b".to_string(), name: "bad".to_string(), secret: "ABC1".to_string() });
    match generate_otp("e", &state) {
        Err(AppError::InvalidSecret(m)) => assert_eq!(m, "Empty secret"),
        other => panic!("unexpected: {:?}", other),
    }
    match generate_otp("b", &state) {
        Err(AppError::InvalidSecret(m)) => assert!(m.starts_with("Invalid Base32 secret: ")),
        other => panic!("unexpected: {:?}", other),
    }
}

#[test]
fn first_sync_merges_uploads_or_does_nothing() {
    match cloud_sync_action(vec![app("1", "local")], Some(vec![app("1", "cloud"), app("2", "new")])) {
        SyncAction::Merge(apps) => {
            let ids: Vec<(&str, &str)> = apps.iter().map(|a| (a.id.as_str(), a.name.as_str())).collect();
            assert_eq!(ids, vec![("1", "local"), ("2", "new")]);
        }
        _ => panic!("expected a merge"),
    }
    match cloud_sync_action(vec![app("1", "local")], Some(vec![])) {
        SyncAction::Upload(apps) => assert_eq!(apps.len(), 1),
        _ => panic!("expected an upload"),
    }
    assert!(matches!(cloud_sync_action(vec![], Some(vec![])), SyncAction::Nothing));
    assert!(matches!(cloud_sync_action(vec![app("1", "local")], None), SyncAction::Nothing));
}

#[test]
fn malformed_escapes_in_the_callback_stay_literal() {
    let params = parse_callback_query("GET /?code=a%zz%4g%41+b%4 HTTP/1.1\r\n");
    assert_eq!(pairs(&params), vec![("code".to_string(), "a%zz%4gA+b%4".to_string())]);
}
