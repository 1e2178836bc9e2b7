use plaxo_otp::crypto::VaultKey;
use plaxo_otp::google_drive::GoogleDriveAuth;
use plaxo_otp::state::AppState;
use plaxo_otp::types::OtpApp;

fn app(id: &str, name: &str) -> OtpApp {
    OtpApp { id: id.to_string(), name: name.to_string(), secret: "JBSWY3DPEHPK3PXP".to_string() }
}

#[test]
fn new_state_is_locked_and_empty() {
    let state = AppState::new();
    assert!(!state.has_master_password());
    assert!(state.get_apps().is_empty());
    assert!(state.get_encryption_key().is_none());
    assert!(state.get_google_auth().is_none());
    assert!(!state.is_syncing());
}

#[test]
fn lookup_finds_the_first_app_with_the_id() {
    let mut state = AppState::new();
    state.add_app(app("1", "first"));
    state.add_app(app("2", "second"));
    state.add_app(app("1", "duplicate"));
    assert_eq!(state.get_app_by_id("1").unwrap().name, "first");
    assert_eq!(state.get_app_by_id("2").unwrap().name, "second");
    assert!(state.get_app_by_id("3").is_none());
}

#[test]
fn remove_drops_every_app_with_the_id() {
    let mut state = AppState::new();
    state.add_app(app("1", "a"));
    state.add_app(app("2", "b"));
    state.add_app(app("1", "c"));
    assert!(state.remove_app("1"));
    let left = state.get_apps();
    assert_eq!(left.len(), 1);
    assert_eq!(left[0].id, "2");
    assert!(!state.remove_app("1"));
    assert_eq!(state.get_apps().len(), 1);
}

#[test]
fn rename_changes_only_the_first_match() {
    let mut state = AppState::new();
    state.add_app(app("1", "a"));
    state.add_app(app("1", "b"));
    assert!(state.update_app_name("1", "renamed".to_string()));
    let apps = state.get_apps();
    assert_eq!(apps[0].name, "renamed");
    assert_eq!(apps[1].name, "b");
    assert_eq!(state.get_app_by_id("1").unwrap().name, "renamed");
    assert!(!state.update_app_name("9", "x".to_string()));
}

#[test]
fn key_unlocks_and_clear_locks() {
    let mut state = AppState::new();
    let key = VaultKey::derive("pw", [1u8; 16]).unwrap();
    state.set_encryption_key(key);
    assert!(state.has_master_password());
    assert_eq!(state.get_encryption_key().unwrap().salt(), [1u8; 16]);
    state.add_app(app("1", "a"));
    state.set_google_auth(Some(GoogleDriveAuth {
        access_token: "t".to_string(),
        refresh_token: "r".to_string(),
        expires_at: 5,
    }));
    state.set_syncing(true);
    state.clear_all();
    assert!(!state.has_master_password());
    assert!(state.get_encryption_key().is_none());
    assert!(state.get_apps().is_empty());
    assert!(state.get_google_auth().is_none());
    assert!(state.is_syncing());
}

#[test]
fn set_apps_replaces_the_list() {
    let mut state = AppState::new();
    state.add_app(app("1", "a"));
    state.set_apps(vec![app("7", "x"), app("8", "y")]);
    let apps = state.get_apps();
    assert_eq!(apps.len(), 2);
    assert_eq!(apps[0].id, "7");
    assert_eq!(apps[1].id, "8");
}

#[test]
fn master_password_is_present_exactly_while_a_key_is_held() {
    let mut state = AppState::new();
    assert_eq!(state.has_master_password(), state.get_encryption_key().is_some());
    state.set_encryption_key(VaultKey::derive("pw", [1u8; 16]).unwrap());
    assert!(state.has_master_password());
    assert!(state.get_encryption_key().is_some());
    state.set_encryption_key(VaultKey::derive("other", [2u8; 16]).unwrap());
    assert_eq!(state.get_encryption_key().unwrap().salt(), [2u8; 16]);
    state.clear_all();
    assert!(!state.has_master_password());
    assert!(state.get_encryption_key().is_none());
}
