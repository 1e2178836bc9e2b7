use plaxo_otp::storage::{backup_outcome, owner_only_mode, with_suffix, Storage};
use plaxo_otp::text::{is_blank, str_eq, trim};
use plaxo_otp::types::{AppError, OtpApp};

#[test]
fn paths_live_under_the_root() {
    let storage = Storage::with_root("/tmp/root".to_string());
    let p = storage.apps_file_path(Some("/home/u".to_string()), None).unwrap();
    assert_eq!(p, vec!["/tmp/root".to_string(), ".plaxo-otp".to_string(), "apps.enc".to_string()]);
    let g = storage.google_auth_file_path(None, None).unwrap();
    assert_eq!(g[2], "google_auth.enc");
}

#[test]
fn base_dir_falls_back_to_home_then_cwd() {
    let storage = Storage::new();
    assert_eq!(storage.base_dir(Some("/home/u".to_string()), Some("/w".to_string())).unwrap(), "/home/u");
    assert_eq!(storage.base_dir(None, Some("/w".to_string())).unwrap(), "/w");
    match storage.base_dir(None, None) {
        Err(AppError::Io(m)) => assert_eq!(m, "Could not determine home directory"),
        other => panic!("unexpected: {:?}", other),
    }
}

#[test]
fn suffixes_extend_the_file_name() {
    let p = vec!["r".to_string(), ".plaxo-otp".to_string(), "apps.enc".to_string()];
    assert_eq!(with_suffix(&p, ".backup")[2], "apps.enc.backup");
    assert_eq!(with_suffix(&p, ".tmp")[..2], p[..2]);
}

#[test]
fn owner_only_modes() {
    assert_eq!(owner_only_mode(true), 0o700);
    assert_eq!(owner_only_mode(false), 0o600);
}

#[test]
fn backup_wins_only_when_it_loads() {
    let app = OtpApp { id: "1".into(), name: "a".into(), secret: "s".into() };
    let (r, restore) = backup_outcome(AppError::InvalidMasterPassword, Ok(vec![app]));
    assert!(restore);
    assert_eq!(r.unwrap().len(), 1);
    let (r, restore) = backup_outcome(AppError::InvalidMasterPassword, Err(AppError::AppNotFound));
    assert!(!restore);
    assert!(matches!(r, Err(AppError::InvalidMasterPassword)));
}

#[test]
fn trimming_follows_unicode_white_space() {
    assert_eq!(trim("\u{3000} a b \t\n"), "a b");
    assert_eq!(trim("   "), "");
    assert!(is_blank("\u{a0}\u{2028}"));
    assert!(!is_blank(" x "));
    assert!(str_eq("été", "été"));
    assert!(!str_eq("a", "ab"));
}
