use base64::engine::general_purpose;
use base64::Engine as _;
use sha2::{Digest, Sha256};

use plaxo_otp::google_drive::{
    auth_from_exchange, auth_from_refresh, begin_auth, begin_auth_with, client_id, client_secret,
    download_url, is_configured, random_token, search_query, token_exchange_fields,
    token_refresh_fields, update_url,
};
use plaxo_otp::types::AppError;

#[test]
fn configuration_needs_a_non_blank_id() {
    assert!(!is_configured(None));
    assert!(!is_configured(Some("  ")));
    assert!(is_configured(Some("id.apps.googleusercontent.com")));
    assert!(matches!(client_id(None), Err(AppError::GoogleDrive(_))));
    assert_eq!(client_id(Some("abc")).unwrap(), "abc");
    assert_eq!(client_secret(Some(" ")), None);
    assert_eq!(client_secret(Some("s")), Some("s".to_string()));
}

#[test]
fn consent_url_binds_the_verifier() {
    let verifier = "v".repeat(43);
    let session = begin_auth_with(Some("my id"), verifier.clone(), "st&te".to_string()).unwrap();
    let challenge = general_purpose::URL_SAFE_NO_PAD.encode(Sha256::digest(verifier.as_bytes()));
    let expected = format!(
        "https://accounts.google.com/o/oauth2/v2/auth?client_id=my%20id&redirect_uri=http%3A%2F%2Flocalhost%3A8080&response_type=code&scope=https%3A%2F%2Fwww.googleapis.com%2Fauth%2Fdrive.file&access_type=offline&prompt=consent&code_challenge={}&code_challenge_method=S256&state=st%26te",
        challenge
    );
    assert_eq!(session.url, expected);
    assert_eq!(session.verifier, verifier);
    assert_eq!(session.state, "st&te");
}

#[test]
fn fresh_sessions_use_fresh_tokens() {
    let a = begin_auth(Some("id")).unwrap();
    let b = begin_auth(Some("id")).unwrap();
    assert_eq!(a.verifier.len(), 43);
    assert_eq!(a.state.len(), 43);
    assert_ne!(a.verifier, b.verifier);
    assert_ne!(a.state, b.state);
    assert!(matches!(begin_auth(None), Err(AppError::GoogleDrive(_))));
    assert_eq!(random_token().len(), 43);
}

#[test]
fn token_forms() {
    let f = token_exchange_fields("id", "code", "ver", Some("sec"));
    let f: Vec<(String, String)> = f.into_iter().map(|x| (x.name, x.value)).collect();
    assert_eq!(f, vec![
        ("client_id".to_string(), "id".to_string()),
        ("code".to_string(), "code".to_string()),
        ("code_verifier".to_string(), "ver".to_string()),
        ("grant_type".to_string(), "authorization_code".to_string()),
        ("redirect_uri".to_string(), "http://localhost:8080".to_string()),
        ("client_secret".to_string(), "sec".to_string()),
    ]);
    let r = token_refresh_fields("id", "rt", None);
    let r: Vec<(String, String)> = r.into_iter().map(|x| (x.name, x.value)).collect();
    assert_eq!(r, vec![
        ("client_id".to_string(), "id".to_string()),
        ("refresh_token".to_string(), "rt".to_string()),
        ("grant_type".to_string(), "refresh_token".to_string()),
    ]);
}

#[test]
fn tokens_expire_relative_to_now() {
    let a = auth_from_exchange("at".to_string(), None, 3600, 1000);
    assert_eq!(a.refresh_token, "");
    assert_eq!(a.expires_at, 4600);
    let b = auth_from_refresh("at2".to_string(), "rt", 10, 5);
    assert_eq!(b.refresh_token, "rt");
    assert_eq!(b.expires_at, 15);
}

#[test]
fn drive_request_texts() {
    assert_eq!(search_query("plaxo-otp-backup.enc"), "name='plaxo-otp-backup.enc'");
    assert_eq!(update_url("F1"), "https://www.googleapis.com/upload/drive/v3/files/F1?uploadType=media");
    assert_eq!(download_url("F1"), "https://www.googleapis.com/drive/v3/files/F1?alt=media");
}
