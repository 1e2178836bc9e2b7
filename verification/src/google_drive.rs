//! Google Drive backup sync: the OAuth (PKCE) and request-building logic.
//!
//! OAuth uses the installed-app loopback flow with PKCE (RFC 7636). The
//! authorization code is bound to a one-time verifier that never leaves this
//! process, so intercepting the redirect is not enough to redeem it. The HTTP
//! exchanges themselves are made by the application around this library.

use vstd::prelude::*;
use vstd::utf8::{encode_utf8, is_ascii_chars, is_ascii_chars_encode_utf8};

use crate::primitives::{
    base64_url_encode, base64_url_nopad_encoded, is_base64url_char, is_url_safe_byte,
    percent_encode_bytes, percent_encoded, random_bytes, sha256, sha256_digest, url_encode,
};
use crate::text::{is_blank, trim_text};
use crate::types::{prefixed, AppError};

verus! {

/// Tokens for the Drive API.
pub struct GoogleDriveAuth {
    pub access_token: String,
    pub refresh_token: String,
    pub expires_at: u64,
}

/// What a `GoogleDriveAuth` holds.
pub struct GoogleDriveAuthView {
    pub access_token: Seq<char>,
    pub refresh_token: Seq<char>,
    pub expires_at: u64,
}

impl View for GoogleDriveAuth {
    type V = GoogleDriveAuthView;

    open spec fn view(&self) -> GoogleDriveAuthView {
        GoogleDriveAuthView {
            access_token: self.access_token@,
            refresh_token: self.refresh_token@,
            expires_at: self.expires_at,
        }
    }
}

impl GoogleDriveAuth {
    /// A field-by-field copy.
    pub fn duplicate(&self) -> (r: GoogleDriveAuth)
        ensures
            r@ == self@,
    {
        GoogleDriveAuth {
            access_token: self.access_token.clone(),
            refresh_token: self.refresh_token.clone(),
            expires_at: self.expires_at,
        }
    }
}

/// The loopback address that receives the authorization redirect.
pub open spec fn redirect_uri() -> Seq<char> {
    "http://localhost:8080"@
}

/// The only scope asked for: files this app created.
pub open spec fn scope() -> Seq<char> {
    "https://www.googleapis.com/auth/drive.file"@
}

/// The loopback address that receives the authorization redirect.
pub fn redirect_uri_text() -> (r: &'static str)
    ensures
        r@ == redirect_uri(),
{
    "http://localhost:8080"
}

/// One in-flight authorization attempt.
///
/// `verifier` and `state` are single-use and must not outlive the attempt.
pub struct AuthSession {
    pub url: String,
    pub verifier: String,
    pub state: String,
}

/// A configured client id: present and not blank.
pub open spec fn configured(client_id: Option<Seq<char>>) -> bool {
    client_id matches Some(id) && trim_text(id).len() > 0
}

/// An optional `&str`, by view.
pub open spec fn opt_str(o: Option<&str>) -> Option<Seq<char>> {
    match o {
        Some(s) => Some(s@),
        None => None,
    }
}

/// Whether this build carries Google credentials.
pub fn is_configured(client_id: Option<&str>) -> (r: bool)
    ensures
        r == configured(opt_str(client_id)),
{
    match client_id {
        Some(id) => !is_blank(id),
        None => false,
    }
}

/// The client id, or the error explaining that sync is not configured.
pub fn client_id(configured_id: Option<&str>) -> (r: Result<String, AppError>)
    ensures
        configured(opt_str(configured_id)) ==> (r matches Ok(id) && Some(id@) == opt_str(configured_id)),
        !configured(opt_str(configured_id)) ==> (r matches Err(e) && e@ is GoogleDrive),
{
    match configured_id {
        Some(id) => if !is_blank(id) {
            return Ok(String::from_str(id));
        },
        None => {},
    }
    Err(
        AppError::GoogleDrive(
            String::from_str(
                "Google Drive sync is not configured in this build. Rebuild with PLAXO_GOOGLE_CLIENT_ID set — see docs/google-drive-setup.md.",
            ),
        ),
    )
}

/// The client secret when one was configured and is not blank.
pub fn client_secret(configured_secret: Option<&str>) -> (r: Option<String>)
    ensures
        configured(opt_str(configured_secret)) ==> (r matches Some(s) && Some(s@) == opt_str(
            configured_secret,
        )),
        !configured(opt_str(configured_secret)) ==> r is None,
{
    match configured_secret {
        Some(s) => if !is_blank(s) {
            Some(String::from_str(s))
        } else {
            None
        },
        None => None,
    }
}

/// URL-safe base64 without padding, as PKCE requires.
pub fn b64url(bytes: &[u8]) -> (r: String)
    ensures
        r@ == base64_url_nopad_encoded(bytes@),
        forall|i: int| 0 <= i < r@.len() ==> is_base64url_char(#[trigger] r@[i]),
{
    base64_url_encode(bytes)
}

/// 32 random bytes, base64url-encoded: a 43-character verifier, the length
/// RFC 7636 recommends, made only of the URL-safe alphabet.
pub fn random_token() -> (r: String)
    ensures
        r@.len() == 43,
        forall|i: int| 0 <= i < r@.len() ==> is_base64url_char(#[trigger] r@[i]),
        exists|b: Seq<u8>| b.len() == 32 && r@ == base64_url_nopad_encoded(b),
{
    let bytes = random_bytes(32);
    base64_url_encode(bytes.as_slice())
}

/// Text made only of the URL-safe base64 alphabet needs no escaping:
/// percent-encoding leaves it as it is.
pub proof fn lemma_base64url_text_unescaped(text: Seq<char>)
    requires
        forall|i: int| 0 <= i < text.len() ==> is_base64url_char(#[trigger] text[i]),
    ensures
        percent_encoded(text) == text,
{
    assert(is_ascii_chars(text)) by {
        assert forall|i: int| 0 <= i < text.len() implies '\0' <= #[trigger] text[i] <= '\u{7f}' by {
            assert(is_base64url_char(text[i]));
        }
    }
    is_ascii_chars_encode_utf8(text);
    lemma_safe_bytes_unescaped(encode_utf8(text), text);
}

/// Bytes that are the characters of a text, each one safe, percent-encode to
/// that text.
proof fn lemma_safe_bytes_unescaped(bytes: Seq<u8>, text: Seq<char>)
    requires
        bytes.len() == text.len(),
        forall|i: int| 0 <= i < text.len() ==> is_base64url_char(#[trigger] text[i]),
        forall|i: int| 0 <= i < text.len() ==> text[i] as u8 == #[trigger] bytes[i],
    ensures
        percent_encode_bytes(bytes) == text,
    decreases bytes.len(),
{
    if bytes.len() > 0 {
        let n = bytes.len() - 1;
        lemma_safe_bytes_unescaped(bytes.drop_last(), text.drop_last());
        let c = text[n];
        let b = bytes[n];
        assert(is_base64url_char(c));
        assert(c as u8 == b);
        assert(is_url_safe_byte(b));
        assert(b as char == c);
        assert(text.drop_last().push(c) =~= text);
        assert(text.drop_last() + seq![c] =~= text);
    }
}

/// The S256 code challenge of a verifier: base64url(SHA-256(verifier)).
pub open spec fn pkce_challenge(verifier: Seq<char>) -> Seq<char> {
    base64_url_nopad_encoded(sha256_digest(encode_utf8(verifier)))
}

/// The consent URL for a client id, a code challenge and a CSRF state. The
/// challenge is base64url text, which needs no escaping, and stands as it is.
pub open spec fn auth_url(client_id: Seq<char>, challenge: Seq<char>, state: Seq<char>) -> Seq<char> {
    "https://accounts.google.com/o/oauth2/v2/auth?client_id="@ + percent_encoded(client_id)
        + "&redirect_uri="@ + percent_encoded(redirect_uri()) + "&response_type=code&scope="@
        + percent_encoded(scope()) + "&access_type=offline&prompt=consent&code_challenge="@
        + challenge + "&code_challenge_method=S256&state="@ + percent_encoded(
        state,
    )
}

/// Start an authorization attempt with the given verifier and state: the
/// consent URL carries the verifier's S256 challenge and the state.
pub fn begin_auth_with(client_id_value: Option<&str>, verifier: String, state: String) -> (r: Result<AuthSession, AppError>)
    ensures
        configured(opt_str(client_id_value)) ==> (r matches Ok(session) && session.verifier@
            == verifier@ && session.state@ == state@ && session.url@ == auth_url(
            opt_str(client_id_value)->0,
            pkce_challenge(verifier@),
            state@,
        )),
        !configured(opt_str(client_id_value)) ==> (r matches Err(e) && e@ is GoogleDrive),
{
    let id = client_id(client_id_value)?;
    let digest = sha256(verifier.as_str().as_bytes());
    let challenge = b64url(digest.as_slice());
    proof {
        lemma_base64url_text_unescaped(challenge@);
    }
    let mut url = prefixed("https://accounts.google.com/o/oauth2/v2/auth?client_id=", url_encode(id.as_str()).as_str());
    url.append("&redirect_uri=");
    url.append(url_encode(redirect_uri_text()).as_str());
    url.append("&response_type=code&scope=");
    url.append(url_encode("https://www.googleapis.com/auth/drive.file").as_str());
    url.append("&access_type=offline&prompt=consent&code_challenge=");
    url.append(url_encode(challenge.as_str()).as_str());
    url.append("&code_challenge_method=S256&state=");
    url.append(url_encode(state.as_str()).as_str());
    Ok(AuthSession { url, verifier, state })
}

/// Start an authorization attempt: a fresh verifier and CSRF state, and the
/// consent URL that binds them. The state is base64url text, so it too
/// stands unescaped in the URL.
pub fn begin_auth(client_id_value: Option<&str>) -> (r: Result<AuthSession, AppError>)
    ensures
        configured(opt_str(client_id_value)) ==> (r matches Ok(session) && session.verifier@.len()
            == 43 && session.state@.len() == 43 && session.url@ == auth_url(
            opt_str(client_id_value)->0,
            pkce_challenge(session.verifier@),
            session.state@,
        ) && percent_encoded(session.state@) == session.state@),
        !configured(opt_str(client_id_value)) ==> (r matches Err(e) && e@ is GoogleDrive),
{
    client_id(client_id_value)?;
    let verifier = random_token();
    let state = random_token();
    proof {
        lemma_base64url_text_unescaped(state@);
    }
    begin_auth_with(client_id_value, verifier, state)
}

/// A form field of a token request.
pub struct FormField {
    pub name: String,
    pub value: String,
}

/// A list of form fields, by views.
pub open spec fn fields_view(f: Seq<FormField>) -> Seq<(Seq<char>, Seq<char>)> {
    f.map_values(|x: FormField| (x.name@, x.value@))
}

/// A form field built from two texts.
pub fn field(name: &str, value: &str) -> (r: FormField)
    ensures
        r.name@ == name@,
        r.value@ == value@,
{
    FormField { name: String::from_str(name), value: String::from_str(value) }
}

/// The fields of an authorization-code exchange: client id, code, PKCE
/// verifier, grant type and redirect URI, then the client secret if any.
pub open spec fn exchange_fields(
    client_id: Seq<char>,
    code: Seq<char>,
    verifier: Seq<char>,
    secret: Option<Seq<char>>,
) -> Seq<(Seq<char>, Seq<char>)> {
    let base = seq![
        ("client_id"@, client_id),
        ("code"@, code),
        ("code_verifier"@, verifier),
        ("grant_type"@, "authorization_code"@),
        ("redirect_uri"@, redirect_uri()),
    ];
    match secret {
        Some(s) => base.push(("client_secret"@, s)),
        None => base,
    }
}

/// The form of the authorization-code exchange.
pub fn token_exchange_fields(client_id: &str, code: &str, verifier: &str, secret: Option<&str>) -> (r: Vec<FormField>)
    ensures
        fields_view(r@) == exchange_fields(client_id@, code@, verifier@, opt_str(secret)),
{
    let mut v: Vec<FormField> = Vec::new();
    v.push(field("client_id", client_id));
    v.push(field("code", code));
    v.push(field("code_verifier", verifier));
    v.push(field("grant_type", "authorization_code"));
    v.push(field("redirect_uri", redirect_uri_text()));
    if let Some(s) = secret {
        v.push(field("client_secret", s));
    }
    assert(fields_view(v@) =~= exchange_fields(client_id@, code@, verifier@, opt_str(secret)));
    v
}

/// The fields of a token refresh: client id, refresh token and grant type,
/// then the client secret if any.
pub open spec fn refresh_fields(client_id: Seq<char>, refresh_token: Seq<char>, secret: Option<Seq<char>>) -> Seq<(Seq<char>, Seq<char>)> {
    let base = seq![
        ("client_id"@, client_id),
        ("refresh_token"@, refresh_token),
        ("grant_type"@, "refresh_token"@),
    ];
    match secret {
        Some(s) => base.push(("client_secret"@, s)),
        None => base,
    }
}

/// The form of a token refresh.
pub fn token_refresh_fields(client_id: &str, refresh_token: &str, secret: Option<&str>) -> (r: Vec<FormField>)
    ensures
        fields_view(r@) == refresh_fields(client_id@, refresh_token@, opt_str(secret)),
{
    let mut v: Vec<FormField> = Vec::new();
    v.push(field("client_id", client_id));
    v.push(field("refresh_token", refresh_token));
    v.push(field("grant_type", "refresh_token"));
    if let Some(s) = secret {
        v.push(field("client_secret", s));
    }
    assert(fields_view(v@) =~= refresh_fields(client_id@, refresh_token@, opt_str(secret)));
    v
}

/// Tokens from an exchange response received at Unix time `now`: the refresh
/// token defaults to empty, and the expiry is `now + expires_in`.
pub fn auth_from_exchange(access_token: String, refresh_token: Option<String>, expires_in: u64, now: u64) -> (r: GoogleDriveAuth)
    requires
        now + expires_in <= u64::MAX,
    ensures
        r.access_token@ == access_token@,
        r.refresh_token@ == (match refresh_token {
            Some(t) => t@,
            None => Seq::<char>::empty(),
        }),
        r.expires_at == now + expires_in,
{
    let refresh = match refresh_token {
        Some(t) => t,
        None => String::new(),
    };
    GoogleDriveAuth { access_token, refresh_token: refresh, expires_at: now + expires_in }
}

/// Tokens from a refresh response received at Unix time `now`: the refresh
/// token is the one that was used.
pub fn auth_from_refresh(access_token: String, refresh_token: &str, expires_in: u64, now: u64) -> (r: GoogleDriveAuth)
    requires
        now + expires_in <= u64::MAX,
    ensures
        r.access_token@ == access_token@,
        r.refresh_token@ == refresh_token@,
        r.expires_at == now + expires_in,
{
    GoogleDriveAuth {
        access_token,
        refresh_token: String::from_str(refresh_token),
        expires_at: now + expires_in,
    }
}

/// The Drive search query for a file name: `name='<filename>'`.
pub fn search_query(filename: &str) -> (r: String)
    ensures
        r@ == "name='"@ + filename@ + "'"@,
{
    let mut q = prefixed("name='", filename);
    q.append("'");
    q
}

/// The media-upload URL that replaces a file's content.
pub fn update_url(file_id: &str) -> (r: String)
    ensures
        r@ == "https://www.googleapis.com/upload/drive/v3/files/"@ + file_id@ + "?uploadType=media"@,
{
    let mut u = prefixed("https://www.googleapis.com/upload/drive/v3/files/", file_id);
    u.append("?uploadType=media");
    u
}

/// The URL that downloads a file's content.
pub fn download_url(file_id: &str) -> (r: String)
    ensures
        r@ == "https://www.googleapis.com/drive/v3/files/"@ + file_id@ + "?alt=media"@,
{
    let mut u = prefixed("https://www.googleapis.com/drive/v3/files/", file_id);
    u.append("?alt=media");
    u
}

} // verus!
