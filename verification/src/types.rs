//! Plain data types shared by the vault, the code generator and the sync flow.

use vstd::prelude::*;

verus! {

/// One account whose codes the vault produces.
#[derive(Debug, Clone)]
pub struct OtpApp {
    pub id: String,
    pub name: String,
    pub secret: String,
}

/// What an `OtpApp` holds, as mathematical strings.
pub struct OtpAppView {
    pub id: Seq<char>,
    pub name: Seq<char>,
    pub secret: Seq<char>,
}

impl View for OtpApp {
    type V = OtpAppView;

    open spec fn view(&self) -> OtpAppView {
        OtpAppView { id: self.id@, name: self.name@, secret: self.secret@ }
    }
}

impl OtpApp {
    /// A field-by-field copy whose view equals this app's.
    pub fn duplicate(&self) -> (r: OtpApp)
        ensures
            r@ == self@,
    {
        OtpApp { id: self.id.clone(), name: self.name.clone(), secret: self.secret.clone() }
    }
}

/// The account name and secret read out of a QR code.
#[derive(Debug, Clone)]
pub struct QrData {
    pub name: String,
    pub secret: String,
}

/// One entry of the `services` list of a 2FAS backup: its `name` and
/// `secret` when they are strings.
pub struct TwoFasService {
    pub name: Option<String>,
    pub secret: Option<String>,
}

/// An optional string, by view.
pub open spec fn opt_string(o: Option<String>) -> Option<Seq<char>> {
    match o {
        Some(s) => Some(s@),
        None => None,
    }
}

/// What a `TwoFasService` holds.
pub open spec fn service_view(s: TwoFasService) -> (Option<Seq<char>>, Option<Seq<char>>) {
    (opt_string(s.name), opt_string(s.secret))
}

/// A list of services, by views.
pub open spec fn services_view(s: Seq<TwoFasService>) -> Seq<(Option<Seq<char>>, Option<Seq<char>>)> {
    s.map_values(|x: TwoFasService| service_view(x))
}

/// Every error the vault reports.
#[derive(Debug)]
pub enum AppError {
    Encryption(String),
    Io(String),
    Serialization(String),
    InvalidSecret(String),
    NoMasterPassword,
    InvalidMasterPassword,
    AppNotFound,
    GoogleDrive(String),
    QrCode(String),
}

/// An `AppError` with its text as a mathematical string.
pub enum ErrorView {
    Encryption(Seq<char>),
    Io(Seq<char>),
    Serialization(Seq<char>),
    InvalidSecret(Seq<char>),
    NoMasterPassword,
    InvalidMasterPassword,
    AppNotFound,
    GoogleDrive(Seq<char>),
    QrCode(Seq<char>),
}

impl View for AppError {
    type V = ErrorView;

    open spec fn view(&self) -> ErrorView {
        match self {
            AppError::Encryption(s) => ErrorView::Encryption(s@),
            AppError::Io(s) => ErrorView::Io(s@),
            AppError::Serialization(s) => ErrorView::Serialization(s@),
            AppError::InvalidSecret(s) => ErrorView::InvalidSecret(s@),
            AppError::NoMasterPassword => ErrorView::NoMasterPassword,
            AppError::InvalidMasterPassword => ErrorView::InvalidMasterPassword,
            AppError::AppNotFound => ErrorView::AppNotFound,
            AppError::GoogleDrive(s) => ErrorView::GoogleDrive(s@),
            AppError::QrCode(s) => ErrorView::QrCode(s@),
        }
    }
}

/// A `Result` carrying a `String`, by views.
pub open spec fn string_result(r: Result<String, AppError>) -> Result<Seq<char>, ErrorView> {
    match r {
        Ok(s) => Ok(s@),
        Err(e) => Err(e@),
    }
}

/// The text shown to the user for an error.
pub open spec fn error_message(e: ErrorView) -> Seq<char> {
    match e {
        ErrorView::Encryption(s) => "Encryption error: "@ + s,
        ErrorView::Io(s) => "IO error: "@ + s,
        ErrorView::Serialization(s) => "Serialization error: "@ + s,
        ErrorView::InvalidSecret(s) => "Invalid secret key: "@ + s,
        ErrorView::NoMasterPassword => "Master password not set"@,
        ErrorView::InvalidMasterPassword => "Invalid master password"@,
        ErrorView::AppNotFound => "App not found"@,
        ErrorView::GoogleDrive(s) => "Google Drive error: "@ + s,
        ErrorView::QrCode(s) => "QR code error: "@ + s,
    }
}

/// Builds `prefix + detail` as a new `String`.
pub fn prefixed(prefix: &str, detail: &str) -> (r: String)
    ensures
        r@ == prefix@ + detail@,
{
    let mut r = String::from_str(prefix);
    r.append(detail);
    r
}

impl AppError {
    /// The user-facing text of this error.
    pub fn message(&self) -> (r: String)
        ensures
            r@ == error_message(self@),
    {
        match self {
            AppError::Encryption(s) => prefixed("Encryption error: ", s.as_str()),
            AppError::Io(s) => prefixed("IO error: ", s.as_str()),
            AppError::Serialization(s) => prefixed("Serialization error: ", s.as_str()),
            AppError::InvalidSecret(s) => prefixed("Invalid secret key: ", s.as_str()),
            AppError::NoMasterPassword => String::from_str("Master password not set"),
            AppError::InvalidMasterPassword => String::from_str("Invalid master password"),
            AppError::AppNotFound => String::from_str("App not found"),
            AppError::GoogleDrive(s) => prefixed("Google Drive error: ", s.as_str()),
            AppError::QrCode(s) => prefixed("QR code error: ", s.as_str()),
        }
    }
}

} // verus!
