//! Verified core of Plaxo OTP: an encrypted vault of TOTP secrets.

pub mod commands;
pub mod crypto;
pub mod google_drive;
pub mod otp;
pub mod primitives;
pub mod state;
pub mod storage;
pub mod text;
pub mod tray;
pub mod types;
