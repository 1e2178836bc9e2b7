# plaxo_otp

The vault behind Plaxo OTP, a desktop TOTP authenticator, as a Verus-verified
library.

- `src/crypto.rs`: key derivation (Argon2id with a per-vault salt; the
  pre-v2 SHA-256 key for reading old vaults), the v2 payload format and its
  encryption and decryption.
- `src/otp.rs`: cleaning, validating and turning secrets into codes.
- `src/state.rs`: the in-memory vault (apps, key, Drive tokens); it is
  unlocked exactly while it holds a key, and a replaced key is wiped.
- `src/commands.rs`: what each command decides: adding, renaming, deleting,
  importing apps, unlocking, merging cloud apps, and reading the OAuth
  redirect.
- `src/google_drive.rs`: PKCE, the consent URL and the token forms.
- `src/storage.rs`: where the vault lives and how a damaged file falls back to
  its backup.
- `src/tray.rs`: what a tray menu click means, and the autostart toggle.
- `src/text.rs`: Unicode white space, trimming and scanning.
- `src/primitives.rs`: the trusted bindings to the outside crates (AES-GCM,
  Argon2, SHA-256, base64, base32/TOTP, serde_json, urlencoding, uuid, rand,
  zeroize) and to the few std functions that vstd does not specify.
- `app/`: the process around the library: files, Google Drive over HTTP,
  autostart, the clipboard, tray clicks, and the commands that tie them
  together.
