//! Vault encryption.
//!
//! Payload format (v2), base64-encoded:
//!
//! ```text
//! "PLX2" | salt (16 bytes) | nonce (12 bytes) | AES-256-GCM ciphertext
//! ```
//!
//! The key is derived with Argon2id from the master password plus the
//! per-vault random salt stored in the payload itself.
//!
//! Vaults written by versions <= 1.3.3 have no header: they are a bare
//! `nonce | ciphertext` whose key was a single SHA-256 pass over the password
//! and a salt compiled into the binary. Those are still readable so existing
//! vaults can be migrated, but they are never written again.

use vstd::prelude::*;
use vstd::utf8::{decode_utf8, encode_utf8, valid_utf8};

use crate::primitives::{
    aes256gcm_decrypt, aes256gcm_encrypt, aes256gcm_opened, aes256gcm_sealed, argon2_params_check,
    argon2id_hash, argon2id_key, base64_decode, base64_encode, base64_standard_decoded,
    base64_standard_encoded, random_bytes, sha256, sha256_digest, is_ascii_graphic,
    utf8_to_string, zeroize_32,
};
use crate::text::{lemma_trim_identity, trim, trim_text};
use crate::types::{string_result, AppError, ErrorView};

verus! {

pub const SALT_LEN: usize = 16;
pub const NONCE_LEN: usize = 12;
pub const HEADER_LEN: usize = 20;

/// Argon2id cost. 64 MiB / 3 passes / 4 lanes is the OWASP baseline.
pub const ARGON_MEMORY_KIB: u32 = 65_536;
pub const ARGON_ITERATIONS: u32 = 3;
pub const ARGON_PARALLELISM: u32 = 4;

/// The four header bytes "PLX2".
pub open spec fn magic() -> Seq<u8> {
    seq![0x50u8, 0x4Cu8, 0x58u8, 0x32u8]
}

/// The header bytes "PLX2", executable.
pub fn magic_bytes() -> (r: [u8; 4])
    ensures
        r@ == magic(),
{
    let r: [u8; 4] = [0x50u8, 0x4Cu8, 0x58u8, 0x32u8];
    assert(r@ =~= magic());
    r
}

/// The salt baked into versions <= 1.3.3, as bytes.
pub open spec fn legacy_salt() -> Seq<u8> {
    encode_utf8("plaxo-otp-salt-2024"@)
}

/// A derived vault key, bound to the salt it was derived with.
pub struct VaultKey {
    key: [u8; 32],
    /// Key for the pre-v2 format, kept only so an old vault can be read once
    /// and immediately rewritten in v2.
    legacy_key: [u8; 32],
    salt: [u8; 16],
}

/// The three byte strings of a `VaultKey`.
pub struct VaultKeyView {
    pub key: Seq<u8>,
    pub legacy_key: Seq<u8>,
    pub salt: Seq<u8>,
}

impl View for VaultKey {
    type V = VaultKeyView;

    closed spec fn view(&self) -> VaultKeyView {
        VaultKeyView { key: self.key@, legacy_key: self.legacy_key@, salt: self.salt@ }
    }
}

/// The pre-v2 key: one SHA-256 pass over the password bytes followed by the
/// fixed legacy salt.
pub open spec fn legacy_key_of(password: Seq<char>) -> Seq<u8> {
    sha256_digest(encode_utf8(password) + legacy_salt())
}

/// The key that `VaultKey::derive` produces for a password and a salt.
pub open spec fn derived_key(password: Seq<char>, salt: Seq<u8>) -> VaultKeyView {
    VaultKeyView {
        key: argon2id_key(ARGON_MEMORY_KIB, ARGON_ITERATIONS, ARGON_PARALLELISM, encode_utf8(password), salt),
        legacy_key: legacy_key_of(password),
        salt,
    }
}

/// Whether Argon2 accepts a password of this text (at most 2^32 - 1 bytes).
pub open spec fn password_len_ok(password: Seq<char>) -> bool {
    encode_utf8(password).len() <= 0xFFFF_FFFF
}

/// A key is well formed: 32-byte keys and a 16-byte salt.
pub open spec fn key_shape(k: VaultKeyView) -> bool {
    k.key.len() == 32 && k.legacy_key.len() == 32 && k.salt.len() == 16
}

/// The 16 bytes `src[from..from + 16]` as an array.
fn copy_to_array_16(src: &[u8], from: usize) -> (r: [u8; 16])
    requires
        from + 16 <= src@.len(),
    ensures
        r@ == src@.subrange(from as int, from + 16),
{
    let mut r = [0u8; 16];
    let mut i: usize = 0;
    while i < 16
        invariant
            i <= 16,
            from + 16 <= src.len(),
            r@.len() == 16,
            forall|j: int| 0 <= j < i ==> r@[j] == src@[from + j],
        decreases 16 - i,
    {
        r[i] = src[from + i];
        i = i + 1;
    }
    assert(r@ =~= src@.subrange(from as int, from + 16));
    r
}

/// Appends all of `src` to `out`.
fn push_all(out: &mut Vec<u8>, src: &[u8])
    ensures
        final(out)@ == old(out)@ + src@,
{
    let mut i: usize = 0;
    while i < src.len()
        invariant
            i <= src@.len(),
            out@ == old(out)@ + src@.subrange(0, i as int),
        decreases src@.len() - i,
    {
        out.push(src[i]);
        i = i + 1;
        assert(out@ =~= old(out)@ + src@.subrange(0, i as int));
    }
    assert(src@.subrange(0, src@.len() as int) =~= src@);
}

impl VaultKey {
    /// Derive a key for an existing vault whose salt is already known.
    pub fn derive(password: &str, salt: [u8; 16]) -> (r: Result<VaultKey, AppError>)
        ensures
            password_len_ok(password@) ==> r is Ok,
            r matches Ok(k) ==> k@ == derived_key(password@, salt@),
            r matches Err(e) ==> e@ is Encryption,
    {
        if let Err(e) = argon2_params_check(ARGON_MEMORY_KIB, ARGON_ITERATIONS, ARGON_PARALLELISM, 32) {
            let text = e.to_string();
            return Err(AppError::Encryption(crate::types::prefixed("Invalid Argon2 parameters: ", text.as_str())));
        }
        let pwd = password.as_bytes();
        match argon2id_hash(ARGON_MEMORY_KIB, ARGON_ITERATIONS, ARGON_PARALLELISM, pwd, salt.as_slice()) {
            Ok(key) => {
                let legacy_key = legacy_derive_key(password);
                let k = VaultKey { key, legacy_key, salt };
                assert(k@ == derived_key(password@, salt@));
                Ok(k)
            },
            Err(e) => {
                let text = e.to_string();
                Err(AppError::Encryption(crate::types::prefixed("Key derivation failed: ", text.as_str())))
            },
        }
    }

    /// Derive a key for a brand-new vault, generating a fresh random salt.
    pub fn new_vault(password: &str) -> (r: Result<VaultKey, AppError>)
        ensures
            password_len_ok(password@) ==> r is Ok,
            r matches Ok(k) ==> k@ == derived_key(password@, k@.salt) && k@.salt.len() == 16,
            r matches Err(e) ==> e@ is Encryption,
    {
        let bytes = random_bytes(SALT_LEN);
        let salt = copy_to_array_16(bytes.as_slice(), 0);
        VaultKey::derive(password, salt)
    }

    /// The salt this key was derived with.
    pub fn salt(&self) -> (r: [u8; 16])
        ensures
            r@ == self@.salt,
    {
        self.salt
    }

    /// The Argon2id key bytes.
    pub fn key_bytes(&self) -> (r: [u8; 32])
        ensures
            r@ == self@.key,
    {
        self.key
    }

    /// A copy of this key.
    pub fn duplicate(&self) -> (r: VaultKey)
        ensures
            r@ == self@,
    {
        VaultKey { key: self.key, legacy_key: self.legacy_key, salt: self.salt }
    }

    /// Overwrite both keys with zeros; the salt is not secret and stays.
    pub fn zeroize(&mut self)
        ensures
            forall|i: int| 0 <= i < 32 ==> final(self)@.key[i] == 0u8,
            forall|i: int| 0 <= i < 32 ==> final(self)@.legacy_key[i] == 0u8,
            final(self)@.salt == old(self)@.salt,
    {
        zeroize_32(&mut self.key);
        zeroize_32(&mut self.legacy_key);
    }

    /// All three byte strings have their fixed lengths.
    pub proof fn lemma_shape(&self)
        ensures
            key_shape(self@),
    {
    }
}

/// The pre-v2 derivation: one SHA-256 pass with a global constant salt.
///
/// Retained only to decrypt vaults written by older versions.
pub fn legacy_derive_key(password: &str) -> (r: [u8; 32])
    ensures
        r@ == legacy_key_of(password@),
        r@ == sha256_digest(encode_utf8(password@) + encode_utf8("plaxo-otp-salt-2024"@)),
{
    let mut data: Vec<u8> = Vec::new();
    push_all(&mut data, password.as_bytes());
    push_all(&mut data, "plaxo-otp-salt-2024".as_bytes());
    sha256(data.as_slice())
}

/// A decoded payload starts with "PLX2" followed by a full salt.
pub open spec fn has_v2_header(raw: Seq<u8>) -> bool {
    raw.len() >= HEADER_LEN && raw.take(4) == magic()
}

/// The v2 payload bytes: header, salt, nonce, ciphertext.
pub open spec fn v2_bytes(salt: Seq<u8>, nonce: Seq<u8>, ciphertext: Seq<u8>) -> Seq<u8> {
    magic() + salt + nonce + ciphertext
}

/// What `payload_salt` reads out of a stored payload: an error for text that
/// is not base64, the salt for a v2 payload, nothing for a pre-v2 one.
pub open spec fn payload_salt_of(text: Seq<char>) -> Result<Option<Seq<u8>>, ErrorView> {
    match base64_standard_decoded(trim_text(text)) {
        None => Err(ErrorView::Encryption("Invalid base64 data"@)),
        Some(raw) => Ok(
            if has_v2_header(raw) {
                Some(raw.subrange(4, 20))
            } else {
                None
            },
        ),
    }
}

/// A payload in the pre-v2 format: valid base64 without the v2 header.
pub open spec fn is_legacy(text: Seq<char>) -> bool {
    payload_salt_of(text) == Ok::<Option<Seq<u8>>, ErrorView>(None)
}

/// The payload that encrypting `data` under `key` with `nonce` produces.
pub open spec fn sealed_payload(data: Seq<char>, key: VaultKeyView, nonce: Seq<u8>) -> Seq<char> {
    base64_standard_encoded(
        v2_bytes(key.salt, nonce, aes256gcm_sealed(key.key, nonce, encode_utf8(data))),
    )
}

/// Decrypting `bytes` (a nonce followed by a ciphertext) under `k`.
pub open spec fn open_framed(k: Seq<u8>, bytes: Seq<u8>) -> Result<Seq<char>, ErrorView> {
    if bytes.len() < NONCE_LEN {
        Err(ErrorView::Encryption("Data too short"@))
    } else {
        match aes256gcm_opened(k, bytes.take(12), bytes.skip(12)) {
            None => Err(ErrorView::InvalidMasterPassword),
            Some(plain) => if valid_utf8(plain) {
                Ok(decode_utf8(plain))
            } else {
                Err(ErrorView::Encryption("Invalid UTF-8 data"@))
            },
        }
    }
}

/// What `decrypt_data` yields for a stored payload: a v2 payload opens with
/// the Argon2id key when its salt is this key's salt and is rejected
/// otherwise; a pre-v2 payload opens with the legacy key.
pub open spec fn decrypted_payload(text: Seq<char>, key: VaultKeyView) -> Result<Seq<char>, ErrorView> {
    match base64_standard_decoded(trim_text(text)) {
        None => Err(ErrorView::Encryption("Invalid base64 data"@)),
        Some(raw) => if has_v2_header(raw) {
            if raw.subrange(4, 20) != key.salt {
                Err(ErrorView::Encryption("Payload belongs to a different vault"@))
            } else {
                open_framed(key.key, raw.skip(20))
            }
        } else {
            open_framed(key.legacy_key, raw)
        },
    }
}

/// Whether the decoded bytes carry the v2 header.
fn has_header(raw: &Vec<u8>) -> (r: bool)
    ensures
        r == has_v2_header(raw@),
{
    if raw.len() < HEADER_LEN {
        return false;
    }
    let m = magic_bytes();
    let r = raw[0] == m[0] && raw[1] == m[1] && raw[2] == m[2] && raw[3] == m[3];
    assert(r == (raw@.take(4) =~= magic()));
    r
}

/// Whether `raw[4..20]` equals `salt`.
fn salt_matches(raw: &Vec<u8>, salt: &[u8; 16]) -> (r: bool)
    requires
        raw@.len() >= HEADER_LEN,
    ensures
        r == (raw@.subrange(4, 20) == salt@),
{
    let mut i: usize = 0;
    while i < 16
        invariant
            i <= 16,
            raw@.len() >= HEADER_LEN,
            forall|j: int| 0 <= j < i ==> raw@[4 + j] == salt@[j],
        decreases 16 - i,
    {
        if raw[4 + i] != salt[i] {
            assert(raw@.subrange(4, 20)[i as int] != salt@[i as int]);
            return false;
        }
        i = i + 1;
    }
    assert(raw@.subrange(4, 20) =~= salt@);
    true
}

/// Read the salt out of a stored payload.
///
/// Returns `Ok(None)` when the payload is in the pre-v2 format, which carries
/// no salt — the caller should then pick a fresh salt and migrate.
pub fn payload_salt(payload: &str) -> (r: Result<Option<[u8; 16]>, AppError>)
    ensures
        payload_salt_of(payload@) == (match r {
            Ok(Some(s)) => Ok(Some(s@)),
            Ok(None) => Ok(None),
            Err(e) => Err(e@),
        }),
{
    let raw = match base64_decode(trim(payload)) {
        Some(raw) => raw,
        None => return Err(AppError::Encryption(String::from_str("Invalid base64 data"))),
    };
    if has_header(&raw) {
        Ok(Some(copy_to_array_16(raw.as_slice(), 4)))
    } else {
        Ok(None)
    }
}

/// True when the payload still uses the pre-v2 format and should be migrated.
pub fn is_legacy_payload(payload: &str) -> (r: bool)
    ensures
        r == is_legacy(payload@),
{
    match payload_salt(payload) {
        Ok(None) => true,
        _ => false,
    }
}

/// A text made of printable ASCII characters is its own trim.
proof fn lemma_ascii_graphic_trim(s: Seq<char>)
    requires
        forall|i: int| 0 <= i < s.len() ==> is_ascii_graphic(#[trigger] s[i]),
    ensures
        trim_text(s) == s,
{
    if s.len() > 0 {
        assert(is_ascii_graphic(s[0]));
        assert(is_ascii_graphic(s[s.len() - 1]));
    }
    lemma_trim_identity(s);
}

/// The decoded bytes of a v2 payload for a plaintext of `plain_len` bytes:
/// the "PLX2" magic, the salt, a 12-byte nonce, then the ciphertext with its
/// 16-byte tag.
pub open spec fn payload_layout(raw: Seq<u8>, plain_len: nat, salt: Seq<u8>) -> bool {
    &&& raw.len() == HEADER_LEN + NONCE_LEN + plain_len + 16
    &&& raw.take(4) == magic()
    &&& raw.subrange(4, 20) == salt
}

/// Encrypt to the v2 format with the given nonce.
///
/// The result decrypts back to `data` under the same key, carries the key's
/// salt, and is not a legacy payload.
pub fn encrypt_data_with_nonce(data: &str, vault_key: &VaultKey, nonce: [u8; 12]) -> (r: Result<String, AppError>)
    ensures
        encode_utf8(data@).len() <= 0x10_0000_0000 ==> r is Ok,
        r matches Ok(s) ==> {
            &&& s@ == sealed_payload(data@, vault_key@, nonce@)
            &&& base64_standard_decoded(s@) matches Some(raw) && payload_layout(
                raw,
                encode_utf8(data@).len(),
                vault_key@.salt,
            ) && raw.subrange(20, 32) == nonce@
            &&& decrypted_payload(s@, vault_key@) == Ok::<Seq<char>, ErrorView>(data@)
            &&& payload_salt_of(s@) == Ok::<Option<Seq<u8>>, ErrorView>(Some(vault_key@.salt))
            &&& !is_legacy(s@)
        },
        r matches Err(e) ==> e@ == ErrorView::Encryption("Failed to encrypt data"@),
{
    let plain = data.as_bytes();
    let ciphertext = match aes256gcm_encrypt(&vault_key.key, &nonce, plain) {
        Some(c) => c,
        None => return Err(AppError::Encryption(String::from_str("Failed to encrypt data"))),
    };
    let mut out: Vec<u8> = Vec::new();
    let m = magic_bytes();
    push_all(&mut out, m.as_slice());
    push_all(&mut out, vault_key.salt.as_slice());
    push_all(&mut out, nonce.as_slice());
    push_all(&mut out, ciphertext.as_slice());
    let ghost raw = out@;
    proof {
        assert(raw =~= v2_bytes(vault_key@.salt, nonce@, ciphertext@));
        assert(raw.take(4) =~= magic());
        assert(raw.subrange(4, 20) =~= vault_key@.salt);
        assert(raw.subrange(20, 32) =~= nonce@);
        assert(raw.skip(20).take(12) =~= nonce@);
        assert(raw.skip(20).skip(12) =~= ciphertext@);
        vstd::utf8::encode_utf8_valid_utf8(data@);
        vstd::utf8::encode_utf8_decode_utf8(data@);
    }
    let s = base64_encode(out.as_slice());
    proof {
        lemma_ascii_graphic_trim(s@);
    }
    Ok(s)
}

/// Encrypt to the v2 format. Always writes a fresh random nonce.
pub fn encrypt_data(data: &str, vault_key: &VaultKey) -> (r: Result<String, AppError>)
    ensures
        encode_utf8(data@).len() <= 0x10_0000_0000 ==> r is Ok,
        r matches Ok(s) ==> {
            &&& exists|nonce: Seq<u8>| nonce.len() == NONCE_LEN && s@ == sealed_payload(data@, vault_key@, nonce)
            &&& base64_standard_decoded(s@) matches Some(raw) && payload_layout(
                raw,
                encode_utf8(data@).len(),
                vault_key@.salt,
            )
            &&& decrypted_payload(s@, vault_key@) == Ok::<Seq<char>, ErrorView>(data@)
            &&& payload_salt_of(s@) == Ok::<Option<Seq<u8>>, ErrorView>(Some(vault_key@.salt))
            &&& !is_legacy(s@)
        },
        r matches Err(e) ==> e@ == ErrorView::Encryption("Failed to encrypt data"@),
{
    let bytes = random_bytes(NONCE_LEN);
    let mut nonce = [0u8; 12];
    let mut i: usize = 0;
    while i < 12
        invariant
            i <= 12,
            bytes@.len() == 12,
            nonce@.len() == 12,
        decreases 12 - i,
    {
        nonce[i] = bytes[i];
        i = i + 1;
    }
    encrypt_data_with_nonce(data, vault_key, nonce)
}

/// Decrypts `bytes`, a nonce followed by a ciphertext, under `k`.
fn open_with(k: &[u8; 32], bytes: &[u8]) -> (r: Result<String, AppError>)
    ensures
        string_result(r) == open_framed(k@, bytes@),
{
    if bytes.len() < NONCE_LEN {
        return Err(AppError::Encryption(String::from_str("Data too short")));
    }
    let nonce = vstd::slice::slice_subrange(bytes, 0, NONCE_LEN);
    let ciphertext = vstd::slice::slice_subrange(bytes, NONCE_LEN, bytes.len());
    assert(nonce@ =~= bytes@.take(12));
    assert(ciphertext@ =~= bytes@.skip(12));
    match aes256gcm_decrypt(k, nonce, ciphertext) {
        None => Err(AppError::InvalidMasterPassword),
        Some(plain) => match utf8_to_string(plain) {
            Some(s) => Ok(s),
            None => Err(AppError::Encryption(String::from_str("Invalid UTF-8 data"))),
        },
    }
}

/// Decrypt either format.
///
/// A v2 payload is decrypted with the Argon2id key; a pre-v2 payload falls
/// back to the legacy key so the vault can be read once and migrated. A v2
/// payload whose salt does not match this key is rejected rather than being
/// silently attempted, since that means the key belongs to a different vault.
pub fn decrypt_data(encrypted_data: &str, vault_key: &VaultKey) -> (r: Result<String, AppError>)
    ensures
        string_result(r) == decrypted_payload(encrypted_data@, vault_key@),
{
    let raw = match base64_decode(trim(encrypted_data)) {
        Some(raw) => raw,
        None => return Err(AppError::Encryption(String::from_str("Invalid base64 data"))),
    };
    if has_header(&raw) {
        if !salt_matches(&raw, &vault_key.salt) {
            return Err(AppError::Encryption(String::from_str("Payload belongs to a different vault")));
        }
        let rest = vstd::slice::slice_subrange(raw.as_slice(), HEADER_LEN, raw.len());
        assert(rest@ =~= raw@.skip(20));
        open_with(&vault_key.key, rest)
    } else {
        open_with(&vault_key.legacy_key, raw.as_slice())
    }
}

/// The key that reads pre-v2 vaults is one SHA-256 pass over the password's
/// UTF-8 bytes followed by the bytes of "plaxo-otp-salt-2024", password
/// first, whatever the salt of the Argon2id key; and a pre-v2 payload is
/// opened with exactly that key.
pub proof fn lemma_legacy_key_is_password_then_salt(password: Seq<char>, salt: Seq<u8>, text: Seq<char>)
    ensures
        derived_key(password, salt).legacy_key == sha256_digest(
            encode_utf8(password) + encode_utf8("plaxo-otp-salt-2024"@),
        ),
        is_legacy(text) ==> decrypted_payload(text, derived_key(password, salt)) == open_framed(
            sha256_digest(encode_utf8(password) + encode_utf8("plaxo-otp-salt-2024"@)),
            base64_standard_decoded(trim_text(text))->0,
        ),
{
}

/// A v2 payload whose salt differs from the key's salt never opens: it is
/// reported as belonging to a different vault.
pub proof fn lemma_foreign_vault_rejected(text: Seq<char>, key: VaultKeyView)
    requires
        payload_salt_of(text) matches Ok(Some(salt)) && salt != key.salt,
    ensures
        decrypted_payload(text, key) == Err::<Seq<char>, ErrorView>(
            ErrorView::Encryption("Payload belongs to a different vault"@),
        ),
{
}

/// A pre-v2 payload is opened with the legacy key alone: the Argon2id key and
/// the salt play no part.
pub proof fn lemma_legacy_ignores_salt(text: Seq<char>, k1: VaultKeyView, k2: VaultKeyView)
    requires
        is_legacy(text),
        k1.legacy_key == k2.legacy_key,
    ensures
        decrypted_payload(text, k1) == decrypted_payload(text, k2),
{
}

} // verus!
