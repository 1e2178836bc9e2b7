//! Trusted bindings to the outside crates, and to the few std functions
//! that vstd does not specify.
//!
//! Every item here is believed by Verus without proof. Each doc comment names
//! the outside function and says what its contract claims of it.

use vstd::prelude::*;
use vstd::utf8::{decode_utf8, encode_utf8, valid_utf8};

use aes_gcm::aead::{Aead, KeyInit};
use base64::Engine;
use rand::RngCore;
use sha2::Digest;

verus! {

/// `argon2::Error`, carried opaquely so its text can be reported.
#[verifier::external_type_specification]
#[verifier::external_body]
pub struct ExArgon2Error(argon2::Error);

/// A printable ASCII character (`!` to `~`); never Unicode white space.
pub open spec fn is_ascii_graphic(c: char) -> bool {
    '!' <= c && c <= '~'
}

/// What `base64::engine::general_purpose::STANDARD.decode` returns for a text.
pub uninterp spec fn base64_standard_decoded(text: Seq<char>) -> Option<Seq<u8>>;

/// What `base64::engine::general_purpose::STANDARD.encode` returns for bytes.
pub uninterp spec fn base64_standard_encoded(bytes: Seq<u8>) -> Seq<char>;

/// What `base64::engine::general_purpose::URL_SAFE_NO_PAD.encode` returns for bytes.
pub uninterp spec fn base64_url_nopad_encoded(bytes: Seq<u8>) -> Seq<char>;

/// The AES-256-GCM ciphertext (with its 16-byte tag appended) that
/// `aes_gcm::Aes256Gcm` produces for a key, a nonce and a plaintext.
pub uninterp spec fn aes256gcm_sealed(key: Seq<u8>, nonce: Seq<u8>, plaintext: Seq<u8>) -> Seq<u8>;

/// What `aes_gcm::Aes256Gcm` decryption yields: the plaintext when the tag
/// authenticates under the key and nonce, nothing otherwise.
pub uninterp spec fn aes256gcm_opened(key: Seq<u8>, nonce: Seq<u8>, ciphertext: Seq<u8>) -> Option<Seq<u8>>;

/// The 32-byte Argon2id (version 0x13) output for the given memory cost (KiB),
/// iteration count, lane count, password and salt.
pub uninterp spec fn argon2id_key(m_cost: u32, t_cost: u32, p_cost: u32, password: Seq<u8>, salt: Seq<u8>) -> Seq<u8>;

/// The SHA-256 digest of a byte string.
pub uninterp spec fn sha256_digest(data: Seq<u8>) -> Seq<u8>;

/// Whether `argon2::Params::new` accepts these costs and output length
/// (argon2 0.5.3, `params.rs`).
pub open spec fn argon2_params_valid(m_cost: u32, t_cost: u32, p_cost: u32, output_len: usize) -> bool {
    &&& m_cost >= 8
    &&& m_cost >= 8 * p_cost
    &&& t_cost >= 1
    &&& 1 <= p_cost <= 0xFF_FFFF
    &&& 4 <= output_len <= 0xFFFF_FFFF
}

/// `base64::engine::general_purpose::STANDARD.decode`. Claims: the result is
/// the named decoding of the text, the error case being `None`.
#[verifier::external_body]
pub(crate) fn base64_decode(text: &str) -> (r: Option<Vec<u8>>)
    ensures
        base64_standard_decoded(text@) == (match r {
            Some(b) => Some(b@),
            None => None::<Seq<u8>>,
        }),
{
    base64::engine::general_purpose::STANDARD.decode(text).ok()
}

/// `base64::engine::general_purpose::STANDARD.encode`. Claims: the result is
/// the named encoding, it decodes back to the input, and it is made only of
/// the standard alphabet and `=` (all printable ASCII).
#[verifier::external_body]
pub(crate) fn base64_encode(bytes: &[u8]) -> (r: String)
    ensures
        r@ == base64_standard_encoded(bytes@),
        base64_standard_decoded(r@) == Some(bytes@),
        forall|i: int| 0 <= i < r@.len() ==> is_ascii_graphic(#[trigger] r@[i]),
{
    base64::engine::general_purpose::STANDARD.encode(bytes)
}

/// A character of the URL-safe base64 alphabet: `A`-`Z`, `a`-`z`, `0`-`9`,
/// `-` and `_`.
pub open spec fn is_base64url_char(c: char) -> bool {
    ||| 'A' <= c <= 'Z'
    ||| 'a' <= c <= 'z'
    ||| '0' <= c <= '9'
    ||| c == '-' || c == '_'
}

/// `base64::engine::general_purpose::URL_SAFE_NO_PAD.encode`. Claims: the
/// result is the named encoding, of length ceil(4n/3) for n input bytes, made
/// only of the URL-safe alphabet (no padding is written).
#[verifier::external_body]
pub(crate) fn base64_url_encode(bytes: &[u8]) -> (r: String)
    ensures
        r@ == base64_url_nopad_encoded(bytes@),
        r@.len() == (4 * bytes@.len() + 2) / 3,
        forall|i: int| 0 <= i < r@.len() ==> is_base64url_char(#[trigger] r@[i]),
{
    base64::engine::general_purpose::URL_SAFE_NO_PAD.encode(bytes)
}

/// `aes_gcm::Aes256Gcm::encrypt` (through `aead::Aead`). Claims: it succeeds
/// for plaintexts of at most 2^36 bytes; the ciphertext is the named sealing,
/// 16 bytes longer than the plaintext, and decrypting it under the same key
/// and nonce gives the plaintext back.
#[verifier::external_body]
pub(crate) fn aes256gcm_encrypt(key: &[u8; 32], nonce: &[u8; 12], plaintext: &[u8]) -> (r: Option<Vec<u8>>)
    ensures
        plaintext@.len() <= 0x10_0000_0000 ==> r is Some,
        r matches Some(c) ==> {
            &&& c@ == aes256gcm_sealed(key@, nonce@, plaintext@)
            &&& c@.len() == plaintext@.len() + 16
            &&& aes256gcm_opened(key@, nonce@, c@) == Some(plaintext@)
        },
{
    let cipher = aes_gcm::Aes256Gcm::new(aes_gcm::Key::<aes_gcm::Aes256Gcm>::from_slice(key));
    cipher.encrypt(aes_gcm::Nonce::from_slice(nonce), plaintext).ok()
}

/// `aes_gcm::Aes256Gcm::decrypt` (through `aead::Aead`). Claims: the result is
/// the named opening, the error case being `None`.
#[verifier::external_body]
pub(crate) fn aes256gcm_decrypt(key: &[u8; 32], nonce: &[u8], ciphertext: &[u8]) -> (r: Option<Vec<u8>>)
    requires
        nonce@.len() == 12,
    ensures
        aes256gcm_opened(key@, nonce@, ciphertext@) == (match r {
            Some(p) => Some(p@),
            None => None::<Seq<u8>>,
        }),
{
    let cipher = aes_gcm::Aes256Gcm::new(aes_gcm::Key::<aes_gcm::Aes256Gcm>::from_slice(key));
    cipher.decrypt(aes_gcm::Nonce::from_slice(nonce), ciphertext).ok()
}

/// `argon2::Params::new` with the given costs and output length, keeping only
/// whether it accepted them. Claims: it accepts exactly the costs of
/// `argon2_params_valid`. (The lane bound keeps `8 * p_cost` from overflowing.)
#[verifier::external_body]
pub(crate) fn argon2_params_check(m_cost: u32, t_cost: u32, p_cost: u32, output_len: usize) -> (r: Result<(), argon2::Error>)
    requires
        p_cost < 0x2000_0000,
    ensures
        r is Ok <==> argon2_params_valid(m_cost, t_cost, p_cost, output_len),
{
    argon2::Params::new(m_cost, t_cost, p_cost, Some(output_len)).map(|_| ())
}

/// `argon2::Argon2::hash_password_into` on an Argon2id, version 0x13 context
/// built from valid costs with a 32-byte output. Claims: it succeeds when the
/// password has at most 2^32 - 1 bytes and the salt between 8 and 2^32 - 1
/// bytes, and the key is the named Argon2id output.
#[verifier::external_body]
pub(crate) fn argon2id_hash(m_cost: u32, t_cost: u32, p_cost: u32, password: &[u8], salt: &[u8]) -> (r: Result<[u8; 32], argon2::Error>)
    requires
        argon2_params_valid(m_cost, t_cost, p_cost, 32),
    ensures
        password@.len() <= 0xFFFF_FFFF && 8 <= salt@.len() <= 0xFFFF_FFFF ==> r is Ok,
        r matches Ok(k) ==> k@ == argon2id_key(m_cost, t_cost, p_cost, password@, salt@),
{
    let params = argon2::Params::new(m_cost, t_cost, p_cost, Some(32))?;
    let argon = argon2::Argon2::new(argon2::Algorithm::Argon2id, argon2::Version::V0x13, params);
    let mut key = [0u8; 32];
    argon.hash_password_into(password, salt, &mut key)?;
    Ok(key)
}

/// `sha2::Sha256::digest`. Claims: the result is the named digest.
#[verifier::external_body]
pub(crate) fn sha256(data: &[u8]) -> (r: [u8; 32])
    ensures
        r@ == sha256_digest(data@),
{
    sha2::Sha256::digest(data).into()
}

/// `rand::RngCore::fill_bytes` on `rand::thread_rng()`, over a buffer of `n`
/// bytes. Claims only the length: the bytes are random.
#[verifier::external_body]
pub(crate) fn random_bytes(n: usize) -> (r: Vec<u8>)
    ensures
        r@.len() == n,
{
    let mut buf = vec![0u8; n];
    rand::thread_rng().fill_bytes(&mut buf);
    buf
}

/// `String::from_utf8`. Claims: it succeeds exactly on valid UTF-8 and then
/// holds the decoded characters.
#[verifier::external_body]
pub(crate) fn utf8_to_string(bytes: Vec<u8>) -> (r: Option<String>)
    ensures
        r is Some <==> valid_utf8(bytes@),
        r matches Some(s) ==> s@ == decode_utf8(bytes@),
{
    String::from_utf8(bytes).ok()
}

/// `zeroize::Zeroize::zeroize` on a 32-byte buffer. Claims: every byte is 0 afterwards.
#[verifier::external_body]
pub(crate) fn zeroize_32(buf: &mut [u8; 32])
    ensures
        forall|i: int| 0 <= i < 32 ==> final(buf)@[i] == 0u8,
        final(buf)@.len() == 32,
{
    zeroize::Zeroize::zeroize(buf)
}

/// `totp_rs::SecretParseError`, carried opaquely so its text can be reported.
#[verifier::external_type_specification]
#[verifier::external_body]
pub struct ExSecretParseError(totp_rs::SecretParseError);

/// `std::time::SystemTimeError`, carried opaquely so its text can be reported.
#[verifier::external_type_specification]
#[verifier::external_body]
pub struct ExSystemTimeError(std::time::SystemTimeError);

/// A character of the RFC 4648 base32 alphabet (`A`-`Z`, `2`-`7`).
pub open spec fn is_base32_char(c: char) -> bool {
    ('A' <= c && c <= 'Z') || ('2' <= c && c <= '7')
}

/// The bytes that RFC 4648 base32 decoding (no padding) yields for a text.
pub uninterp spec fn base32_decoded(text: Seq<char>) -> Option<Seq<u8>>;

/// The code that `totp_rs::TOTP` with SHA-1 and these settings generates for a
/// raw secret at a Unix time in seconds.
pub uninterp spec fn totp_sha1_code(digits: usize, skew: u8, step: u64, secret: Seq<u8>, time: u64) -> Seq<char>;

/// What `str::to_uppercase` returns for a text.
pub uninterp spec fn unicode_uppercase(text: Seq<char>) -> Seq<char>;

/// What `format!("{:?}", chars)` renders for a list of characters.
pub uninterp spec fn debug_char_list(chars: Seq<char>) -> Seq<char>;

/// A TOTP code: `digits` ASCII decimal digits.
pub open spec fn is_digit_code(code: Seq<char>, digits: usize) -> bool {
    &&& code.len() == digits
    &&& forall|i: int| 0 <= i < code.len() ==> '0' <= #[trigger] code[i] && code[i] <= '9'
}

/// `totp_rs::Secret::Encoded(..).to_bytes()`, which decodes RFC 4648 base32
/// without padding (through `base32::decode`). Claims: it succeeds exactly
/// when every character is in the base32 alphabet (base32 0.5.1 rejects any
/// other byte, `=` included), and the bytes are the named decoding.
#[verifier::external_body]
pub(crate) fn base32_secret_bytes(encoded: &str) -> (r: Result<Vec<u8>, totp_rs::SecretParseError>)
    ensures
        r is Ok <==> forall|i: int| 0 <= i < encoded@.len() ==> is_base32_char(#[trigger] encoded@[i]),
        r matches Ok(b) ==> base32_decoded(encoded@) == Some(b@),
{
    totp_rs::Secret::Encoded(encoded.to_string()).to_bytes()
}

/// `totp_rs::TOTP::generate` on a SHA-1 TOTP built by `TOTP::new_unchecked`.
/// Claims: the code is the named one and is `digits` decimal digits (the
/// source zero-pads `value % 10^digits` to `digits` places). The bounds keep
/// `10^digits` within `u32` and the step division defined.
#[verifier::external_body]
pub(crate) fn totp_sha1_generate(digits: usize, skew: u8, step: u64, secret: &[u8], time: u64) -> (r: String)
    requires
        1 <= digits <= 9,
        step > 0,
    ensures
        r@ == totp_sha1_code(digits, skew, step, secret@, time),
        is_digit_code(r@, digits),
{
    totp_rs::TOTP::new_unchecked(totp_rs::Algorithm::SHA1, digits, skew, step, secret.to_vec()).generate(time)
}

/// `totp_rs::TOTP::generate_current` on a SHA-1 TOTP built by
/// `TOTP::new_unchecked`. The time comes from the system clock, so the
/// contract claims only that a code is the named code at some time, and has
/// `digits` decimal digits.
#[verifier::external_body]
pub(crate) fn totp_sha1_generate_current(digits: usize, skew: u8, step: u64, secret: &[u8]) -> (r: Result<String, std::time::SystemTimeError>)
    requires
        1 <= digits <= 9,
        step > 0,
    ensures
        r matches Ok(c) ==> {
            &&& exists|t: u64| c@ == totp_sha1_code(digits, skew, step, secret@, t)
            &&& is_digit_code(c@, digits)
        },
{
    totp_rs::TOTP::new_unchecked(totp_rs::Algorithm::SHA1, digits, skew, step, secret.to_vec()).generate_current()
}

/// An ASCII character (code point below 128).
pub open spec fn is_ascii_char(c: char) -> bool {
    c <= '\u{7f}'
}

/// Every character of the text is ASCII.
pub open spec fn is_ascii_text(s: Seq<char>) -> bool {
    forall|i: int| 0 <= i < s.len() ==> is_ascii_char(#[trigger] s[i])
}

/// The uppercase of an ASCII character: `a`-`z` become `A`-`Z`, every other
/// character stays.
pub open spec fn ascii_upper_char(c: char) -> char {
    if 'a' <= c && c <= 'z' {
        ((c as int) - 32) as char
    } else {
        c
    }
}

/// A text with each character uppercased as ASCII.
pub open spec fn ascii_upper(s: Seq<char>) -> Seq<char> {
    s.map_values(|c: char| ascii_upper_char(c))
}

/// `str::to_uppercase`. Claims: the result is the named uppercasing; on ASCII
/// text it is the ASCII uppercasing (the Unicode uppercase mapping sends
/// `a`-`z` to `A`-`Z` and every other ASCII character to itself), which
/// uppercasing again leaves unchanged.
#[verifier::external_body]
pub(crate) fn str_to_uppercase(text: &str) -> (r: String)
    ensures
        r@ == unicode_uppercase(text@),
        is_ascii_text(text@) ==> r@ == ascii_upper(text@),
        is_ascii_text(text@) ==> unicode_uppercase(r@) == r@,
{
    text.to_uppercase()
}

/// `String::push`. Claims: the character is appended.
#[verifier::external_body]
pub(crate) fn string_push(s: &mut String, c: char)
    ensures
        final(s)@ == old(s)@.push(c),
{
    s.push(c)
}

/// `format!("{:?}", chars)` for a list of characters. Claims: the result is
/// the named rendering.
#[verifier::external_body]
pub(crate) fn debug_chars(chars: &Vec<char>) -> (r: String)
    ensures
        r@ == debug_char_list(chars@),
{
    format!("{:?}", chars)
}

/// `serde_json::Error`, carried opaquely so its text can be reported.
#[verifier::external_type_specification]
#[verifier::external_body]
pub struct ExJsonError(serde_json::Error);

/// The `services` of a 2FAS backup as `serde_json` reads them: `None` when
/// `serde_json` rejects the text; then `None` when there is no `services`
/// array; else, for each element, its `name` and `secret` members when they
/// are strings.
pub uninterp spec fn two_fas_services(content: Seq<char>) -> Option<Option<Seq<(Option<Seq<char>>, Option<Seq<char>>)>>>;

/// `serde_json::from_str::<serde_json::Value>` followed by the member reads
/// `get("services")`, `as_array`, `get("name")`/`get("secret")` and `as_str`.
/// Claims: the result is the named reading, the parse error case included.
#[verifier::external_body]
pub(crate) fn parse_two_fas(content: &str) -> (r: Result<Option<Vec<crate::types::TwoFasService>>, serde_json::Error>)
    ensures
        two_fas_services(content@) == (match r {
            Ok(Some(v)) => Some(Some(crate::types::services_view(v@))),
            Ok(None) => Some(None),
            Err(_) => None::<Option<Seq<(Option<Seq<char>>, Option<Seq<char>>)>>>,
        }),
{
    let json: serde_json::Value = serde_json::from_str(content)?;
    Ok(json.get("services").and_then(|s| s.as_array()).map(|services| {
        services.iter().map(|service| crate::types::TwoFasService {
            name: service.get("name").and_then(|n| n.as_str()).map(|n| n.to_string()),
            secret: service.get("secret").and_then(|s| s.as_str()).map(|s| s.to_string()),
        }).collect()
    }))
}

/// `uuid::Uuid::new_v4().to_string()`. The id is random, so the contract
/// claims only its hyphenated length of 36 characters.
#[verifier::external_body]
pub(crate) fn new_uuid() -> (r: String)
    ensures
        r@.len() == 36,
{
    uuid::Uuid::new_v4().to_string()
}

/// A byte that `urlencoding` leaves as it is: an ASCII alphanumeric or one of
/// `-`, `.`, `_`, `~`.
pub open spec fn is_url_safe_byte(b: u8) -> bool {
    ||| 0x30 <= b <= 0x39
    ||| 0x41 <= b <= 0x5A
    ||| 0x61 <= b <= 0x7A
    ||| b == 0x2D || b == 0x2E || b == 0x5F || b == 0x7E
}

/// An uppercase hexadecimal digit for a value below 16.
pub open spec fn upper_hex_digit(d: int) -> char {
    if d < 10 {
        (0x30 + d) as char
    } else {
        (0x41 - 10 + d) as char
    }
}

/// Percent-encoding of bytes: each safe byte as its character, every other
/// byte as `%` and two uppercase hexadecimal digits.
pub open spec fn percent_encode_bytes(bytes: Seq<u8>) -> Seq<char>
    decreases bytes.len(),
{
    if bytes.len() == 0 {
        Seq::empty()
    } else {
        let b = bytes.last();
        percent_encode_bytes(bytes.drop_last()) + if is_url_safe_byte(b) {
            seq![b as char]
        } else {
            seq!['%', upper_hex_digit((b / 16) as int), upper_hex_digit((b % 16) as int)]
        }
    }
}

/// What `urlencoding::encode` returns: the percent-encoding of the text's
/// UTF-8 bytes.
pub open spec fn percent_encoded(text: Seq<char>) -> Seq<char> {
    percent_encode_bytes(encode_utf8(text))
}

/// The value of a hexadecimal digit byte (`0`-`9`, `A`-`F`, `a`-`f`), if it
/// is one.
pub open spec fn hex_value(b: u8) -> Option<int> {
    if 0x30 <= b <= 0x39 {
        Some(b - 0x30)
    } else if 0x41 <= b <= 0x46 {
        Some(b - 0x41 + 10)
    } else if 0x61 <= b <= 0x66 {
        Some(b - 0x61 + 10)
    } else {
        None
    }
}

/// Percent-decoding of bytes: `%` followed by two hex digits becomes the byte
/// they spell; every other byte, a `%` that starts no such triple included,
/// stays as it is. `+` is not turned into a space.
pub open spec fn percent_decode_bytes(b: Seq<u8>) -> Seq<u8>
    decreases b.len(),
{
    if b.len() == 0 {
        b
    } else if b[0] == 0x25 && b.len() >= 3 && hex_value(b[1]) is Some && hex_value(b[2]) is Some {
        seq![(16 * hex_value(b[1])->0 + hex_value(b[2])->0) as u8] + percent_decode_bytes(
            b.skip(3),
        )
    } else {
        seq![b[0]] + percent_decode_bytes(b.skip(1))
    }
}

/// What `urlencoding::decode` returns: the text whose UTF-8 bytes are the
/// percent-decoding of the input's, or nothing when those bytes are not UTF-8.
pub open spec fn percent_decoded(text: Seq<char>) -> Option<Seq<char>> {
    let bytes = percent_decode_bytes(encode_utf8(text));
    if valid_utf8(bytes) {
        Some(decode_utf8(bytes))
    } else {
        None
    }
}

/// `urlencoding::encode`. Claims: every byte of the text's UTF-8 encoding
/// except ASCII alphanumerics and `-`, `.`, `_`, `~` becomes `%` and two
/// uppercase hex digits (`enc.rs`, `encode_into` and `to_hex_digit`).
#[verifier::external_body]
pub(crate) fn url_encode(text: &str) -> (r: String)
    ensures
        r@ == percent_encoded(text@),
{
    urlencoding::encode(text).into_owned()
}

/// `urlencoding::decode`. Claims: the bytes are percent-decoded as in
/// `dec.rs` (`decode_binary`: a `%` not followed by two hex digits is kept,
/// and so are the bytes after it), then read as UTF-8, the error case being
/// `None`. A text without `%` comes back as it is, which the same formula
/// gives.
#[verifier::external_body]
pub(crate) fn url_decode(text: &str) -> (r: Option<String>)
    ensures
        percent_decoded(text@) == (match r {
            Some(s) => Some(s@),
            None => None::<Seq<char>>,
        }),
{
    urlencoding::decode(text).ok().map(|s| s.into_owned())
}

} // verus!
