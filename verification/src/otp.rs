//! TOTP secrets: cleaning, validation and code generation (SHA-1, 6 digits,
//! 30-second steps).

use vstd::prelude::*;
use vstd::utf8::encode_utf8;

use crate::primitives::{
    ascii_upper, is_ascii_char, is_ascii_text, base32_decoded, base32_secret_bytes, debug_char_list, debug_chars, is_base32_char,
    is_digit_code, str_to_uppercase, string_push, totp_sha1_code, totp_sha1_generate,
    totp_sha1_generate_current, unicode_uppercase,
};
use crate::types::{prefixed, AppError, ErrorView};

verus! {

/// Digits per code.
pub const CODE_DIGITS: usize = 6;
/// Accepted clock skew, in steps.
pub const CODE_SKEW: u8 = 1;
/// Seconds per code.
pub const CODE_STEP: u64 = 30;

/// Separators that people type inside secrets and that carry no data.
pub open spec fn is_separator(c: char) -> bool {
    c == ' ' || c == '-' || c == '='
}

/// The text with every separator removed.
pub open spec fn strip_separators(s: Seq<char>) -> Seq<char>
    decreases s.len(),
{
    if s.len() == 0 {
        s
    } else if is_separator(s.last()) {
        strip_separators(s.drop_last())
    } else {
        strip_separators(s.drop_last()).push(s.last())
    }
}

/// The characters of a text outside the base32 alphabet, in order.
pub open spec fn non_base32(s: Seq<char>) -> Seq<char>
    decreases s.len(),
{
    if s.len() == 0 {
        s
    } else if is_base32_char(s.last()) {
        non_base32(s.drop_last())
    } else {
        non_base32(s.drop_last()).push(s.last())
    }
}

/// A secret as the generator reads it: separators removed, uppercased.
pub open spec fn cleaned(secret: Seq<char>) -> Seq<char> {
    unicode_uppercase(strip_separators(secret))
}

/// Every character of the text is in the base32 alphabet.
pub open spec fn all_base32(s: Seq<char>) -> bool {
    forall|i: int| 0 <= i < s.len() ==> is_base32_char(#[trigger] s[i])
}

/// What `validate_secret` reports for a secret.
pub open spec fn secret_check(secret: Seq<char>) -> Result<(), ErrorView> {
    let c = cleaned(secret);
    if c.len() == 0 {
        Err(ErrorView::InvalidSecret("Chave secreta vazia"@))
    } else if encode_utf8(c).len() < 16 {
        Err(ErrorView::InvalidSecret("Chave secreta muito curta (mínimo 16 caracteres)"@))
    } else if !all_base32(c) {
        Err(
            ErrorView::InvalidSecret(
                "Caracteres inválidos na chave: "@ + debug_char_list(non_base32(c))
                    + ". Use apenas A-Z e 2-7"@,
            ),
        )
    } else {
        Ok(())
    }
}

/// A secret that `validate_secret` accepts.
pub open spec fn secret_is_valid(secret: Seq<char>) -> bool {
    secret_check(secret) is Ok
}

/// A secret that codes can be generated from: once cleaned, it is non-empty
/// and all base32.
pub open spec fn has_code(secret: Seq<char>) -> bool {
    cleaned(secret).len() > 0 && all_base32(cleaned(secret))
}

/// The code for a secret at a Unix time; none for an empty secret or one
/// with characters outside the base32 alphabet.
pub open spec fn code_at(secret: Seq<char>, time: u64) -> Option<Seq<char>> {
    let c = cleaned(secret);
    if !has_code(secret) {
        None
    } else {
        Some(totp_sha1_code(CODE_DIGITS, CODE_SKEW, CODE_STEP, base32_decoded(c)->0, time))
    }
}

/// A secret that validation accepts always has a code: at every time,
/// generation neither finds it empty nor fails to decode it.
pub proof fn lemma_valid_secret_has_codes(secret: Seq<char>, time: u64)
    requires
        secret_is_valid(secret),
    ensures
        has_code(secret),
        code_at(secret, time) is Some,
{
}

/// The generator; it holds no state.
pub struct OtpGenerator;

impl OtpGenerator {
    pub fn new() -> (r: OtpGenerator)
        ensures
            r == OtpGenerator,
    {
        OtpGenerator
    }

    /// The code for `secret` at the current system time.
    ///
    /// An empty secret and one that is not base32 are refused before the
    /// clock is read; otherwise only reading the clock can fail.
    pub fn generate_code(&self, secret: &str) -> (r: Result<String, AppError>)
        ensures
            cleaned(secret@).len() == 0 ==> (r matches Err(e) && e@ == ErrorView::InvalidSecret(
                "Empty secret"@,
            )),
            cleaned(secret@).len() > 0 && !has_code(secret@) ==> (r matches Err(e) && exists|
                m: Seq<char>,
            | e@ == ErrorView::InvalidSecret("Invalid Base32 secret: "@ + m)),
            has_code(secret@) ==> (r matches Err(e) ==> exists|m: Seq<char>|
                e@ == ErrorView::InvalidSecret("Failed to generate code: "@ + m)),
            r matches Ok(code) ==> {
                &&& exists|t: u64| Some(code@) == code_at(secret@, t)
                &&& is_digit_code(code@, CODE_DIGITS)
            },
            r matches Err(e) ==> e@ is InvalidSecret,
    {
        let clean_secret = self.clean_secret(secret);
        if clean_secret.unicode_len() == 0 {
            return Err(AppError::InvalidSecret(String::from_str("Empty secret")));
        }
        let secret_bytes = match base32_secret_bytes(clean_secret.as_str()) {
            Ok(b) => b,
            Err(e) => {
                let text = e.to_string();
                return Err(AppError::InvalidSecret(prefixed("Invalid Base32 secret: ", text.as_str())));
            },
        };
        match totp_sha1_generate_current(CODE_DIGITS, CODE_SKEW, CODE_STEP, secret_bytes.as_slice()) {
            Ok(code) => {
                proof {
                    let t = choose|t: u64|
                        code@ == totp_sha1_code(CODE_DIGITS, CODE_SKEW, CODE_STEP, secret_bytes@, t);
                    assert(Some(code@) == code_at(secret@, t));
                }
                Ok(code)
            },
            Err(e) => {
                let text = e.to_string();
                Err(AppError::InvalidSecret(prefixed("Failed to generate code: ", text.as_str())))
            },
        }
    }

    /// The code for `secret` at the Unix time `time` (seconds).
    pub fn generate_code_at(&self, secret: &str, time: u64) -> (r: Result<String, AppError>)
        ensures
            r is Ok <==> has_code(secret@),
            r matches Ok(code) ==> Some(code@) == code_at(secret@, time) && is_digit_code(
                code@,
                CODE_DIGITS,
            ),
            cleaned(secret@).len() == 0 ==> (r matches Err(e) && e@ == ErrorView::InvalidSecret(
                "Empty secret"@,
            )),
            cleaned(secret@).len() > 0 && !has_code(secret@) ==> (r matches Err(e) && exists|
                m: Seq<char>,
            | e@ == ErrorView::InvalidSecret("Invalid Base32 secret: "@ + m)),
            r matches Err(e) ==> e@ is InvalidSecret,
    {
        let clean_secret = self.clean_secret(secret);
        if clean_secret.unicode_len() == 0 {
            return Err(AppError::InvalidSecret(String::from_str("Empty secret")));
        }
        let secret_bytes = match base32_secret_bytes(clean_secret.as_str()) {
            Ok(b) => b,
            Err(e) => {
                let text = e.to_string();
                return Err(AppError::InvalidSecret(prefixed("Invalid Base32 secret: ", text.as_str())));
            },
        };
        Ok(totp_sha1_generate(CODE_DIGITS, CODE_SKEW, CODE_STEP, secret_bytes.as_slice(), time))
    }

    /// Remove spaces, dashes and padding, then uppercase.
    ///
    /// An ASCII secret, once cleaned, is clean: cleaning it again changes
    /// nothing, so validating it gives what validating the original gives.
    pub fn clean_secret(&self, secret: &str) -> (r: String)
        ensures
            r@ == cleaned(secret@),
            is_ascii_text(secret@) ==> r@ == ascii_upper(
                secret@.filter(|c: char| c != ' ' && c != '-' && c != '='),
            ),
            all_base32(secret@) ==> r@ == secret@,
            is_ascii_text(secret@) ==> cleaned(r@) == r@,
            is_ascii_text(secret@) ==> secret_check(r@) == secret_check(secret@),
    {
        let n = secret.unicode_len();
        let mut out = String::new();
        let mut i: usize = 0;
        while i < n
            invariant
                i <= n,
                n == secret@.len(),
                out@ == strip_separators(secret@.take(i as int)),
            decreases n - i,
        {
            let c = secret.get_char(i);
            assert(secret@.take(i + 1).drop_last() =~= secret@.take(i as int));
            if !(c == ' ' || c == '-' || c == '=') {
                string_push(&mut out, c);
            }
            i = i + 1;
        }
        assert(secret@.take(n as int) =~= secret@);
        let r = str_to_uppercase(out.as_str());
        proof {
            lemma_strip_is_filter(secret@);
            if all_base32(secret@) {
                lemma_base32_text_is_clean(secret@);
            }
            if is_ascii_text(secret@) {
                lemma_strip_keeps_ascii(secret@);
                lemma_strip_leaves_no_separator(secret@);
                lemma_ascii_upper_adds_no_separator(out@);
                lemma_strip_without_separators(r@);
            }
        }
        r
    }

    /// Check that a secret is a usable base32 TOTP key.
    pub fn validate_secret(&self, secret: &str) -> (r: Result<(), AppError>)
        ensures
            secret_check(secret@) == (match r {
                Ok(()) => Ok(()),
                Err(e) => Err(e@),
            }),
    {
        let clean_secret = self.clean_secret(secret);
        if clean_secret.unicode_len() == 0 {
            return Err(AppError::InvalidSecret(String::from_str("Chave secreta vazia")));
        }
        if clean_secret.as_str().as_bytes().len() < 16 {
            return Err(
                AppError::InvalidSecret(
                    String::from_str("Chave secreta muito curta (mínimo 16 caracteres)"),
                ),
            );
        }
        let invalid_chars = invalid_base32_chars(clean_secret.as_str());
        if invalid_chars.len() > 0 {
            proof {
                lemma_non_base32_empty(clean_secret@);
            }
            let listed = debug_chars(&invalid_chars);
            let mut message = prefixed("Caracteres inválidos na chave: ", listed.as_str());
            message.append(". Use apenas A-Z e 2-7");
            return Err(AppError::InvalidSecret(message));
        }
        proof {
            lemma_non_base32_empty(clean_secret@);
        }
        match base32_secret_bytes(clean_secret.as_str()) {
            Ok(_) => Ok(()),
            Err(e) => {
                let text = e.to_string();
                Err(AppError::InvalidSecret(prefixed("Chave Base32 inválida: ", text.as_str())))
            },
        }
    }
}

/// Removing separators drops exactly the spaces, dashes and `=` signs: every
/// other character stays, in order.
pub proof fn lemma_strip_is_filter(s: Seq<char>)
    ensures
        strip_separators(s) == s.filter(|c: char| c != ' ' && c != '-' && c != '='),
    decreases s.len(),
{
    reveal(Seq::filter);
    if s.len() > 0 {
        lemma_strip_is_filter(s.drop_last());
    }
}

/// A text of base32 characters only is already clean: it is ASCII, keeps
/// every character when separators are removed, and uppercasing it as ASCII
/// changes nothing.
pub proof fn lemma_base32_text_is_clean(s: Seq<char>)
    requires
        all_base32(s),
    ensures
        is_ascii_text(s),
        s.filter(|c: char| c != ' ' && c != '-' && c != '=') == s,
        ascii_upper(s) == s,
    decreases s.len(),
{
    assert forall|i: int| 0 <= i < s.len() implies is_ascii_char(#[trigger] s[i]) by {
        assert(is_base32_char(s[i]));
    }
    assert(ascii_upper(s) =~= s) by {
        assert forall|i: int| 0 <= i < s.len() implies ascii_upper(s)[i] == s[i] by {
            assert(is_base32_char(s[i]));
        }
    }
    reveal(Seq::filter);
    if s.len() > 0 {
        assert(all_base32(s.drop_last())) by {
            assert forall|i: int| 0 <= i < s.drop_last().len() implies is_base32_char(
                #[trigger] s.drop_last()[i],
            ) by {
                assert(s.drop_last()[i] == s[i]);
            }
        }
        lemma_base32_text_is_clean(s.drop_last());
        assert(is_base32_char(s[s.len() - 1]));
        assert(s.drop_last().push(s.last()) =~= s);
    }
}

/// The text has no separator.
pub open spec fn no_separator(s: Seq<char>) -> bool {
    forall|i: int| 0 <= i < s.len() ==> !is_separator(#[trigger] s[i])
}

/// Removing separators from ASCII text leaves ASCII text.
proof fn lemma_strip_keeps_ascii(s: Seq<char>)
    requires
        is_ascii_text(s),
    ensures
        is_ascii_text(strip_separators(s)),
    decreases s.len(),
{
    if s.len() > 0 {
        assert(is_ascii_text(s.drop_last())) by {
            assert forall|i: int| 0 <= i < s.drop_last().len() implies is_ascii_char(
                #[trigger] s.drop_last()[i],
            ) by {
                assert(s.drop_last()[i] == s[i]);
            }
        }
        lemma_strip_keeps_ascii(s.drop_last());
        assert(is_ascii_char(s[s.len() - 1]));
        let t = strip_separators(s.drop_last());
        assert forall|i: int| 0 <= i < t.push(s.last()).len() implies is_ascii_char(
            #[trigger] t.push(s.last())[i],
        ) by {
            if i < t.len() {
                assert(t.push(s.last())[i] == t[i]);
            }
        }
    }
}

/// No separator is left once they are removed.
proof fn lemma_strip_leaves_no_separator(s: Seq<char>)
    ensures
        no_separator(strip_separators(s)),
    decreases s.len(),
{
    if s.len() > 0 {
        lemma_strip_leaves_no_separator(s.drop_last());
        let t = strip_separators(s.drop_last());
        if !is_separator(s.last()) {
            assert forall|i: int| 0 <= i < t.push(s.last()).len() implies !is_separator(
                #[trigger] t.push(s.last())[i],
            ) by {
                if i < t.len() {
                    assert(t.push(s.last())[i] == t[i]);
                }
            }
        }
    }
}

/// ASCII uppercasing turns no character into a separator.
proof fn lemma_ascii_upper_adds_no_separator(s: Seq<char>)
    requires
        no_separator(s),
    ensures
        no_separator(ascii_upper(s)),
{
    assert forall|i: int| 0 <= i < ascii_upper(s).len() implies !is_separator(
        #[trigger] ascii_upper(s)[i],
    ) by {
        assert(!is_separator(s[i]));
    }
}

/// Removing separators from a text that has none changes nothing.
proof fn lemma_strip_without_separators(s: Seq<char>)
    requires
        no_separator(s),
    ensures
        strip_separators(s) == s,
    decreases s.len(),
{
    if s.len() > 0 {
        assert(no_separator(s.drop_last())) by {
            assert forall|i: int| 0 <= i < s.drop_last().len() implies !is_separator(
                #[trigger] s.drop_last()[i],
            ) by {
                assert(s.drop_last()[i] == s[i]);
            }
        }
        lemma_strip_without_separators(s.drop_last());
        assert(!is_separator(s[s.len() - 1]));
        assert(s.drop_last().push(s.last()) =~= s);
    }
}

/// A text has no character outside the base32 alphabet exactly when the list
/// of such characters is empty.
pub proof fn lemma_non_base32_empty(s: Seq<char>)
    ensures
        (non_base32(s).len() == 0) == all_base32(s),
    decreases s.len(),
{
    if s.len() > 0 {
        lemma_non_base32_empty(s.drop_last());
        if all_base32(s) {
            assert(all_base32(s.drop_last())) by {
                assert forall|i: int| 0 <= i < s.drop_last().len() implies is_base32_char(
                    #[trigger] s.drop_last()[i],
                ) by {
                    assert(s.drop_last()[i] == s[i]);
                }
            }
            assert(is_base32_char(s[s.len() - 1]));
        } else {
            let i = choose|i: int| 0 <= i < s.len() && !is_base32_char(#[trigger] s[i]);
            if i < s.len() - 1 {
                assert(s.drop_last()[i] == s[i]);
            }
        }
    }
}

/// The characters of `s` outside the base32 alphabet, in order.
fn invalid_base32_chars(s: &str) -> (r: Vec<char>)
    ensures
        r@ == non_base32(s@),
{
    let n = s.unicode_len();
    let mut out: Vec<char> = Vec::new();
    let mut i: usize = 0;
    while i < n
        invariant
            i <= n,
            n == s@.len(),
            out@ == non_base32(s@.take(i as int)),
        decreases n - i,
    {
        let c = s.get_char(i);
        assert(s@.take(i + 1).drop_last() =~= s@.take(i as int));
        if !(('A' <= c && c <= 'Z') || ('2' <= c && c <= '7')) {
            out.push(c);
        }
        i = i + 1;
    }
    assert(s@.take(n as int) =~= s@);
    out
}

impl Default for OtpGenerator {
    fn default() -> (r: OtpGenerator)
        ensures
            r == OtpGenerator,
    {
        OtpGenerator::new()
    }
}

} // verus!
