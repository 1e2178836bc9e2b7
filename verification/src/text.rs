//! Character classes and trimming, as `str::trim` and `char::is_whitespace`
//! define them (Unicode `White_Space`).

use vstd::prelude::*;

verus! {

/// Unicode `White_Space`, the property behind `char::is_whitespace`.
pub open spec fn is_white_space(c: char) -> bool {
    let u = c as u32;
    ||| 0x09 <= u <= 0x0D
    ||| u == 0x20
    ||| u == 0x85
    ||| u == 0xA0
    ||| u == 0x1680
    ||| 0x2000 <= u <= 0x200A
    ||| u == 0x2028
    ||| u == 0x2029
    ||| u == 0x202F
    ||| u == 0x205F
    ||| u == 0x3000
}

/// Whether `c` is Unicode white space.
pub fn is_white_space_char(c: char) -> (b: bool)
    ensures
        b == is_white_space(c),
{
    let u = c as u32;
    (0x09 <= u && u <= 0x0D) || u == 0x20 || u == 0x85 || u == 0xA0 || u == 0x1680 || (0x2000 <= u
        && u <= 0x200A) || u == 0x2028 || u == 0x2029 || u == 0x202F || u == 0x205F || u == 0x3000
}

/// The text without its leading white space.
pub open spec fn trim_start(s: Seq<char>) -> Seq<char>
    decreases s.len(),
{
    if s.len() > 0 && is_white_space(s[0]) {
        trim_start(s.drop_first())
    } else {
        s
    }
}

/// The text without its trailing white space.
pub open spec fn trim_end(s: Seq<char>) -> Seq<char>
    decreases s.len(),
{
    if s.len() > 0 && is_white_space(s.last()) {
        trim_end(s.drop_last())
    } else {
        s
    }
}

/// The text without leading and trailing white space (`str::trim`).
pub open spec fn trim_text(s: Seq<char>) -> Seq<char> {
    trim_end(trim_start(s))
}

/// `trim_start` of the text from `i` on equals `trim_start` of the whole text
/// when everything before `i` is white space.
proof fn lemma_trim_start_skip(s: Seq<char>, i: int)
    requires
        0 <= i <= s.len(),
        forall|j: int| 0 <= j < i ==> is_white_space(#[trigger] s[j]),
    ensures
        trim_start(s) == trim_start(s.skip(i)),
    decreases i,
{
    if i > 0 {
        assert(s.drop_first().skip(i - 1) =~= s.skip(i));
        assert forall|j: int| 0 <= j < i - 1 implies is_white_space(#[trigger] s.drop_first()[j]) by {
            assert(s.drop_first()[j] == s[j + 1]);
        }
        lemma_trim_start_skip(s.drop_first(), i - 1);
    } else {
        assert(s.skip(0) =~= s);
    }
}

/// `trim_end` of a text equals `trim_end` of its prefix up to `b` when
/// everything from `b` on is white space.
proof fn lemma_trim_end_take(s: Seq<char>, b: int)
    requires
        0 <= b <= s.len(),
        forall|j: int| b <= j < s.len() ==> is_white_space(#[trigger] s[j]),
    ensures
        trim_end(s) == trim_end(s.take(b)),
    decreases s.len() - b,
{
    if b < s.len() {
        assert(s.drop_last().take(b) =~= s.take(b));
        lemma_trim_end_take(s.drop_last(), b);
    } else {
        assert(s.take(b) =~= s);
    }
}

/// A text that neither starts nor ends with white space is its own trim.
pub proof fn lemma_trim_identity(s: Seq<char>)
    requires
        s.len() > 0 ==> !is_white_space(s[0]) && !is_white_space(s.last()),
    ensures
        trim_text(s) == s,
{
}

/// The text without leading and trailing Unicode white space.
pub fn trim(s: &str) -> (r: &str)
    ensures
        r@ == trim_text(s@),
{
    let n = s.unicode_len();
    let mut a: usize = 0;
    while a < n && is_white_space_char(s.get_char(a))
        invariant
            a <= n,
            n == s@.len(),
            forall|j: int| 0 <= j < a ==> is_white_space(#[trigger] s@[j]),
        decreases n - a,
    {
        a = a + 1;
    }
    proof {
        lemma_trim_start_skip(s@, a as int);
    }
    assert(trim_start(s@) == s@.skip(a as int));
    let mut b: usize = n;
    while b > a && is_white_space_char(s.get_char(b - 1))
        invariant
            a <= b <= n,
            n == s@.len(),
            forall|j: int| b <= j < n ==> is_white_space(#[trigger] s@[j]),
        decreases b,
    {
        b = b - 1;
    }
    let ghost rest = s@.skip(a as int);
    proof {
        assert forall|j: int| b - a <= j < rest.len() implies is_white_space(#[trigger] rest[j]) by {
            assert(rest[j] == s@[a + j]);
        }
        lemma_trim_end_take(rest, b - a);
        assert(rest.take(b - a) =~= s@.subrange(a as int, b as int));
    }
    s.substring_char(a, b)
}

/// Whether a text is empty once trimmed.
pub fn is_blank(s: &str) -> (r: bool)
    ensures
        r == (trim_text(s@).len() == 0),
{
    trim(s).unicode_len() == 0
}

/// Whether two texts are equal, character by character.
pub fn str_eq(a: &str, b: &str) -> (r: bool)
    ensures
        r == (a@ == b@),
{
    let n = a.unicode_len();
    if n != b.unicode_len() {
        return false;
    }
    let mut i: usize = 0;
    while i < n
        invariant
            i <= n,
            n == a@.len(),
            n == b@.len(),
            forall|j: int| 0 <= j < i ==> a@[j] == b@[j],
        decreases n - i,
    {
        if a.get_char(i) != b.get_char(i) {
            return false;
        }
        i = i + 1;
    }
    assert(a@ =~= b@);
    true
}

/// The characters of a text, in order.
pub fn chars_of(s: &str) -> (r: Vec<char>)
    ensures
        r@ == s@,
{
    let n = s.unicode_len();
    let mut out: Vec<char> = Vec::new();
    let mut i: usize = 0;
    while i < n
        invariant
            i <= n,
            n == s@.len(),
            out@ == s@.take(i as int),
        decreases n - i,
    {
        out.push(s.get_char(i));
        i = i + 1;
        assert(out@ =~= s@.take(i as int));
    }
    assert(s@.take(n as int) =~= s@);
    out
}

/// A `String` holding the characters `chars[from..to]`.
pub fn string_of(chars: &Vec<char>, from: usize, to: usize) -> (r: String)
    requires
        from <= to <= chars@.len(),
    ensures
        r@ == chars@.subrange(from as int, to as int),
{
    let mut out = String::new();
    let mut i: usize = from;
    while i < to
        invariant
            from <= i <= to,
            to <= chars@.len(),
            out@ == chars@.subrange(from as int, i as int),
        decreases to - i,
    {
        crate::primitives::string_push(&mut out, chars[i]);
        i = i + 1;
        assert(out@ =~= chars@.subrange(from as int, i as int));
    }
    out
}

/// The number of leading characters that satisfy `p`.
pub open spec fn prefix_len(s: Seq<char>, p: spec_fn(char) -> bool) -> nat
    decreases s.len(),
{
    if s.len() > 0 && p(s[0]) {
        1 + prefix_len(s.drop_first(), p)
    } else {
        0
    }
}

/// `prefix_len` is at most the length.
pub proof fn lemma_prefix_len_bound(s: Seq<char>, p: spec_fn(char) -> bool)
    ensures
        prefix_len(s, p) <= s.len(),
    decreases s.len(),
{
    if s.len() > 0 && p(s[0]) {
        lemma_prefix_len_bound(s.drop_first(), p);
    }
}

/// `prefix_len` is the first position whose character fails `p`.
pub proof fn lemma_prefix_len_at(s: Seq<char>, p: spec_fn(char) -> bool, i: int)
    requires
        0 <= i <= s.len(),
        forall|j: int| 0 <= j < i ==> p(#[trigger] s[j]),
        i < s.len() ==> !p(s[i]),
    ensures
        prefix_len(s, p) == i,
    decreases i,
{
    if i > 0 {
        assert forall|j: int| 0 <= j < i - 1 implies p(#[trigger] s.drop_first()[j]) by {
            assert(s.drop_first()[j] == s[j + 1]);
        }
        if i - 1 < s.len() - 1 {
            assert(s.drop_first()[i - 1] == s[i]);
        }
        lemma_prefix_len_at(s.drop_first(), p, i - 1);
    }
}

/// The position of the first `c` in `s`, or `s.len()` when there is none.
pub open spec fn find_char(s: Seq<char>, c: char) -> nat {
    prefix_len(s, other_than(c))
}

/// The test "is not `c`".
pub open spec fn other_than(c: char) -> spec_fn(char) -> bool {
    |x: char| x != c
}

/// The number of leading white-space characters.
pub open spec fn ws_len(s: Seq<char>) -> nat {
    prefix_len(s, |x: char| is_white_space(x))
}

/// The number of leading characters up to the first white space.
pub open spec fn word_len(s: Seq<char>) -> nat {
    prefix_len(s, |x: char| !is_white_space(x))
}

/// The first position in `chars[from..to]` holding `c`, or `to`.
pub fn find_in(chars: &Vec<char>, from: usize, to: usize, c: char) -> (r: usize)
    requires
        from <= to <= chars@.len(),
    ensures
        from <= r <= to,
        r - from == find_char(chars@.subrange(from as int, to as int), c),
{
    let ghost s = chars@.subrange(from as int, to as int);
    let mut i: usize = from;
    while i < to && chars[i] != c
        invariant
            from <= i <= to,
            to <= chars@.len(),
            s == chars@.subrange(from as int, to as int),
            forall|j: int| 0 <= j < i - from ==> s[j] != c,
        decreases to - i,
    {
        i = i + 1;
    }
    proof {
        lemma_prefix_len_at(s, other_than(c), i - from);
    }
    i
}

/// The first position in `chars[from..to]` whose white-space-ness is not
/// `white`, or `to`.
pub fn skip_class(chars: &Vec<char>, from: usize, to: usize, white: bool) -> (r: usize)
    requires
        from <= to <= chars@.len(),
    ensures
        from <= r <= to,
        white ==> r - from == ws_len(chars@.subrange(from as int, to as int)),
        !white ==> r - from == word_len(chars@.subrange(from as int, to as int)),
{
    let ghost s = chars@.subrange(from as int, to as int);
    let mut i: usize = from;
    while i < to && is_white_space_char(chars[i]) == white
        invariant
            from <= i <= to,
            to <= chars@.len(),
            s == chars@.subrange(from as int, to as int),
            forall|j: int| 0 <= j < i - from ==> is_white_space(#[trigger] s[j]) == white,
        decreases to - i,
    {
        i = i + 1;
    }
    proof {
        if white {
            lemma_prefix_len_at(s, |x: char| is_white_space(x), i - from);
        } else {
            lemma_prefix_len_at(s, |x: char| !is_white_space(x), i - from);
        }
    }
    i
}

} // verus!
