//! Character-level helpers shared by the lexer, parser, transforms and emitter.
//!
//! All text is handled as sequences of `char`; a `&str` is turned into a
//! `Vec<char>` once, and results are turned back into `String`s at the edge.
use vstd::prelude::*;
use vstd::utf8::{
    char_is_scalar, encode_scalar, encode_utf8, encode_utf8_first_scalar, encode_utf8_valid_utf8,
    is_char_boundary, pop_first_scalar,
};

verus! {

// ---------------------------------------------------------------------------
// ASCII classification (the `u8::is_ascii_*` family, stated on characters)
// ---------------------------------------------------------------------------

pub open spec fn ascii_digit(c: char) -> bool {
    '0' <= c && c <= '9'
}

pub open spec fn ascii_alpha(c: char) -> bool {
    ('a' <= c && c <= 'z') || ('A' <= c && c <= 'Z')
}

pub open spec fn ascii_alphanumeric(c: char) -> bool {
    ascii_alpha(c) || ascii_digit(c)
}

/// `' '`, `'\t'`, `'\n'`, form feed and `'\r'`, as `u8::is_ascii_whitespace` defines it.
pub open spec fn ascii_whitespace(c: char) -> bool {
    c == ' ' || c == '\t' || c == '\n' || c == '\x0C' || c == '\r'
}

/// A character that can continue a Rust-style word: ASCII letter, digit or `_`.
pub open spec fn ascii_word_char(c: char) -> bool {
    ascii_alphanumeric(c) || c == '_'
}

pub fn is_ascii_digit(c: char) -> (r: bool)
    ensures
        r == ascii_digit(c),
{
    '0' <= c && c <= '9'
}

pub fn is_ascii_alphanumeric(c: char) -> (r: bool)
    ensures
        r == ascii_alphanumeric(c),
{
    ('a' <= c && c <= 'z') || ('A' <= c && c <= 'Z') || ('0' <= c && c <= '9')
}

pub fn is_ascii_whitespace(c: char) -> (r: bool)
    ensures
        r == ascii_whitespace(c),
{
    c == ' ' || c == '\t' || c == '\n' || c == '\x0C' || c == '\r'
}

pub fn is_ascii_word_char(c: char) -> (r: bool)
    ensures
        r == ascii_word_char(c),
{
    is_ascii_alphanumeric(c) || c == '_'
}

// ---------------------------------------------------------------------------
// Unicode classification (calls into `char`'s methods)
// ---------------------------------------------------------------------------

/// The Unicode `White_Space` property, which `char::is_whitespace` tests.
pub open spec fn unicode_whitespace(c: char) -> bool {
    ||| ('\u{9}' <= c && c <= '\u{d}')
    ||| c == ' '
    ||| c == '\u{85}'
    ||| c == '\u{a0}'
    ||| c == '\u{1680}'
    ||| ('\u{2000}' <= c && c <= '\u{200a}')
    ||| c == '\u{2028}'
    ||| c == '\u{2029}'
    ||| c == '\u{202f}'
    ||| c == '\u{205f}'
    ||| c == '\u{3000}'
}

/// Whether `char::is_alphabetic` holds of `c` (the Unicode `Alphabetic` property).
pub uninterp spec fn unicode_alphabetic(c: char) -> bool;

/// Whether `char::is_numeric` holds of `c`.
pub uninterp spec fn unicode_numeric(c: char) -> bool;

/// Calls `char::is_numeric`; its result is named `unicode_numeric`.
#[verifier::external_body]
pub(crate) fn is_numeric(c: char) -> (r: bool)
    ensures
        r == unicode_numeric(c),
{
    c.is_numeric()
}

/// Whether `c` has the Unicode `White_Space` property (what
/// `char::is_whitespace` tests).
pub(crate) fn is_whitespace(c: char) -> (r: bool)
    ensures
        r == unicode_whitespace(c),
{
    ('\u{9}' <= c && c <= '\u{d}') || c == ' ' || c == '\u{85}' || c == '\u{a0}' || c == '\u{1680}'
        || ('\u{2000}' <= c && c <= '\u{200a}') || c == '\u{2028}' || c == '\u{2029}' || c == '\u{202f}'
        || c == '\u{205f}' || c == '\u{3000}'
}

/// Calls `char::is_alphabetic`; its result is named `unicode_alphabetic`.
#[verifier::external_body]
pub(crate) fn is_alphabetic(c: char) -> (r: bool)
    ensures
        r == unicode_alphabetic(c),
{
    c.is_alphabetic()
}

/// A letter: an ASCII letter, or, beyond ASCII, a character with the
/// Unicode `Alphabetic` property.
pub open spec fn letter(c: char) -> bool {
    if (c as u32) <= 0x7F { ascii_alpha(c) } else { unicode_alphabetic(c) }
}

/// A numeral: an ASCII digit, or, beyond ASCII, a character that
/// `char::is_numeric` accepts.
pub open spec fn numeral(c: char) -> bool {
    if (c as u32) <= 0x7F { ascii_digit(c) } else { unicode_numeric(c) }
}

/// Whether `c` is a letter; ASCII is decided here, the rest by
/// `char::is_alphabetic`.
pub fn is_letter(c: char) -> (r: bool)
    ensures
        r == letter(c),
{
    if (c as u32) <= 0x7F {
        ('a' <= c && c <= 'z') || ('A' <= c && c <= 'Z')
    } else {
        is_alphabetic(c)
    }
}

/// Whether `c` is a numeral; ASCII is decided here, the rest by
/// `char::is_numeric`.
pub fn is_numeral(c: char) -> (r: bool)
    ensures
        r == numeral(c),
{
    if (c as u32) <= 0x7F {
        '0' <= c && c <= '9'
    } else {
        is_numeric(c)
    }
}

// ---------------------------------------------------------------------------
// Debug rendering of strings and characters (std's `Debug` for `str`/`char`)
// ---------------------------------------------------------------------------

/// What `<str as Debug>::fmt` writes for a string: quoted and escaped.
pub uninterp spec fn debug_str(s: Seq<char>) -> Seq<char>;

/// What `<char as Debug>::fmt` writes for a character: quoted and escaped.
pub uninterp spec fn debug_char(c: char) -> Seq<char>;

/// Calls `format!("{:?}", s)` on a string slice; the result is named `debug_str`.
#[verifier::external_body]
pub(crate) fn debug_str_of(s: &str) -> (r: String)
    ensures
        r@ == debug_str(s@),
{
    format!("{:?}", s)
}

/// Calls `format!("{:?}", c)` on a character; the result is named `debug_char`.
#[verifier::external_body]
pub(crate) fn debug_char_of(c: char) -> (r: String)
    ensures
        r@ == debug_char(c),
{
    format!("{:?}", c)
}

// ---------------------------------------------------------------------------
// Building strings
// ---------------------------------------------------------------------------

/// Calls `String::push`, which appends one character.
#[verifier::external_body]
pub(crate) fn string_push(s: &mut String, c: char)
    ensures
        final(s)@ == old(s)@.push(c),
{
    s.push(c)
}

/// The characters of a string slice, in order.
pub fn chars_of(s: &str) -> (v: Vec<char>)
    ensures
        v@ == s@,
{
    let mut v: Vec<char> = Vec::new();
    for c in it: s.chars()
        invariant
            v@ == it.seq().take(it.index() as int),
            it.seq() == s@,
    {
        v.push(c);
    }
    v
}

/// A `String` holding the characters of `v[from..to]`.
pub fn string_of_range(v: &Vec<char>, from: usize, to: usize) -> (s: String)
    requires
        from <= to <= v@.len(),
    ensures
        s@ == v@.subrange(from as int, to as int),
{
    let mut s = String::new();
    let mut i = from;
    while i < to
        invariant
            from <= i <= to <= v@.len(),
            s@ == v@.subrange(from as int, i as int),
        decreases to - i,
    {
        string_push(&mut s, v[i]);
        i += 1;
    }
    s
}

/// A `String` holding the characters of `v`.
pub fn string_of(v: &Vec<char>) -> (s: String)
    ensures
        s@ == v@,
{
    let s = string_of_range(v, 0, v.len());
    assert(v@.subrange(0, v@.len() as int) =~= v@);
    s
}

/// Appends the characters of `s` to `out`.
pub fn push_str(out: &mut Vec<char>, s: &str)
    ensures
        final(out)@ == old(out)@ + s@,
{
    let ghost start = out@;
    for c in it: s.chars()
        invariant
            out@ == start + it.seq().take(it.index() as int),
            it.seq() == s@,
    {
        out.push(c);
        assert(it.seq().take(it.index() + 1) =~= it.seq().take(it.index() as int).push(c));
    }
    assert(s@.take(s@.len() as int) =~= s@);
}

/// Appends the characters of `src` to `out`.
pub fn push_chars(out: &mut Vec<char>, src: &Vec<char>)
    ensures
        final(out)@ == old(out)@ + src@,
{
    let ghost start = out@;
    let mut i: usize = 0;
    while i < src.len()
        invariant
            i <= src@.len(),
            out@ == start + src@.subrange(0, i as int),
        decreases src.len() - i,
    {
        out.push(src[i]);
        i += 1;
        assert(src@.subrange(0, i as int) =~= src@.subrange(0, i - 1).push(src@[i - 1]));
    }
    assert(src@.subrange(0, src@.len() as int) =~= src@);
}

/// Whether two strings have the same characters.
pub fn str_eq(a: &str, b: &str) -> (r: bool)
    ensures
        r == (a@ == b@),
{
    let v = chars_of(a);
    let w = chars_of(b);
    if v.len() != w.len() {
        return false;
    }
    let mut i: usize = 0;
    while i < v.len()
        invariant
            v@ == a@,
            w@ == b@,
            v@.len() == w@.len(),
            i <= v@.len(),
            forall|k: int| 0 <= k < i ==> v@[k] == w@[k],
        decreases v.len() - i,
    {
        if v[i] != w[i] {
            return false;
        }
        i += 1;
    }
    assert(v@ =~= w@);
    true
}

// ---------------------------------------------------------------------------
// Decimal numerals
// ---------------------------------------------------------------------------

pub open spec fn digit_char(d: nat) -> char {
    if d == 0 { '0' }
    else if d == 1 { '1' }
    else if d == 2 { '2' }
    else if d == 3 { '3' }
    else if d == 4 { '4' }
    else if d == 5 { '5' }
    else if d == 6 { '6' }
    else if d == 7 { '7' }
    else if d == 8 { '8' }
    else { '9' }
}

/// The decimal numeral of `n`, without leading zeros.
pub open spec fn decimal(n: nat) -> Seq<char>
    decreases n,
{
    if n < 10 {
        seq![digit_char(n)]
    } else {
        decimal(n / 10).push(digit_char(n % 10))
    }
}

/// Appends the decimal numeral of `n` to `out`.
pub fn push_decimal(out: &mut Vec<char>, n: usize)
    ensures
        final(out)@ == old(out)@ + decimal(n as nat),
    decreases n,
{
    if n >= 10 {
        push_decimal(out, n / 10);
    }
    let d = n % 10;
    let c = if d == 0 { '0' }
        else if d == 1 { '1' }
        else if d == 2 { '2' }
        else if d == 3 { '3' }
        else if d == 4 { '4' }
        else if d == 5 { '5' }
        else if d == 6 { '6' }
        else if d == 7 { '7' }
        else if d == 8 { '8' }
        else { '9' };
    out.push(c);
}

// ---------------------------------------------------------------------------
// Searching and trimming
// ---------------------------------------------------------------------------

/// `needle` occurs in `hay` starting at index `i`.
pub open spec fn occurs_at(hay: Seq<char>, needle: Seq<char>, i: int) -> bool {
    0 <= i && i + needle.len() <= hay.len() && hay.subrange(i, i + needle.len()) == needle
}

/// `needle` occurs somewhere in `hay` (what `str::contains` tests).
pub open spec fn contains_seq(hay: Seq<char>, needle: Seq<char>) -> bool {
    exists|i: int| occurs_at(hay, needle, i)
}

/// Whether `needle` starts at index `i` of `hay`.
pub fn matches_at(hay: &Vec<char>, needle: &Vec<char>, i: usize) -> (r: bool)
    ensures
        r == occurs_at(hay@, needle@, i as int),
{
    if i > hay.len() || needle.len() > hay.len() - i {
        return false;
    }
    let mut k: usize = 0;
    while k < needle.len()
        invariant
            i + needle@.len() <= hay@.len(),
            i <= hay@.len(),
            k <= needle@.len(),
            forall|m: int| 0 <= m < k ==> hay@[i + m] == needle@[m],
        decreases needle.len() - k,
    {
        assert(i + k < hay.len());
        if hay[i + k] != needle[k] {
            assert(hay@.subrange(i as int, i + needle@.len())[k as int] != needle@[k as int]);
            return false;
        }
        k += 1;
    }
    assert(hay@.subrange(i as int, i + needle@.len()) =~= needle@);
    true
}

/// Whether `needle` occurs anywhere in `hay`.
pub fn contains_chars(hay: &Vec<char>, needle: &Vec<char>) -> (r: bool)
    ensures
        r == contains_seq(hay@, needle@),
{
    if needle.len() > hay.len() {
        return false;
    }
    let last = hay.len() - needle.len();
    let mut i: usize = 0;
    while i <= last
        invariant
            last + needle@.len() == hay@.len(),
            i <= last + 1,
            forall|j: int| 0 <= j < i ==> !occurs_at(hay@, needle@, j),
        ensures
            forall|j: int| 0 <= j <= last ==> !occurs_at(hay@, needle@, j),
        decreases last + 1 - i,
    {
        if matches_at(hay, needle, i) {
            return true;
        }
        if i == last {
            break;
        }
        i += 1;
    }
    assert forall|j: int| !occurs_at(hay@, needle@, j) by {
        if 0 <= j && j + needle@.len() <= hay@.len() {
            assert(j <= last);
        }
    }
    false
}

/// Index of the first character at or after `i` that is not white space
/// (or `s.len()` when there is none).
pub open spec fn skip_unicode_ws(s: Seq<char>, i: int) -> int
    decreases s.len() - i,
{
    if i < s.len() && unicode_whitespace(s[i]) {
        skip_unicode_ws(s, i + 1)
    } else {
        i
    }
}

/// One past the last character before `j` that is not white space, or `i`.
pub open spec fn trim_back(s: Seq<char>, i: int, j: int) -> int
    decreases j - i,
{
    if i < j && unicode_whitespace(s[j - 1]) {
        trim_back(s, i, j - 1)
    } else {
        j
    }
}

/// `s[from..to]` without leading and trailing white space (what `str::trim` gives).
pub open spec fn trim_range(s: Seq<char>, from: int, to: int) -> Seq<char> {
    let a = skip_unicode_ws(s.subrange(0, to), from);
    s.subrange(a, trim_back(s, a, to))
}

/// The characters `v[from..to]`, trimmed of white space at both ends.
pub fn trimmed_range(v: &Vec<char>, from: usize, to: usize) -> (r: Vec<char>)
    requires
        from <= to <= v@.len(),
    ensures
        r@ == trim_range(v@, from as int, to as int),
{
    let ghost pre = v@.subrange(0, to as int);
    let mut a = from;
    while a < to && is_whitespace(v[a])
        invariant
            from <= a <= to <= v@.len(),
            pre == v@.subrange(0, to as int),
            skip_unicode_ws(pre, from as int) == skip_unicode_ws(pre, a as int),
        decreases to - a,
    {
        a += 1;
    }
    let mut b = to;
    while b > a && is_whitespace(v[b - 1])
        invariant
            a <= b <= to <= v@.len(),
            trim_back(v@, a as int, to as int) == trim_back(v@, a as int, b as int),
        decreases b - a,
    {
        b -= 1;
    }
    let mut r: Vec<char> = Vec::new();
    let mut k = a;
    while k < b
        invariant
            a <= k <= b <= v@.len(),
            r@ == v@.subrange(a as int, k as int),
        decreases b - k,
    {
        r.push(v[k]);
        k += 1;
    }
    r
}

// ---------------------------------------------------------------------------
// Byte offsets in the UTF-8 encoding
// ---------------------------------------------------------------------------

/// How many bytes the UTF-8 encoding of `c` takes.
pub open spec fn utf8_width(c: char) -> int {
    if (c as u32) <= 0x7F {
        1
    } else if (c as u32) <= 0x7FF {
        2
    } else if (c as u32) <= 0xFFFF {
        3
    } else {
        4
    }
}

/// The offset, in the UTF-8 encoding of `s`, at which the character of
/// index `i` starts (the length of the encoding of `s[..i]`).
pub open spec fn byte_offset(s: Seq<char>, i: int) -> int
    decreases i,
{
    if i <= 0 {
        0
    } else {
        byte_offset(s, i - 1) + utf8_width(s[i - 1])
    }
}

/// How many bytes the UTF-8 encoding of `c` takes.
pub fn utf8_width_of(c: char) -> (w: usize)
    ensures
        w == utf8_width(c),
{
    let v = c as u32;
    if v <= 0x7F {
        1
    } else if v <= 0x7FF {
        2
    } else if v <= 0xFFFF {
        3
    } else {
        4
    }
}

proof fn lemma_encode_concat(a: Seq<char>, b: Seq<char>)
    ensures
        encode_utf8(a + b) == encode_utf8(a) + encode_utf8(b),
    decreases a.len(),
{
    if a.len() == 0 {
        assert(a + b =~= b);
        assert(encode_utf8(a) + encode_utf8(b) =~= encode_utf8(b));
    } else {
        assert((a + b).drop_first() =~= a.drop_first() + b);
        assert((a + b)[0] == a[0]);
        lemma_encode_concat(a.drop_first(), b);
        assert(encode_utf8(a + b) =~= encode_utf8(a) + encode_utf8(b));
    }
}

proof fn lemma_scalar_width(c: char)
    ensures
        encode_scalar(c as u32).len() == utf8_width(c),
{
    char_is_scalar(c);
}

/// `byte_offset` is the length of the encoding of the characters before.
pub proof fn lemma_byte_offset_encoding(s: Seq<char>, i: int)
    requires
        0 <= i <= s.len(),
    ensures
        byte_offset(s, i) == encode_utf8(s.subrange(0, i)).len(),
    decreases i,
{
    if i == 0 {
        assert(s.subrange(0, 0) =~= Seq::<char>::empty());
    } else {
        lemma_byte_offset_encoding(s, i - 1);
        let c = s[i - 1];
        assert(s.subrange(0, i) =~= s.subrange(0, i - 1) + seq![c]);
        lemma_encode_concat(s.subrange(0, i - 1), seq![c]);
        assert(seq![c].drop_first() =~= Seq::<char>::empty());
        assert(encode_utf8(Seq::<char>::empty()) =~= Seq::<u8>::empty());
        assert(encode_utf8(seq![c]) =~= encode_scalar(c as u32));
        lemma_scalar_width(c);
    }
}

/// Byte offsets grow strictly with the character index.
pub proof fn lemma_byte_offset_increasing(s: Seq<char>, i: int, j: int)
    requires
        0 <= i < j,
    ensures
        byte_offset(s, i) < byte_offset(s, j),
    decreases j - i,
{
    if i + 1 < j {
        lemma_byte_offset_increasing(s, i, j - 1);
    }
}

/// Every byte offset of a character lies within the encoding of `s`.
pub proof fn lemma_byte_offset_within(s: Seq<char>, i: int)
    requires
        0 <= i <= s.len(),
    ensures
        0 <= byte_offset(s, i) <= encode_utf8(s).len(),
{
    lemma_byte_offset_encoding(s, s.len() as int);
    assert(s.subrange(0, s.len() as int) =~= s);
    if i < s.len() {
        lemma_byte_offset_increasing(s, i, s.len() as int);
    }
    if i > 0 {
        lemma_byte_offset_increasing(s, 0, i);
    }
}

proof fn lemma_byte_offset_front(s: Seq<char>, i: int)
    requires
        1 <= i <= s.len(),
    ensures
        byte_offset(s, i) == utf8_width(s[0]) + byte_offset(s.drop_first(), i - 1),
    decreases i,
{
    let d = s.drop_first();
    if i > 1 {
        lemma_byte_offset_front(s, i - 1);
        assert(d[i - 2] == s[i - 1]);
        assert(byte_offset(d, i - 1) == byte_offset(d, i - 2) + utf8_width(d[i - 2]));
        assert(byte_offset(s, i) == byte_offset(s, i - 1) + utf8_width(s[i - 1]));
    } else {
        assert(byte_offset(s, 0) == 0);
        assert(byte_offset(d, 0) == 0);
        assert(byte_offset(s, 1) == byte_offset(s, 0) + utf8_width(s[0]));
    }
}

/// The byte offset of every character, and of the end, falls on a
/// character boundary of the UTF-8 encoding.
pub proof fn lemma_byte_offset_char_boundary(s: Seq<char>, i: int)
    requires
        0 <= i <= s.len(),
    ensures
        is_char_boundary(encode_utf8(s), byte_offset(s, i)),
    decreases s.len(),
{
    encode_utf8_valid_utf8(s);
    if i > 0 {
        let bytes = encode_utf8(s);
        encode_utf8_first_scalar(s);
        assert(pop_first_scalar(bytes) =~= encode_utf8(s.drop_first()));
        lemma_byte_offset_front(s, i);
        lemma_scalar_width(s[0]);
        lemma_byte_offset_within(s, i);
        lemma_byte_offset_char_boundary(s.drop_first(), i - 1);
        lemma_byte_offset_increasing(s, 0, i);
    }
}

} // verus!
