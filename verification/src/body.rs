//! Text-level transformations of function bodies.
//!
//! Function bodies are kept as source text; these passes rewrite it:
//!
//! 1. C type keywords become their FFI names, at word boundaries only
//!    (`int` -> `c_int`, but `point` and `hint` stay as they are);
//! 2. postfix pointer casts flip: `as T*` -> `as *mut T`, `as T const*` ->
//!    `as *const T` (a lone `*` followed by an operand stays a multiplication);
//! 3. postfix annotations flip: `: T*` -> `: *mut T`, `: T&` -> `: &mut T`;
//! 4. `mut& e` becomes `&mut e`.
use vstd::prelude::*;
use crate::lexer::ident_char;
use crate::text::{
    ascii_whitespace, ascii_word_char, is_ascii_whitespace, is_ascii_word_char, is_letter, is_numeral,
    letter, matches_at, numeral, occurs_at, push_chars, push_str, chars_of, contains_seq, string_of,
    trim_range, trimmed_range, skip_unicode_ws, trim_back, unicode_whitespace,
};

verus! {

// ---------------------------------------------------------------------------
// The C type name table
// ---------------------------------------------------------------------------

/// The table as pairs of character sequences.
pub open spec fn table_view(t: Seq<(&'static str, &'static str)>) -> Seq<(Seq<char>, Seq<char>)> {
    Seq::new(t.len(), |i: int| (t[i].0@, t[i].1@))
}

/// C type names and the Rust FFI names that replace them.  Longer
/// multi-word names come before their prefixes, so that `unsigned long long`
/// is replaced before `unsigned long`.
pub open spec fn type_table() -> Seq<(Seq<char>, Seq<char>)> {
    seq![
        ("unsigned long long"@, "c_ulonglong"@),
        ("unsigned long int"@, "c_ulong"@),
        ("unsigned long"@, "c_ulong"@),
        ("unsigned short int"@, "c_ushort"@),
        ("unsigned short"@, "c_ushort"@),
        ("unsigned int"@, "c_uint"@),
        ("unsigned char"@, "c_uchar"@),
        ("signed long long"@, "c_longlong"@),
        ("signed long int"@, "c_long"@),
        ("signed long"@, "c_long"@),
        ("signed short int"@, "c_short"@),
        ("signed short"@, "c_short"@),
        ("signed int"@, "c_int"@),
        ("signed char"@, "c_schar"@),
        ("long long int"@, "c_longlong"@),
        ("long long"@, "c_longlong"@),
        ("long double"@, "c_double"@),
        ("long int"@, "c_long"@),
        ("short int"@, "c_short"@),
        ("void"@, "c_void"@),
        ("int"@, "c_int"@),
        ("uint"@, "c_uint"@),
        ("long"@, "c_long"@),
        ("short"@, "c_short"@),
        ("float"@, "c_float"@),
        ("double"@, "c_double"@),
        ("int8_t"@, "i8"@),
        ("int16_t"@, "i16"@),
        ("int32_t"@, "i32"@),
        ("int64_t"@, "i64"@),
        ("uint8_t"@, "u8"@),
        ("uint16_t"@, "u16"@),
        ("uint32_t"@, "u32"@),
        ("uint64_t"@, "u64"@),
        ("intmax_t"@, "i64"@),
        ("uintmax_t"@, "u64"@),
        ("int_least8_t"@, "i8"@),
        ("int_least16_t"@, "i16"@),
        ("int_least32_t"@, "i32"@),
        ("int_least64_t"@, "i64"@),
        ("uint_least8_t"@, "u8"@),
        ("uint_least16_t"@, "u16"@),
        ("uint_least32_t"@, "u32"@),
        ("uint_least64_t"@, "u64"@),
        ("int_fast8_t"@, "i8"@),
        ("int_fast16_t"@, "i16"@),
        ("int_fast32_t"@, "i32"@),
        ("int_fast64_t"@, "i64"@),
        ("uint_fast8_t"@, "u8"@),
        ("uint_fast16_t"@, "u16"@),
        ("uint_fast32_t"@, "u32"@),
        ("uint_fast64_t"@, "u64"@),
        ("char16_t"@, "u16"@),
        ("char32_t"@, "u32"@),
        ("atomic_bool"@, "AtomicBool"@),
        ("atomic_int"@, "AtomicI32"@),
        ("atomic_uint"@, "AtomicU32"@),
        ("atomic_long"@, "AtomicI64"@),
        ("atomic_ulong"@, "AtomicU64"@),
        ("atomic_size_t"@, "AtomicUsize"@),
        ("atomic_intptr_t"@, "AtomicIsize"@),
        ("atomic_uintptr_t"@, "AtomicUsize"@),
    ]
}

pub fn type_map() -> (t: Vec<(&'static str, &'static str)>)
    ensures
        table_view(t@) == type_table(),
{
    let t = vec![
        ("unsigned long long", "c_ulonglong"),
        ("unsigned long int", "c_ulong"),
        ("unsigned long", "c_ulong"),
        ("unsigned short int", "c_ushort"),
        ("unsigned short", "c_ushort"),
        ("unsigned int", "c_uint"),
        ("unsigned char", "c_uchar"),
        ("signed long long", "c_longlong"),
        ("signed long int", "c_long"),
        ("signed long", "c_long"),
        ("signed short int", "c_short"),
        ("signed short", "c_short"),
        ("signed int", "c_int"),
        ("signed char", "c_schar"),
        ("long long int", "c_longlong"),
        ("long long", "c_longlong"),
        ("long double", "c_double"),
        ("long int", "c_long"),
        ("short int", "c_short"),
        ("void", "c_void"),
        ("int", "c_int"),
        ("uint", "c_uint"),
        ("long", "c_long"),
        ("short", "c_short"),
        ("float", "c_float"),
        ("double", "c_double"),
        ("int8_t", "i8"),
        ("int16_t", "i16"),
        ("int32_t", "i32"),
        ("int64_t", "i64"),
        ("uint8_t", "u8"),
        ("uint16_t", "u16"),
        ("uint32_t", "u32"),
        ("uint64_t", "u64"),
        ("intmax_t", "i64"),
        ("uintmax_t", "u64"),
        ("int_least8_t", "i8"),
        ("int_least16_t", "i16"),
        ("int_least32_t", "i32"),
        ("int_least64_t", "i64"),
        ("uint_least8_t", "u8"),
        ("uint_least16_t", "u16"),
        ("uint_least32_t", "u32"),
        ("uint_least64_t", "u64"),
        ("int_fast8_t", "i8"),
        ("int_fast16_t", "i16"),
        ("int_fast32_t", "i32"),
        ("int_fast64_t", "i64"),
        ("uint_fast8_t", "u8"),
        ("uint_fast16_t", "u16"),
        ("uint_fast32_t", "u32"),
        ("uint_fast64_t", "u64"),
        ("char16_t", "u16"),
        ("char32_t", "u32"),
        ("atomic_bool", "AtomicBool"),
        ("atomic_int", "AtomicI32"),
        ("atomic_uint", "AtomicU32"),
        ("atomic_long", "AtomicI64"),
        ("atomic_ulong", "AtomicU64"),
        ("atomic_size_t", "AtomicUsize"),
        ("atomic_intptr_t", "AtomicIsize"),
        ("atomic_uintptr_t", "AtomicUsize"),
    ];
    assert(table_view(t@) =~= type_table());
    t
}

// ---------------------------------------------------------------------------
// Word-boundary replacement
// ---------------------------------------------------------------------------

/// The first index at or after `i` at which `w` occurs in `s`.
pub open spec fn first_occurrence(s: Seq<char>, w: Seq<char>, i: int) -> Option<int>
    decreases s.len() - i,
{
    if i < 0 || i + w.len() > s.len() {
        None
    } else if occurs_at(s, w, i) {
        Some(i)
    } else if i < s.len() {
        first_occurrence(s, w, i + 1)
    } else {
        None
    }
}

/// `s[i..]` with every occurrence of `w` found by a left-to-right search
/// replaced by `r` when it stands alone in `s`: the character just before
/// it and the character just after it (where there are any) are not
/// letters, digits or `_`.  Occurrences that do not stand alone are kept,
/// and the search goes on after them.
pub open spec fn replace_from(s: Seq<char>, w: Seq<char>, r: Seq<char>, i: int) -> Seq<char>
    decreases s.len() - i,
{
    if i < 0 || i > s.len() || w.len() == 0 {
        seq![]
    } else {
        match first_occurrence(s, w, i) {
            None => s.subrange(i, s.len() as int),
            Some(j) => {
                let e = j + w.len();
                let before_ok = j == 0 || !ident_char(s[j - 1]);
                let after_ok = e >= s.len() || !ident_char(s[e]);
                let piece = if before_ok && after_ok { r } else { w };
                if i < e <= s.len() {
                    s.subrange(i, j) + piece + replace_from(s, w, r, e)
                } else {
                    seq![]
                }
            },
        }
    }
}

/// `s` with each stand-alone occurrence of the word `w` replaced by `r`
/// (and `s` itself when `w` is empty).
pub open spec fn replace_word_spec(s: Seq<char>, w: Seq<char>, r: Seq<char>) -> Seq<char> {
    if w.len() == 0 {
        s
    } else {
        replace_from(s, w, r, 0)
    }
}

/// `s` after replacing, in table order, each name of `t` by its partner.
pub open spec fn subst_all(s: Seq<char>, t: Seq<(Seq<char>, Seq<char>)>) -> Seq<char>
    decreases t.len(),
{
    if t.len() == 0 {
        s
    } else {
        subst_all(replace_word_spec(s, t[0].0, t[0].1), t.drop_first())
    }
}

proof fn lemma_first_occurrence(s: Seq<char>, w: Seq<char>, i: int)
    requires
        0 <= i,
    ensures
        first_occurrence(s, w, i) matches Some(j) ==> i <= j && j + w.len() <= s.len() && occurs_at(s, w, j),
        first_occurrence(s, w, i) is None ==> forall|j: int| i <= j ==> !occurs_at(s, w, j),
    decreases s.len() - i,
{
    if i < 0 || i + w.len() > s.len() {
    } else if occurs_at(s, w, i) {
    } else if i < s.len() {
        lemma_first_occurrence(s, w, i + 1);
    } else {
        assert(w.len() == 0);
        assert(s.subrange(i, i) =~= w);
    }
}

/// `replace_from(s, w, w, i)` is the rest of `s` from `i`.
proof fn lemma_replace_from_self(s: Seq<char>, w: Seq<char>, i: int)
    requires
        0 <= i <= s.len(),
        w.len() > 0,
    ensures
        replace_from(s, w, w, i) == s.subrange(i, s.len() as int),
    decreases s.len() - i,
{
    lemma_first_occurrence(s, w, i);
    match first_occurrence(s, w, i) {
        None => {},
        Some(j) => {
            let e = j + w.len();
            lemma_replace_from_self(s, w, e);
            assert(s.subrange(i, j) + w + s.subrange(e, s.len() as int) =~= s.subrange(i, s.len() as int));
        },
    }
}

/// Replacing a word by itself leaves the text unchanged.
pub proof fn law_replace_word_by_itself(s: Seq<char>, w: Seq<char>)
    ensures
        replace_word_spec(s, w, w) == s,
{
    if w.len() > 0 {
        lemma_replace_from_self(s, w, 0);
        assert(s.subrange(0, s.len() as int) =~= s);
    }
}

/// A text in which the word does not occur is left unchanged.
pub proof fn law_replace_absent_word(s: Seq<char>, w: Seq<char>, r: Seq<char>)
    requires
        !contains_seq(s, w),
    ensures
        replace_word_spec(s, w, r) == s,
{
    if w.len() > 0 {
        lemma_first_occurrence(s, w, 0);
        if let Some(j) = first_occurrence(s, w, 0) {
            assert(occurs_at(s, w, j));
            assert(false);
        }
        assert(s.subrange(0, s.len() as int) =~= s);
    }
}

/// The first index at or after `i` at which `w` occurs in `s`.
fn find_from(s: &Vec<char>, w: &Vec<char>, i: usize) -> (r: Option<usize>)
    requires
        i <= s@.len(),
    ensures
        match r {
            Some(j) => first_occurrence(s@, w@, i as int) == Some(j as int),
            None => first_occurrence(s@, w@, i as int) is None,
        },
{
    if w.len() > s.len() - i {
        return None;
    }
    let last = s.len() - w.len();
    let mut j = i;
    while j <= last
        invariant
            i <= j,
            last + w@.len() == s@.len(),
            j <= last + 1,
            first_occurrence(s@, w@, i as int) == first_occurrence(s@, w@, j as int),
        decreases last + 1 - j,
    {
        if matches_at(s, w, j) {
            return Some(j);
        }
        if j == last {
            assert(first_occurrence(s@, w@, j + 1) is None);
            return None;
        }
        j += 1;
    }
    None
}

/// Whether `c` continues a word (Unicode letter or digit, or `_`).
fn is_ident_char(c: char) -> (r: bool)
    ensures
        r == ident_char(c),
{
    is_letter(c) || is_numeral(c) || c == '_'
}

/// `replace_word` on character vectors.
#[verifier::loop_isolation(false)]
#[verifier::rlimit(40)]
#[verifier::spinoff_prover]
pub fn replace_word_chars(src: &Vec<char>, word: &Vec<char>, replacement: &Vec<char>) -> (r: Vec<char>)
    ensures
        r@ == replace_word_spec(src@, word@, replacement@),
{
    if word.len() == 0 {
        let mut out: Vec<char> = Vec::new();
        push_chars(&mut out, src);
        assert(out@ =~= src@);
        return out;
    }
    let ghost s = src@;
    let mut result: Vec<char> = Vec::new();
    let mut rest: usize = 0;
    loop
        invariant
            rest <= s.len(),
            replace_from(s, word@, replacement@, 0) == result@ + replace_from(s, word@, replacement@, rest as int),
        decreases s.len() - rest,
    {
        match find_from(src, word, rest) {
            None => {
                let mut k = rest;
                let ghost before = result@;
                while k < src.len()
                    invariant
                        rest <= k <= s.len(),
                        result@ == before + s.subrange(rest as int, k as int),
                    decreases s.len() - k,
                {
                    result.push(src[k]);
                    k += 1;
                    assert(s.subrange(rest as int, k as int) =~= s.subrange(rest as int, k - 1).push(s[k - 1]));
                }
                return result;
            },
            Some(j) => {
                proof { lemma_first_occurrence(s, word@, rest as int); }
                assert(j + word.len() <= src.len());
                let e = j + word.len();
                let before_ok = j == 0 || !is_ident_char(src[j - 1]);
                let after_ok = e >= src.len() || !is_ident_char(src[e]);
                let ghost before = result@;
                let mut k = rest;
                while k < j
                    invariant
                        rest <= k <= j,
                        j <= s.len(),
                        result@ == before + s.subrange(rest as int, k as int),
                    decreases j - k,
                {
                    result.push(src[k]);
                    k += 1;
                    assert(s.subrange(rest as int, k as int) =~= s.subrange(rest as int, k - 1).push(s[k - 1]));
                }
                if before_ok && after_ok {
                    push_chars(&mut result, replacement);
                } else {
                    push_chars(&mut result, word);
                }
                proof {
                    let piece = if before_ok && after_ok { replacement@ } else { word@ };
                    assert(result@ == before + s.subrange(rest as int, j as int) + piece);
                    assert(before + (s.subrange(rest as int, j as int) + piece + replace_from(s, word@, replacement@, e as int))
                        =~= result@ + replace_from(s, word@, replacement@, e as int));
                }
                rest = e;
            },
        }
    }
}

// ---------------------------------------------------------------------------
// Postfix pointer and reference flips
// ---------------------------------------------------------------------------

/// A postfix pointer or reference modifier.
#[derive(Clone, Copy, PartialEq, Eq, Structural)]
pub enum Modifier {
    MutPtr,
    ConstPtr,
    MutRef,
    ConstRef,
}

/// The end of the run of ASCII white space that starts at `j`.
pub open spec fn skip_ws(s: Seq<char>, j: int) -> int
    decreases s.len() - j,
{
    if 0 <= j < s.len() && ascii_whitespace(s[j]) {
        skip_ws(s, j + 1)
    } else {
        j
    }
}

/// The word `w` is spelled in `s` from index `k`.
pub open spec fn word_at(s: Seq<char>, k: int, w: Seq<char>) -> bool {
    occurs_at(s, w, k)
}

pub open spec fn star_or_amp_at(s: Seq<char>, m: int) -> bool {
    0 <= m < s.len() && (s[m] == '*' || s[m] == '&')
}

/// A modifier (`const*`, `const&`, `mut*`, `mut&`, `*`, `&`) starts at `pos`.
pub open spec fn modifier_keyword_ahead(s: Seq<char>, pos: int) -> bool {
    ||| (word_at(s, pos, "const"@) && star_or_amp_at(s, skip_ws(s, pos + 5)))
    ||| (word_at(s, pos, "mut"@) && star_or_amp_at(s, skip_ws(s, pos + 3)))
    ||| star_or_amp_at(s, pos)
}

/// The end of a type name that starts at `j`: ASCII letters, digits, `_`,
/// `:` and single spaces between words, stopping before a modifier.
pub open spec fn type_end(s: Seq<char>, j: int) -> int
    decreases s.len() - j,
{
    if j < 0 || j >= s.len() {
        j
    } else {
        let c = s[j];
        if !(ascii_word_char(c) || c == ':' || c == ' ') {
            j
        } else if c == ' ' {
            let nw = skip_ws(s, j + 1);
            if modifier_keyword_ahead(s, nw) {
                j
            } else if nw < s.len() && ascii_word_char(s[nw]) && j < nw {
                type_end(s, nw)
            } else {
                j
            }
        } else {
            type_end(s, j + 1)
        }
    }
}

/// The modifier that starts at `k`, and the index just past its symbol.
pub open spec fn modifier_at(s: Seq<char>, k: int) -> Option<(Modifier, int)> {
    if word_at(s, k, "const"@) {
        let a = k + 5;
        if a >= s.len() || ascii_whitespace(s[a]) || s[a] == '*' || s[a] == '&' {
            let m = skip_ws(s, a);
            if 0 <= m < s.len() && s[m] == '*' {
                Some((Modifier::ConstPtr, m + 1))
            } else if 0 <= m < s.len() && s[m] == '&' {
                Some((Modifier::ConstRef, m + 1))
            } else {
                None
            }
        } else {
            None
        }
    } else if word_at(s, k, "mut"@) {
        let a = k + 3;
        if a >= s.len() || ascii_whitespace(s[a]) || s[a] == '*' || s[a] == '&' {
            let m = skip_ws(s, a);
            if 0 <= m < s.len() && s[m] == '*' {
                Some((Modifier::MutPtr, m + 1))
            } else if 0 <= m < s.len() && s[m] == '&' {
                Some((Modifier::MutRef, m + 1))
            } else {
                None
            }
        } else {
            None
        }
    } else if 0 <= k < s.len() && s[k] == '*' {
        Some((Modifier::MutPtr, k + 1))
    } else if 0 <= k < s.len() && s[k] == '&' {
        Some((Modifier::MutRef, k + 1))
    } else {
        None
    }
}

/// The modifiers that follow, from `k` on (white space between them
/// skipped); with the index just past the last one (or `scan_pos` when
/// there is none), and the index at which the scan stopped.
pub open spec fn modifiers_from(s: Seq<char>, k: int, scan_pos: int) -> (Seq<Modifier>, int, int)
    decreases s.len() - k,
{
    if k < 0 || k >= s.len() {
        (seq![], scan_pos, k)
    } else {
        match modifier_at(s, k) {
            Some((m, after)) => if k < after <= skip_ws(s, after) <= s.len() {
                let (rest, sp, kk) = modifiers_from(s, skip_ws(s, after), after);
                (seq![m] + rest, sp, kk)
            } else {
                (seq![], scan_pos, k)
            },
            None => (seq![], scan_pos, k),
        }
    }
}

/// The Rust text of a modifier, as a prefix of the base type.
pub open spec fn modifier_text(m: Modifier) -> Seq<char> {
    match m {
        Modifier::ConstPtr => "*const "@,
        Modifier::MutPtr => "*mut "@,
        Modifier::ConstRef => "&"@,
        Modifier::MutRef => "&mut "@,
    }
}

/// The Rust prefix for postfix modifiers: the last one written comes first.
pub open spec fn modifiers_prefix(ms: Seq<Modifier>) -> Seq<char>
    decreases ms.len(),
{
    if ms.len() == 0 {
        seq![]
    } else {
        modifiers_prefix(ms.drop_first()) + modifier_text(ms[0])
    }
}

/// Postfix modifiers read outwards: the one written last is the outermost,
/// so its Rust text comes first (`T const* mut*` is `*mut *const T`).
pub proof fn law_last_modifier_outermost(ms: Seq<Modifier>, m: Modifier)
    ensures
        modifiers_prefix(Seq::<Modifier>::empty()) == Seq::<char>::empty(),
        modifiers_prefix(ms.push(m)) == modifier_text(m) + modifiers_prefix(ms),
    decreases ms.len(),
{
    if ms.len() == 0 {
        assert(ms.push(m).drop_first() =~= Seq::<Modifier>::empty());
        assert(ms =~= Seq::<Modifier>::empty());
        assert(Seq::<char>::empty() + modifier_text(m) =~= modifier_text(m) + Seq::<char>::empty());
    } else {
        law_last_modifier_outermost(ms.drop_first(), m);
        assert(ms.push(m).drop_first() =~= ms.drop_first().push(m));
        assert(ms.push(m)[0] == ms[0]);
        assert(modifier_text(m) + modifiers_prefix(ms.drop_first()) + modifier_text(ms[0])
            =~= modifier_text(m) + (modifiers_prefix(ms.drop_first()) + modifier_text(ms[0])));
    }
}

/// `char` becomes `c_char`; other names stay.
pub open spec fn display_type_name(n: Seq<char>) -> Seq<char> {
    if n == "char"@ { "c_char"@ } else { n }
}

/// A character that can start an operand of a multiplication.
pub open spec fn operand_start(c: char) -> bool {
    letter(c) || c == '_' || numeral(c) || c == '"' || c == '\'' || c == '(' || c == '['
}

/// A type name and its postfix modifiers, after the type starts (at or
/// after `ts`, past white space): the trimmed name, the modifiers, the
/// index past the last modifier, and where the scan stopped.
pub open spec fn typed_modifiers(s: Seq<char>, ts: int) -> (Seq<char>, Seq<Modifier>, int, int) {
    let j = type_end(s, ts);
    let name = trim_range(s, ts, j);
    let (mods, scan_pos, k) = modifiers_from(s, skip_ws(s, j), j);
    (name, mods, scan_pos, k)
}

/// The rewrite of a postfix cast `as T<modifiers>` that starts at `i`, and
/// the index after it; `None` when no such cast starts there, or when a
/// single `*` is followed by an operand (a multiplication).
pub open spec fn as_cast_at(s: Seq<char>, i: int) -> Option<(Seq<char>, int)> {
    if !(0 <= i && i + 2 < s.len() && s[i] == 'a' && s[i + 1] == 's') {
        None
    } else if !(i == 0 || !ascii_word_char(s[i - 1])) {
        None
    } else if !(s[i + 2] == ' ' || s[i + 2] == '\t' || s[i + 2] == '\n') {
        None
    } else {
        let (name, mods, scan_pos, k) = typed_modifiers(s, skip_ws(s, i + 2));
        if name.len() == 0 || mods.len() == 0 {
            None
        } else if k < s.len() && operand_start(s[k]) && mods.len() == 1 && mods[0] == Modifier::MutPtr {
            None
        } else {
            Some(("as "@ + modifiers_prefix(mods) + display_type_name(name), scan_pos))
        }
    }
}

/// A character after which a postfix annotation ends.
pub open spec fn annotation_end(c: char) -> bool {
    c == '=' || c == ';' || c == ',' || c == ')' || c == ']' || c == '}' || c == '\n'
}

/// The rewrite of an annotation `: T<modifiers>` that starts at `i`
/// (a lone `:`, not part of `::`), and the index after it.
pub open spec fn colon_annotation_at(s: Seq<char>, i: int) -> Option<(Seq<char>, int)> {
    if !(0 <= i < s.len() && s[i] == ':') {
        None
    } else if (i > 0 && s[i - 1] == ':') || (i + 1 < s.len() && s[i + 1] == ':') {
        None
    } else {
        let (name, mods, scan_pos, k) = typed_modifiers(s, skip_ws(s, i + 1));
        if name.len() == 0 || mods.len() == 0 {
            None
        } else if k < s.len() && !annotation_end(s[k]) {
            None
        } else {
            Some((": "@ + modifiers_prefix(mods) + display_type_name(name), scan_pos))
        }
    }
}

/// The rewrite of a borrow `mut& e` that starts at `i` into `&mut e`.
pub open spec fn mut_ref_at(s: Seq<char>, i: int) -> Option<(Seq<char>, int)> {
    if word_at(s, i, "mut&"@) && (i == 0 || !ascii_word_char(s[i - 1])) {
        Some(("&mut "@, skip_ws(s, i + 4)))
    } else {
        None
    }
}

/// `s[i..]` rewritten left to right: where `step` finds a rewrite, its text
/// replaces the characters it covers; every other character is copied.
pub open spec fn rewrite_from(s: Seq<char>, i: int, step: spec_fn(Seq<char>, int) -> Option<(Seq<char>, int)>) -> Seq<char>
    decreases s.len() - i,
{
    if i < 0 || i >= s.len() {
        seq![]
    } else {
        match step(s, i) {
            Some((text, next)) => if i < next <= s.len() {
                text + rewrite_from(s, next, step)
            } else {
                seq![]
            },
            None => seq![s[i]] + rewrite_from(s, i + 1, step),
        }
    }
}

pub open spec fn flip_as_spec(s: Seq<char>) -> Seq<char> {
    rewrite_from(s, 0, |s: Seq<char>, i: int| as_cast_at(s, i))
}

pub open spec fn flip_colon_spec(s: Seq<char>) -> Seq<char> {
    rewrite_from(s, 0, |s: Seq<char>, i: int| colon_annotation_at(s, i))
}

pub open spec fn flip_mut_ref_spec(s: Seq<char>) -> Seq<char> {
    rewrite_from(s, 0, |s: Seq<char>, i: int| mut_ref_at(s, i))
}

/// All text-level body transforms, in order.
pub open spec fn body_transform(s: Seq<char>) -> Seq<char> {
    flip_mut_ref_spec(flip_colon_spec(flip_as_spec(subst_all(s, type_table()))))
}

// ---------------------------------------------------------------------------
// Plain Rust passes through
// ---------------------------------------------------------------------------

/// A rewrite that finds nothing to rewrite copies the text.
proof fn lemma_rewrite_nothing(s: Seq<char>, i: int, step: spec_fn(Seq<char>, int) -> Option<(Seq<char>, int)>)
    requires
        0 <= i <= s.len(),
        forall|k: int| 0 <= k < s.len() ==> (#[trigger] step(s, k)) is None,
    ensures
        rewrite_from(s, i, step) == s.subrange(i, s.len() as int),
    decreases s.len() - i,
{
    if i < s.len() {
        lemma_rewrite_nothing(s, i + 1, step);
        assert(seq![s[i]] + s.subrange(i + 1, s.len() as int) =~= s.subrange(i, s.len() as int));
    } else {
        assert(s.subrange(i, s.len() as int) =~= Seq::<char>::empty());
    }
}

/// Without `*` and `&` no postfix modifier starts anywhere.
proof fn lemma_no_modifiers(s: Seq<char>, k: int, scan_pos: int)
    requires
        forall|i: int| 0 <= i < s.len() ==> #[trigger] s[i] != '*' && s[i] != '&',
    ensures
        modifiers_from(s, k, scan_pos).0.len() == 0,
{
    reveal_strlit("const");
    reveal_strlit("mut");
}

/// Substituting names of which none occurs leaves the text unchanged.
proof fn lemma_subst_absent(s: Seq<char>, t: Seq<(Seq<char>, Seq<char>)>)
    requires
        forall|k: int| 0 <= k < t.len() ==> !contains_seq(s, #[trigger] t[k].0),
    ensures
        subst_all(s, t) == s,
    decreases t.len(),
{
    if t.len() > 0 {
        law_replace_absent_word(s, t[0].0, t[0].1);
        let rest = t.drop_first();
        assert forall|k: int| 0 <= k < rest.len() implies !contains_seq(s, #[trigger] rest[k].0) by {
            assert(rest[k] == t[k + 1]);
        }
        lemma_subst_absent(s, rest);
    }
}

/// Body text in which no C type name of the table occurs and which holds no
/// `*` and no `&` is plain Rust for the body transforms: it passes through
/// unchanged.
pub proof fn law_plain_body_unchanged(s: Seq<char>)
    requires
        forall|k: int| 0 <= k < type_table().len() ==> !contains_seq(s, #[trigger] type_table()[k].0),
        forall|i: int| 0 <= i < s.len() ==> #[trigger] s[i] != '*' && s[i] != '&',
    ensures
        body_transform(s) == s,
{
    lemma_subst_absent(s, type_table());
    reveal_strlit("mut&");
    assert forall|k: int| 0 <= k < s.len() implies (#[trigger] as_cast_at(s, k)) is None by {
        lemma_no_modifiers(s, skip_ws(s, type_end(s, skip_ws(s, k + 2))), type_end(s, skip_ws(s, k + 2)));
    }
    assert forall|k: int| 0 <= k < s.len() implies (#[trigger] colon_annotation_at(s, k)) is None by {
        lemma_no_modifiers(s, skip_ws(s, type_end(s, skip_ws(s, k + 1))), type_end(s, skip_ws(s, k + 1)));
    }
    assert forall|k: int| 0 <= k < s.len() implies (#[trigger] mut_ref_at(s, k)) is None by {
        if word_at(s, k, "mut&"@) {
            assert(s.subrange(k, k + 4)[3] == s[k + 3]);
        }
    }
    let f1 = |s: Seq<char>, i: int| as_cast_at(s, i);
    let f2 = |s: Seq<char>, i: int| colon_annotation_at(s, i);
    let f3 = |s: Seq<char>, i: int| mut_ref_at(s, i);
    assert forall|k: int| 0 <= k < s.len() implies (#[trigger] f1(s, k)) is None by {
        assert(as_cast_at(s, k) is None);
    }
    assert forall|k: int| 0 <= k < s.len() implies (#[trigger] f2(s, k)) is None by {
        assert(colon_annotation_at(s, k) is None);
    }
    assert forall|k: int| 0 <= k < s.len() implies (#[trigger] f3(s, k)) is None by {
        assert(mut_ref_at(s, k) is None);
    }
    lemma_rewrite_nothing(s, 0, f1);
    lemma_rewrite_nothing(s, 0, f2);
    lemma_rewrite_nothing(s, 0, f3);
    assert(s.subrange(0, s.len() as int) =~= s);
}

/// A single `*` after a cast that an operand follows is a multiplication:
/// `e as usize * n` is left as it is.
pub proof fn law_cast_times_operand_kept(s: Seq<char>, i: int)
    requires
        ({
            let (name, mods, scan_pos, k) = typed_modifiers(s, skip_ws(s, i + 2));
            &&& mods == seq![Modifier::MutPtr]
            &&& k < s.len()
            &&& operand_start(s[k])
        }),
    ensures
        as_cast_at(s, i) is None,
{
}

proof fn lemma_type_end_over_word(s: Seq<char>, j: int, te: int)
    requires
        0 <= j <= te < s.len(),
        forall|i: int| j <= i < te ==> ascii_word_char(#[trigger] s[i]),
        s[te] == ' ',
        te + 1 < s.len(),
        s[te + 1] == '*',
    ensures
        type_end(s, j) == te,
    decreases te - j,
{
    if j < te {
        assert(ascii_word_char(s[j]));
        lemma_type_end_over_word(s, j + 1, te);
    } else {
        assert(skip_ws(s, te + 1) == te + 1);
        assert(star_or_amp_at(s, te + 1));
    }
}

/// In `a as t * b`, where `t` is a name and `b` starts with an operand, the
/// `*` is a multiplication: when that `as` is the only word `as` followed by
/// white space in the text, the cast pass leaves the whole text unchanged.
pub proof fn law_cast_times_operand_text_kept(a: Seq<char>, t: Seq<char>, b: Seq<char>)
    requires
        t.len() > 0,
        forall|i: int| 0 <= i < t.len() ==> ascii_word_char(#[trigger] t[i]),
        b.len() > 0,
        operand_start(b[0]),
        !occurs_at(b, "const"@, 0),
        !occurs_at(b, "mut"@, 0),
        forall|i: int| i != a.len() + 1 ==> !#[trigger] as_word_at(a + " as "@ + t + " * "@ + b, i),
    ensures
        flip_as_spec(a + " as "@ + t + " * "@ + b) == a + " as "@ + t + " * "@ + b,
{
    reveal_strlit(" as ");
    reveal_strlit(" * ");
    reveal_strlit("const");
    reveal_strlit("mut");
    let s = a + " as "@ + t + " * "@ + b;
    let n = a.len() as int;
    let ts = n + 4;
    let te = ts + t.len();
    let bs = te + 3;
    assert(s.len() == bs + b.len());
    assert(s[n + 3] == ' ');
    assert forall|i: int| ts <= i < te implies ascii_word_char(#[trigger] s[i]) by {
        assert(s[i] == t[i - ts]);
    }
    assert(s[te] == ' ' && s[te + 1] == '*' && s[te + 2] == ' ');
    assert(s[bs] == b[0]);
    assert(ascii_word_char(s[ts]));
    assert(skip_ws(s, ts) == ts);
    assert(skip_ws(s, n + 3) == ts);
    lemma_type_end_over_word(s, ts, te);
    assert(trim_range(s, ts, te) == t) by {
        let pre = s.subrange(0, te);
        assert(!unicode_whitespace(pre[ts]));
        assert(skip_unicode_ws(pre, ts) == ts);
        assert(!unicode_whitespace(s[te - 1]));
        assert(trim_back(s, ts, te) == te);
        assert(s.subrange(ts, te) =~= t);
    }
    assert(skip_ws(s, te + 1) == te + 1);
    assert(skip_ws(s, te) == te + 1);
    assert(!word_at(s, te + 1, "const"@)) by {
        if word_at(s, te + 1, "const"@) {
            assert(s.subrange(te + 1, te + 6)[0] == "const"@[0]);
        }
    }
    assert(!word_at(s, te + 1, "mut"@)) by {
        if word_at(s, te + 1, "mut"@) {
            assert(s.subrange(te + 1, te + 4)[0] == "mut"@[0]);
        }
    }
    assert(modifier_at(s, te + 1) == Some((Modifier::MutPtr, te + 2)));
    assert(!ascii_whitespace(s[bs]));
    assert(skip_ws(s, bs) == bs);
    assert(skip_ws(s, te + 2) == bs);
    assert(!word_at(s, bs, "const"@)) by {
        if word_at(s, bs, "const"@) {
            assert(s.subrange(bs, bs + 5) =~= b.subrange(0, 5));
        }
    }
    assert(!word_at(s, bs, "mut"@)) by {
        if word_at(s, bs, "mut"@) {
            assert(s.subrange(bs, bs + 3) =~= b.subrange(0, 3));
        }
    }
    assert(modifier_at(s, bs) is None);
    assert(modifiers_from(s, bs, te + 2) == (Seq::<Modifier>::empty(), te + 2, bs));
    assert(modifiers_from(s, te + 1, te) == (seq![Modifier::MutPtr], te + 2, bs)) by {
        assert(seq![Modifier::MutPtr] + Seq::<Modifier>::empty() =~= seq![Modifier::MutPtr]);
    }
    assert(as_cast_at(s, n + 1) is None);
    let f1 = |s: Seq<char>, i: int| as_cast_at(s, i);
    assert forall|k: int| 0 <= k < s.len() implies (#[trigger] f1(s, k)) is None by {
        if k != n + 1 {
            assert(!as_word_at(s, k));
        }
    }
    lemma_rewrite_nothing(s, 0, f1);
    assert(s.subrange(0, s.len() as int) =~= s);
}

/// A rewrite copies the characters of a stretch on which its step finds
/// nothing to rewrite.
proof fn lemma_rewrite_copies(s: Seq<char>, i: int, j: int, step: spec_fn(Seq<char>, int) -> Option<(Seq<char>, int)>)
    requires
        0 <= i <= j <= s.len(),
        forall|k: int| i <= k < j ==> (#[trigger] step(s, k)) is None,
    ensures
        rewrite_from(s, i, step) == s.subrange(i, j) + rewrite_from(s, j, step),
    decreases j - i,
{
    if i < j {
        assert(step(s, i) is None);
        lemma_rewrite_copies(s, i + 1, j, step);
        assert(seq![s[i]] + s.subrange(i + 1, j) =~= s.subrange(i, j));
        assert(seq![s[i]] + (s.subrange(i + 1, j) + rewrite_from(s, j, step))
            =~= s.subrange(i, j) + rewrite_from(s, j, step));
    } else {
        assert(s.subrange(i, j) =~= Seq::<char>::empty());
        assert(Seq::<char>::empty() + rewrite_from(s, j, step) =~= rewrite_from(s, j, step));
    }
}

proof fn lemma_skip_ws_run(s: Seq<char>, j: int, e: int)
    requires
        0 <= j <= e <= s.len(),
        forall|i: int| j <= i < e ==> ascii_whitespace(#[trigger] s[i]),
        e == s.len() || !ascii_whitespace(s[e]),
    ensures
        skip_ws(s, j) == e,
    decreases e - j,
{
    if j < e {
        assert(ascii_whitespace(s[j]));
        lemma_skip_ws_run(s, j + 1, e);
    }
}

proof fn lemma_type_end_at_symbol(s: Seq<char>, j: int, te: int)
    requires
        0 <= j <= te < s.len(),
        forall|i: int| j <= i < te ==> ascii_word_char(#[trigger] s[i]),
        !(ascii_word_char(s[te]) || s[te] == ':' || s[te] == ' '),
    ensures
        type_end(s, j) == te,
    decreases te - j,
{
    if j < te {
        assert(ascii_word_char(s[j]));
        lemma_type_end_at_symbol(s, j + 1, te);
    }
}

/// The text `a: t` with the modifier `m` right after the name `t`, then the
/// white space `sp` and the rest of the text.
pub open spec fn postfix_annotation_text(a: Seq<char>, t: Seq<char>, m: char, sp: Seq<char>, rest: Seq<char>) -> Seq<char> {
    a + ": "@ + t + seq![m] + sp + rest
}

/// What a postfix annotation `: T*` or `: T&` is rewritten to: the pointer
/// or borrow moved in front, mutable, and `char` spelled `c_char`.
pub open spec fn prefix_annotation(t: Seq<char>, m: char) -> Seq<char> {
    ": "@ + (if m == '*' { "*mut "@ } else { "&mut "@ }) + (if t == "char"@ { "c_char"@ } else { t })
}

/// A postfix annotation `: T*` or `: T&` (a name, then the modifier, then
/// the end of the annotation) keeps its modifier: the rewrite that starts at
/// its colon gives `: *mut T` or `: &mut T`, and goes on just after the
/// modifier, so that what follows is kept.
pub proof fn law_postfix_annotation_rewritten(a: Seq<char>, t: Seq<char>, m: char, sp: Seq<char>, rest: Seq<char>)
    requires
        a.len() == 0 || a.last() != ':',
        t.len() > 0,
        forall|i: int| 0 <= i < t.len() ==> ascii_word_char(#[trigger] t[i]),
        m == '*' || m == '&',
        forall|i: int| 0 <= i < sp.len() ==> #[trigger] sp[i] == ' ',
        rest.len() == 0 || (annotation_end(rest[0]) && !ascii_whitespace(rest[0])),
    ensures
        colon_annotation_at(postfix_annotation_text(a, t, m, sp, rest), a.len() as int) == Some(
            (prefix_annotation(t, m), (a.len() + 2 + t.len() + 1) as int),
        ),
{
    reveal_strlit(": ");
    reveal_strlit("const");
    reveal_strlit("mut");
    let s = postfix_annotation_text(a, t, m, sp, rest);
    let n = a.len() as int;
    let ts = n + 2;
    let te = ts + t.len();
    let rs = te + 1 + sp.len();
    assert(s.len() == rs + rest.len());
    assert(s[n] == ':');
    assert(s[n + 1] == ' ');
    assert(n > 0 ==> s[n - 1] == a.last());
    assert forall|i: int| ts <= i < te implies ascii_word_char(#[trigger] s[i]) by {
        assert(s[i] == t[i - ts]);
    }
    assert(s[te] == m);
    assert forall|i: int| te + 1 <= i < rs implies ascii_whitespace(#[trigger] s[i]) by {
        assert(s[i] == sp[i - te - 1]);
    }
    assert(rs < s.len() ==> s[rs] == rest[0]);
    assert(ascii_word_char(s[ts]));
    assert(skip_ws(s, ts) == ts);
    assert(skip_ws(s, n + 1) == ts);
    lemma_type_end_at_symbol(s, ts, te);
    assert(trim_range(s, ts, te) == t) by {
        let pre = s.subrange(0, te);
        assert(!unicode_whitespace(pre[ts]));
        assert(skip_unicode_ws(pre, ts) == ts);
        assert(!unicode_whitespace(s[te - 1]));
        assert(trim_back(s, ts, te) == te);
        assert(s.subrange(ts, te) =~= t);
    }
    assert(skip_ws(s, te) == te);
    lemma_skip_ws_run(s, te + 1, rs);
    assert(!word_at(s, te, "const"@)) by {
        if word_at(s, te, "const"@) {
            assert(s.subrange(te, te + 5)[0] == "const"@[0]);
        }
    }
    assert(!word_at(s, te, "mut"@)) by {
        if word_at(s, te, "mut"@) {
            assert(s.subrange(te, te + 3)[0] == "mut"@[0]);
        }
    }
    let md = if m == '*' { Modifier::MutPtr } else { Modifier::MutRef };
    assert(modifier_at(s, te) == Some((md, te + 1)));
    if rs < s.len() {
        assert(!word_at(s, rs, "const"@)) by {
            if word_at(s, rs, "const"@) {
                assert(s.subrange(rs, rs + 5)[0] == "const"@[0]);
            }
        }
        assert(!word_at(s, rs, "mut"@)) by {
            if word_at(s, rs, "mut"@) {
                assert(s.subrange(rs, rs + 3)[0] == "mut"@[0]);
            }
        }
        assert(modifier_at(s, rs) is None);
    }
    assert(modifiers_from(s, rs, te + 1) == (Seq::<Modifier>::empty(), te + 1, rs));
    assert(modifiers_from(s, te, te) == (seq![md], te + 1, rs)) by {
        assert(seq![md] + Seq::<Modifier>::empty() =~= seq![md]);
    }
    assert(typed_modifiers(s, ts) == (t, seq![md], te + 1, rs));
    assert(modifiers_prefix(seq![md]) == modifier_text(md)) by {
        let one: Seq<Modifier> = seq![md];
        assert(one.drop_first() =~= Seq::<Modifier>::empty());
        assert(modifiers_prefix(one.drop_first()) == Seq::<char>::empty());
        assert(one[0] == md);
        assert(modifiers_prefix(one) == modifiers_prefix(one.drop_first()) + modifier_text(one[0]));
        assert(Seq::<char>::empty() + modifier_text(md) =~= modifier_text(md));
    }
}

proof fn lemma_no_annotation_off_colon(s: Seq<char>, k: int)
    requires
        0 <= k < s.len(),
        s[k] != ':',
    ensures
        colon_annotation_at(s, k) is None,
{
}

/// The annotation pass rewrites a postfix annotation `: T*` or `: T&` in
/// place and copies the rest of the text: in a text with no other colon,
/// `x: int* = y;` becomes `x: *mut int = y;` and `r: T& = q;` becomes
/// `r: &mut T = q;`.
#[verifier::spinoff_prover]
#[verifier::rlimit(40)]
pub proof fn law_postfix_annotation_in_text(a: Seq<char>, t: Seq<char>, m: char, sp: Seq<char>, rest: Seq<char>)
    requires
        forall|i: int| 0 <= i < a.len() ==> #[trigger] a[i] != ':',
        t.len() > 0,
        forall|i: int| 0 <= i < t.len() ==> ascii_word_char(#[trigger] t[i]),
        m == '*' || m == '&',
        forall|i: int| 0 <= i < sp.len() ==> #[trigger] sp[i] == ' ',
        rest.len() == 0 || (annotation_end(rest[0]) && !ascii_whitespace(rest[0])),
        forall|i: int| 0 <= i < rest.len() ==> #[trigger] rest[i] != ':',
    ensures
        flip_colon_spec(postfix_annotation_text(a, t, m, sp, rest)) == a + prefix_annotation(t, m) + sp + rest,
{
    reveal_strlit(": ");
    let s = postfix_annotation_text(a, t, m, sp, rest);
    let n = a.len() as int;
    let te = n + 2 + t.len();
    if a.len() > 0 {
        assert(a.last() == a[a.len() - 1]);
    }
    law_postfix_annotation_rewritten(a, t, m, sp, rest);
    let f = |s: Seq<char>, i: int| colon_annotation_at(s, i);
    assert(s.len() == te + 1 + sp.len() + rest.len());
    assert forall|k: int| 0 <= k < n implies (#[trigger] f(s, k)) is None by {
        assert(s[k] == a[k]);
        lemma_no_annotation_off_colon(s, k);
    }
    assert forall|k: int| te + 1 <= k < s.len() implies (#[trigger] f(s, k)) is None by {
        if k < te + 1 + sp.len() {
            assert(s[k] == sp[k - te - 1]);
        } else {
            assert(s[k] == rest[k - te - 1 - sp.len()]);
        }
        lemma_no_annotation_off_colon(s, k);
    }
    lemma_rewrite_copies(s, 0, n, f);
    lemma_rewrite_copies(s, te + 1, s.len() as int, f);
    assert(rewrite_from(s, s.len() as int, f) == Seq::<char>::empty());
    assert(f(s, n) == Some((prefix_annotation(t, m), te + 1)));
    assert(rewrite_from(s, n, f) == prefix_annotation(t, m) + rewrite_from(s, te + 1, f));
    assert(s.subrange(0, n) =~= a);
    assert(s.subrange(te + 1, s.len() as int) =~= sp + rest);
    assert(s.subrange(te + 1, s.len() as int) + Seq::<char>::empty() =~= sp + rest);
    assert(a + (prefix_annotation(t, m) + (sp + rest)) =~= a + prefix_annotation(t, m) + sp + rest);
}

/// `w` occurs at `j` in `s` as a word of its own: the characters just before
/// and just after it (where there are any) are not letters, digits or `_`.
pub open spec fn stands_alone(s: Seq<char>, w: Seq<char>, j: int) -> bool {
    &&& occurs_at(s, w, j)
    &&& (j == 0 || !ident_char(s[j - 1]))
    &&& (j + w.len() >= s.len() || !ident_char(s[j + w.len()]))
}

/// `as` starts a word at `i` and is followed by a space, a tab or a newline.
pub open spec fn as_word_at(s: Seq<char>, i: int) -> bool {
    &&& 0 <= i && i + 2 < s.len()
    &&& s[i] == 'a' && s[i + 1] == 's'
    &&& (i == 0 || !ascii_word_char(s[i - 1]))
    &&& (s[i + 2] == ' ' || s[i + 2] == '\t' || s[i + 2] == '\n')
}

/// Text without Carbide syntax for the body transforms: no C type name of
/// the table stands alone in it, no word `as` is followed by white space,
/// every `:` belongs to a `::`, and `mut&` does not occur.
pub open spec fn plain_rust(s: Seq<char>) -> bool {
    &&& forall|k: int, j: int| 0 <= k < type_table().len() ==> !#[trigger] stands_alone(s, type_table()[k].0, j)
    &&& forall|i: int| !#[trigger] as_word_at(s, i)
    &&& forall|i: int| 0 <= i < s.len() && #[trigger] s[i] == ':' ==>
            (i > 0 && s[i - 1] == ':') || (i + 1 < s.len() && s[i + 1] == ':')
    &&& !contains_seq(s, "mut&"@)
}

proof fn lemma_replace_from_not_alone(s: Seq<char>, w: Seq<char>, r: Seq<char>, i: int)
    requires
        0 <= i <= s.len(),
        w.len() > 0,
        forall|j: int| !#[trigger] stands_alone(s, w, j),
    ensures
        replace_from(s, w, r, i) == s.subrange(i, s.len() as int),
    decreases s.len() - i,
{
    lemma_first_occurrence(s, w, i);
    match first_occurrence(s, w, i) {
        None => {},
        Some(j) => {
            assert(!stands_alone(s, w, j));
            let e = j + w.len();
            lemma_replace_from_not_alone(s, w, r, e);
            assert(s.subrange(i, j) + w + s.subrange(e, s.len() as int) =~= s.subrange(i, s.len() as int));
        },
    }
}

/// A word that never stands alone in the text is replaced nowhere.
pub proof fn law_replace_word_not_alone(s: Seq<char>, w: Seq<char>, r: Seq<char>)
    requires
        forall|j: int| !#[trigger] stands_alone(s, w, j),
    ensures
        replace_word_spec(s, w, r) == s,
{
    if w.len() > 0 {
        lemma_replace_from_not_alone(s, w, r, 0);
        assert(s.subrange(0, s.len() as int) =~= s);
    }
}

proof fn lemma_subst_not_alone(s: Seq<char>, t: Seq<(Seq<char>, Seq<char>)>)
    requires
        forall|k: int, j: int| 0 <= k < t.len() ==> !#[trigger] stands_alone(s, t[k].0, j),
    ensures
        subst_all(s, t) == s,
    decreases t.len(),
{
    if t.len() > 0 {
        assert forall|j: int| !#[trigger] stands_alone(s, t[0].0, j) by {
            assert(!stands_alone(s, t[0].0, j));
        }
        law_replace_word_not_alone(s, t[0].0, t[0].1);
        let rest = t.drop_first();
        assert forall|k: int, j: int| 0 <= k < rest.len() implies !#[trigger] stands_alone(s, rest[k].0, j) by {
            assert(rest[k] == t[k + 1]);
            assert(!stands_alone(s, t[k + 1].0, j));
        }
        lemma_subst_not_alone(s, rest);
    }
}

/// Rust text without Carbide syntax passes through the body transforms
/// unchanged, character for character: comments, strings and non-ASCII
/// text included.
pub proof fn law_plain_rust_unchanged(s: Seq<char>)
    requires
        plain_rust(s),
    ensures
        body_transform(s) == s,
{
    lemma_subst_not_alone(s, type_table());
    reveal_strlit("mut&");
    let f1 = |s: Seq<char>, i: int| as_cast_at(s, i);
    let f2 = |s: Seq<char>, i: int| colon_annotation_at(s, i);
    let f3 = |s: Seq<char>, i: int| mut_ref_at(s, i);
    assert forall|k: int| 0 <= k < s.len() implies (#[trigger] f1(s, k)) is None by {
        assert(!as_word_at(s, k));
    }
    assert forall|k: int| 0 <= k < s.len() implies (#[trigger] f2(s, k)) is None by {
        if s[k] == ':' {
            assert((k > 0 && s[k - 1] == ':') || (k + 1 < s.len() && s[k + 1] == ':'));
        }
    }
    assert forall|k: int| 0 <= k < s.len() implies (#[trigger] f3(s, k)) is None by {
        if word_at(s, k, "mut&"@) {
            assert(occurs_at(s, "mut&"@, k));
        }
    }
    lemma_rewrite_nothing(s, 0, f1);
    lemma_rewrite_nothing(s, 0, f2);
    lemma_rewrite_nothing(s, 0, f3);
    assert(s.subrange(0, s.len() as int) =~= s);
}

// ---------------------------------------------------------------------------
// Lemmas
// ---------------------------------------------------------------------------

proof fn lemma_skip_ws(s: Seq<char>, j: int)
    requires
        0 <= j,
    ensures
        j <= skip_ws(s, j),
        j <= s.len() ==> skip_ws(s, j) <= s.len(),
        skip_ws(s, j) < s.len() ==> !ascii_whitespace(s[skip_ws(s, j)]),
    decreases s.len() - j,
{
    if 0 <= j < s.len() && ascii_whitespace(s[j]) {
        lemma_skip_ws(s, j + 1);
    }
}

proof fn lemma_type_end(s: Seq<char>, j: int)
    requires
        0 <= j <= s.len(),
    ensures
        j <= type_end(s, j) <= s.len(),
    decreases s.len() - j,
{
    if j < s.len() {
        let c = s[j];
        if ascii_word_char(c) || c == ':' || c == ' ' {
            if c == ' ' {
                lemma_skip_ws(s, j + 1);
                let nw = skip_ws(s, j + 1);
                if !modifier_keyword_ahead(s, nw) && nw < s.len() && ascii_word_char(s[nw]) && j < nw {
                    lemma_type_end(s, nw);
                }
            } else {
                lemma_type_end(s, j + 1);
            }
        }
    }
}

proof fn lemma_modifiers_from(s: Seq<char>, k: int, scan_pos: int)
    requires
        0 <= k <= s.len(),
        0 <= scan_pos <= k,
    ensures
        ({
            let (ms, sp, kk) = modifiers_from(s, k, scan_pos);
            &&& scan_pos <= sp <= kk <= s.len()
            &&& ms.len() > 0 ==> k < sp
            &&& ms.len() == 0 ==> sp == scan_pos && kk == k
        }),
    decreases s.len() - k,
{
    if k < s.len() {
        match modifier_at(s, k) {
            Some((m, after)) => {
                if k < after <= s.len() {
                    lemma_skip_ws(s, after);
                    lemma_modifiers_from(s, skip_ws(s, after), after);
                }
            },
            None => {},
        }
    }
}

// ---------------------------------------------------------------------------
// Executable scanning
// ---------------------------------------------------------------------------

/// The end of the run of ASCII white space that starts at `j`.
fn skip_ws_exec(s: &Vec<char>, j: usize) -> (r: usize)
    requires
        j <= s@.len(),
    ensures
        r as int == skip_ws(s@, j as int),
        j <= r <= s@.len(),
{
    let mut k = j;
    while k < s.len() && is_ascii_whitespace(s[k])
        invariant
            j <= k <= s@.len(),
            skip_ws(s@, j as int) == skip_ws(s@, k as int),
        decreases s@.len() - k,
    {
        k += 1;
    }
    k
}

/// Whether the word `w` is spelled in `s` from index `k`.
fn word_at_exec(s: &Vec<char>, k: usize, w: &str) -> (r: bool)
    ensures
        r == word_at(s@, k as int, w@),
{
    let wv = chars_of(w);
    matches_at(s, &wv, k)
}

fn star_or_amp(s: &Vec<char>, m: usize) -> (r: bool)
    ensures
        r == star_or_amp_at(s@, m as int),
{
    m < s.len() && (s[m] == '*' || s[m] == '&')
}

/// Whether a postfix modifier starts at `pos`.
fn is_modifier_keyword_ahead(s: &Vec<char>, pos: usize) -> (r: bool)
    requires
        pos <= s@.len(),
    ensures
        r == modifier_keyword_ahead(s@, pos as int),
{
    let n = s.len();
    proof {
        reveal_strlit("const");
        reveal_strlit("mut");
    }
    if word_at_exec(s, pos, "const") {
        let m = skip_ws_exec(s, pos + 5);
        if star_or_amp(s, m) {
            return true;
        }
    }
    if word_at_exec(s, pos, "mut") {
        let m = skip_ws_exec(s, pos + 3);
        if star_or_amp(s, m) {
            return true;
        }
    }
    star_or_amp(s, pos)
}

/// The end of the type name that starts at `j`.
fn type_end_exec(s: &Vec<char>, j: usize) -> (r: usize)
    requires
        j <= s@.len(),
    ensures
        r as int == type_end(s@, j as int),
{
    let mut k = j;
    while k < s.len()
        invariant
            j <= k <= s@.len(),
            type_end(s@, j as int) == type_end(s@, k as int),
        decreases s@.len() - k,
    {
        let c = s[k];
        if !(is_ascii_word_char(c) || c == ':' || c == ' ') {
            return k;
        }
        if c == ' ' {
            let nw = skip_ws_exec(s, k + 1);
            if is_modifier_keyword_ahead(s, nw) {
                return k;
            }
            if nw < s.len() && is_ascii_word_char(s[nw]) {
                k = nw;
            } else {
                return k;
            }
        } else {
            k += 1;
        }
    }
    k
}

/// The modifier that starts at `k`, and the index just past its symbol.
fn modifier_at_exec(s: &Vec<char>, k: usize) -> (r: Option<(Modifier, usize)>)
    requires
        k <= s@.len(),
    ensures
        match r {
            Some((m, a)) => modifier_at(s@, k as int) == Some((m, a as int)) && k < a <= s@.len(),
            None => modifier_at(s@, k as int) is None,
        },
{
    let n = s.len();
    proof {
        reveal_strlit("const");
        reveal_strlit("mut");
    }
    let kw: Option<(usize, bool)> = if word_at_exec(s, k, "const") {
        Some((k + 5, true))
    } else if word_at_exec(s, k, "mut") {
        Some((k + 3, false))
    } else {
        None
    };
    match kw {
        Some((a, is_const)) => {
            if a >= n || is_ascii_whitespace(s[a]) || s[a] == '*' || s[a] == '&' {
                let m = skip_ws_exec(s, a);
                if m < n && s[m] == '*' {
                    Some((if is_const { Modifier::ConstPtr } else { Modifier::MutPtr }, m + 1))
                } else if m < n && s[m] == '&' {
                    Some((if is_const { Modifier::ConstRef } else { Modifier::MutRef }, m + 1))
                } else {
                    None
                }
            } else {
                None
            }
        },
        None => {
            if k < n && s[k] == '*' {
                Some((Modifier::MutPtr, k + 1))
            } else if k < n && s[k] == '&' {
                Some((Modifier::MutRef, k + 1))
            } else {
                None
            }
        },
    }
}

/// The modifiers from `k` on, the index past the last, and where the scan stopped.
#[verifier::loop_isolation(false)]
fn modifiers_exec(s: &Vec<char>, k0: usize, scan0: usize) -> (r: (Vec<Modifier>, usize, usize))
    requires
        k0 <= s@.len(),
        scan0 <= k0,
    ensures
        (r.0@, r.1 as int, r.2 as int) == modifiers_from(s@, k0 as int, scan0 as int),
{
    let mut mods: Vec<Modifier> = Vec::new();
    let mut k = k0;
    let mut scan_pos = scan0;
    loop
        invariant
            scan_pos <= k <= s@.len(),
            ({
                let (ms, sp, kk) = modifiers_from(s@, k as int, scan_pos as int);
                modifiers_from(s@, k0 as int, scan0 as int) == (mods@ + ms, sp, kk)
            }),
        decreases s@.len() - k,
    {
        if k >= s.len() {
            assert(mods@ + seq![] =~= mods@);
            return (mods, scan_pos, k);
        }
        match modifier_at_exec(s, k) {
            Some((m, after)) => {
                let ghost before = mods@;
                mods.push(m);
                let next = skip_ws_exec(s, after);
                proof {
                    let (rest, sp, kk) = modifiers_from(s@, next as int, after as int);
                    assert(before + (seq![m] + rest) =~= mods@ + rest);
                }
                scan_pos = after;
                k = next;
            },
            None => {
                assert(mods@ + seq![] =~= mods@);
                return (mods, scan_pos, k);
            },
        }
    }
}

/// Appends the Rust prefix of the modifiers (last written first) to `out`.
fn push_modifiers_prefix(out: &mut Vec<char>, mods: &Vec<Modifier>)
    ensures
        final(out)@ == old(out)@ + modifiers_prefix(mods@),
{
    let ghost start = out@;
    let mut i = mods.len();
    assert(mods@.subrange(0, i as int) =~= mods@);
    while i > 0
        invariant
            i <= mods@.len(),
            out@ + modifiers_prefix(mods@.subrange(0, i as int)) == start + modifiers_prefix(mods@),
        decreases i,
    {
        let ghost before = out@;
        i -= 1;
        let t = match mods[i] {
            Modifier::ConstPtr => "*const ",
            Modifier::MutPtr => "*mut ",
            Modifier::ConstRef => "&",
            Modifier::MutRef => "&mut ",
        };
        push_str(out, t);
        proof {
            lemma_prefix_split(mods@.subrange(0, i + 1));
            assert(mods@.subrange(0, i + 1).drop_last() =~= mods@.subrange(0, i as int));
            assert(before + (modifier_text(mods@[i as int]) + modifiers_prefix(mods@.subrange(0, i as int)))
                =~= before + modifier_text(mods@[i as int]) + modifiers_prefix(mods@.subrange(0, i as int)));
        }
    }
    assert(mods@.subrange(0, 0) =~= Seq::<Modifier>::empty());
}

/// The prefix of a sequence of modifiers ends with the text of its first.
proof fn lemma_prefix_split(ms: Seq<Modifier>)
    requires
        ms.len() > 0,
    ensures
        modifiers_prefix(ms) == modifier_text(ms.last()) + modifiers_prefix(ms.drop_last()),
    decreases ms.len(),
{
    if ms.len() == 1 {
        assert(ms.drop_last() =~= Seq::<Modifier>::empty());
        assert(ms.drop_first() =~= Seq::<Modifier>::empty());
        assert(modifier_text(ms[0]) + seq![] =~= seq![] + modifier_text(ms[0]));
    } else {
        lemma_prefix_split(ms.drop_first());
        assert(ms.drop_first().drop_last() =~= ms.drop_last().drop_first());
        assert(ms.drop_first().last() == ms.last());
        assert(ms.drop_last()[0] == ms[0]);
        let a = modifier_text(ms.last());
        let b = modifiers_prefix(ms.drop_first().drop_last());
        let c = modifier_text(ms[0]);
        assert(a + b + c =~= a + (b + c));
    }
}

/// The type name and postfix modifiers that start at or after `ts`.
fn typed_modifiers_exec(s: &Vec<char>, ts: usize) -> (r: (Vec<char>, Vec<Modifier>, usize, usize))
    requires
        ts <= s@.len(),
    ensures
        (r.0@, r.1@, r.2 as int, r.3 as int) == typed_modifiers(s@, ts as int),
        ts <= r.2,
        r.1@.len() > 0 ==> ts < r.2 <= s@.len(),
{
    let j = type_end_exec(s, ts);
    proof { lemma_type_end(s@, ts as int); }
    let name = trimmed_range(s, ts, j);
    let k = skip_ws_exec(s, j);
    let (mods, scan_pos, kk) = modifiers_exec(s, k, j);
    proof { lemma_modifiers_from(s@, k as int, j as int); }
    (name, mods, scan_pos, kk)
}

/// Appends `c_char` for `char`, or the name itself, to `out`.
fn push_display_name(out: &mut Vec<char>, name: &Vec<char>)
    ensures
        final(out)@ == old(out)@ + display_type_name(name@),
{
    let is_char = name.len() == 4 && name[0] == 'c' && name[1] == 'h' && name[2] == 'a' && name[3] == 'r';
    proof {
        reveal_strlit("char");
        if is_char {
            assert(name@ =~= "char"@);
        } else {
            assert(name@ != "char"@) by {
                if name@ == "char"@ {
                    assert(name@[0] == 'c' && name@[1] == 'h' && name@[2] == 'a' && name@[3] == 'r');
                }
            }
        }
    }
    if is_char {
        push_str(out, "c_char");
    } else {
        push_chars(out, name);
    }
}

/// Whether `c` can start an operand of a multiplication.
fn is_operand_start(c: char) -> (r: bool)
    ensures
        r == operand_start(c),
{
    is_letter(c) || c == '_' || is_numeral(c) || c == '"' || c == '\'' || c == '(' || c == '['
}

/// The rewrite of a postfix cast that starts at `i`, if any.
fn as_cast_exec(s: &Vec<char>, i: usize) -> (r: Option<(Vec<char>, usize)>)
    requires
        i < s@.len(),
    ensures
        match r {
            Some((t, n)) => as_cast_at(s@, i as int) == Some((t@, n as int)) && i < n <= s@.len(),
            None => as_cast_at(s@, i as int) is None,
        },
{
    let n = s.len();
    if !(n - i > 2 && s[i] == 'a' && s[i + 1] == 's') {
        return None;
    }
    if !(i == 0 || !is_ascii_word_char(s[i - 1])) {
        return None;
    }
    if !(s[i + 2] == ' ' || s[i + 2] == '\t' || s[i + 2] == '\n') {
        return None;
    }
    let ts = skip_ws_exec(s, i + 2);
    let (name, mods, scan_pos, k) = typed_modifiers_exec(s, ts);
    if name.len() == 0 || mods.len() == 0 {
        return None;
    }
    if k < n && is_operand_start(s[k]) && mods.len() == 1 && mods[0] == Modifier::MutPtr {
        return None;
    }
    let mut out = chars_of("as ");
    push_modifiers_prefix(&mut out, &mods);
    push_display_name(&mut out, &name);
    Some((out, scan_pos))
}

/// The rewrite of a postfix annotation that starts at `i`, if any.
fn colon_annotation_exec(s: &Vec<char>, i: usize) -> (r: Option<(Vec<char>, usize)>)
    requires
        i < s@.len(),
    ensures
        match r {
            Some((t, n)) => colon_annotation_at(s@, i as int) == Some((t@, n as int)) && i < n <= s@.len(),
            None => colon_annotation_at(s@, i as int) is None,
        },
{
    let n = s.len();
    if s[i] != ':' {
        return None;
    }
    if (i > 0 && s[i - 1] == ':') || (i + 1 < n && s[i + 1] == ':') {
        return None;
    }
    let ts = skip_ws_exec(s, i + 1);
    let (name, mods, scan_pos, k) = typed_modifiers_exec(s, ts);
    if name.len() == 0 || mods.len() == 0 {
        return None;
    }
    if k < n {
        let c = s[k];
        if !(c == '=' || c == ';' || c == ',' || c == ')' || c == ']' || c == '}' || c == '\n') {
            return None;
        }
    }
    let mut out = chars_of(": ");
    push_modifiers_prefix(&mut out, &mods);
    push_display_name(&mut out, &name);
    Some((out, scan_pos))
}

/// The rewrite of a `mut&` borrow that starts at `i`, if any.
fn mut_ref_exec(s: &Vec<char>, i: usize) -> (r: Option<(Vec<char>, usize)>)
    requires
        i < s@.len(),
    ensures
        match r {
            Some((t, n)) => mut_ref_at(s@, i as int) == Some((t@, n as int)) && i < n <= s@.len(),
            None => mut_ref_at(s@, i as int) is None,
        },
{
    let n = s.len();
    if word_at_exec(s, i, "mut&") && (i == 0 || !is_ascii_word_char(s[i - 1])) {
        proof {
            reveal_strlit("mut&");
            assert(i + 4 <= s@.len());
            lemma_skip_ws(s@, i + 4);
        }
        let next = skip_ws_exec(s, i + 4);
        Some((chars_of("&mut "), next))
    } else {
        None
    }
}

/// Which of the three rewrites a scan applies.
#[derive(Clone, Copy, PartialEq, Eq, Structural)]
enum Rewrite {
    AsCast,
    ColonAnnotation,
    MutRef,
}

/// The rewrite that a scan applies at each index.
spec fn rewrite_step(which: Rewrite) -> spec_fn(Seq<char>, int) -> Option<(Seq<char>, int)> {
    match which {
        Rewrite::AsCast => |s: Seq<char>, i: int| as_cast_at(s, i),
        Rewrite::ColonAnnotation => |s: Seq<char>, i: int| colon_annotation_at(s, i),
        Rewrite::MutRef => |s: Seq<char>, i: int| mut_ref_at(s, i),
    }
}

/// `s` rewritten left to right by one of the rewrites.
#[verifier::loop_isolation(false)]
fn rewrite(s: &Vec<char>, which: Rewrite) -> (r: Vec<char>)
    ensures
        r@ == rewrite_from(s@, 0, rewrite_step(which)),
{
    let ghost step = rewrite_step(which);
    let mut result: Vec<char> = Vec::new();
    let mut i: usize = 0;
    while i < s.len()
        invariant
            i <= s@.len(),
            rewrite_from(s@, 0, step) == result@ + rewrite_from(s@, i as int, step),
        decreases s@.len() - i,
    {
        let found = match which {
            Rewrite::AsCast => as_cast_exec(s, i),
            Rewrite::ColonAnnotation => colon_annotation_exec(s, i),
            Rewrite::MutRef => mut_ref_exec(s, i),
        };
        let ghost before = result@;
        match found {
            Some((text, next)) => {
                push_chars(&mut result, &text);
                assert(before + (text@ + rewrite_from(s@, next as int, step)) =~= result@ + rewrite_from(s@, next as int, step));
                i = next;
            },
            None => {
                result.push(s[i]);
                assert(before + (seq![s@[i as int]] + rewrite_from(s@, i + 1, step)) =~= result@ + rewrite_from(s@, i + 1, step));
                i += 1;
            },
        }
    }
    assert(result@ + seq![] =~= result@);
    result
}

/// `apply_body_transforms` on characters.
pub fn body_transform_chars(src: &Vec<char>) -> (r: Vec<char>)
    ensures
        r@ == body_transform(src@),
{
    let table = type_map();
    let mut s: Vec<char> = Vec::new();
    push_chars(&mut s, src);
    assert(s@ =~= src@);
    assert(type_table().skip(0) =~= type_table());
    let mut i: usize = 0;
    while i < table.len()
        invariant
            i <= table@.len(),
            table_view(table@) == type_table(),
            subst_all(src@, type_table()) == subst_all(s@, type_table().skip(i as int)),
        decreases table@.len() - i,
    {
        let (from, to) = table[i];
        let fv = chars_of(from);
        let tv = chars_of(to);
        s = replace_word_chars(&s, &fv, &tv);
        assert(type_table().skip(i as int).drop_first() =~= type_table().skip(i + 1));
        i += 1;
    }
    assert(src@ + seq![] =~= src@);
    assert(type_table().skip(table@.len() as int) =~= Seq::<(Seq<char>, Seq<char>)>::empty());
    let a = rewrite(&s, Rewrite::AsCast);
    assert(rewrite_step(Rewrite::AsCast) == (|s: Seq<char>, i: int| as_cast_at(s, i)));
    let b = rewrite(&a, Rewrite::ColonAnnotation);
    assert(rewrite_step(Rewrite::ColonAnnotation) == (|s: Seq<char>, i: int| colon_annotation_at(s, i)));
    let c = rewrite(&b, Rewrite::MutRef);
    assert(rewrite_step(Rewrite::MutRef) == (|s: Seq<char>, i: int| mut_ref_at(s, i)));
    c
}

} // verus!
