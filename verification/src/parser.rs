//! Parser for the Carbide language.
//!
//! Parses a stream of `(Token, offset)` pairs (produced by the lexer) into
//! the Carbide AST.  Only the structural skeleton of a program (top-level
//! items, function signatures, struct fields) becomes typed AST nodes;
//! function bodies, enum bodies and other items are slices of the source.
//!
//! Every parsing function is proved to compute the matching function of
//! `grammar.rs`.
use vstd::prelude::*;
use crate::ast::{
    attrs_view, fields_view, functions_view, items_view, opt_string_view, opt_type_view, params_view,
    Attribute, Field, Function, Item, Param, PrimitiveType, Program, ProgramV, Struct, Type,
};
use crate::grammar::{
    alias_item_at, attrs_at, brace_close, capture_body_at, enum_item_at, expect_at, fields_at,
    find_tok, fn_head_at, fn_sig_at, fn_tail_at, prototype_end, ident_type_at, impl_item_at, is_rust_primitive_name, items_at, methods_at,
    offsets_fit, opt_positioned_debug, opt_token_debug, params_at, parse_base_at, parse_fn_at,
    parse_item_at, parse_struct_at, parse_type_at, postfix_at,
    prefix_const_message, prefix_pointer_message, prefix_reference_message, raw_end,
    raw_item_at, tok_at, token_text, tokens_text, trim_all, use_item_at, Failure, TokenStream,
};
use crate::lexer::{byte_positioned, copy_token, positioned_view, push_token_debug, same_token, token_debug, Token, TokenV};
use vstd::utf8::encode_utf8;
use crate::text::{
    byte_offset, lemma_byte_offset_increasing, lemma_byte_offset_within, utf8_width_of,
    chars_of, push_chars, push_decimal, push_str, str_eq, string_of, string_of_range, trim_range,
    trimmed_range,
};

verus! {

/// How parsing can end without a program (see [`Failure`]).
pub enum ParseFailure {
    /// An error, with its message.
    Message(String),
    /// The parse cannot go on: a `}` at top level would make it loop for
    /// ever, and an unterminated `enum` body cannot be sliced.
    Stuck,
}

impl View for ParseFailure {
    type V = Failure;

    open spec fn view(&self) -> Failure {
        match self {
            ParseFailure::Message(m) => Failure::Message(m@),
            ParseFailure::Stuck => Failure::Stuck,
        }
    }
}

/// A parser that transforms a `(Token, offset)` stream into a Carbide AST.
///
/// `source` is the source text.  The byte offset given with each token is
/// turned into the index of the character that starts there, which is used
/// to slice raw body text out of the source without loss of whitespace;
/// `byte_at` maps character indices back to byte offsets.
pub struct Parser {
    source: Vec<char>,
    tokens: Vec<(Token, usize)>,
    byte_at: Vec<usize>,
    pos: usize,
}

/// The index of the character that starts at byte `b` of the UTF-8 encoding
/// of `s`, or `s.len()` when no character starts there.
pub open spec fn char_index(s: Seq<char>, b: int) -> int {
    if exists|i: int| 0 <= i < s.len() && byte_offset(s, i) == b {
        choose|i: int| 0 <= i < s.len() && byte_offset(s, i) == b
    } else {
        s.len() as int
    }
}

/// Tokens with each byte offset replaced by the index of the character that
/// starts there.
pub open spec fn char_positioned(s: Seq<char>, ts: Seq<(TokenV, int)>) -> Seq<(TokenV, int)> {
    ts.map_values(|p: (TokenV, int)| (p.0, char_index(s, p.1)))
}

/// A character's byte offset leads back to the character.
pub proof fn lemma_char_index_of_byte_offset(s: Seq<char>, i: int)
    requires
        0 <= i < s.len(),
    ensures
        char_index(s, byte_offset(s, i)) == i,
{
    let b = byte_offset(s, i);
    assert(exists|j: int| 0 <= j < s.len() && byte_offset(s, j) == b);
    let j = choose|j: int| 0 <= j < s.len() && byte_offset(s, j) == b;
    if j < i {
        lemma_byte_offset_increasing(s, j, i);
    } else if i < j {
        lemma_byte_offset_increasing(s, i, j);
    }
}

/// Byte offsets of the tokens read back as character indices give the
/// tokens back, when every offset is that of a character of `s`.
pub proof fn lemma_char_positioned_inverse(s: Seq<char>, ts: Seq<(TokenV, int)>)
    requires
        forall|k: int| 0 <= k < ts.len() ==> 0 <= #[trigger] ts[k].1 < s.len(),
    ensures
        char_positioned(s, byte_positioned(s, ts)) == ts,
{
    assert forall|k: int| 0 <= k < ts.len() implies #[trigger] char_positioned(s, byte_positioned(s, ts))[k] == ts[k] by {
        lemma_char_index_of_byte_offset(s, ts[k].1);
    }
    assert(char_positioned(s, byte_positioned(s, ts)) =~= ts);
}

/// The byte offset of each character index of `chars`, and of its end.
#[verifier::loop_isolation(false)]
fn byte_table(chars: &Vec<char>, total: usize) -> (t: Vec<usize>)
    requires
        total == encode_utf8(chars@).len(),
    ensures
        t@.len() == chars@.len() + 1,
        forall|i: int| 0 <= i <= chars@.len() ==> #[trigger] t@[i] == byte_offset(chars@, i),
{
    let ghost s = chars@;
    let mut t: Vec<usize> = Vec::new();
    t.push(0);
    let mut b: usize = 0;
    let mut i: usize = 0;
    while i < chars.len()
        invariant
            i <= s.len(),
            t@.len() == i + 1,
            b == byte_offset(s, i as int),
            forall|j: int| 0 <= j <= i ==> #[trigger] t@[j] == byte_offset(s, j),
        decreases s.len() - i,
    {
        proof { lemma_byte_offset_within(s, i + 1); }
        b = b + utf8_width_of(chars[i]);
        t.push(b);
        i += 1;
    }
    t
}

/// The index of the character of `s` that starts at byte `b`, or the number
/// of characters when none does (`table` holds the byte offsets).
fn find_char(table: &Vec<usize>, Ghost(s): Ghost<Seq<char>>, b: usize) -> (i: usize)
    requires
        table@.len() == s.len() + 1,
        forall|j: int| 0 <= j <= s.len() ==> #[trigger] table@[j] == byte_offset(s, j),
    ensures
        i == char_index(s, b as int),
{
    let n = table.len() - 1;
    let mut lo: usize = 0;
    let mut hi: usize = n;
    while lo < hi
        invariant
            n == s.len(),
            lo <= hi <= n,
            table@.len() == s.len() + 1,
            forall|j: int| 0 <= j <= s.len() ==> #[trigger] table@[j] == byte_offset(s, j),
            forall|j: int| 0 <= j < lo ==> byte_offset(s, j) < b,
            forall|j: int| hi <= j < n ==> byte_offset(s, j) > b,
        decreases hi - lo,
    {
        let mid = lo + (hi - lo) / 2;
        let v = table[mid];
        if v == b {
            proof { lemma_char_index_of_byte_offset(s, mid as int); }
            return mid;
        } else if v < b {
            proof {
                assert forall|j: int| 0 <= j < mid + 1 implies byte_offset(s, j) < b by {
                    if j < mid {
                        lemma_byte_offset_increasing(s, j, mid as int);
                    }
                }
            }
            lo = mid + 1;
        } else {
            proof {
                assert forall|j: int| mid <= j < n implies byte_offset(s, j) > b by {
                    if mid < j {
                        lemma_byte_offset_increasing(s, mid as int, j);
                    }
                }
            }
            hi = mid;
        }
    }
    assert(!exists|j: int| 0 <= j < s.len() && byte_offset(s, j) == b);
    n
}

/// `a`, followed by the outcome `r` of parsing the rest.
pub open spec fn prepend_ok<T>(a: Seq<T>, r: Result<(Seq<T>, int), Seq<char>>) -> Result<(Seq<T>, int), Seq<char>> {
    match r {
        Ok((rest, e)) => Ok((a + rest, e)),
        Err(m) => Err(m),
    }
}

/// The characters of `a` followed by those of `b`, as a `String`.
fn message(a: &str, b: Vec<char>) -> (s: String)
    ensures
        s@ == a@ + b@,
{
    let mut v = chars_of(a);
    push_chars(&mut v, &b);
    string_of(&v)
}

/// The `{:?}` text of a token.
fn token_debug_chars(t: &Token) -> (v: Vec<char>)
    ensures
        v@ == token_debug(t@),
{
    let mut v: Vec<char> = Vec::new();
    push_token_debug(&mut v, t);
    assert(v@ =~= token_debug(t@));
    v
}

/// The `{:?}` text of an optional token.
fn opt_debug_chars(t: Option<&Token>) -> (v: Vec<char>)
    ensures
        v@ == opt_token_debug(match t {
            Some(t) => Some(t@),
            None => None,
        }),
{
    match t {
        Some(t) => {
            let mut v = chars_of("Some(");
            push_token_debug(&mut v, t);
            push_str(&mut v, ")");
            v
        },
        None => chars_of("None"),
    }
}

/// Whether `n` names a Rust primitive type.
fn is_rust_primitive(n: &str) -> (r: bool)
    ensures
        r == is_rust_primitive_name(n@),
{
    str_eq(n, "i8") || str_eq(n, "i16") || str_eq(n, "i32") || str_eq(n, "i64") || str_eq(n, "i128")
        || str_eq(n, "isize") || str_eq(n, "u8") || str_eq(n, "u16") || str_eq(n, "u32")
        || str_eq(n, "u64") || str_eq(n, "u128") || str_eq(n, "usize") || str_eq(n, "f32")
        || str_eq(n, "f64") || str_eq(n, "bool") || str_eq(n, "str")
}

/// A token with which a type may not start: prefix `&`, `*` or `const`,
/// which a refused type leaves unread.
pub open spec fn is_prefix_type_token(t: Option<TokenV>) -> bool {
    t == Some(TokenV::Ampersand) || t == Some(TokenV::Star) || t == Some(TokenV::Const)
}

/// The message of `Parser::parse_program` for a parse that cannot go on.
pub open spec fn stuck_message() -> Seq<char> {
    "Unbalanced '}' at top level or unterminated enum body"@
}

/// A user-defined type named by the string `s`.
fn user(s: &str) -> (t: Type)
    ensures
        t@ == crate::grammar::user_type(s@),
{
    Type::UserDefined(String::from_str(s))
}

impl Parser {
    /// The tokens and source this parser reads.
    pub closed spec fn stream(&self) -> TokenStream {
        TokenStream { toks: positioned_view(self.tokens@), src: self.source@ }
    }

    /// The index of the next token to read.
    pub closed spec fn cursor(&self) -> int {
        self.pos as int
    }

    /// The byte offset of each character of the source is at hand.
    pub closed spec fn tables_ok(&self) -> bool {
        &&& self.byte_at@.len() == self.source@.len() + 1
        &&& forall|i: int| 0 <= i <= self.source@.len() ==> #[trigger] self.byte_at@[i] == byte_offset(self.source@, i)
    }

    /// The offsets of the tokens fit the source, and the cursor lies
    /// within the tokens.
    pub open spec fn wf(&self) -> bool {
        offsets_fit(self.stream()) && 0 <= self.cursor() <= self.stream().toks.len() && self.tables_ok()
    }

    /// Create a new Parser.
    ///
    /// `source` must be the text that was tokenised to produce `tokens`,
    /// whose offsets are byte offsets into it.
    pub fn new(source: &str, tokens: Vec<(Token, usize)>) -> (p: Self)
        ensures
            p.stream() == (TokenStream { toks: char_positioned(source@, positioned_view(tokens@)), src: source@ }),
            p.cursor() == 0,
            p.tables_ok(),
    {
        let chars = chars_of(source);
        let bytes = source.as_bytes();
        let byte_at = byte_table(&chars, bytes.len());
        let mut toks: Vec<(Token, usize)> = Vec::new();
        let mut k: usize = 0;
        while k < tokens.len()
            invariant
                k <= tokens@.len(),
                chars@ == source@,
                byte_at@.len() == source@.len() + 1,
                forall|i: int| 0 <= i <= source@.len() ==> #[trigger] byte_at@[i] == byte_offset(source@, i),
                toks@.len() == k,
                forall|j: int| 0 <= j < k ==> (#[trigger] toks@[j]).0@ == tokens@[j].0@
                    && toks@[j].1 as int == char_index(source@, tokens@[j].1 as int),
            decreases tokens@.len() - k,
        {
            let i = find_char(&byte_at, Ghost(source@), tokens[k].1);
            toks.push((copy_token(&tokens[k].0), i));
            k += 1;
        }
        let p = Parser { source: chars, tokens: toks, byte_at, pos: 0 };
        assert(p.stream().toks =~= char_positioned(source@, positioned_view(tokens@)));
        p
    }

    /// Whether the token offsets lie, strictly increasing, inside the source
    /// (as they do for the output of `Lexer::tokenize_with_positions`).
    #[verifier::loop_isolation(false)]
    pub fn offsets_fit_source(&self) -> (r: bool)
        ensures
            r == offsets_fit(self.stream()),
    {
        let n = self.tokens.len();
        let mut i: usize = 0;
        while i < n
            invariant
                n == self.tokens@.len(),
                i <= n,
                forall|a: int, b: int| 0 <= a < b < i ==> self.stream().toks[a].1 < self.stream().toks[b].1,
                forall|a: int| 0 <= a < i ==> 0 <= #[trigger] self.stream().toks[a].1 < self.stream().src.len(),
            decreases n - i,
        {
            if self.tokens[i].1 >= self.source.len() {
                assert(!(0 <= self.stream().toks[i as int].1 < self.stream().src.len()));
                return false;
            }
            if i > 0 && self.tokens[i - 1].1 >= self.tokens[i].1 {
                assert(self.stream().toks[i - 1].1 >= self.stream().toks[i as int].1);
                return false;
            }
            proof {
                let t = self.stream().toks;
                assert forall|a: int, b: int| 0 <= a < b < i + 1 implies t[a].1 < t[b].1 by {
                    if b == i && a < i - 1 {
                        assert(t[a].1 < t[i - 1].1);
                    }
                }
            }
            i += 1;
        }
        assert(self.stream().toks.len() == n);
        true
    }

    // -------------------------------------------------------------------------
    // Token navigation helpers
    // -------------------------------------------------------------------------

    /// Peek at the current token.
    fn peek(&self) -> (r: Option<&Token>)
        ensures
            match r {
                Some(t) => tok_at(self.stream(), self.pos as int) == Some(t@),
                None => tok_at(self.stream(), self.pos as int) is None,
            },
    {
        if self.pos < self.tokens.len() {
            Some(&self.tokens[self.pos].0)
        } else {
            None
        }
    }

    /// Whether the current token is `t`.
    fn peek_is(&self, t: Token) -> (r: bool)
        ensures
            r == (tok_at(self.stream(), self.pos as int) == Some(t@)),
    {
        match self.peek() {
            Some(c) => same_token(c, &t),
            None => false,
        }
    }

    /// Consume and return the current token.
    fn next_token(&mut self) -> (r: Option<Token>)
        requires
            old(self).wf(),
        ensures
            final(self).stream() == old(self).stream(),
            final(self).wf(),
            match r {
                Some(t) => tok_at(old(self).stream(), old(self).pos as int) == Some(t@)
                    && final(self).pos == old(self).pos + 1,
                None => tok_at(old(self).stream(), old(self).pos as int) is None && final(self).pos == old(self).pos,
            },
    {
        if self.pos < self.tokens.len() {
            let tok = copy_token(&self.tokens[self.pos].0);
            self.pos += 1;
            Some(tok)
        } else {
            None
        }
    }

    /// Step past the current token.
    fn advance(&mut self)
        requires
            old(self).wf(),
            old(self).pos < old(self).tokens@.len(),
        ensures
            final(self).stream() == old(self).stream(),
            final(self).wf(),
            final(self).pos == old(self).pos + 1,
    {
        let n = self.tokens.len();
        assert(self.pos < n);
        self.pos += 1;
    }

    /// Consume the current token, which must be `expected`.
    fn expect(&mut self, expected: Token) -> (r: Result<(), String>)
        requires
            old(self).wf(),
        ensures
            final(self).stream() == old(self).stream(),
            final(self).wf(),
            match r {
                Ok(()) => expect_at(old(self).stream(), old(self).pos as int, expected@) == Ok::<int, Seq<char>>(final(self).pos as int),
                Err(m) => expect_at(old(self).stream(), old(self).pos as int, expected@) == Err::<int, Seq<char>>(m@),
            },
    {
        match self.next_token() {
            Some(tok) => {
                if same_token(&tok, &expected) {
                    Ok(())
                } else {
                    let mut v = chars_of("Expected ");
                    push_token_debug(&mut v, &expected);
                    push_str(&mut v, ", found ");
                    push_token_debug(&mut v, &tok);
                    Err(string_of(&v))
                }
            },
            None => {
                let mut v = chars_of("Expected ");
                push_token_debug(&mut v, &expected);
                push_str(&mut v, ", found EOF");
                Err(string_of(&v))
            },
        }
    }

    // -------------------------------------------------------------------------
    // Type parsing
    // -------------------------------------------------------------------------

    /// Parse a Carbide type expression: a base type (array, C keyword type,
    /// function pointer or name) followed by postfix modifiers `*`, `mut*`,
    /// `const*`, `&`, `mut&` and `const&`.  Rust prefix syntax (`&T`, `*mut T`)
    /// and prefix `const` are rejected.
    #[verifier::loop_isolation(false)]
    pub fn parse_type(&mut self) -> (r: Result<Type, String>)
        requires
            old(self).wf(),
        ensures
            final(self).stream() == old(self).stream(),
            final(self).wf(),
            match r {
                Ok(t) => parse_type_at(old(self).stream(), old(self).cursor()) == Ok::<(crate::ast::TypeV, int), Seq<char>>((t@, final(self).cursor()))
                    && old(self).cursor() < final(self).cursor(),
                Err(m) => parse_type_at(old(self).stream(), old(self).cursor()) == Err::<(crate::ast::TypeV, int), Seq<char>>(m@),
            },
            is_prefix_type_token(tok_at(old(self).stream(), old(self).cursor())) ==> final(self).cursor() == old(self).cursor(),
        decreases old(self).stream().toks.len() - old(self).cursor(), 2int,
    {
        let ghost st = self.stream();
        let ghost p0 = self.pos as int;
        let mut ty = match self.parse_base_type() {
            Ok(t) => t,
            Err(m) => {
                return Err(m);
            },
        };
        loop
            invariant
                self.stream() == st,
                self.wf(),
                p0 < self.pos,
                parse_type_at(st, p0) == postfix_at(st, ty@, self.pos as int),
            decreases self.tokens@.len() - self.pos,
        {
            if self.peek_is(Token::Star) {
                self.advance();
                ty = Type::Pointer { base: Box::new(ty), is_const: false };
            } else if self.peek_is(Token::Ampersand) {
                self.advance();
                ty = Type::Reference { base: Box::new(ty), is_mut: true };
            } else if self.peek_is(Token::Mut) || self.peek_is(Token::Const) {
                let is_const = self.peek_is(Token::Const);
                self.advance();
                if self.peek_is(Token::Star) {
                    self.advance();
                    ty = Type::Pointer { base: Box::new(ty), is_const };
                } else if self.peek_is(Token::Ampersand) {
                    self.advance();
                    ty = Type::Reference { base: Box::new(ty), is_mut: !is_const };
                } else {
                    let prefix = if is_const {
                        "Expected '*' or '&' after 'const', found "
                    } else {
                        "Expected '*' or '&' after 'mut', found "
                    };
                    return Err(message(prefix, opt_debug_chars(self.peek())));
                }
            } else {
                return Ok(ty);
            }
        }
    }

    /// Parse a base type (before postfix pointer modifiers).
    fn parse_base_type(&mut self) -> (r: Result<Type, String>)
        requires
            old(self).wf(),
        ensures
            final(self).stream() == old(self).stream(),
            final(self).wf(),
            match r {
                Ok(t) => parse_base_at(old(self).stream(), old(self).pos as int) == Ok::<(crate::ast::TypeV, int), Seq<char>>((t@, final(self).pos as int))
                    && old(self).pos < final(self).pos,
                Err(m) => parse_base_at(old(self).stream(), old(self).pos as int) == Err::<(crate::ast::TypeV, int), Seq<char>>(m@),
            },
            is_prefix_type_token(tok_at(old(self).stream(), old(self).pos as int)) ==> final(self).pos == old(self).pos,
        decreases old(self).stream().toks.len() - old(self).cursor(), 1int,
    {
        if self.pos >= self.tokens.len() {
            return Err(String::from_str("Expected type, found EOF"));
        }
        let p = self.pos;
        if self.peek_is(Token::OpenBracket) {
            // `[T; N]` array
            self.advance();
            let elem = self.parse_type()?;
            self.expect(Token::Semicolon)?;
            let len = match self.peek() {
                Some(Token::IntLit(n)) => n.clone(),
                other => {
                    return Err(message("Expected array length, found ", opt_debug_chars(other)));
                },
            };
            self.advance();
            self.expect(Token::CloseBracket)?;
            return Ok(Type::Array { base: Box::new(elem), len });
        }
        if self.peek_is(Token::Ampersand) {
            return Err(String::from_str("Prefix reference syntax ('&T' / '&mut T') is not allowed in Carbide; use C++-style postfix reference syntax ('T&' / 'T const&' / 'T mut&') instead"));
        }
        if self.peek_is(Token::Const) {
            return Err(String::from_str("Prefix 'const' type syntax ('const T*') is not allowed in Carbide; use C++-style postfix syntax ('T const*') instead"));
        }
        if self.peek_is(Token::Star) {
            return Err(String::from_str("Prefix pointer syntax ('*mut T' / '*const T') is not allowed in Carbide; use C++-style postfix pointer syntax ('T*' / 'T const*' / 'T mut*') instead"));
        }
        if self.peek_is(Token::Void) {
            self.advance();
            return Ok(user("void"));
        }
        if self.peek_is(Token::Int) {
            self.advance();
            return Ok(user("int"));
        }
        if self.peek_is(Token::Uint) {
            self.advance();
            return Ok(user("uint"));
        }
        if self.peek_is(Token::Char) {
            self.advance();
            return Ok(user("char"));
        }
        if self.peek_is(Token::Long) {
            self.advance();
            // long long, long double, long int
            if self.peek_is(Token::Long) {
                self.advance();
                return Ok(user("long long"));
            }
            if self.peek_is(Token::Int) {
                self.advance();
                return Ok(user("long int"));
            }
            let is_double = match self.peek() {
                Some(Token::Ident(n)) => str_eq(n.as_str(), "double"),
                _ => false,
            };
            if is_double {
                self.advance();
                return Ok(user("long double"));
            }
            return Ok(user("long"));
        }
        if self.peek_is(Token::Fn) {
            // `fn(param: Type, ...) -> Ret` function pointer type (C callback)
            self.advance();
            self.expect(Token::OpenParen)?;
            let params = self.parse_params()?;
            self.expect(Token::CloseParen)?;
            let ret = if self.peek_is(Token::Arrow) {
                self.advance();
                let t = self.parse_type()?;
                Some(Box::new(t))
            } else {
                None
            };
            return Ok(Type::FnPointer { params, ret });
        }
        let name = match self.peek() {
            Some(Token::Ident(n)) => n.clone(),
            Some(other) => {
                return Err(message("Expected type, found ", token_debug_chars(other)));
            },
            None => {
                return Err(String::from_str("Expected type, found EOF"));
            },
        };
        self.advance();
        Ok(self.ident_type(name))
    }

    /// The type named by the identifier `n` (already consumed), taking the
    /// keywords of a multi-word C type that follow.
    fn ident_type(&mut self, n: String) -> (t: Type)
        requires
            old(self).wf(),
        ensures
            final(self).stream() == old(self).stream(),
            final(self).wf(),
            (t@, final(self).pos as int) == ident_type_at(old(self).stream(), n@, old(self).pos as int),
    {
        let next_is_short = match self.peek() {
            Some(Token::Ident(k)) => str_eq(k.as_str(), "short"),
            _ => false,
        };
        if str_eq(n.as_str(), "unsigned") {
            // unsigned [char|short|int|long|long long]
            if self.peek_is(Token::Char) {
                self.advance();
                return user("unsigned char");
            }
            if self.peek_is(Token::Long) {
                self.advance();
                if self.peek_is(Token::Long) {
                    self.advance();
                    return user("unsigned long long");
                }
                if self.peek_is(Token::Int) {
                    self.advance();
                }
                return user("unsigned long");
            }
            if self.peek_is(Token::Int) {
                self.advance();
                return user("unsigned int");
            }
            if next_is_short {
                self.advance();
                if self.peek_is(Token::Int) {
                    self.advance();
                }
                return user("unsigned short");
            }
            return user("unsigned int");
        }
        if str_eq(n.as_str(), "signed") {
            if self.peek_is(Token::Char) {
                self.advance();
                return user("signed char");
            }
            if self.peek_is(Token::Long) {
                self.advance();
                if self.peek_is(Token::Long) {
                    self.advance();
                    return user("signed long long");
                }
                if self.peek_is(Token::Int) {
                    self.advance();
                }
                return user("signed long");
            }
            if next_is_short {
                self.advance();
                if self.peek_is(Token::Int) {
                    self.advance();
                }
                return user("signed short");
            }
            return user("signed int");
        }
        if str_eq(n.as_str(), "short") {
            if self.peek_is(Token::Int) {
                self.advance();
            }
            return user("short");
        }
        if str_eq(n.as_str(), "double") {
            return user("double");
        }
        if str_eq(n.as_str(), "float") {
            return user("float");
        }
        if is_rust_primitive(n.as_str()) {
            // Standard Rust primitives pass through as-is
            return Type::Primitive(PrimitiveType::RustPrimitive(n));
        }
        Type::UserDefined(n)
    }

    /// Parse `name: Type` pairs, separated by optional commas, up to a `)`.
    #[verifier::loop_isolation(false)]
    fn parse_params(&mut self) -> (r: Result<Vec<Param>, String>)
        requires
            old(self).wf(),
        ensures
            final(self).stream() == old(self).stream(),
            final(self).wf(),
            match r {
                Ok(v) => params_at(old(self).stream(), old(self).pos as int) == Ok::<(Seq<crate::ast::ParamV>, int), Seq<char>>((params_view(v@), final(self).pos as int))
                    && old(self).pos <= final(self).pos,
                Err(m) => params_at(old(self).stream(), old(self).pos as int) == Err::<(Seq<crate::ast::ParamV>, int), Seq<char>>(m@),
            },
        decreases old(self).stream().toks.len() - old(self).cursor(), 0int,
    {
        let ghost st = self.stream();
        let ghost p0 = self.pos as int;
        let mut params: Vec<Param> = Vec::new();
        loop
            invariant
                self.stream() == st,
                self.wf(),
                p0 <= self.pos,
                params_at(st, p0) == prepend_ok(params_view(params@), params_at(st, self.pos as int)),
            decreases self.tokens@.len() - self.pos,
        {
            if self.pos >= self.tokens.len() || self.peek_is(Token::CloseParen) {
                assert(params_view(params@) + seq![] =~= params_view(params@));
                return Ok(params);
            }
            let ghost p1 = self.pos as int;
            let name = match self.peek() {
                Some(Token::Ident(n)) => n.clone(),
                other => {
                    let d = opt_debug_chars(other);
                    return Err(message("Expected parameter name, found ", d));
                },
            };
            self.advance();
            self.expect(Token::Colon)?;
            let ty = self.parse_type()?;
            if self.peek_is(Token::Comma) {
                self.advance();
            }
            let ghost before = params@;
            let param = Param { name, ty };
            params.push(param);
            proof {
                assert(params@.drop_last() =~= before);
                let pv = params_view(before);
                let x = params_view(params@).last();
                match params_at(st, self.pos as int) {
                    Ok((rest, e)) => {
                        assert(pv + (seq![x] + rest) =~= params_view(params@) + rest);
                    },
                    Err(m) => {},
                }
            }
        }
    }

    // -------------------------------------------------------------------------
    // Body capture
    // -------------------------------------------------------------------------

    /// The index of the `}` that closes the block whose first token is at
    /// `start`, with one brace open.
    #[verifier::loop_isolation(false)]
    fn find_block_close(&self, start: usize) -> (r: Option<usize>)
        requires
            self.wf(),
            1 <= start <= self.tokens@.len(),
        ensures
            match r {
                Some(k) => brace_close(self.stream(), start as int, 1) == Some(k as int) && start <= k < self.tokens@.len(),
                None => brace_close(self.stream(), start as int, 1) is None,
            },
    {
        let ghost st = self.stream();
        let mut depth: usize = 1;
        let mut k = start;
        while k < self.tokens.len()
            invariant
                st == self.stream(),
                start <= k <= self.tokens@.len(),
                1 <= depth <= k - start + 1,
                brace_close(st, start as int, 1) == brace_close(st, k as int, depth as nat),
            decreases self.tokens@.len() - k,
        {
            if same_token(&self.tokens[k].0, &Token::OpenBrace) {
                depth += 1;
            } else if same_token(&self.tokens[k].0, &Token::CloseBrace) {
                if depth <= 1 {
                    return Some(k);
                }
                depth -= 1;
            }
            k += 1;
        }
        None
    }

    /// Consume an optional `unsafe` keyword, then capture the body of a
    /// `{...}` block: whether `unsafe` was there, and the source text
    /// strictly between the outer braces.
    fn capture_body(&mut self) -> (r: Result<(bool, String), String>)
        requires
            old(self).wf(),
        ensures
            final(self).stream() == old(self).stream(),
            final(self).wf(),
            match r {
                Ok((u, b)) => capture_body_at(old(self).stream(), old(self).pos as int) == Ok::<((bool, Seq<char>), int), Seq<char>>(((u, b@), final(self).pos as int))
                    && old(self).pos < final(self).pos,
                Err(m) => capture_body_at(old(self).stream(), old(self).pos as int) == Err::<((bool, Seq<char>), int), Seq<char>>(m@),
            },
    {
        let is_unsafe = if self.peek_is(Token::Unsafe) {
            self.advance();
            true
        } else {
            false
        };
        if !self.peek_is(Token::OpenBrace) {
            return Err(message("Expected '{', found ", opt_debug_chars(self.peek())));
        }
        let open = self.pos;
        let n = self.tokens.len();
        assert(open < n);
        let open_pos = self.tokens[open].1;
        match self.find_block_close(open + 1) {
            Some(k) => {
                let close_pos = self.tokens[k].1;
                proof {
                    let st = self.stream();
                    assert(st.toks[open as int].1 < st.toks[k as int].1);
                    assert(st.toks[k as int].1 < st.src.len());
                }
                self.pos = k + 1;
                let body = string_of_range(&self.source, open_pos + 1, close_pos);
                Ok((is_unsafe, body))
            },
            None => Err(String::from_str("Unterminated brace block")),
        }
    }

    /// Capture the trimmed source text of a raw item, up to (but not
    /// including) the first `;` outside braces and parentheses, a `}` that
    /// closes nothing, or the end of the tokens.
    #[verifier::loop_isolation(false)]
    fn capture_raw_until_semicolon(&mut self) -> (r: Vec<char>)
        requires
            old(self).wf(),
            old(self).pos < old(self).tokens@.len(),
        ensures
            final(self).stream() == old(self).stream(),
            final(self).wf(),
            final(self).pos as int == raw_end(old(self).stream(), old(self).pos as int, 0, 0),
            r@ == ({
                let st = old(self).stream();
                let k = final(self).pos as int;
                trim_range(st.src, st.toks[old(self).pos as int].1,
                    if k < st.toks.len() { st.toks[k].1 } else { st.src.len() as int })
            }),
    {
        let ghost st = self.stream();
        let ghost p0 = self.pos as int;
        let start = self.tokens[self.pos].1;
        let mut depth_brace: usize = 0;
        let mut depth_paren: usize = 0;
        while self.pos < self.tokens.len()
            invariant
                st == self.stream(),
                self.wf(),
                p0 <= self.pos,
                depth_brace <= self.pos - p0,
                depth_paren <= self.pos - p0,
                raw_end(st, p0, 0, 0) == raw_end(st, self.pos as int, depth_brace as nat, depth_paren as nat),
            decreases self.tokens@.len() - self.pos,
        {
            let k = self.pos;
            let t = &self.tokens[k].0;
            if depth_brace == 0 && depth_paren == 0 && same_token(t, &Token::Semicolon) {
                break;
            }
            if same_token(t, &Token::OpenBrace) {
                depth_brace += 1;
            } else if same_token(t, &Token::CloseBrace) {
                if depth_brace > 0 {
                    depth_brace -= 1;
                } else {
                    break;
                }
            } else if same_token(t, &Token::OpenParen) {
                depth_paren += 1;
            } else if same_token(t, &Token::CloseParen) {
                if depth_paren > 0 {
                    depth_paren -= 1;
                }
            }
            self.pos += 1;
        }
        let end = if self.pos < self.tokens.len() { self.tokens[self.pos].1 } else { self.source.len() };
        proof {
            assert(0 <= st.toks[p0].1 < st.src.len());
            if self.pos < self.tokens@.len() {
                assert(0 <= st.toks[self.pos as int].1 < st.src.len());
                if p0 < self.pos {
                    assert(st.toks[p0].1 < st.toks[self.pos as int].1);
                }
            }
        }
        trimmed_range(&self.source, start, end)
    }

    // -------------------------------------------------------------------------
    // Top-level parsing
    // -------------------------------------------------------------------------

    /// Parse a complete program: the items from the cursor to the end.
    ///
    /// A parse that cannot go on (a `}` at top level, or an unterminated
    /// `enum`; see [`ParseFailure`]) is an error with the message
    /// `stuck_message`.
    pub fn parse_program(&mut self) -> (r: Result<Program, String>)
        requires
            old(self).wf(),
        ensures
            final(self).stream() == old(self).stream(),
            match items_at(old(self).stream(), old(self).cursor()) {
                Ok(items) => r matches Ok(p) && p@.items == items,
                Err(Failure::Message(m)) => r matches Err(e) && e@ == m,
                Err(Failure::Stuck) => r matches Err(e) && e@ == stuck_message(),
            },
    {
        match self.try_parse_program() {
            Ok(p) => Ok(p),
            Err(ParseFailure::Message(m)) => Err(m),
            Err(ParseFailure::Stuck) => Err(String::from_str("Unbalanced '}' at top level or unterminated enum body")),
        }
    }

    /// Parse a complete program, reporting a stuck parse instead of
    /// leaving it out.
    #[verifier::loop_isolation(false)]
    #[verifier::rlimit(40)]
    #[verifier::spinoff_prover]
    pub fn try_parse_program(&mut self) -> (r: Result<Program, ParseFailure>)
        requires
            old(self).wf(),
        ensures
            final(self).stream() == old(self).stream(),
            match r {
                Ok(p) => items_at(old(self).stream(), old(self).cursor()) == Ok::<Seq<crate::ast::ItemV>, Failure>(p@.items),
                Err(f) => items_at(old(self).stream(), old(self).cursor()) == Err::<Seq<crate::ast::ItemV>, Failure>(f@),
            },
    {
        let ghost st = self.stream();
        let ghost p0 = self.pos as int;
        let mut items: Vec<Item> = Vec::new();
        while self.pos < self.tokens.len()
            invariant
                st == self.stream(),
                self.wf(),
                items_at(st, p0) == match items_at(st, self.pos as int) {
                    Ok(rest) => Ok::<Seq<crate::ast::ItemV>, Failure>(items_view(items@) + rest),
                    Err(f) => Err(f),
                },
            decreases self.tokens@.len() - self.pos,
        {
            if self.skip_prototype() {
                continue;
            }
            let p = self.pos;
            let item = self.parse_item()?;
            if self.pos <= p {
                return Err(ParseFailure::Stuck);
            }
            let ghost before = items@;
            items.push(item);
            proof {
                assert(items_view(items@) =~= items_view(before).push(items@.last()@));
                match items_at(st, self.pos as int) {
                    Ok(rest) => {
                        assert(items_view(before) + (seq![items@.last()@] + rest) =~= items_view(items@) + rest);
                    },
                    Err(f) => {},
                }
            }
        }
        assert(items_view(items@) + seq![] =~= items_view(items@));
        Ok(Program { items })
    }

    /// Parse the attributes `#[...]` in front of an item or method.
    #[verifier::loop_isolation(false)]
    fn parse_attrs(&mut self) -> (r: Result<Vec<Attribute>, String>)
        requires
            old(self).wf(),
        ensures
            final(self).stream() == old(self).stream(),
            final(self).wf(),
            match r {
                Ok(v) => attrs_at(old(self).stream(), old(self).pos as int) == Ok::<(Seq<crate::ast::AttributeV>, int), Seq<char>>((attrs_view(v@), final(self).pos as int))
                    && old(self).pos <= final(self).pos,
                Err(m) => attrs_at(old(self).stream(), old(self).pos as int) == Err::<(Seq<crate::ast::AttributeV>, int), Seq<char>>(m@),
            },
    {
        let ghost st = self.stream();
        let ghost p0 = self.pos as int;
        let mut attrs: Vec<Attribute> = Vec::new();
        while self.peek_is(Token::Pound)
            invariant
                st == self.stream(),
                self.wf(),
                p0 <= self.pos,
                attrs_at(st, p0) == prepend_ok(attrs_view(attrs@), attrs_at(st, self.pos as int)),
            decreases self.tokens@.len() - self.pos,
        {
            let ghost p1 = self.pos as int;
            self.advance();
            self.expect(Token::OpenBracket)?;
            let ghost q = self.pos as int;
            let mut inner: Vec<char> = Vec::new();
            while self.pos < self.tokens.len() && !self.peek_is(Token::CloseBracket)
                invariant
                    st == self.stream(),
                    self.wf(),
                    q <= self.pos,
                    find_tok(st, q, crate::lexer::TokenV::CloseBracket) == find_tok(st, self.pos as int, crate::lexer::TokenV::CloseBracket),
                    inner@ == tokens_text(st, q, self.pos as int),
                decreases self.tokens@.len() - self.pos,
            {
                push_token_text(&mut inner, &self.tokens[self.pos].0);
                self.advance();
            }
            self.expect(Token::CloseBracket)?;
            let trimmed = trimmed_range(&inner, 0, inner.len());
            let ghost before = attrs@;
            attrs.push(Attribute { tokens: string_of(&trimmed) });
            proof {
                assert(attrs_view(attrs@) =~= attrs_view(before).push(attrs@.last()@));
                match attrs_at(st, self.pos as int) {
                    Ok((rest, f)) => {
                        assert(attrs_view(before) + (seq![attrs@.last()@] + rest) =~= attrs_view(attrs@) + rest);
                    },
                    Err(m) => {},
                }
            }
        }
        assert(attrs_view(attrs@) + seq![] =~= attrs_view(attrs@));
        Ok(attrs)
    }

    /// Parse one top-level item.
    fn parse_item(&mut self) -> (r: Result<Item, ParseFailure>)
        requires
            old(self).wf(),
        ensures
            final(self).stream() == old(self).stream(),
            final(self).wf(),
            match r {
                Ok(it) => parse_item_at(old(self).stream(), old(self).pos as int) == Ok::<(crate::ast::ItemV, int), Failure>((it@, final(self).pos as int)),
                Err(f) => parse_item_at(old(self).stream(), old(self).pos as int) == Err::<(crate::ast::ItemV, int), Failure>(f@),
            },
    {
        let attrs = match self.parse_attrs() {
            Ok(a) => a,
            Err(m) => {
                return Err(ParseFailure::Message(m));
            },
        };
        if self.pos >= self.tokens.len() {
            return Err(ParseFailure::Message(String::from_str("Unexpected EOF while parsing item")));
        }
        if self.peek_is(Token::Use) {
            return match self.parse_use(attrs) {
                Ok(it) => Ok(it),
                Err(m) => Err(ParseFailure::Message(m)),
            };
        }
        if self.peek_is(Token::Struct) {
            return match self.parse_struct(attrs) {
                Ok(s) => Ok(Item::Struct(s)),
                Err(m) => Err(ParseFailure::Message(m)),
            };
        }
        if self.peek_is(Token::Impl) {
            return match self.parse_impl(attrs) {
                Ok(it) => Ok(it),
                Err(m) => Err(ParseFailure::Message(m)),
            };
        }
        if self.peek_is(Token::Fn) || self.peek_is(Token::Proc) || self.peek_is(Token::Unsafe) || self.peek_is(Token::Extern) {
            return match self.parse_fn(attrs) {
                Ok(f) => Ok(Item::Fn(f)),
                Err(m) => Err(ParseFailure::Message(m)),
            };
        }
        let (is_enum, is_type) = match self.peek() {
            Some(Token::Ident(n)) => (str_eq(n.as_str(), "enum"), str_eq(n.as_str(), "type")),
            _ => (false, false),
        };
        if is_enum {
            return self.parse_enum(attrs);
        }
        if is_type {
            return match self.parse_type_alias(attrs) {
                Ok(it) => Ok(it),
                Err(m) => Err(ParseFailure::Message(m)),
            };
        }
        // Unknown item: capture raw source text up to `;`, then re-attach
        // the terminating `;`.
        Ok(self.parse_raw(attrs))
    }

    /// A raw item: its source text up to a `;`, which is kept.
    fn parse_raw(&mut self, attrs: Vec<Attribute>) -> (it: Item)
        requires
            old(self).wf(),
            old(self).pos < old(self).tokens@.len(),
        ensures
            final(self).stream() == old(self).stream(),
            final(self).wf(),
            (it@, final(self).pos as int) == raw_item_at(old(self).stream(), old(self).pos as int, attrs_view(attrs@)),
    {
        let mut src = self.capture_raw_until_semicolon();
        if self.peek_is(Token::Semicolon) {
            self.advance();
            src.push(';');
        }
        Item::Raw { attrs, src: string_of(&src) }
    }

    /// `use path;`, whose keyword is the current token.
    #[verifier::loop_isolation(false)]
    fn parse_use(&mut self, attrs: Vec<Attribute>) -> (r: Result<Item, String>)
        requires
            old(self).wf(),
            old(self).pos < old(self).tokens@.len(),
        ensures
            final(self).stream() == old(self).stream(),
            final(self).wf(),
            match r {
                Ok(it) => use_item_at(old(self).stream(), old(self).pos as int, attrs_view(attrs@)) == Ok::<(crate::ast::ItemV, int), Seq<char>>((it@, final(self).pos as int)),
                Err(m) => use_item_at(old(self).stream(), old(self).pos as int, attrs_view(attrs@)) == Err::<(crate::ast::ItemV, int), Seq<char>>(m@),
            },
    {
        if attrs.len() > 0 {
            return Err(String::from_str("Attributes on 'use' not supported"));
        }
        let ghost st = self.stream();
        self.advance();
        let ghost q = self.pos as int;
        let mut path: Vec<char> = Vec::new();
        while self.pos < self.tokens.len() && !self.peek_is(Token::Semicolon)
            invariant
                st == self.stream(),
                self.wf(),
                q <= self.pos,
                find_tok(st, q, crate::lexer::TokenV::Semicolon) == find_tok(st, self.pos as int, crate::lexer::TokenV::Semicolon),
                path@ == tokens_text(st, q, self.pos as int),
            decreases self.tokens@.len() - self.pos,
        {
            push_token_text(&mut path, &self.tokens[self.pos].0);
            self.advance();
        }
        self.expect(Token::Semicolon)?;
        Ok(Item::Use(string_of(&path)))
    }

    /// `impl Target { methods }`, whose keyword is the current token.
    #[verifier::rlimit(40)]
    #[verifier::spinoff_prover]
    fn parse_impl(&mut self, attrs: Vec<Attribute>) -> (r: Result<Item, String>)
        requires
            old(self).wf(),
            old(self).pos < old(self).tokens@.len(),
        ensures
            final(self).stream() == old(self).stream(),
            final(self).wf(),
            match r {
                Ok(it) => impl_item_at(old(self).stream(), old(self).pos as int, attrs_view(attrs@)) == Ok::<(crate::ast::ItemV, int), Seq<char>>((it@, final(self).pos as int)),
                Err(m) => impl_item_at(old(self).stream(), old(self).pos as int, attrs_view(attrs@)) == Err::<(crate::ast::ItemV, int), Seq<char>>(m@),
            },
    {
        if attrs.len() > 0 {
            return Err(String::from_str("Attributes on 'impl' not supported"));
        }
        let ghost st = self.stream();
        self.advance();
        let target = match self.peek() {
            Some(Token::Ident(n)) => n.clone(),
            other => {
                return Err(message("Expected impl target name, found ", opt_debug_chars(other)));
            },
        };
        self.advance();
        self.expect(Token::OpenBrace)?;
        let methods = self.parse_methods()?;
        self.expect(Token::CloseBrace)?;
        Ok(Item::Impl { target, methods })
    }

    /// The methods of an `impl` block, each with its attributes, up to a `}`.
    #[verifier::loop_isolation(false)]
    #[verifier::rlimit(40)]
    #[verifier::spinoff_prover]
    fn parse_methods(&mut self) -> (r: Result<Vec<Function>, String>)
        requires
            old(self).wf(),
        ensures
            final(self).stream() == old(self).stream(),
            final(self).wf(),
            match r {
                Ok(v) => methods_at(old(self).stream(), old(self).pos as int) == Ok::<(Seq<crate::ast::FunctionV>, int), Seq<char>>((functions_view(v@), final(self).pos as int)),
                Err(m) => methods_at(old(self).stream(), old(self).pos as int) == Err::<(Seq<crate::ast::FunctionV>, int), Seq<char>>(m@),
            },
    {
        let ghost st = self.stream();
        let ghost r0 = self.pos as int;
        let mut methods: Vec<Function> = Vec::new();
        while self.pos < self.tokens.len() && !self.peek_is(Token::CloseBrace)
            invariant
                st == self.stream(),
                self.wf(),
                r0 <= self.pos,
                methods_at(st, r0) == prepend_ok(functions_view(methods@), methods_at(st, self.pos as int)),
            decreases self.tokens@.len() - self.pos,
        {
            let method_attrs = self.parse_attrs()?;
            let f = self.parse_fn(method_attrs)?;
            let ghost before = methods@;
            methods.push(f);
            proof {
                assert(functions_view(methods@) =~= functions_view(before).push(methods@.last()@));
                match methods_at(st, self.pos as int) {
                    Ok((rest, e)) => {
                        assert(functions_view(before) + (seq![methods@.last()@] + rest) =~= functions_view(methods@) + rest);
                    },
                    Err(m) => {},
                }
            }
        }
        assert(functions_view(methods@) + seq![] =~= functions_view(methods@));
        Ok(methods)
    }

    /// `enum Name { body }`, whose `enum` is the current token; the body is
    /// kept as source text.
    fn parse_enum(&mut self, attrs: Vec<Attribute>) -> (r: Result<Item, ParseFailure>)
        requires
            old(self).wf(),
            old(self).pos < old(self).tokens@.len(),
        ensures
            final(self).stream() == old(self).stream(),
            final(self).wf(),
            match r {
                Ok(it) => enum_item_at(old(self).stream(), old(self).pos as int, attrs_view(attrs@)) == Ok::<(crate::ast::ItemV, int), Failure>((it@, final(self).pos as int)),
                Err(f) => enum_item_at(old(self).stream(), old(self).pos as int, attrs_view(attrs@)) == Err::<(crate::ast::ItemV, int), Failure>(f@),
            },
    {
        if attrs.len() > 0 {
            return Err(ParseFailure::Message(String::from_str("Attributes on enum not supported yet")));
        }
        self.advance();
        let name = match self.peek() {
            Some(Token::Ident(n)) => n.clone(),
            other => {
                return Err(ParseFailure::Message(message("Expected enum name, found ", opt_debug_chars(other))));
            },
        };
        self.advance();
        if !self.peek_is(Token::OpenBrace) {
            let mut d: Vec<char> = Vec::new();
            if self.pos < self.tokens.len() {
                push_str(&mut d, "Some((");
                push_token_debug(&mut d, &self.tokens[self.pos].0);
                push_str(&mut d, ", ");
                push_decimal(&mut d, self.byte_at[self.tokens[self.pos].1]);
                push_str(&mut d, "))");
            } else {
                push_str(&mut d, "None");
            }
            return Err(ParseFailure::Message(message("Expected '{' for enum body, found ", d)));
        }
        let open = self.pos;
        let n = self.tokens.len();
        assert(open < n);
        let open_pos = self.tokens[open].1;
        match self.find_block_close(open + 1) {
            Some(k) => {
                let close_pos = self.tokens[k].1;
                proof {
                    let st = self.stream();
                    assert(st.toks[open as int].1 < st.toks[k as int].1);
                    assert(st.toks[k as int].1 < st.src.len());
                }
                self.pos = k + 1;
                let body = string_of_range(&self.source, open_pos + 1, close_pos);
                Ok(Item::Enum { name, body })
            },
            None => Err(ParseFailure::Stuck),
        }
    }

    /// `type Name = Type;`, whose `type` is the current token.
    fn parse_type_alias(&mut self, attrs: Vec<Attribute>) -> (r: Result<Item, String>)
        requires
            old(self).wf(),
            old(self).pos < old(self).tokens@.len(),
        ensures
            final(self).stream() == old(self).stream(),
            final(self).wf(),
            match r {
                Ok(it) => alias_item_at(old(self).stream(), old(self).pos as int, attrs_view(attrs@)) == Ok::<(crate::ast::ItemV, int), Seq<char>>((it@, final(self).pos as int)),
                Err(m) => alias_item_at(old(self).stream(), old(self).pos as int, attrs_view(attrs@)) == Err::<(crate::ast::ItemV, int), Seq<char>>(m@),
            },
    {
        if attrs.len() > 0 {
            return Err(String::from_str("Attributes on 'type' aliases not supported"));
        }
        self.advance();
        let name = match self.peek() {
            Some(Token::Ident(n)) => n.clone(),
            other => {
                return Err(message("Expected type alias name, found ", opt_debug_chars(other)));
            },
        };
        self.advance();
        self.expect(Token::Eq)?;
        let ty = self.parse_type()?;
        self.expect(Token::Semicolon)?;
        Ok(Item::TypeAlias { name, ty })
    }

    // -------------------------------------------------------------------------
    // Struct parsing
    // -------------------------------------------------------------------------

    /// Parse `struct Name { field: Type, ... }`.
    #[verifier::loop_isolation(false)]
    fn parse_struct(&mut self, attrs: Vec<Attribute>) -> (r: Result<Struct, String>)
        requires
            old(self).wf(),
        ensures
            final(self).stream() == old(self).stream(),
            final(self).wf(),
            match r {
                Ok(s) => parse_struct_at(old(self).stream(), old(self).pos as int, attrs_view(attrs@)) == Ok::<(crate::ast::StructV, int), Seq<char>>((s@, final(self).pos as int)),
                Err(m) => parse_struct_at(old(self).stream(), old(self).pos as int, attrs_view(attrs@)) == Err::<(crate::ast::StructV, int), Seq<char>>(m@),
            },
    {
        let ghost st = self.stream();
        self.expect(Token::Struct)?;
        let name = match self.peek() {
            Some(Token::Ident(n)) => n.clone(),
            other => {
                return Err(message("Expected struct name, found ", opt_debug_chars(other)));
            },
        };
        self.advance();
        self.expect(Token::OpenBrace)?;
        let ghost r0 = self.pos as int;
        let mut fields: Vec<Field> = Vec::new();
        while self.pos < self.tokens.len() && !self.peek_is(Token::CloseBrace)
            invariant
                st == self.stream(),
                self.wf(),
                r0 <= self.pos,
                fields_at(st, r0) == prepend_ok(fields_view(fields@), fields_at(st, self.pos as int)),
            decreases self.tokens@.len() - self.pos,
        {
            let field_name = match self.peek() {
                Some(Token::Ident(n)) => n.clone(),
                other => {
                    return Err(message("Expected field name, found ", opt_debug_chars(other)));
                },
            };
            self.advance();
            self.expect(Token::Colon)?;
            let ty = self.parse_type()?;
            if self.peek_is(Token::Comma) {
                self.advance();
            }
            let ghost before = fields@;
            fields.push(Field { name: field_name, ty });
            proof {
                assert(fields_view(fields@) =~= fields_view(before).push(fields@.last()@));
                match fields_at(st, self.pos as int) {
                    Ok((rest, e)) => {
                        assert(fields_view(before) + (seq![fields@.last()@] + rest) =~= fields_view(fields@) + rest);
                    },
                    Err(m) => {},
                }
            }
        }
        assert(fields_view(fields@) + seq![] =~= fields_view(fields@));
        self.expect(Token::CloseBrace)?;
        Ok(Struct { name, fields, attrs })
    }

    // -------------------------------------------------------------------------
    // Function / procedure parsing
    // -------------------------------------------------------------------------

    /// Parse `[unsafe] [extern "ABI"] fn|proc name(params) [-> Type] { body }`.
    /// A `proc` is unsafe.
    fn parse_fn(&mut self, attrs: Vec<Attribute>) -> (r: Result<Function, String>)
        requires
            old(self).wf(),
        ensures
            final(self).stream() == old(self).stream(),
            final(self).wf(),
            match r {
                Ok(f) => parse_fn_at(old(self).stream(), old(self).pos as int, attrs_view(attrs@)) == Ok::<(crate::ast::FunctionV, int), Seq<char>>((f@, final(self).pos as int))
                    && old(self).pos < final(self).pos,
                Err(m) => parse_fn_at(old(self).stream(), old(self).pos as int, attrs_view(attrs@)) == Err::<(crate::ast::FunctionV, int), Seq<char>>(m@),
            },
    {
        let (is_unsafe, abi, name) = self.parse_fn_head()?;
        let (params, ret_type, body_src) = self.parse_fn_tail()?;
        Ok(Function { name, params, ret_type, body_src, is_unsafe, abi, attrs })
    }

    /// The head of a function: whether it is unsafe, its ABI and its name.
    fn parse_fn_head(&mut self) -> (r: Result<(bool, Option<String>, String), String>)
        requires
            old(self).wf(),
        ensures
            final(self).stream() == old(self).stream(),
            final(self).wf(),
            match r {
                Ok((u, abi, name)) => fn_head_at(old(self).stream(), old(self).pos as int) == Ok::<((bool, Option<Seq<char>>, Seq<char>), int), Seq<char>>(((u, opt_string_view(abi), name@), final(self).pos as int))
                    && old(self).pos < final(self).pos,
                Err(m) => fn_head_at(old(self).stream(), old(self).pos as int) == Err::<((bool, Option<Seq<char>>, Seq<char>), int), Seq<char>>(m@),
            },
    {
        let mut is_unsafe = false;
        let mut abi: Option<String> = None;
        // Optional `unsafe`
        if self.peek_is(Token::Unsafe) {
            self.advance();
            is_unsafe = true;
        }
        // Optional `extern "ABI"`
        if self.peek_is(Token::Extern) {
            self.advance();
            let a = match self.peek() {
                Some(Token::StrLit(a)) => Some(a.clone()),
                _ => None,
            };
            if a.is_some() {
                self.advance();
            }
            abi = a;
        }
        // `fn` or `proc`
        let is_proc = if self.peek_is(Token::Fn) {
            false
        } else if self.peek_is(Token::Proc) {
            true
        } else {
            return Err(message("Expected 'fn' or 'proc', found ", opt_debug_chars(self.peek())));
        };
        self.advance();
        if is_proc {
            is_unsafe = true;
        }
        let name = match self.peek() {
            Some(Token::Ident(n)) => n.clone(),
            other => {
                return Err(message("Expected function name, found ", opt_debug_chars(other)));
            },
        };
        self.advance();
        Ok((is_unsafe, abi, name))
    }

    /// The signature of a function after its name: parameters and return type.
    fn parse_fn_sig(&mut self) -> (r: Result<(Vec<Param>, Option<Type>), String>)
        requires
            old(self).wf(),
        ensures
            final(self).stream() == old(self).stream(),
            final(self).wf(),
            match r {
                Ok((ps, ret)) => fn_sig_at(old(self).stream(), old(self).pos as int) == Ok::<((Seq<crate::ast::ParamV>, Option<crate::ast::TypeV>), int), Seq<char>>(((params_view(ps@), opt_type_view(ret)), final(self).pos as int))
                    && old(self).pos < final(self).pos,
                Err(m) => fn_sig_at(old(self).stream(), old(self).pos as int) == Err::<((Seq<crate::ast::ParamV>, Option<crate::ast::TypeV>), int), Seq<char>>(m@),
            },
    {
        // Parameter list
        self.expect(Token::OpenParen)?;
        let params = self.parse_params()?;
        self.expect(Token::CloseParen)?;
        // Optional return type
        let ret_type = if self.peek_is(Token::Arrow) {
            self.advance();
            let t = self.parse_type()?;
            Some(t)
        } else {
            None
        };
        Ok((params, ret_type))
    }

    /// The rest of a function after its name: parameters, return type, body.
    fn parse_fn_tail(&mut self) -> (r: Result<(Vec<Param>, Option<Type>, String), String>)
        requires
            old(self).wf(),
        ensures
            final(self).stream() == old(self).stream(),
            final(self).wf(),
            match r {
                Ok((ps, ret, body)) => fn_tail_at(old(self).stream(), old(self).pos as int) == Ok::<((Seq<crate::ast::ParamV>, Option<crate::ast::TypeV>, Seq<char>), int), Seq<char>>(((params_view(ps@), opt_type_view(ret), body@), final(self).pos as int))
                    && old(self).pos < final(self).pos,
                Err(m) => fn_tail_at(old(self).stream(), old(self).pos as int) == Err::<((Seq<crate::ast::ParamV>, Option<crate::ast::TypeV>, Seq<char>), int), Seq<char>>(m@),
            },
    {
        let (params, ret_type) = self.parse_fn_sig()?;
        // Body: captured as verbatim source text.
        let (_, body_src) = self.capture_body()?;
        Ok((params, ret_type, body_src))
    }

    /// Pass over a function prototype at the cursor, if there is one:
    /// `true` and the cursor after its `;`, or `false` and the cursor kept.
    fn skip_prototype(&mut self) -> (r: bool)
        requires
            old(self).wf(),
        ensures
            final(self).stream() == old(self).stream(),
            final(self).wf(),
            match prototype_end(old(self).stream(), old(self).pos as int) {
                Some(e) => r && final(self).pos as int == e && old(self).pos < final(self).pos,
                None => !r && final(self).pos == old(self).pos,
            },
    {
        let start = self.pos;
        match self.parse_attrs() {
            Ok(_) => {},
            Err(_) => {
                self.pos = start;
                return false;
            },
        }
        if !(self.peek_is(Token::Fn) || self.peek_is(Token::Proc) || self.peek_is(Token::Unsafe) || self.peek_is(Token::Extern)) {
            self.pos = start;
            return false;
        }
        match self.parse_fn_head() {
            Ok(_) => {},
            Err(_) => {
                self.pos = start;
                return false;
            },
        }
        match self.parse_fn_sig() {
            Ok(_) => {},
            Err(_) => {
                self.pos = start;
                return false;
            },
        }
        if self.peek_is(Token::Semicolon) {
            self.advance();
            true
        } else {
            self.pos = start;
            false
        }
    }
}

/// Appends the text with which `t` is rebuilt (see `token_text`) to `out`.
fn push_token_text(out: &mut Vec<char>, t: &Token)
    ensures
        final(out)@ == old(out)@ + token_text(t@),
{
    match t {
        Token::Fn => push_str(out, "fn"),
        Token::Proc => push_str(out, "proc"),
        Token::Struct => push_str(out, "struct"),
        Token::Let => push_str(out, "let"),
        Token::Mut => push_str(out, "mut "),
        Token::Const => push_str(out, "const"),
        Token::Return => push_str(out, "return"),
        Token::Extern => push_str(out, "extern"),
        Token::Unsafe => push_str(out, "unsafe"),
        Token::Use => push_str(out, "use"),
        Token::Impl => push_str(out, "impl"),
        Token::As => push_str(out, "as"),
        Token::If => push_str(out, "if"),
        Token::Else => push_str(out, "else"),
        Token::Void => push_str(out, "void"),
        Token::Int => push_str(out, "int"),
        Token::Uint => push_str(out, "uint"),
        Token::Long => push_str(out, "long"),
        Token::Char => push_str(out, "char"),
        Token::Star => push_str(out, "*"),
        Token::Ampersand => push_str(out, "&"),
        Token::Arrow => push_str(out, "->"),
        Token::Colon => push_str(out, ":"),
        Token::DoubleColon => push_str(out, "::"),
        Token::Semicolon => push_str(out, ";"),
        Token::Comma => push_str(out, ", "),
        Token::Eq => push_str(out, "="),
        Token::EqEq => push_str(out, "=="),
        Token::Plus => push_str(out, "+"),
        Token::Minus => push_str(out, "-"),
        Token::Slash => push_str(out, "/"),
        Token::Pound => push_str(out, "#"),
        Token::OpenParen => push_str(out, "("),
        Token::CloseParen => push_str(out, ")"),
        Token::OpenBrace => push_str(out, "{"),
        Token::CloseBrace => push_str(out, "}"),
        Token::OpenBracket => push_str(out, "["),
        Token::CloseBracket => push_str(out, "]"),
        Token::Dot => push_str(out, "."),
        Token::Bang => push_str(out, "!"),
        Token::Lt => push_str(out, "<"),
        Token::Gt => push_str(out, ">"),
        Token::Pipe => push_str(out, "|"),
        Token::Percent => push_str(out, "%"),
        Token::Caret => push_str(out, "^"),
        Token::Question => push_str(out, "?"),
        Token::Tilde => push_str(out, "~"),
        Token::At => push_str(out, "@"),
        Token::Dollar => push_str(out, "$"),
        Token::Ident(s) => push_str(out, s.as_str()),
        Token::IntLit(s) => push_str(out, s.as_str()),
        Token::StrLit(s) => {
            push_str(out, "\"");
            push_str(out, s.as_str());
            push_str(out, "\"");
            assert(old(out)@ + "\""@ + s@ + "\""@ =~= old(out)@ + ("\""@ + s@ + "\""@));
        },
        Token::CharLit(c) => {
            push_str(out, "'");
            out.push(*c);
            push_str(out, "'");
            assert(old(out)@ + "'"@ + seq![*c] + "'"@ =~= old(out)@ + ("'"@ + seq![*c] + "'"@));
        },
    }
}

} // verus!
