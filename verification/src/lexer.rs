//! Lexer for the Carbide language.
//!
//! Converts Carbide source text into a flat stream of tokens.  The lexer only
//! has to recognise what appears in signatures and at the structural top
//! level; function bodies are later sliced out of the source verbatim by the
//! parser, using the byte offset that comes with each token.
use vstd::prelude::*;
use vstd::utf8::{encode_utf8, is_char_boundary};
use crate::text::{
    occurs_at, byte_offset, lemma_byte_offset_char_boundary, lemma_byte_offset_encoding, lemma_byte_offset_increasing,
    lemma_byte_offset_within, utf8_width_of,
    ascii_digit, chars_of, debug_char, debug_char_of, debug_str, debug_str_of, is_letter,
    is_numeral, is_ascii_digit, is_whitespace, letter, numeral, push_str, string_of, string_push,
    unicode_whitespace,
};

verus! {

/// A token of Carbide source text.
#[derive(Debug, Clone, PartialEq, Eq)]
pub enum Token {
    // Keywords
    /// `fn`
    Fn,
    /// `proc`
    Proc,
    /// `struct`
    Struct,
    /// `let`
    Let,
    /// `mut`
    Mut,
    /// `const`
    Const,
    /// `return`
    Return,
    /// `extern`
    Extern,
    /// `unsafe`
    Unsafe,
    /// `use`
    Use,
    /// `impl`
    Impl,
    /// `as`
    As,
    /// `if`
    If,
    /// `else`
    Else,
    // C primitive type keywords
    /// `void`
    Void,
    /// `int`
    Int,
    /// `uint`
    Uint,
    /// `long`
    Long,
    /// `char`
    Char,
    // Identifiers and literals
    Ident(String),
    IntLit(String),
    StrLit(String),
    CharLit(char),
    // Symbols and operators
    /// `*`
    Star,
    /// `&`
    Ampersand,
    /// `->`
    Arrow,
    /// `:`
    Colon,
    /// `::`
    DoubleColon,
    /// `;`
    Semicolon,
    /// `,`
    Comma,
    /// `=`
    Eq,
    /// `==`
    EqEq,
    /// `+`
    Plus,
    /// `-`
    Minus,
    /// `/`
    Slash,
    /// `#`
    Pound,
    /// `(`
    OpenParen,
    /// `)`
    CloseParen,
    /// `{`
    OpenBrace,
    /// `}`
    CloseBrace,
    /// `[`
    OpenBracket,
    /// `]`
    CloseBracket,
    /// `.`
    Dot,
    /// `!`
    Bang,
    /// `<`
    Lt,
    /// `>`
    Gt,
    /// `|`
    Pipe,
    /// `%`
    Percent,
    /// `^`
    Caret,
    /// `?`
    Question,
    /// `~`
    Tilde,
    /// `@`
    At,
    /// `$`
    Dollar,
}

/// The mathematical value of a [`Token`]: its text payloads as character sequences.
pub enum TokenV {
    // Keywords
    /// `fn`
    Fn,
    /// `proc`
    Proc,
    /// `struct`
    Struct,
    /// `let`
    Let,
    /// `mut`
    Mut,
    /// `const`
    Const,
    /// `return`
    Return,
    /// `extern`
    Extern,
    /// `unsafe`
    Unsafe,
    /// `use`
    Use,
    /// `impl`
    Impl,
    /// `as`
    As,
    /// `if`
    If,
    /// `else`
    Else,
    // C primitive type keywords
    /// `void`
    Void,
    /// `int`
    Int,
    /// `uint`
    Uint,
    /// `long`
    Long,
    /// `char`
    Char,
    // Identifiers and literals
    Ident(Seq<char>),
    IntLit(Seq<char>),
    StrLit(Seq<char>),
    CharLit(char),
    // Symbols and operators
    /// `*`
    Star,
    /// `&`
    Ampersand,
    /// `->`
    Arrow,
    /// `:`
    Colon,
    /// `::`
    DoubleColon,
    /// `;`
    Semicolon,
    /// `,`
    Comma,
    /// `=`
    Eq,
    /// `==`
    EqEq,
    /// `+`
    Plus,
    /// `-`
    Minus,
    /// `/`
    Slash,
    /// `#`
    Pound,
    /// `(`
    OpenParen,
    /// `)`
    CloseParen,
    /// `{`
    OpenBrace,
    /// `}`
    CloseBrace,
    /// `[`
    OpenBracket,
    /// `]`
    CloseBracket,
    /// `.`
    Dot,
    /// `!`
    Bang,
    /// `<`
    Lt,
    /// `>`
    Gt,
    /// `|`
    Pipe,
    /// `%`
    Percent,
    /// `^`
    Caret,
    /// `?`
    Question,
    /// `~`
    Tilde,
    /// `@`
    At,
    /// `$`
    Dollar,
}

impl View for Token {
    type V = TokenV;

    open spec fn view(&self) -> TokenV {
        match self {
            Token::Fn => TokenV::Fn,
            Token::Proc => TokenV::Proc,
            Token::Struct => TokenV::Struct,
            Token::Let => TokenV::Let,
            Token::Mut => TokenV::Mut,
            Token::Const => TokenV::Const,
            Token::Return => TokenV::Return,
            Token::Extern => TokenV::Extern,
            Token::Unsafe => TokenV::Unsafe,
            Token::Use => TokenV::Use,
            Token::Impl => TokenV::Impl,
            Token::As => TokenV::As,
            Token::If => TokenV::If,
            Token::Else => TokenV::Else,
            Token::Void => TokenV::Void,
            Token::Int => TokenV::Int,
            Token::Uint => TokenV::Uint,
            Token::Long => TokenV::Long,
            Token::Char => TokenV::Char,
            Token::Star => TokenV::Star,
            Token::Ampersand => TokenV::Ampersand,
            Token::Arrow => TokenV::Arrow,
            Token::Colon => TokenV::Colon,
            Token::DoubleColon => TokenV::DoubleColon,
            Token::Semicolon => TokenV::Semicolon,
            Token::Comma => TokenV::Comma,
            Token::Eq => TokenV::Eq,
            Token::EqEq => TokenV::EqEq,
            Token::Plus => TokenV::Plus,
            Token::Minus => TokenV::Minus,
            Token::Slash => TokenV::Slash,
            Token::Pound => TokenV::Pound,
            Token::OpenParen => TokenV::OpenParen,
            Token::CloseParen => TokenV::CloseParen,
            Token::OpenBrace => TokenV::OpenBrace,
            Token::CloseBrace => TokenV::CloseBrace,
            Token::OpenBracket => TokenV::OpenBracket,
            Token::CloseBracket => TokenV::CloseBracket,
            Token::Dot => TokenV::Dot,
            Token::Bang => TokenV::Bang,
            Token::Lt => TokenV::Lt,
            Token::Gt => TokenV::Gt,
            Token::Pipe => TokenV::Pipe,
            Token::Percent => TokenV::Percent,
            Token::Caret => TokenV::Caret,
            Token::Question => TokenV::Question,
            Token::Tilde => TokenV::Tilde,
            Token::At => TokenV::At,
            Token::Dollar => TokenV::Dollar,
            Token::Ident(s) => TokenV::Ident(s@),
            Token::IntLit(s) => TokenV::IntLit(s@),
            Token::StrLit(s) => TokenV::StrLit(s@),
            Token::CharLit(c) => TokenV::CharLit(*c),
        }
    }
}

/// A copy of `t` with the same value.
pub fn copy_token(t: &Token) -> (r: Token)
    ensures
        r@ == t@,
{
    match t {
        Token::Fn => Token::Fn,
        Token::Proc => Token::Proc,
        Token::Struct => Token::Struct,
        Token::Let => Token::Let,
        Token::Mut => Token::Mut,
        Token::Const => Token::Const,
        Token::Return => Token::Return,
        Token::Extern => Token::Extern,
        Token::Unsafe => Token::Unsafe,
        Token::Use => Token::Use,
        Token::Impl => Token::Impl,
        Token::As => Token::As,
        Token::If => Token::If,
        Token::Else => Token::Else,
        Token::Void => Token::Void,
        Token::Int => Token::Int,
        Token::Uint => Token::Uint,
        Token::Long => Token::Long,
        Token::Char => Token::Char,
        Token::Star => Token::Star,
        Token::Ampersand => Token::Ampersand,
        Token::Arrow => Token::Arrow,
        Token::Colon => Token::Colon,
        Token::DoubleColon => Token::DoubleColon,
        Token::Semicolon => Token::Semicolon,
        Token::Comma => Token::Comma,
        Token::Eq => Token::Eq,
        Token::EqEq => Token::EqEq,
        Token::Plus => Token::Plus,
        Token::Minus => Token::Minus,
        Token::Slash => Token::Slash,
        Token::Pound => Token::Pound,
        Token::OpenParen => Token::OpenParen,
        Token::CloseParen => Token::CloseParen,
        Token::OpenBrace => Token::OpenBrace,
        Token::CloseBrace => Token::CloseBrace,
        Token::OpenBracket => Token::OpenBracket,
        Token::CloseBracket => Token::CloseBracket,
        Token::Dot => Token::Dot,
        Token::Bang => Token::Bang,
        Token::Lt => Token::Lt,
        Token::Gt => Token::Gt,
        Token::Pipe => Token::Pipe,
        Token::Percent => Token::Percent,
        Token::Caret => Token::Caret,
        Token::Question => Token::Question,
        Token::Tilde => Token::Tilde,
        Token::At => Token::At,
        Token::Dollar => Token::Dollar,
        Token::Ident(s) => Token::Ident(s.clone()),
        Token::IntLit(s) => Token::IntLit(s.clone()),
        Token::StrLit(s) => Token::StrLit(s.clone()),
        Token::CharLit(c) => Token::CharLit(*c),
    }
}

/// Whether two tokens have the same value.
pub fn same_token(a: &Token, b: &Token) -> (r: bool)
    ensures
        r == (a@ == b@),
{
    match a {
        Token::Fn => matches!(b, Token::Fn),
        Token::Proc => matches!(b, Token::Proc),
        Token::Struct => matches!(b, Token::Struct),
        Token::Let => matches!(b, Token::Let),
        Token::Mut => matches!(b, Token::Mut),
        Token::Const => matches!(b, Token::Const),
        Token::Return => matches!(b, Token::Return),
        Token::Extern => matches!(b, Token::Extern),
        Token::Unsafe => matches!(b, Token::Unsafe),
        Token::Use => matches!(b, Token::Use),
        Token::Impl => matches!(b, Token::Impl),
        Token::As => matches!(b, Token::As),
        Token::If => matches!(b, Token::If),
        Token::Else => matches!(b, Token::Else),
        Token::Void => matches!(b, Token::Void),
        Token::Int => matches!(b, Token::Int),
        Token::Uint => matches!(b, Token::Uint),
        Token::Long => matches!(b, Token::Long),
        Token::Char => matches!(b, Token::Char),
        Token::Star => matches!(b, Token::Star),
        Token::Ampersand => matches!(b, Token::Ampersand),
        Token::Arrow => matches!(b, Token::Arrow),
        Token::Colon => matches!(b, Token::Colon),
        Token::DoubleColon => matches!(b, Token::DoubleColon),
        Token::Semicolon => matches!(b, Token::Semicolon),
        Token::Comma => matches!(b, Token::Comma),
        Token::Eq => matches!(b, Token::Eq),
        Token::EqEq => matches!(b, Token::EqEq),
        Token::Plus => matches!(b, Token::Plus),
        Token::Minus => matches!(b, Token::Minus),
        Token::Slash => matches!(b, Token::Slash),
        Token::Pound => matches!(b, Token::Pound),
        Token::OpenParen => matches!(b, Token::OpenParen),
        Token::CloseParen => matches!(b, Token::CloseParen),
        Token::OpenBrace => matches!(b, Token::OpenBrace),
        Token::CloseBrace => matches!(b, Token::CloseBrace),
        Token::OpenBracket => matches!(b, Token::OpenBracket),
        Token::CloseBracket => matches!(b, Token::CloseBracket),
        Token::Dot => matches!(b, Token::Dot),
        Token::Bang => matches!(b, Token::Bang),
        Token::Lt => matches!(b, Token::Lt),
        Token::Gt => matches!(b, Token::Gt),
        Token::Pipe => matches!(b, Token::Pipe),
        Token::Percent => matches!(b, Token::Percent),
        Token::Caret => matches!(b, Token::Caret),
        Token::Question => matches!(b, Token::Question),
        Token::Tilde => matches!(b, Token::Tilde),
        Token::At => matches!(b, Token::At),
        Token::Dollar => matches!(b, Token::Dollar),
        Token::Ident(x) => match b {
            Token::Ident(y) => x.eq(y),
            _ => false,
        },
        Token::IntLit(x) => match b {
            Token::IntLit(y) => x.eq(y),
            _ => false,
        },
        Token::StrLit(x) => match b {
            Token::StrLit(y) => x.eq(y),
            _ => false,
        },
        Token::CharLit(x) => match b {
            Token::CharLit(y) => *x == *y,
            _ => false,
        },
    }
}

/// The text that `{:?}` writes for a token.
pub open spec fn token_debug(t: TokenV) -> Seq<char> {
    match t {
        TokenV::Fn => "Fn"@,
        TokenV::Proc => "Proc"@,
        TokenV::Struct => "Struct"@,
        TokenV::Let => "Let"@,
        TokenV::Mut => "Mut"@,
        TokenV::Const => "Const"@,
        TokenV::Return => "Return"@,
        TokenV::Extern => "Extern"@,
        TokenV::Unsafe => "Unsafe"@,
        TokenV::Use => "Use"@,
        TokenV::Impl => "Impl"@,
        TokenV::As => "As"@,
        TokenV::If => "If"@,
        TokenV::Else => "Else"@,
        TokenV::Void => "Void"@,
        TokenV::Int => "Int"@,
        TokenV::Uint => "Uint"@,
        TokenV::Long => "Long"@,
        TokenV::Char => "Char"@,
        TokenV::Star => "Star"@,
        TokenV::Ampersand => "Ampersand"@,
        TokenV::Arrow => "Arrow"@,
        TokenV::Colon => "Colon"@,
        TokenV::DoubleColon => "DoubleColon"@,
        TokenV::Semicolon => "Semicolon"@,
        TokenV::Comma => "Comma"@,
        TokenV::Eq => "Eq"@,
        TokenV::EqEq => "EqEq"@,
        TokenV::Plus => "Plus"@,
        TokenV::Minus => "Minus"@,
        TokenV::Slash => "Slash"@,
        TokenV::Pound => "Pound"@,
        TokenV::OpenParen => "OpenParen"@,
        TokenV::CloseParen => "CloseParen"@,
        TokenV::OpenBrace => "OpenBrace"@,
        TokenV::CloseBrace => "CloseBrace"@,
        TokenV::OpenBracket => "OpenBracket"@,
        TokenV::CloseBracket => "CloseBracket"@,
        TokenV::Dot => "Dot"@,
        TokenV::Bang => "Bang"@,
        TokenV::Lt => "Lt"@,
        TokenV::Gt => "Gt"@,
        TokenV::Pipe => "Pipe"@,
        TokenV::Percent => "Percent"@,
        TokenV::Caret => "Caret"@,
        TokenV::Question => "Question"@,
        TokenV::Tilde => "Tilde"@,
        TokenV::At => "At"@,
        TokenV::Dollar => "Dollar"@,
        TokenV::Ident(s) => "Ident("@ + debug_str(s) + ")"@,
        TokenV::IntLit(s) => "IntLit("@ + debug_str(s) + ")"@,
        TokenV::StrLit(s) => "StrLit("@ + debug_str(s) + ")"@,
        TokenV::CharLit(c) => "CharLit("@ + debug_char(c) + ")"@,
    }
}

/// Appends the `{:?}` text of `t` to `out`.
pub fn push_token_debug(out: &mut Vec<char>, t: &Token)
    ensures
        final(out)@ == old(out)@ + token_debug(t@),
{
    match t {
        Token::Fn => push_str(out, "Fn"),
        Token::Proc => push_str(out, "Proc"),
        Token::Struct => push_str(out, "Struct"),
        Token::Let => push_str(out, "Let"),
        Token::Mut => push_str(out, "Mut"),
        Token::Const => push_str(out, "Const"),
        Token::Return => push_str(out, "Return"),
        Token::Extern => push_str(out, "Extern"),
        Token::Unsafe => push_str(out, "Unsafe"),
        Token::Use => push_str(out, "Use"),
        Token::Impl => push_str(out, "Impl"),
        Token::As => push_str(out, "As"),
        Token::If => push_str(out, "If"),
        Token::Else => push_str(out, "Else"),
        Token::Void => push_str(out, "Void"),
        Token::Int => push_str(out, "Int"),
        Token::Uint => push_str(out, "Uint"),
        Token::Long => push_str(out, "Long"),
        Token::Char => push_str(out, "Char"),
        Token::Star => push_str(out, "Star"),
        Token::Ampersand => push_str(out, "Ampersand"),
        Token::Arrow => push_str(out, "Arrow"),
        Token::Colon => push_str(out, "Colon"),
        Token::DoubleColon => push_str(out, "DoubleColon"),
        Token::Semicolon => push_str(out, "Semicolon"),
        Token::Comma => push_str(out, "Comma"),
        Token::Eq => push_str(out, "Eq"),
        Token::EqEq => push_str(out, "EqEq"),
        Token::Plus => push_str(out, "Plus"),
        Token::Minus => push_str(out, "Minus"),
        Token::Slash => push_str(out, "Slash"),
        Token::Pound => push_str(out, "Pound"),
        Token::OpenParen => push_str(out, "OpenParen"),
        Token::CloseParen => push_str(out, "CloseParen"),
        Token::OpenBrace => push_str(out, "OpenBrace"),
        Token::CloseBrace => push_str(out, "CloseBrace"),
        Token::OpenBracket => push_str(out, "OpenBracket"),
        Token::CloseBracket => push_str(out, "CloseBracket"),
        Token::Dot => push_str(out, "Dot"),
        Token::Bang => push_str(out, "Bang"),
        Token::Lt => push_str(out, "Lt"),
        Token::Gt => push_str(out, "Gt"),
        Token::Pipe => push_str(out, "Pipe"),
        Token::Percent => push_str(out, "Percent"),
        Token::Caret => push_str(out, "Caret"),
        Token::Question => push_str(out, "Question"),
        Token::Tilde => push_str(out, "Tilde"),
        Token::At => push_str(out, "At"),
        Token::Dollar => push_str(out, "Dollar"),
        Token::Ident(s) => {
            push_str(out, "Ident(");
            let d = debug_str_of(s.as_str());
            push_str(out, d.as_str());
            push_str(out, ")");
        },
        Token::IntLit(s) => {
            push_str(out, "IntLit(");
            let d = debug_str_of(s.as_str());
            push_str(out, d.as_str());
            push_str(out, ")");
        },
        Token::StrLit(s) => {
            push_str(out, "StrLit(");
            let d = debug_str_of(s.as_str());
            push_str(out, d.as_str());
            push_str(out, ")");
        },
        Token::CharLit(c) => {
            push_str(out, "CharLit(");
            let d = debug_char_of(*c);
            push_str(out, d.as_str());
            push_str(out, ")");
        },
    }
}

// ---------------------------------------------------------------------------
// The lexical grammar, as functions on character sequences
// ---------------------------------------------------------------------------

/// The ways in which lexing can fail.
pub enum LexError {
    UnterminatedBlockComment,
    UnterminatedString,
    UnterminatedCharEscape,
    EmptyCharLiteral,
    UnclosedCharLiteral,
    UnexpectedChar(char),
}

/// The message that reports a lexing failure.
pub open spec fn lex_error_message(e: LexError) -> Seq<char> {
    match e {
        LexError::UnterminatedBlockComment => "Unterminated block comment"@,
        LexError::UnterminatedString => "Unterminated string literal"@,
        LexError::UnterminatedCharEscape => "Unterminated char literal escape"@,
        LexError::EmptyCharLiteral => "Empty or unterminated char literal"@,
        LexError::UnclosedCharLiteral => "Expected closing single quote for char literal"@,
        LexError::UnexpectedChar(c) => "Unexpected character: '"@ + seq![c] + "'"@,
    }
}

/// What one lexing step does at an offset: skip to another offset, produce a
/// token that ends before another offset, or fail.
pub enum LexStep {
    Skip(int),
    Emit(TokenV, int),
    Fail(LexError),
}

/// One past the end of a `//` comment whose text starts at `j`: after the
/// first newline, or the end of input.
pub open spec fn line_comment_end(s: Seq<char>, j: int) -> int
    decreases s.len() - j,
{
    if j >= s.len() {
        s.len() as int
    } else if s[j] == '\n' {
        j + 1
    } else {
        line_comment_end(s, j + 1)
    }
}

/// One past the `*/` that closes a block comment whose text starts at `j`.
pub open spec fn block_comment_end(s: Seq<char>, j: int) -> Option<int>
    decreases s.len() - j,
{
    if j >= s.len() {
        None
    } else if s[j] == '*' && j + 1 < s.len() && s[j + 1] == '/' {
        Some(j + 2)
    } else {
        block_comment_end(s, j + 1)
    }
}

/// A character that continues an identifier.
pub open spec fn ident_char(c: char) -> bool {
    letter(c) || numeral(c) || c == '_'
}

/// The end of the run of identifier characters that starts at `j`.
pub open spec fn ident_end(s: Seq<char>, j: int) -> int
    decreases s.len() - j,
{
    if 0 <= j < s.len() && ident_char(s[j]) {
        ident_end(s, j + 1)
    } else {
        j
    }
}

/// The end of the run of ASCII digits that starts at `j`.
pub open spec fn digits_end(s: Seq<char>, j: int) -> int
    decreases s.len() - j,
{
    if 0 <= j < s.len() && ascii_digit(s[j]) {
        digits_end(s, j + 1)
    } else {
        j
    }
}

/// The keyword token spelled `w`, or an identifier.
pub open spec fn word_token(w: Seq<char>) -> TokenV {
    if w == "fn"@ { TokenV::Fn }
    else if w == "proc"@ { TokenV::Proc }
    else if w == "struct"@ { TokenV::Struct }
    else if w == "let"@ { TokenV::Let }
    else if w == "mut"@ { TokenV::Mut }
    else if w == "const"@ { TokenV::Const }
    else if w == "return"@ { TokenV::Return }
    else if w == "extern"@ { TokenV::Extern }
    else if w == "unsafe"@ { TokenV::Unsafe }
    else if w == "use"@ { TokenV::Use }
    else if w == "impl"@ { TokenV::Impl }
    else if w == "as"@ { TokenV::As }
    else if w == "if"@ { TokenV::If }
    else if w == "else"@ { TokenV::Else }
    else if w == "void"@ { TokenV::Void }
    else if w == "int"@ { TokenV::Int }
    else if w == "uint"@ { TokenV::Uint }
    else if w == "long"@ { TokenV::Long }
    else if w == "char"@ { TokenV::Char }
    else { TokenV::Ident(w) }
}

/// The contents and end of a string literal whose text starts at `j`
/// (after the opening quote): a backslash takes the next character
/// literally, and an unescaped `"` closes the literal.
pub open spec fn string_scan(s: Seq<char>, j: int, escaped: bool) -> Option<(Seq<char>, int)>
    decreases s.len() - j,
{
    if j < 0 || j >= s.len() {
        None
    } else if escaped {
        match string_scan(s, j + 1, false) {
            Some((rest, e)) => Some((seq![s[j]] + rest, e)),
            None => None,
        }
    } else if s[j] == '\\' {
        string_scan(s, j + 1, true)
    } else if s[j] == '"' {
        Some((seq![], j + 1))
    } else {
        match string_scan(s, j + 1, false) {
            Some((rest, e)) => Some((seq![s[j]] + rest, e)),
            None => None,
        }
    }
}

/// The character that an escape `\e` in a char literal stands for.
pub open spec fn char_escape(e: char) -> char {
    if e == 'n' { '\n' }
    else if e == 'r' { '\r' }
    else if e == 't' { '\t' }
    else if e == '0' { '\0' }
    else { e }
}

/// The step for a char literal whose opening quote is at `i`.
pub open spec fn char_literal_step(s: Seq<char>, i: int) -> LexStep {
    let j = i + 1;
    if j >= s.len() {
        LexStep::Fail(LexError::EmptyCharLiteral)
    } else {
        let (val, k) = if s[j] == '\\' {
            (char_escape(if j + 1 < s.len() { s[j + 1] } else { ' ' }), j + 2)
        } else {
            (s[j], j + 1)
        };
        if s[j] == '\\' && j + 1 >= s.len() {
            LexStep::Fail(LexError::UnterminatedCharEscape)
        } else if k < s.len() && s[k] == '\'' {
            LexStep::Emit(TokenV::CharLit(val), k + 1)
        } else {
            LexStep::Fail(LexError::UnclosedCharLiteral)
        }
    }
}

/// The token of a one-character symbol.
pub open spec fn symbol_token(c: char) -> Option<TokenV> {
    if c == '*' { Some(TokenV::Star) }
    else if c == '&' { Some(TokenV::Ampersand) }
    else if c == ';' { Some(TokenV::Semicolon) }
    else if c == ',' { Some(TokenV::Comma) }
    else if c == '+' { Some(TokenV::Plus) }
    else if c == '#' { Some(TokenV::Pound) }
    else if c == '(' { Some(TokenV::OpenParen) }
    else if c == ')' { Some(TokenV::CloseParen) }
    else if c == '{' { Some(TokenV::OpenBrace) }
    else if c == '}' { Some(TokenV::CloseBrace) }
    else if c == '[' { Some(TokenV::OpenBracket) }
    else if c == ']' { Some(TokenV::CloseBracket) }
    else if c == '.' { Some(TokenV::Dot) }
    else if c == '!' { Some(TokenV::Bang) }
    else if c == '<' { Some(TokenV::Lt) }
    else if c == '>' { Some(TokenV::Gt) }
    else if c == '|' { Some(TokenV::Pipe) }
    else if c == '%' { Some(TokenV::Percent) }
    else if c == '^' { Some(TokenV::Caret) }
    else if c == '?' { Some(TokenV::Question) }
    else if c == '~' { Some(TokenV::Tilde) }
    else if c == '@' { Some(TokenV::At) }
    else if c == '$' { Some(TokenV::Dollar) }
    else { None }
}

/// The step for a symbol or operator at `i`.
pub open spec fn symbol_step(s: Seq<char>, i: int) -> LexStep {
    let c = s[i];
    let next_is = |d: char| i + 1 < s.len() && s[i + 1] == d;
    if c == ':' {
        if next_is(':') { LexStep::Emit(TokenV::DoubleColon, i + 2) } else { LexStep::Emit(TokenV::Colon, i + 1) }
    } else if c == '-' {
        if next_is('>') { LexStep::Emit(TokenV::Arrow, i + 2) } else { LexStep::Emit(TokenV::Minus, i + 1) }
    } else if c == '=' {
        if next_is('=') { LexStep::Emit(TokenV::EqEq, i + 2) } else { LexStep::Emit(TokenV::Eq, i + 1) }
    } else {
        match symbol_token(c) {
            Some(t) => LexStep::Emit(t, i + 1),
            None => LexStep::Fail(LexError::UnexpectedChar(c)),
        }
    }
}

/// The lexing step at offset `i` (with `i < s.len()`).
pub open spec fn lex_step(s: Seq<char>, i: int) -> LexStep {
    let c = s[i];
    if unicode_whitespace(c) {
        LexStep::Skip(i + 1)
    } else if c == '/' {
        if i + 1 < s.len() && s[i + 1] == '/' {
            LexStep::Skip(line_comment_end(s, i + 2))
        } else if i + 1 < s.len() && s[i + 1] == '*' {
            match block_comment_end(s, i + 2) {
                Some(k) => LexStep::Skip(k),
                None => LexStep::Fail(LexError::UnterminatedBlockComment),
            }
        } else {
            LexStep::Emit(TokenV::Slash, i + 1)
        }
    } else if letter(c) || c == '_' {
        let e = ident_end(s, i);
        LexStep::Emit(word_token(s.subrange(i, e)), e)
    } else if ascii_digit(c) {
        let e = digits_end(s, i);
        LexStep::Emit(TokenV::IntLit(s.subrange(i, e)), e)
    } else if c == '"' {
        match string_scan(s, i + 1, false) {
            Some((content, e)) => LexStep::Emit(TokenV::StrLit(content), e),
            None => LexStep::Fail(LexError::UnterminatedString),
        }
    } else if c == '\'' {
        char_literal_step(s, i)
    } else {
        symbol_step(s, i)
    }
}

/// The tokens, each with its starting offset, of `s` from offset `i` on.
pub open spec fn lex_from(s: Seq<char>, i: int) -> Result<Seq<(TokenV, int)>, LexError>
    decreases s.len() - i,
{
    if i < 0 || i >= s.len() {
        Ok(seq![])
    } else {
        match lex_step(s, i) {
            LexStep::Skip(j) => if i < j <= s.len() { lex_from(s, j) } else { Ok(seq![]) },
            LexStep::Emit(t, j) => if i < j <= s.len() {
                match lex_from(s, j) {
                    Ok(rest) => Ok(seq![(t, i)] + rest),
                    Err(e) => Err(e),
                }
            } else {
                Ok(seq![])
            },
            LexStep::Fail(e) => Err(e),
        }
    }
}

/// The tokens of `s`, each with its starting offset.
pub open spec fn lex(s: Seq<char>) -> Result<Seq<(TokenV, int)>, LexError> {
    lex_from(s, 0)
}

/// The value of a token list with offsets.
pub open spec fn positioned_view(v: Seq<(Token, usize)>) -> Seq<(TokenV, int)> {
    Seq::new(v.len(), |i: int| (v[i].0@, v[i].1 as int))
}

/// Tokens with each character offset replaced by the offset, in bytes of
/// the UTF-8 encoding of `s`, at which that character starts.
pub open spec fn byte_positioned(s: Seq<char>, ts: Seq<(TokenV, int)>) -> Seq<(TokenV, int)> {
    ts.map_values(|p: (TokenV, int)| (p.0, byte_offset(s, p.1)))
}

/// The value of a token list.
pub open spec fn tokens_view(v: Seq<Token>) -> Seq<TokenV> {
    Seq::new(v.len(), |i: int| v[i]@)
}

/// `r` followed by the outcome of lexing the rest.
pub open spec fn prepend_tokens(r: Seq<(TokenV, int)>, rest: Result<Seq<(TokenV, int)>, LexError>) -> Result<Seq<(TokenV, int)>, LexError> {
    match rest {
        Ok(t) => Ok(r + t),
        Err(e) => Err(e),
    }
}

// ---------------------------------------------------------------------------
// The lexer
// ---------------------------------------------------------------------------

/// Lexer for a Carbide source string.
pub struct Lexer {
    chars: Vec<char>,
    byte_len: usize,
}

impl Lexer {
    /// The source text that this lexer reads.
    pub closed spec fn source(&self) -> Seq<char> {
        self.chars@
    }

    /// Create a new Lexer for `input`.
    /// The length of the UTF-8 encoding of the source is kept beside it.
    #[verifier::type_invariant]
    spec fn encoding_len_kept(&self) -> bool {
        self.byte_len == encode_utf8(self.chars@).len()
    }

    pub fn new(input: &str) -> (l: Self)
        ensures
            l.source() == input@,
    {
        let bytes = input.as_bytes();
        Lexer { chars: chars_of(input), byte_len: bytes.len() }
    }

    /// The character at offset `pos`, if any.
    fn peek_char(&self, pos: usize) -> (r: Option<char>)
        ensures
            r == (if pos < self.chars@.len() { Some(self.chars@[pos as int]) } else { None::<char> }),
    {
        if pos < self.chars.len() {
            Some(self.chars[pos])
        } else {
            None
        }
    }

    /// Whether the character at offset `pos` is `c`.
    fn next_is(&self, pos: usize, c: char) -> (r: bool)
        ensures
            r == (pos < self.chars@.len() && self.chars@[pos as int] == c),
    {
        match self.peek_char(pos) {
            Some(d) => d == c,
            None => false,
        }
    }

    /// The end of a `//` comment whose text starts at `j`.
    fn skip_line_comment(&self, j: usize) -> (e: usize)
        requires
            j <= self.chars@.len(),
        ensures
            e as int == line_comment_end(self.chars@, j as int),
    {
        let mut k = j;
        while k < self.chars.len()
            invariant
                j <= k <= self.chars@.len(),
                line_comment_end(self.chars@, j as int) == line_comment_end(self.chars@, k as int),
            decreases self.chars@.len() - k,
        {
            if self.chars[k] == '\n' {
                return k + 1;
            }
            k += 1;
        }
        k
    }

    /// The end of a block comment whose text starts at `j`.
    fn skip_block_comment(&self, j: usize) -> (e: Option<usize>)
        requires
            j <= self.chars@.len(),
        ensures
            match e {
                Some(k) => block_comment_end(self.chars@, j as int) == Some(k as int),
                None => block_comment_end(self.chars@, j as int) is None,
            },
    {
        let mut k = j;
        while k < self.chars.len()
            invariant
                j <= k <= self.chars@.len(),
                block_comment_end(self.chars@, j as int) == block_comment_end(self.chars@, k as int),
            decreases self.chars@.len() - k,
        {
            if self.chars[k] == '*' && self.next_is(k + 1, '/') {
                return Some(k + 2);
            }
            k += 1;
        }
        None
    }

    /// The characters of the identifier starting at `i`, and its end.
    fn scan_ident(&self, i: usize) -> (r: (Vec<char>, usize))
        requires
            i < self.chars@.len(),
            letter(self.chars@[i as int]) || self.chars@[i as int] == '_',
        ensures
            r.1 as int == ident_end(self.chars@, i as int),
            i < r.1 <= self.chars@.len(),
            r.0@ == self.chars@.subrange(i as int, r.1 as int),
    {
        let mut word: Vec<char> = Vec::new();
        let mut k = i;
        while self.ident_char_at(k)
            invariant
                i <= k <= self.chars@.len(),
                ident_end(self.chars@, i as int) == ident_end(self.chars@, k as int),
                word@ == self.chars@.subrange(i as int, k as int),
                k == i ==> letter(self.chars@[i as int]) || self.chars@[i as int] == '_',
            decreases self.chars@.len() - k,
        {
            assert(k < self.chars.len());
            word.push(self.chars[k]);
            k += 1;
        }
        (word, k)
    }

    /// Whether an identifier character stands at offset `k`.
    fn ident_char_at(&self, k: usize) -> (r: bool)
        ensures
            r == (k < self.chars@.len() && ident_char(self.chars@[k as int])),
            k < self.chars@.len() && letter(self.chars@[k as int]) ==> r,
    {
        if k < self.chars.len() {
            let c = self.chars[k];
            is_letter(c) || is_numeral(c) || c == '_'
        } else {
            false
        }
    }

    /// The digits of the integer literal starting at `i`, and its end.
    fn scan_digits(&self, i: usize) -> (r: (Vec<char>, usize))
        requires
            i <= self.chars@.len(),
        ensures
            r.1 as int == digits_end(self.chars@, i as int),
            i <= r.1 <= self.chars@.len(),
            r.0@ == self.chars@.subrange(i as int, r.1 as int),
    {
        let mut num: Vec<char> = Vec::new();
        let mut k = i;
        while k < self.chars.len() && is_ascii_digit(self.chars[k])
            invariant
                i <= k <= self.chars@.len(),
                digits_end(self.chars@, i as int) == digits_end(self.chars@, k as int),
                num@ == self.chars@.subrange(i as int, k as int),
            decreases self.chars@.len() - k,
        {
            num.push(self.chars[k]);
            k += 1;
        }
        (num, k)
    }

    /// The contents and end of the string literal whose text starts at `j`.
    fn scan_string(&self, j: usize) -> (r: Option<(Vec<char>, usize)>)
        requires
            j <= self.chars@.len(),
        ensures
            match r {
                Some((v, e)) => string_scan(self.chars@, j as int, false) == Some((v@, e as int)),
                None => string_scan(self.chars@, j as int, false) is None,
            },
    {
        let mut content: Vec<char> = Vec::new();
        let mut escaped = false;
        let mut k = j;
        while k < self.chars.len()
            invariant
                j <= k <= self.chars@.len(),
                match string_scan(self.chars@, k as int, escaped) {
                    Some((rest, e)) => string_scan(self.chars@, j as int, false) == Some((content@ + rest, e)),
                    None => string_scan(self.chars@, j as int, false) is None,
                },
            decreases self.chars@.len() - k,
        {
            let nc = self.chars[k];
            proof {
                let s = self.chars@;
                match string_scan(s, k + 1, false) {
                    Some((rest, e)) => {
                        assert(content@.push(nc) + rest =~= content@ + (seq![nc] + rest));
                    },
                    None => {},
                }
            }
            if escaped {
                content.push(nc);
                escaped = false;
            } else if nc == '\\' {
                escaped = true;
            } else if nc == '"' {
                assert(content@ + seq![] =~= content@);
                return Some((content, k + 1));
            } else {
                content.push(nc);
            }
            k += 1;
        }
        None
    }

    /// The character and end of the char literal whose opening quote is at `i`.
    fn scan_char_literal(&self, i: usize) -> (r: Result<(Token, usize), String>)
        requires
            i < self.chars@.len(),
            self.chars@[i as int] == '\'',
        ensures
            match r {
                Ok((t, e)) => char_literal_step(self.chars@, i as int) == LexStep::Emit(t@, e as int)
                    && i < e <= self.chars@.len(),
                Err(m) => char_literal_step(self.chars@, i as int) matches LexStep::Fail(err)
                    && m@ == lex_error_message(err),
            },
    {
        if i >= self.chars.len() - 1 {
            return Err(String::from_str("Empty or unterminated char literal"));
        }
        let (val, close) = if self.chars[i + 1] == '\\' {
            if i >= self.chars.len() - 2 {
                return Err(String::from_str("Unterminated char literal escape"));
            }
            (unescape(self.chars[i + 2]), i + 3)
        } else {
            (self.chars[i + 1], i + 2)
        };
        if !self.next_is(close, '\'') {
            return Err(String::from_str("Expected closing single quote for char literal"));
        }
        Ok((Token::CharLit(val), close + 1))
    }

    /// The token and end of the symbol or operator at `i`.
    fn scan_symbol(&self, i: usize) -> (r: Result<(Token, usize), String>)
        requires
            i < self.chars@.len(),
        ensures
            match r {
                Ok((t, e)) => symbol_step(self.chars@, i as int) == LexStep::Emit(t@, e as int)
                    && i < e <= self.chars@.len(),
                Err(m) => symbol_step(self.chars@, i as int) matches LexStep::Fail(err)
                    && m@ == lex_error_message(err),
            },
    {
        let n = self.chars.len();
        let c = self.chars[i];
        if c == ':' {
            if self.next_is(i + 1, ':') { Ok((Token::DoubleColon, i + 2)) } else { Ok((Token::Colon, i + 1)) }
        } else if c == '-' {
            if self.next_is(i + 1, '>') { Ok((Token::Arrow, i + 2)) } else { Ok((Token::Minus, i + 1)) }
        } else if c == '=' {
            if self.next_is(i + 1, '=') { Ok((Token::EqEq, i + 2)) } else { Ok((Token::Eq, i + 1)) }
        } else {
            match symbol(c) {
                Some(t) => Ok((t, i + 1)),
                None => {
                    let mut msg = String::from_str("Unexpected character: '");
                    string_push(&mut msg, c);
                    msg.append("'");
                    Err(msg)
                },
            }
        }
    }

    /// The tokens of the source with the character offset at which each
    /// starts.
    fn lex_chars(&self) -> (r: Result<Vec<(Token, usize)>, String>)
        ensures
            match r {
                Ok(v) => lex(self.source()) == Ok::<Seq<(TokenV, int)>, LexError>(positioned_view(v@)),
                Err(m) => lex(self.source()) matches Err(e) && m@ == lex_error_message(e),
            },
    {
        let mut tokens: Vec<(Token, usize)> = Vec::new();
        let mut pos: usize = 0;
        let ghost s = self.chars@;
        while pos < self.chars.len()
            invariant
                s == self.chars@,
                pos <= s.len(),
                lex(s) == prepend_tokens(positioned_view(tokens@), lex_from(s, pos as int)),
            decreases s.len() - pos,
        {
            let c = self.chars[pos];
            let ghost before = tokens@;
            if is_whitespace(c) {
                // Whitespace
                pos += 1;
            } else if c == '/' && self.next_is(pos + 1, '/') {
                // Line comment
                let e = self.skip_line_comment(pos + 2);
                proof { lemma_line_comment_end_bounds(s, pos + 2); }
                pos = e;
            } else if c == '/' && self.next_is(pos + 1, '*') {
                // Block comment
                match self.skip_block_comment(pos + 2) {
                    Some(e) => {
                        proof { lemma_block_comment_end_bounds(s, pos + 2); }
                        pos = e;
                    },
                    None => {
                        return Err(String::from_str("Unterminated block comment"));
                    },
                }
            } else if c == '/' {
                tokens.push((Token::Slash, pos));
                proof { lemma_push_positioned(before, tokens@, s, pos as int, pos + 1); }
                pos += 1;
            } else if is_letter(c) || c == '_' {
                // Identifiers and keywords
                let (word, e) = self.scan_ident(pos);
                let tok = keyword_or_ident(word);
                tokens.push((tok, pos));
                proof { lemma_push_positioned(before, tokens@, s, pos as int, e as int); }
                pos = e;
            } else if is_ascii_digit(c) {
                // Integer literals
                let (num, e) = self.scan_digits(pos);
                proof { lemma_digits_end_progress(s, pos as int); }
                tokens.push((Token::IntLit(string_of(&num)), pos));
                proof { lemma_push_positioned(before, tokens@, s, pos as int, e as int); }
                pos = e;
            } else if c == '"' {
                // String literals
                match self.scan_string(pos + 1) {
                    Some((content, e)) => {
                        proof { lemma_string_scan_bounds(s, pos + 1, false); }
                        tokens.push((Token::StrLit(string_of(&content)), pos));
                        proof { lemma_push_positioned(before, tokens@, s, pos as int, e as int); }
                        pos = e;
                    },
                    None => {
                        return Err(String::from_str("Unterminated string literal"));
                    },
                }
            } else if c == '\'' {
                // Char literals
                match self.scan_char_literal(pos) {
                    Ok((tok, e)) => {
                        tokens.push((tok, pos));
                        proof { lemma_push_positioned(before, tokens@, s, pos as int, e as int); }
                        pos = e;
                    },
                    Err(m) => {
                        return Err(m);
                    },
                }
            } else {
                // Single-character and two-character operators / punctuation
                match self.scan_symbol(pos) {
                    Ok((tok, e)) => {
                        tokens.push((tok, pos));
                        proof { lemma_push_positioned(before, tokens@, s, pos as int, e as int); }
                        pos = e;
                    },
                    Err(m) => {
                        return Err(m);
                    },
                }
            }
        }
        assert(positioned_view(tokens@) + seq![] =~= positioned_view(tokens@));
        Ok(tokens)
    }

    /// Tokenize the source and return tokens together with their **start
    /// offsets**: the byte offset at which each starts in the UTF-8 text.
    ///
    /// The parser uses the offsets to slice raw function-body text verbatim.
    pub fn tokenize_with_positions(self) -> (r: Result<Vec<(Token, usize)>, String>)
        ensures
            match r {
                Ok(v) => lex(self.source()) matches Ok(ts) && positioned_view(v@) == byte_positioned(self.source(), ts),
                Err(m) => lex(self.source()) matches Err(e) && m@ == lex_error_message(e),
            },
    {
        proof { use_type_invariant(&self); }
        match self.lex_chars() {
            Ok(v) => {
                proof {
                    lemma_lex_from_offsets(self.chars@, 0);
                    let ts = lex_from(self.chars@, 0)->Ok_0;
                    assert(ts == positioned_view(v@));
                    assert forall|k: int| 0 <= k < v@.len() implies #[trigger] v@[k].1 < self.chars@.len() by {
                        assert(ts[k].1 == v@[k].1);
                    }
                    assert forall|a: int, b: int| 0 <= a < b < v@.len() implies v@[a].1 < v@[b].1 by {
                        assert(ts[a].1 == v@[a].1);
                        assert(ts[b].1 == v@[b].1);
                    }
                }
                Ok(to_byte_offsets(&self.chars, &v, self.byte_len))
            },
            Err(m) => Err(m),
        }
    }

    /// Tokenize the source, returning only the tokens (offsets discarded).
    pub fn tokenize(self) -> (r: Result<Vec<Token>, String>)
        ensures
            match r {
                Ok(v) => lex(self.source()) matches Ok(ts) && tokens_view(v@) == ts.map_values(|p: (TokenV, int)| p.0),
                Err(m) => lex(self.source()) matches Err(e) && m@ == lex_error_message(e),
            },
    {
        let ghost src = self.source();
        match self.tokenize_with_positions() {
            Ok(v) => {
                let mut out: Vec<Token> = Vec::new();
                let mut i: usize = 0;
                while i < v.len()
                    invariant
                        i <= v@.len(),
                        out@.len() == i,
                        forall|k: int| 0 <= k < i ==> out@[k]@ == v@[k].0@,
                    decreases v.len() - i,
                {
                    out.push(copy_token(&v[i].0));
                    i += 1;
                }
                assert(tokens_view(out@) =~= positioned_view(v@).map_values(|p: (TokenV, int)| p.0));
                proof {
                    let ts = lex(src)->Ok_0;
                    assert(positioned_view(v@).map_values(|p: (TokenV, int)| p.0)
                        =~= ts.map_values(|p: (TokenV, int)| p.0));
                }
                Ok(out)
            },
            Err(m) => Err(m),
        }
    }
}

/// The tokens, with offsets counted in bytes of the UTF-8 encoding of the
/// characters (`total` is the length of that encoding).
#[verifier::loop_isolation(false)]
#[verifier::spinoff_prover]
fn to_byte_offsets(chars: &Vec<char>, toks: &Vec<(Token, usize)>, total: usize) -> (r: Vec<(Token, usize)>)
    requires
        total == encode_utf8(chars@).len(),
        forall|k: int| 0 <= k < toks@.len() ==> #[trigger] toks@[k].1 < chars@.len(),
        forall|a: int, b: int| 0 <= a < b < toks@.len() ==> toks@[a].1 < toks@[b].1,
    ensures
        positioned_view(r@) == byte_positioned(chars@, positioned_view(toks@)),
{
    let ghost s = chars@;
    let mut out: Vec<(Token, usize)> = Vec::new();
    let mut i: usize = 0;
    let mut b: usize = 0;
    let mut k: usize = 0;
    while k < toks.len()
        invariant
            k <= toks@.len(),
            i <= s.len(),
            b == byte_offset(s, i as int),
            k < toks@.len() ==> i <= toks@[k as int].1,
            out@.len() == k,
            forall|j: int| 0 <= j < k ==> #[trigger] out@[j].0@ == toks@[j].0@ && out@[j].1 == byte_offset(s, toks@[j].1 as int),
        decreases toks@.len() - k,
    {
        let target = toks[k].1;
        while i < target
            invariant
                i <= target,
                target < s.len(),
                b == byte_offset(s, i as int),
            decreases target - i,
        {
            proof { lemma_byte_offset_within(s, i + 1); }
            b = b + utf8_width_of(chars[i]);
            i += 1;
        }
        let ghost old_out = out@;
        out.push((copy_token(&toks[k].0), b));
        proof {
            assert forall|j: int| 0 <= j < k implies #[trigger] out@[j].0@ == toks@[j].0@ && out@[j].1 == byte_offset(s, toks@[j].1 as int) by {
                assert(out@[j] == old_out[j]);
            }
            assert(out@[k as int].0@ == toks@[k as int].0@);
            assert(out@[k as int].1 == byte_offset(s, toks@[k as int].1 as int));
            if k + 1 < toks@.len() {
                assert(toks@[k as int].1 < toks@[k + 1].1);
            }
        }
        k += 1;
    }
    assert(positioned_view(out@) =~= byte_positioned(s, positioned_view(toks@)));
    out
}

/// The keyword token spelled by `word`, or an identifier token.
fn keyword_or_ident(word: Vec<char>) -> (t: Token)
    ensures
        t@ == word_token(word@),
{
    if chars_eq_str(&word, "fn") { Token::Fn }
    else if chars_eq_str(&word, "proc") { Token::Proc }
    else if chars_eq_str(&word, "struct") { Token::Struct }
    else if chars_eq_str(&word, "let") { Token::Let }
    else if chars_eq_str(&word, "mut") { Token::Mut }
    else if chars_eq_str(&word, "const") { Token::Const }
    else if chars_eq_str(&word, "return") { Token::Return }
    else if chars_eq_str(&word, "extern") { Token::Extern }
    else if chars_eq_str(&word, "unsafe") { Token::Unsafe }
    else if chars_eq_str(&word, "use") { Token::Use }
    else if chars_eq_str(&word, "impl") { Token::Impl }
    else if chars_eq_str(&word, "as") { Token::As }
    else if chars_eq_str(&word, "if") { Token::If }
    else if chars_eq_str(&word, "else") { Token::Else }
    else if chars_eq_str(&word, "void") { Token::Void }
    else if chars_eq_str(&word, "int") { Token::Int }
    else if chars_eq_str(&word, "uint") { Token::Uint }
    else if chars_eq_str(&word, "long") { Token::Long }
    else if chars_eq_str(&word, "char") { Token::Char }
    else { Token::Ident(string_of(&word)) }
}

/// The character that the escape `\\e` in a char literal stands for.
fn unescape(e: char) -> (r: char)
    ensures
        r == char_escape(e),
{
    if e == 'n' { '\n' }
    else if e == 'r' { '\r' }
    else if e == 't' { '\t' }
    else if e == '0' { '\0' }
    else { e }
}

/// The token of a one-character symbol.
fn symbol(c: char) -> (t: Option<Token>)
    ensures
        match t {
            Some(t) => symbol_token(c) == Some(t@),
            None => symbol_token(c) is None,
        },
{
    if c == '*' { Some(Token::Star) }
    else if c == '&' { Some(Token::Ampersand) }
    else if c == ';' { Some(Token::Semicolon) }
    else if c == ',' { Some(Token::Comma) }
    else if c == '+' { Some(Token::Plus) }
    else if c == '#' { Some(Token::Pound) }
    else if c == '(' { Some(Token::OpenParen) }
    else if c == ')' { Some(Token::CloseParen) }
    else if c == '{' { Some(Token::OpenBrace) }
    else if c == '}' { Some(Token::CloseBrace) }
    else if c == '[' { Some(Token::OpenBracket) }
    else if c == ']' { Some(Token::CloseBracket) }
    else if c == '.' { Some(Token::Dot) }
    else if c == '!' { Some(Token::Bang) }
    else if c == '<' { Some(Token::Lt) }
    else if c == '>' { Some(Token::Gt) }
    else if c == '|' { Some(Token::Pipe) }
    else if c == '%' { Some(Token::Percent) }
    else if c == '^' { Some(Token::Caret) }
    else if c == '?' { Some(Token::Question) }
    else if c == '~' { Some(Token::Tilde) }
    else if c == '@' { Some(Token::At) }
    else if c == '$' { Some(Token::Dollar) }
    else { None }
}

/// `tokenize` and `tokenize_with_positions` give the same tokens: the
/// offsets, counted in bytes, are all that tells them apart.
pub proof fn law_tokenize_drops_only_offsets(s: Seq<char>)
    ensures
        lex(s) matches Ok(ts) ==> byte_positioned(s, ts).map_values(|p: (TokenV, int)| p.0)
            == ts.map_values(|p: (TokenV, int)| p.0),
{
    if let Ok(ts) = lex(s) {
        assert(byte_positioned(s, ts).map_values(|p: (TokenV, int)| p.0) =~= ts.map_values(|p: (TokenV, int)| p.0));
    }
}

/// The byte offsets that `tokenize_with_positions` gives increase strictly,
/// lie inside the UTF-8 text and fall on character boundaries.
pub proof fn law_token_offsets_on_char_boundaries(s: Seq<char>)
    ensures
        lex(s) matches Ok(ts) ==> {
            let bs = byte_positioned(s, ts);
            &&& forall|k: int| 0 <= k < bs.len() ==> #[trigger] bs[k].1 < encode_utf8(s).len()
                && is_char_boundary(encode_utf8(s), bs[k].1)
            &&& forall|a: int, b: int| 0 <= a < b < bs.len() ==> bs[a].1 < bs[b].1
        },
{
    lemma_lex_from_offsets(s, 0);
    if let Ok(ts) = lex(s) {
        let bs = byte_positioned(s, ts);
        lemma_byte_offset_within(s, s.len() as int);
        lemma_byte_offset_encoding(s, s.len() as int);
        assert(s.subrange(0, s.len() as int) =~= s);
        assert forall|k: int| 0 <= k < bs.len() implies #[trigger] bs[k].1 < encode_utf8(s).len()
            && is_char_boundary(encode_utf8(s), bs[k].1) by {
            assert(0 <= ts[k].1 < s.len());
            lemma_byte_offset_increasing(s, ts[k].1, s.len() as int);
            lemma_byte_offset_char_boundary(s, ts[k].1);
        }
        assert forall|a: int, b: int| 0 <= a < b < bs.len() implies bs[a].1 < bs[b].1 by {
            assert(ts[a].1 < ts[b].1);
            assert(0 <= ts[a].1);
            lemma_byte_offset_increasing(s, ts[a].1, ts[b].1);
        }
    }
}

/// The text with which a token starts in the source: its word for keywords,
/// identifiers and numbers, its symbol for operators and punctuation, and
/// the opening quote for string and char literals.
pub open spec fn token_spelling(t: TokenV) -> Seq<char> {
    match t {
        TokenV::Fn => "fn"@,
        TokenV::Proc => "proc"@,
        TokenV::Struct => "struct"@,
        TokenV::Let => "let"@,
        TokenV::Mut => "mut"@,
        TokenV::Const => "const"@,
        TokenV::Return => "return"@,
        TokenV::Extern => "extern"@,
        TokenV::Unsafe => "unsafe"@,
        TokenV::Use => "use"@,
        TokenV::Impl => "impl"@,
        TokenV::As => "as"@,
        TokenV::If => "if"@,
        TokenV::Else => "else"@,
        TokenV::Void => "void"@,
        TokenV::Int => "int"@,
        TokenV::Uint => "uint"@,
        TokenV::Long => "long"@,
        TokenV::Char => "char"@,
        TokenV::Ident(w) => w,
        TokenV::IntLit(w) => w,
        TokenV::StrLit(_) => seq!['"'],
        TokenV::CharLit(_) => seq!['\''],
        TokenV::Star => seq!['*'],
        TokenV::Ampersand => seq!['&'],
        TokenV::Arrow => seq!['-', '>'],
        TokenV::Colon => seq![':'],
        TokenV::DoubleColon => seq![':', ':'],
        TokenV::Semicolon => seq![';'],
        TokenV::Comma => seq![','],
        TokenV::Eq => seq!['='],
        TokenV::EqEq => seq!['=', '='],
        TokenV::Plus => seq!['+'],
        TokenV::Minus => seq!['-'],
        TokenV::Slash => seq!['/'],
        TokenV::Pound => seq!['#'],
        TokenV::OpenParen => seq!['('],
        TokenV::CloseParen => seq![')'],
        TokenV::OpenBrace => seq!['{'],
        TokenV::CloseBrace => seq!['}'],
        TokenV::OpenBracket => seq!['['],
        TokenV::CloseBracket => seq![']'],
        TokenV::Dot => seq!['.'],
        TokenV::Bang => seq!['!'],
        TokenV::Lt => seq!['<'],
        TokenV::Gt => seq!['>'],
        TokenV::Pipe => seq!['|'],
        TokenV::Percent => seq!['%'],
        TokenV::Caret => seq!['^'],
        TokenV::Question => seq!['?'],
        TokenV::Tilde => seq!['~'],
        TokenV::At => seq!['@'],
        TokenV::Dollar => seq!['$'],
    }
}

proof fn lemma_step_spelling(s: Seq<char>, i: int)
    requires
        0 <= i < s.len(),
        lex_step(s, i) matches LexStep::Emit(t, j) && i < j <= s.len(),
    ensures
        lex_step(s, i) matches LexStep::Emit(t, j) && occurs_at(s, token_spelling(t), i),
{
    let c = s[i];
    if let LexStep::Emit(t, j) = lex_step(s, i) {
        if unicode_whitespace(c) {
        } else if c == '/' {
            assert(s.subrange(i, i + 1) =~= seq!['/']);
        } else if letter(c) || c == '_' {
            let w = s.subrange(i, j);
            assert(token_spelling(word_token(w)) == w);
        } else if ascii_digit(c) {
        } else if c == '"' {
            assert(s.subrange(i, i + 1) =~= seq!['"']);
        } else if c == '\'' {
            assert(s.subrange(i, i + 1) =~= seq!['\'']);
        } else if c == ':' || c == '-' || c == '=' {
            if j == i + 2 {
                assert(s.subrange(i, i + 2) =~= seq![c, s[i + 1]]);
            } else {
                assert(s.subrange(i, i + 1) =~= seq![c]);
            }
        } else {
            assert(symbol_token(c) == Some(t));
            assert(token_spelling(t) == seq![c]);
            assert(s.subrange(i, i + 1) =~= seq![c]);
        }
    }
}

proof fn lemma_lex_from_spelling(s: Seq<char>, i: int)
    requires
        0 <= i,
    ensures
        lex_from(s, i) matches Ok(ts) ==> forall|k: int| 0 <= k < ts.len() ==> occurs_at(s, token_spelling(#[trigger] ts[k].0), ts[k].1),
    decreases s.len() - i,
{
    if i < s.len() {
        match lex_step(s, i) {
            LexStep::Skip(j) => {
                if i < j <= s.len() {
                    lemma_lex_from_spelling(s, j);
                }
            },
            LexStep::Emit(t, j) => {
                if i < j <= s.len() {
                    lemma_step_spelling(s, i);
                    lemma_lex_from_spelling(s, j);
                    if let Ok(rest) = lex_from(s, j) {
                        let ts = seq![(t, i)] + rest;
                        assert forall|k: int| 0 <= k < ts.len() implies occurs_at(s, token_spelling(#[trigger] ts[k].0), ts[k].1) by {
                            if k > 0 {
                                assert(ts[k] == rest[k - 1]);
                            }
                        }
                    }
                }
            },
            LexStep::Fail(_) => {},
        }
    }
}

/// Each token's spelling starts at its offset in the source (counted in
/// characters by `lex`, and in bytes by `byte_positioned`).
pub proof fn law_tokens_spelled_at_offsets(s: Seq<char>)
    ensures
        lex(s) matches Ok(ts) ==> forall|k: int| 0 <= k < ts.len() ==> occurs_at(s, token_spelling(#[trigger] ts[k].0), ts[k].1),
{
    lemma_lex_from_spelling(s, 0);
}

// ---------------------------------------------------------------------------
// Lemmas about the lexical grammar
// ---------------------------------------------------------------------------

/// The tokens lexed from offset `i` on start at increasing offsets, all at
/// or after `i` and inside the source.
pub proof fn lemma_lex_from_offsets(s: Seq<char>, i: int)
    requires
        0 <= i,
    ensures
        lex_from(s, i) matches Ok(ts) ==> {
            &&& forall|k: int| 0 <= k < ts.len() ==> i <= #[trigger] ts[k].1 < s.len()
            &&& forall|a: int, b: int| 0 <= a < b < ts.len() ==> ts[a].1 < ts[b].1
        },
    decreases s.len() - i,
{
    if i < s.len() {
        match lex_step(s, i) {
            LexStep::Skip(j) => {
                if i < j <= s.len() {
                    lemma_lex_from_offsets(s, j);
                }
            },
            LexStep::Emit(t, j) => {
                if i < j <= s.len() {
                    lemma_lex_from_offsets(s, j);
                    match lex_from(s, j) {
                        Ok(rest) => {
                            let ts = seq![(t, i)] + rest;
                            assert forall|k: int| 0 <= k < ts.len() implies i <= #[trigger] ts[k].1 < s.len() by {
                                if k > 0 {
                                    assert(ts[k] == rest[k - 1]);
                                }
                            }
                            assert forall|a: int, b: int| 0 <= a < b < ts.len() implies ts[a].1 < ts[b].1 by {
                                assert(ts[b] == rest[b - 1]);
                                if a > 0 {
                                    assert(ts[a] == rest[a - 1]);
                                }
                            }
                        },
                        Err(e) => {},
                    }
                }
            },
            LexStep::Fail(e) => {},
        }
    }
}

proof fn lemma_line_comment_end_bounds(s: Seq<char>, j: int)
    requires
        0 <= j,
    ensures
        j <= line_comment_end(s, j) || line_comment_end(s, j) == s.len(),
        line_comment_end(s, j) <= s.len() || j > s.len(),
        line_comment_end(s, j) >= j || j > s.len(),
    decreases s.len() - j,
{
    if j < s.len() && s[j] != '\n' {
        lemma_line_comment_end_bounds(s, j + 1);
    }
}

proof fn lemma_block_comment_end_bounds(s: Seq<char>, j: int)
    requires
        0 <= j,
    ensures
        block_comment_end(s, j) matches Some(k) ==> j + 2 <= k <= s.len(),
    decreases s.len() - j,
{
    if j < s.len() && !(s[j] == '*' && j + 1 < s.len() && s[j + 1] == '/') {
        lemma_block_comment_end_bounds(s, j + 1);
    }
}

proof fn lemma_digits_end_progress(s: Seq<char>, i: int)
    requires
        0 <= i < s.len(),
        ascii_digit(s[i]),
    ensures
        digits_end(s, i) > i,
    decreases s.len() - i,
{
    lemma_digits_end_ge(s, i + 1);
}

proof fn lemma_digits_end_ge(s: Seq<char>, i: int)
    ensures
        digits_end(s, i) >= i,
    decreases s.len() - i,
{
    if 0 <= i < s.len() && ascii_digit(s[i]) {
        lemma_digits_end_ge(s, i + 1);
    }
}

proof fn lemma_string_scan_bounds(s: Seq<char>, j: int, escaped: bool)
    ensures
        string_scan(s, j, escaped) matches Some((c, e)) ==> j < e <= s.len(),
    decreases s.len() - j,
{
    if 0 <= j < s.len() {
        lemma_string_scan_bounds(s, j + 1, false);
        lemma_string_scan_bounds(s, j + 1, true);
    }
}

/// Pushing the token of an `Emit` step keeps the loop invariant of the lexer.
proof fn lemma_push_positioned(before: Seq<(Token, usize)>, after: Seq<(Token, usize)>, s: Seq<char>, i: int, j: int)
    requires
        after.len() == before.len() + 1,
        forall|k: int| 0 <= k < before.len() ==> after[k] == before[k],
        0 <= i < s.len(),
        lex_step(s, i) == LexStep::Emit(after.last().0@, j),
        after.last().1 == i,
        i < j <= s.len(),
    ensures
        prepend_tokens(positioned_view(before), lex_from(s, i)) == prepend_tokens(positioned_view(after), lex_from(s, j)),
{
    assert(positioned_view(after) =~= positioned_view(before) + seq![(after.last().0@, i)]);
    match lex_from(s, j) {
        Ok(rest) => {
            assert(positioned_view(before) + (seq![(after.last().0@, i)] + rest) =~= positioned_view(after) + rest);
        },
        Err(e) => {},
    }
}

/// Whether the characters `v` spell the string `s`.
fn chars_eq_str(v: &Vec<char>, s: &str) -> (r: bool)
    ensures
        r == (v@ == s@),
{
    let w = chars_of(s);
    if v.len() != w.len() {
        return false;
    }
    let mut i: usize = 0;
    while i < v.len()
        invariant
            v@.len() == w@.len(),
            w@ == s@,
            i <= v@.len(),
            forall|k: int| 0 <= k < i ==> v@[k] == w@[k],
        decreases v.len() - i,
    {
        if v[i] != w[i] {
            return false;
        }
        i += 1;
    }
    assert(v@ =~= w@);
    true
}

// ---------------------------------------------------------------------------
// Lexing two texts one after the other
// ---------------------------------------------------------------------------

/// Tokens with their offsets moved `d` characters on.
pub open spec fn shifted_tokens(ts: Seq<(TokenV, int)>, d: int) -> Seq<(TokenV, int)> {
    ts.map_values(|p: (TokenV, int)| (p.0, p.1 + d))
}

/// A lexing outcome with its offsets moved `d` characters on.
pub open spec fn shifted_lex(r: Result<Seq<(TokenV, int)>, LexError>, d: int) -> Result<Seq<(TokenV, int)>, LexError> {
    match r {
        Ok(ts) => Ok(shifted_tokens(ts, d)),
        Err(e) => Err(e),
    }
}

/// A lexing step with its offsets moved `d` characters on.
pub open spec fn shifted_step(st: LexStep, d: int) -> LexStep {
    match st {
        LexStep::Skip(j) => LexStep::Skip(j + d),
        LexStep::Emit(t, j) => LexStep::Emit(t, j + d),
        LexStep::Fail(e) => LexStep::Fail(e),
    }
}

proof fn lemma_shift_line_comment_end(a: Seq<char>, b: Seq<char>, j: int)
    requires
        0 <= j,
    ensures
        line_comment_end(a + b, a.len() + j) == a.len() + line_comment_end(b, j),
    decreases b.len() - j,
{
    let s = a + b;
    if j < b.len() {
        assert(s[a.len() + j] == b[j]);
        if b[j] != '\n' {
            lemma_shift_line_comment_end(a, b, j + 1);
        }
    }
}

proof fn lemma_shift_block_comment_end(a: Seq<char>, b: Seq<char>, j: int)
    requires
        0 <= j,
    ensures
        block_comment_end(a + b, a.len() + j) == match block_comment_end(b, j) {
            Some(k) => Some(k + a.len()),
            None => None::<int>,
        },
    decreases b.len() - j,
{
    let s = a + b;
    if j < b.len() {
        assert(s[a.len() + j] == b[j]);
        if j + 1 < b.len() {
            assert(s[a.len() + j + 1] == b[j + 1]);
        }
        lemma_shift_block_comment_end(a, b, j + 1);
    }
}

proof fn lemma_shift_ident_end(a: Seq<char>, b: Seq<char>, j: int)
    requires
        0 <= j,
    ensures
        ident_end(a + b, a.len() + j) == a.len() + ident_end(b, j),
    decreases b.len() - j,
{
    let s = a + b;
    if j < b.len() {
        assert(s[a.len() + j] == b[j]);
        lemma_shift_ident_end(a, b, j + 1);
    }
}

proof fn lemma_shift_digits_end(a: Seq<char>, b: Seq<char>, j: int)
    requires
        0 <= j,
    ensures
        digits_end(a + b, a.len() + j) == a.len() + digits_end(b, j),
    decreases b.len() - j,
{
    let s = a + b;
    if j < b.len() {
        assert(s[a.len() + j] == b[j]);
        lemma_shift_digits_end(a, b, j + 1);
    }
}

proof fn lemma_shift_string_scan(a: Seq<char>, b: Seq<char>, j: int, escaped: bool)
    requires
        0 <= j,
    ensures
        string_scan(a + b, a.len() + j, escaped) == match string_scan(b, j, escaped) {
            Some((c, k)) => Some((c, k + a.len())),
            None => None::<(Seq<char>, int)>,
        },
    decreases b.len() - j,
{
    let s = a + b;
    if j < b.len() {
        assert(s[a.len() + j] == b[j]);
        lemma_shift_string_scan(a, b, j + 1, false);
        lemma_shift_string_scan(a, b, j + 1, true);
    }
}

proof fn lemma_shift_step(a: Seq<char>, b: Seq<char>, j: int)
    requires
        0 <= j < b.len(),
    ensures
        lex_step(a + b, a.len() + j) == shifted_step(lex_step(b, j), a.len() as int),
{
    let s = a + b;
    let n = a.len() as int;
    let i = n + j;
    assert(s[i] == b[j]);
    if j + 1 < b.len() {
        assert(s[i + 1] == b[j + 1]);
    }
    if j + 2 < b.len() {
        assert(s[i + 2] == b[j + 2]);
    }
    let c = b[j];
    if unicode_whitespace(c) {
    } else if c == '/' {
        lemma_shift_line_comment_end(a, b, j + 2);
        lemma_shift_block_comment_end(a, b, j + 2);
    } else if letter(c) || c == '_' {
        lemma_shift_ident_end(a, b, j);
        let e = ident_end(b, j);
        lemma_ident_end_bounds(b, j);
        assert(s.subrange(i, n + e) =~= b.subrange(j, e));
    } else if ascii_digit(c) {
        lemma_shift_digits_end(a, b, j);
        let e = digits_end(b, j);
        lemma_digits_end_ge(b, j);
        lemma_digits_end_le(b, j);
        assert(s.subrange(i, n + e) =~= b.subrange(j, e));
    } else if c == '"' {
        lemma_shift_string_scan(a, b, j + 1, false);
    } else if c == '\'' {
    } else {
    }
}

proof fn lemma_shift_lex_from(a: Seq<char>, b: Seq<char>, j: int)
    requires
        0 <= j,
    ensures
        lex_from(a + b, a.len() + j) == shifted_lex(lex_from(b, j), a.len() as int),
    decreases b.len() - j,
{
    let n = a.len() as int;
    let s = a + b;
    if j < b.len() {
        lemma_shift_step(a, b, j);
        match lex_step(b, j) {
            LexStep::Skip(k) => {
                assert(lex_step(s, n + j) == LexStep::Skip(k + n));
                if j < k <= b.len() {
                    lemma_shift_lex_from(a, b, k);
                    assert(lex_from(s, n + j) == lex_from(s, n + k));
                } else {
                    assert(lex_from(s, n + j) == Ok::<Seq<(TokenV, int)>, LexError>(seq![]));
                    assert(shifted_tokens(Seq::<(TokenV, int)>::empty(), n) =~= Seq::<(TokenV, int)>::empty());
                }
            },
            LexStep::Emit(t, k) => {
                assert(lex_step(s, n + j) == LexStep::Emit(t, k + n));
                if j < k <= b.len() {
                    lemma_shift_lex_from(a, b, k);
                    if let Ok(rest) = lex_from(b, k) {
                        assert(shifted_tokens(seq![(t, j)] + rest, n) =~= seq![(t, n + j)] + shifted_tokens(rest, n));
                    }
                } else {
                    assert(lex_from(s, n + j) == Ok::<Seq<(TokenV, int)>, LexError>(seq![]));
                    assert(shifted_tokens(Seq::<(TokenV, int)>::empty(), n) =~= Seq::<(TokenV, int)>::empty());
                }
            },
            LexStep::Fail(_) => {},
        }
    } else {
        assert(shifted_tokens(Seq::<(TokenV, int)>::empty(), n) =~= Seq::<(TokenV, int)>::empty());
    }
}

proof fn lemma_ident_end_bounds(s: Seq<char>, j: int)
    requires
        0 <= j,
    ensures
        j <= ident_end(s, j),
        j <= s.len() ==> ident_end(s, j) <= s.len(),
    decreases s.len() - j,
{
    if 0 <= j < s.len() && ident_char(s[j]) {
        lemma_ident_end_bounds(s, j + 1);
    }
}

proof fn lemma_digits_end_le(s: Seq<char>, j: int)
    requires
        0 <= j <= s.len(),
    ensures
        digits_end(s, j) <= s.len(),
    decreases s.len() - j,
{
    if 0 <= j < s.len() && ascii_digit(s[j]) {
        lemma_digits_end_le(s, j + 1);
    }
}

proof fn lemma_prefix_line_comment_end(a: Seq<char>, b: Seq<char>, j: int)
    requires
        a.len() > 0,
        a.last() == '\n',
        0 <= j < a.len(),
    ensures
        line_comment_end(a + b, j) == line_comment_end(a, j),
    decreases a.len() - j,
{
    let s = a + b;
    assert(s[j] == a[j]);
    if a[j] != '\n' {
        lemma_prefix_line_comment_end(a, b, j + 1);
    }
}

proof fn lemma_prefix_block_comment_end(a: Seq<char>, b: Seq<char>, j: int)
    requires
        a.len() > 0,
        a.last() == '\n',
        0 <= j,
        block_comment_end(a, j) is Some,
    ensures
        block_comment_end(a + b, j) == block_comment_end(a, j),
    decreases a.len() - j,
{
    let s = a + b;
    assert(s[j] == a[j]);
    if j + 1 < a.len() {
        assert(s[j + 1] == a[j + 1]);
    }
    if !(a[j] == '*' && j + 1 < a.len() && a[j + 1] == '/') {
        lemma_prefix_block_comment_end(a, b, j + 1);
    }
}

proof fn lemma_prefix_ident_end(a: Seq<char>, b: Seq<char>, j: int)
    requires
        a.len() > 0,
        a.last() == '\n',
        0 <= j < a.len(),
    ensures
        ident_end(a + b, j) == ident_end(a, j),
    decreases a.len() - j,
{
    let s = a + b;
    assert(s[j] == a[j]);
    if ident_char(a[j]) {
        assert(j + 1 < a.len());
        lemma_prefix_ident_end(a, b, j + 1);
    }
}

proof fn lemma_prefix_digits_end(a: Seq<char>, b: Seq<char>, j: int)
    requires
        a.len() > 0,
        a.last() == '\n',
        0 <= j < a.len(),
    ensures
        digits_end(a + b, j) == digits_end(a, j),
    decreases a.len() - j,
{
    let s = a + b;
    assert(s[j] == a[j]);
    if ascii_digit(a[j]) {
        assert(j + 1 < a.len());
        lemma_prefix_digits_end(a, b, j + 1);
    }
}

proof fn lemma_prefix_string_scan(a: Seq<char>, b: Seq<char>, j: int, escaped: bool)
    requires
        0 <= j,
        string_scan(a, j, escaped) is Some,
    ensures
        string_scan(a + b, j, escaped) == string_scan(a, j, escaped),
    decreases a.len() - j,
{
    let s = a + b;
    assert(s[j] == a[j]);
    lemma_string_scan_some(a, j + 1, false);
    lemma_string_scan_some(a, j + 1, true);
    if string_scan(a, j + 1, false) is Some {
        lemma_prefix_string_scan(a, b, j + 1, false);
    }
    if string_scan(a, j + 1, true) is Some {
        lemma_prefix_string_scan(a, b, j + 1, true);
    }
}

proof fn lemma_string_scan_some(s: Seq<char>, j: int, escaped: bool)
    ensures
        string_scan(s, j, escaped) is Some ==> 0 <= j < s.len(),
{
}

proof fn lemma_prefix_step(a: Seq<char>, b: Seq<char>, i: int)
    requires
        a.len() > 0,
        a.last() == '\n',
        0 <= i < a.len(),
        !(lex_step(a, i) is Fail),
    ensures
        lex_step(a + b, i) == lex_step(a, i),
{
    let s = a + b;
    let n = a.len() as int;
    let c = a[i];
    assert(s[i] == c);
    if unicode_whitespace(c) {
    } else {
        assert(i + 1 < n) by {
            assert(a[n - 1] == '\n');
        }
        assert(s[i + 1] == a[i + 1]);
        if i + 2 < n {
            assert(s[i + 2] == a[i + 2]);
        }
        if i + 3 < n {
            assert(s[i + 3] == a[i + 3]);
        }
        if c == '/' {
            if a[i + 1] == '/' {
                lemma_prefix_line_comment_end(a, b, i + 2);
            } else if a[i + 1] == '*' {
                lemma_prefix_block_comment_end(a, b, i + 2);
            }
        } else if letter(c) || c == '_' {
            lemma_prefix_ident_end(a, b, i);
            let e = ident_end(a, i);
            lemma_ident_end_bounds(a, i);
            assert(s.subrange(i, e) =~= a.subrange(i, e));
        } else if ascii_digit(c) {
            lemma_prefix_digits_end(a, b, i);
            let e = digits_end(a, i);
            lemma_digits_end_ge(a, i);
            lemma_digits_end_le(a, i);
            assert(s.subrange(i, e) =~= a.subrange(i, e));
        } else if c == '"' {
            lemma_prefix_string_scan(a, b, i + 1, false);
        } else if c == '\'' {
        } else {
        }
    }
}

proof fn lemma_prefix_lex_from(a: Seq<char>, b: Seq<char>, i: int)
    requires
        a.len() > 0,
        a.last() == '\n',
        0 <= i <= a.len(),
        lex_from(a, i) is Ok,
    ensures
        lex_from(a + b, i) == match lex_from(a + b, a.len() as int) {
            Ok(rest) => Ok::<Seq<(TokenV, int)>, LexError>(lex_from(a, i)->Ok_0 + rest),
            Err(e) => Err(e),
        },
    decreases a.len() - i,
{
    let s = a + b;
    let n = a.len() as int;
    if i == n {
        if let Ok(rest) = lex_from(s, n) {
            assert(Seq::<(TokenV, int)>::empty() + rest =~= rest);
        }
    } else {
        lemma_prefix_step(a, b, i);
        match lex_step(a, i) {
            LexStep::Skip(k) => {
                if i < k <= n {
                    lemma_prefix_lex_from(a, b, k);
                } else {
                    lemma_step_within(a, i);
                }
            },
            LexStep::Emit(t, k) => {
                if i < k <= n {
                    lemma_prefix_lex_from(a, b, k);
                    if let Ok(rest) = lex_from(s, n) {
                        let ta = lex_from(a, k)->Ok_0;
                        assert(seq![(t, i)] + ta + rest =~= seq![(t, i)] + (ta + rest));
                    }
                } else {
                    lemma_step_within(a, i);
                }
            },
            LexStep::Fail(_) => {},
        }
    }
}

/// Lexing `a` followed by `b`, where `a` ends with a newline, gives the
/// tokens of `a` and then those of `b`, with their offsets moved on by the
/// length of `a` (when both lex without error).
pub proof fn law_lex_concatenation(a: Seq<char>, b: Seq<char>)
    requires
        a.len() > 0,
        a.last() == '\n',
        lex(a) is Ok,
        lex(b) is Ok,
    ensures
        lex(a + b) == Ok::<Seq<(TokenV, int)>, LexError>(lex(a)->Ok_0 + shifted_tokens(lex(b)->Ok_0, a.len() as int)),
{
    lemma_shift_lex_from(a, b, 0);
    lemma_prefix_lex_from(a, b, 0);
}

/// A step that does not fail moves on, and stays within the text.
proof fn lemma_step_within(s: Seq<char>, i: int)
    requires
        0 <= i < s.len(),
    ensures
        lex_step(s, i) matches LexStep::Skip(k) ==> i < k <= s.len(),
        lex_step(s, i) matches LexStep::Emit(_, k) ==> i < k <= s.len(),
{
    let c = s[i];
    if unicode_whitespace(c) {
    } else if c == '/' {
        lemma_line_comment_end_bounds(s, i + 2);
        lemma_block_comment_end_bounds(s, i + 2);
    } else if letter(c) || c == '_' {
        lemma_ident_end_bounds(s, i + 1);
        lemma_ident_end_bounds(s, i);
    } else if ascii_digit(c) {
        lemma_digits_end_progress(s, i);
        lemma_digits_end_le(s, i);
    } else if c == '"' {
        lemma_string_scan_bounds(s, i + 1, false);
    } else {
    }
}

proof fn lemma_byte_offset_prefix(a: Seq<char>, b: Seq<char>, i: int)
    requires
        0 <= i <= a.len(),
    ensures
        byte_offset(a + b, i) == byte_offset(a, i),
    decreases i,
{
    if i > 0 {
        lemma_byte_offset_prefix(a, b, i - 1);
        assert((a + b)[i - 1] == a[i - 1]);
    }
}

proof fn lemma_byte_offset_shift(a: Seq<char>, b: Seq<char>, j: int)
    requires
        0 <= j <= b.len(),
    ensures
        byte_offset(a + b, a.len() + j) == byte_offset(a, a.len() as int) + byte_offset(b, j),
    decreases j,
{
    if j == 0 {
        lemma_byte_offset_prefix(a, b, a.len() as int);
    } else {
        lemma_byte_offset_shift(a, b, j - 1);
        assert((a + b)[a.len() + j - 1] == b[j - 1]);
    }
}

/// `tokenize_with_positions` on `a` followed by `b`, where `a` ends with a
/// newline, gives the tokens of `a` and then those of `b`, with their byte
/// offsets moved on by the length of `a` in bytes.
pub proof fn law_tokenize_concatenation(a: Seq<char>, b: Seq<char>)
    requires
        a.len() > 0,
        a.last() == '\n',
        lex(a) is Ok,
        lex(b) is Ok,
    ensures
        lex(a + b) is Ok,
        byte_positioned(a + b, lex(a + b)->Ok_0) == byte_positioned(a, lex(a)->Ok_0)
            + shifted_tokens(byte_positioned(b, lex(b)->Ok_0), encode_utf8(a).len() as int),
{
    law_lex_concatenation(a, b);
    lemma_lex_from_offsets(a, 0);
    lemma_lex_from_offsets(b, 0);
    let ta = lex(a)->Ok_0;
    let tb = lex(b)->Ok_0;
    let n = a.len() as int;
    let all = ta + shifted_tokens(tb, n);
    lemma_byte_offset_encoding(a, n);
    assert(a.subrange(0, n) =~= a);
    let lhs = byte_positioned(a + b, all);
    let rhs = byte_positioned(a, ta) + shifted_tokens(byte_positioned(b, tb), encode_utf8(a).len() as int);
    assert forall|k: int| 0 <= k < lhs.len() implies #[trigger] lhs[k] == rhs[k] by {
        if k < ta.len() {
            lemma_byte_offset_prefix(a, b, ta[k].1);
        } else {
            let m = k - ta.len();
            assert(0 <= tb[m].1 < b.len());
            lemma_byte_offset_shift(a, b, tb[m].1);
        }
    }
    assert(lhs =~= rhs);
}

/// A char literal holding an escape lexes to one `CharLit` token: `\n`,
/// `\r`, `\t` and `\0` stand for a newline, a carriage return, a tab and
/// the NUL character, and any other escaped character stands for itself.
pub proof fn law_char_escapes(e: char)
    ensures
        lex(seq!['\'', '\\', e, '\'']) == Ok::<Seq<(TokenV, int)>, LexError>(seq![(
            TokenV::CharLit(
                if e == 'n' { '\n' } else if e == 'r' { '\r' } else if e == 't' { '\t' } else if e == '0' {
                    '\0'
                } else { e },
            ),
            0int,
        )]),
{
    let s: Seq<char> = seq!['\'', '\\', e, '\''];
    assert(lex_step(s, 0) == char_literal_step(s, 0));
    assert(lex_from(s, 4) == Ok::<Seq<(TokenV, int)>, LexError>(seq![]));
    assert(seq![(TokenV::CharLit(char_escape(e)), 0int)] + seq![] =~= seq![(TokenV::CharLit(char_escape(e)), 0int)]);
}

/// A char literal holding one plain character (neither a backslash nor a
/// quote) lexes to one `CharLit` token of that character.
pub proof fn law_plain_char_literal(c: char)
    requires
        c != '\\',
    ensures
        lex(seq!['\'', c, '\'']) == Ok::<Seq<(TokenV, int)>, LexError>(seq![(TokenV::CharLit(c), 0int)]),
{
    let s: Seq<char> = seq!['\'', c, '\''];
    assert(lex_step(s, 0) == char_literal_step(s, 0));
    assert(lex_from(s, 3) == Ok::<Seq<(TokenV, int)>, LexError>(seq![]));
    assert(seq![(TokenV::CharLit(c), 0int)] + seq![] =~= seq![(TokenV::CharLit(c), 0int)]);
}

proof fn lemma_string_scan_plain(s: Seq<char>, j: int, e: int)
    requires
        0 <= j <= e < s.len(),
        s[e] == '"',
        forall|k: int| j <= k < e ==> #[trigger] s[k] != '"' && s[k] != '\\',
    ensures
        string_scan(s, j, false) == Some((s.subrange(j, e), e + 1)),
    decreases e - j,
{
    if j < e {
        lemma_string_scan_plain(s, j + 1, e);
        assert(seq![s[j]] + s.subrange(j + 1, e) =~= s.subrange(j, e));
    } else {
        assert(s.subrange(j, e) =~= Seq::<char>::empty());
    }
}

/// A string literal with neither a quote nor a backslash inside lexes to
/// one `StrLit` token holding exactly the characters between the quotes.
pub proof fn law_plain_string_literal(content: Seq<char>)
    requires
        forall|k: int| 0 <= k < content.len() ==> #[trigger] content[k] != '"' && content[k] != '\\',
    ensures
        lex(seq!['"'] + content + seq!['"']) == Ok::<Seq<(TokenV, int)>, LexError>(seq![(TokenV::StrLit(content), 0int)]),
{
    let s = seq!['"'] + content + seq!['"'];
    let e = content.len() + 1int;
    assert forall|k: int| 1 <= k < e implies #[trigger] s[k] != '"' && s[k] != '\\' by {
        assert(s[k] == content[k - 1]);
    }
    lemma_string_scan_plain(s, 1, e);
    assert(s.subrange(1, e) =~= content);
    assert(lex_step(s, 0) == LexStep::Emit(TokenV::StrLit(content), (e + 1) as int));
    assert(lex_from(s, (e + 1) as int) == Ok::<Seq<(TokenV, int)>, LexError>(seq![]));
    assert(seq![(TokenV::StrLit(content), 0int)] + seq![] =~= seq![(TokenV::StrLit(content), 0int)]);
}

/// A backslash in a string literal takes the next character as it is:
/// `"\c"` lexes to a `StrLit` holding just `c`, whatever `c` is.
pub proof fn law_string_escape_kept(c: char)
    ensures
        lex(seq!['"', '\\', c, '"']) == Ok::<Seq<(TokenV, int)>, LexError>(seq![(TokenV::StrLit(seq![c]), 0int)]),
{
    let s: Seq<char> = seq!['"', '\\', c, '"'];
    assert(string_scan(s, 3, false) == Some((Seq::<char>::empty(), 4int)));
    assert(string_scan(s, 2, true) == Some((seq![c] + Seq::<char>::empty(), 4int)));
    assert(seq![c] + Seq::<char>::empty() =~= seq![c]);
    assert(string_scan(s, 1, false) == Some((seq![c], 4int)));
    assert(lex_step(s, 0) == LexStep::Emit(TokenV::StrLit(seq![c]), 4));
    assert(lex_from(s, 4) == Ok::<Seq<(TokenV, int)>, LexError>(seq![]));
    assert(seq![(TokenV::StrLit(seq![c]), 0int)] + seq![] =~= seq![(TokenV::StrLit(seq![c]), 0int)]);
}

} // verus!
