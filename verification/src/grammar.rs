//! The structural grammar of Carbide, as functions on token sequences.
//!
//! Each function takes a token stream (tokens with their source offsets,
//! and the source text) and a token index, and gives the value that is
//! recognised there together with the index just past it, or the message of
//! the error found.  The parser in `parser.rs` is proved to compute exactly
//! these functions.
use vstd::prelude::*;
use crate::ast::{AttributeV, FieldV, FunctionV, ItemV, ParamV, ProgramV, StructV, TypeV};
use crate::lexer::{
    digits_end, ident_char, ident_end, lex, lex_from, lex_step, string_scan, token_debug, word_token, LexError,
    LexStep, TokenV,
};
use crate::text::{ascii_digit, byte_offset, decimal, letter, trim_range, unicode_whitespace};

verus! {

/// Tokens, each with the offset in `src` at which it starts, and the source.
pub struct TokenStream {
    pub toks: Seq<(TokenV, int)>,
    pub src: Seq<char>,
}

/// The offsets of the tokens increase strictly and lie inside the source.
pub open spec fn offsets_fit(st: TokenStream) -> bool {
    &&& forall|i: int, j: int| 0 <= i < j < st.toks.len() ==> st.toks[i].1 < st.toks[j].1
    &&& forall|i: int| 0 <= i < st.toks.len() ==> 0 <= #[trigger] st.toks[i].1 < st.src.len()
}

/// How parsing a program can end without a program: an error message, or
/// an input on which the parse cannot go on (it would never finish, or
/// would slice the source outside its bounds).
pub enum Failure {
    Message(Seq<char>),
    Stuck,
}

pub open spec fn tok_at(st: TokenStream, p: int) -> Option<TokenV> {
    if 0 <= p < st.toks.len() {
        Some(st.toks[p].0)
    } else {
        None
    }
}

/// `{:?}` of an optional token.
pub open spec fn opt_token_debug(o: Option<TokenV>) -> Seq<char> {
    match o {
        Some(t) => "Some("@ + token_debug(t) + ")"@,
        None => "None"@,
    }
}

/// `{:?}` of the optional token at `p` paired with its byte offset.
pub open spec fn opt_positioned_debug(st: TokenStream, p: int) -> Seq<char> {
    if 0 <= p < st.toks.len() {
        "Some(("@ + token_debug(st.toks[p].0) + ", "@ + decimal(byte_offset(st.src, st.toks[p].1) as nat) + "))"@
    } else {
        "None"@
    }
}

/// Consume the token `e` at `p`.
pub open spec fn expect_at(st: TokenStream, p: int, e: TokenV) -> Result<int, Seq<char>> {
    match tok_at(st, p) {
        Some(t) => if t == e {
            Ok(p + 1)
        } else {
            Err("Expected "@ + token_debug(e) + ", found "@ + token_debug(t))
        },
        None => Err("Expected "@ + token_debug(e) + ", found EOF"@),
    }
}

/// The first index at or after `p` that holds `t`, or the number of tokens.
pub open spec fn find_tok(st: TokenStream, p: int, t: TokenV) -> int
    decreases st.toks.len() - p,
{
    if p < 0 || p >= st.toks.len() || st.toks[p].0 == t {
        if p < 0 { 0 } else if p >= st.toks.len() { st.toks.len() as int } else { p }
    } else {
        find_tok(st, p + 1, t)
    }
}

/// The text with which a token is rebuilt in attributes and `use` paths.
pub open spec fn token_text(t: TokenV) -> Seq<char> {
    match t {
        TokenV::Fn => "fn"@,
        TokenV::Proc => "proc"@,
        TokenV::Struct => "struct"@,
        TokenV::Let => "let"@,
        TokenV::Mut => "mut "@,
        TokenV::Const => "const"@,
        TokenV::Return => "return"@,
        TokenV::Extern => "extern"@,
        TokenV::Unsafe => "unsafe"@,
        TokenV::Use => "use"@,
        TokenV::Impl => "impl"@,
        TokenV::As => "as"@,
        TokenV::If => "if"@,
        TokenV::Else => "else"@,
        TokenV::Void => "void"@,
        TokenV::Int => "int"@,
        TokenV::Uint => "uint"@,
        TokenV::Long => "long"@,
        TokenV::Char => "char"@,
        TokenV::Ident(s) => s,
        TokenV::IntLit(s) => s,
        TokenV::StrLit(s) => "\""@ + s + "\""@,
        TokenV::CharLit(c) => "'"@ + seq![c] + "'"@,
        TokenV::Star => "*"@,
        TokenV::Ampersand => "&"@,
        TokenV::Arrow => "->"@,
        TokenV::Colon => ":"@,
        TokenV::DoubleColon => "::"@,
        TokenV::Semicolon => ";"@,
        TokenV::Comma => ", "@,
        TokenV::Eq => "="@,
        TokenV::EqEq => "=="@,
        TokenV::Plus => "+"@,
        TokenV::Minus => "-"@,
        TokenV::Slash => "/"@,
        TokenV::Pound => "#"@,
        TokenV::OpenParen => "("@,
        TokenV::CloseParen => ")"@,
        TokenV::OpenBrace => "{"@,
        TokenV::CloseBrace => "}"@,
        TokenV::OpenBracket => "["@,
        TokenV::CloseBracket => "]"@,
        TokenV::Dot => "."@,
        TokenV::Bang => "!"@,
        TokenV::Lt => "<"@,
        TokenV::Gt => ">"@,
        TokenV::Pipe => "|"@,
        TokenV::Percent => "%"@,
        TokenV::Caret => "^"@,
        TokenV::Question => "?"@,
        TokenV::Tilde => "~"@,
        TokenV::At => "@"@,
        TokenV::Dollar => "$"@,
    }
}

/// The texts of the tokens `p..e`, joined.
pub open spec fn tokens_text(st: TokenStream, p: int, e: int) -> Seq<char>
    decreases e - p,
{
    if p >= e || p < 0 || e > st.toks.len() {
        seq![]
    } else {
        tokens_text(st, p, e - 1) + token_text(st.toks[e - 1].0)
    }
}

/// A whole sequence, trimmed of white space at both ends.
pub open spec fn trim_all(s: Seq<char>) -> Seq<char> {
    trim_range(s, 0, s.len() as int)
}

// ---------------------------------------------------------------------------
// Types
// ---------------------------------------------------------------------------

/// The type named by `s`.
pub open spec fn user_type(s: Seq<char>) -> TypeV {
    TypeV::UserDefined(s)
}

/// The names that stand for Rust primitive types.
pub open spec fn is_rust_primitive_name(n: Seq<char>) -> bool {
    n == "i8"@ || n == "i16"@ || n == "i32"@ || n == "i64"@ || n == "i128"@ || n == "isize"@
        || n == "u8"@ || n == "u16"@ || n == "u32"@ || n == "u64"@ || n == "u128"@ || n == "usize"@
        || n == "f32"@ || n == "f64"@ || n == "bool"@ || n == "str"@
}

/// The type named by the identifier `n`, whose token has just been consumed;
/// multi-word C types (`unsigned long long`, `signed char`, `short int`, ...)
/// take the keywords that follow from `q` on.
pub open spec fn ident_type_at(st: TokenStream, n: Seq<char>, q: int) -> (TypeV, int) {
    if n == "unsigned"@ {
        match tok_at(st, q) {
            Some(TokenV::Char) => (user_type("unsigned char"@), q + 1),
            Some(TokenV::Long) => if tok_at(st, q + 1) == Some(TokenV::Long) {
                (user_type("unsigned long long"@), q + 2)
            } else if tok_at(st, q + 1) == Some(TokenV::Int) {
                (user_type("unsigned long"@), q + 2)
            } else {
                (user_type("unsigned long"@), q + 1)
            },
            Some(TokenV::Int) => (user_type("unsigned int"@), q + 1),
            Some(TokenV::Ident(k)) => if k == "short"@ {
                if tok_at(st, q + 1) == Some(TokenV::Int) {
                    (user_type("unsigned short"@), q + 2)
                } else {
                    (user_type("unsigned short"@), q + 1)
                }
            } else {
                (user_type("unsigned int"@), q)
            },
            _ => (user_type("unsigned int"@), q),
        }
    } else if n == "signed"@ {
        match tok_at(st, q) {
            Some(TokenV::Char) => (user_type("signed char"@), q + 1),
            Some(TokenV::Long) => if tok_at(st, q + 1) == Some(TokenV::Long) {
                (user_type("signed long long"@), q + 2)
            } else if tok_at(st, q + 1) == Some(TokenV::Int) {
                (user_type("signed long"@), q + 2)
            } else {
                (user_type("signed long"@), q + 1)
            },
            Some(TokenV::Ident(k)) => if k == "short"@ {
                if tok_at(st, q + 1) == Some(TokenV::Int) {
                    (user_type("signed short"@), q + 2)
                } else {
                    (user_type("signed short"@), q + 1)
                }
            } else {
                (user_type("signed int"@), q)
            },
            _ => (user_type("signed int"@), q),
        }
    } else if n == "short"@ {
        if tok_at(st, q) == Some(TokenV::Int) {
            (user_type("short"@), q + 1)
        } else {
            (user_type("short"@), q)
        }
    } else if n == "double"@ {
        (user_type("double"@), q)
    } else if n == "float"@ {
        (user_type("float"@), q)
    } else if is_rust_primitive_name(n) {
        (TypeV::Primitive(n), q)
    } else {
        (user_type(n), q)
    }
}

/// The message for prefix reference syntax, which Carbide rejects.
pub open spec fn prefix_reference_message() -> Seq<char> {
    "Prefix reference syntax ('&T' / '&mut T') is not allowed in Carbide; use C++-style postfix reference syntax ('T&' / 'T const&' / 'T mut&') instead"@
}

/// The message for prefix `const`, which Carbide rejects.
pub open spec fn prefix_const_message() -> Seq<char> {
    "Prefix 'const' type syntax ('const T*') is not allowed in Carbide; use C++-style postfix syntax ('T const*') instead"@
}

/// The message for prefix pointer syntax, which Carbide rejects.
pub open spec fn prefix_pointer_message() -> Seq<char> {
    "Prefix pointer syntax ('*mut T' / '*const T') is not allowed in Carbide; use C++-style postfix pointer syntax ('T*' / 'T const*' / 'T mut*') instead"@
}

/// A type: a base type followed by postfix pointer and reference modifiers.
pub open spec fn parse_type_at(st: TokenStream, p: int) -> Result<(TypeV, int), Seq<char>>
    decreases st.toks.len() - p, 2int,
{
    match parse_base_at(st, p) {
        Ok((t, q)) => postfix_at(st, t, q),
        Err(e) => Err(e),
    }
}

/// Postfix modifiers applied, left to right, to `t`:
/// `*` and `mut*` make a mutable pointer, `const*` a const pointer,
/// `&` and `mut&` a mutable reference, `const&` a shared reference.
pub open spec fn postfix_at(st: TokenStream, t: TypeV, p: int) -> Result<(TypeV, int), Seq<char>>
    decreases st.toks.len() - p,
{
    if p < 0 || p >= st.toks.len() {
        Ok((t, p))
    } else {
        match st.toks[p].0 {
            TokenV::Star => postfix_at(st, TypeV::Pointer { base: Box::new(t), is_const: false }, p + 1),
            TokenV::Ampersand => postfix_at(st, TypeV::Reference { base: Box::new(t), is_mut: true }, p + 1),
            TokenV::Mut => match tok_at(st, p + 1) {
                Some(TokenV::Star) => postfix_at(st, TypeV::Pointer { base: Box::new(t), is_const: false }, p + 2),
                Some(TokenV::Ampersand) => postfix_at(st, TypeV::Reference { base: Box::new(t), is_mut: true }, p + 2),
                other => Err("Expected '*' or '&' after 'mut', found "@ + opt_token_debug(other)),
            },
            TokenV::Const => match tok_at(st, p + 1) {
                Some(TokenV::Star) => postfix_at(st, TypeV::Pointer { base: Box::new(t), is_const: true }, p + 2),
                Some(TokenV::Ampersand) => postfix_at(st, TypeV::Reference { base: Box::new(t), is_mut: false }, p + 2),
                other => Err("Expected '*' or '&' after 'const', found "@ + opt_token_debug(other)),
            },
            _ => Ok((t, p)),
        }
    }
}

/// A base type: an array, a C keyword type, a function pointer, or a name.
pub open spec fn parse_base_at(st: TokenStream, p: int) -> Result<(TypeV, int), Seq<char>>
    decreases st.toks.len() - p, 1int,
{
    if p < 0 || p >= st.toks.len() {
        Err("Expected type, found EOF"@)
    } else {
        match st.toks[p].0 {
            TokenV::OpenBracket => match parse_type_at(st, p + 1) {
                Ok((elem, q)) => match expect_at(st, q, TokenV::Semicolon) {
                    Ok(q2) => match tok_at(st, q2) {
                        Some(TokenV::IntLit(n)) => match expect_at(st, q2 + 1, TokenV::CloseBracket) {
                            Ok(q3) => Ok((TypeV::Array { base: Box::new(elem), len: n }, q3)),
                            Err(e) => Err(e),
                        },
                        other => Err("Expected array length, found "@ + opt_token_debug(other)),
                    },
                    Err(e) => Err(e),
                },
                Err(e) => Err(e),
            },
            TokenV::Ampersand => Err(prefix_reference_message()),
            TokenV::Const => Err(prefix_const_message()),
            TokenV::Void => Ok((user_type("void"@), p + 1)),
            TokenV::Int => Ok((user_type("int"@), p + 1)),
            TokenV::Uint => Ok((user_type("uint"@), p + 1)),
            TokenV::Long => match tok_at(st, p + 1) {
                Some(TokenV::Long) => Ok((user_type("long long"@), p + 2)),
                Some(TokenV::Ident(n)) => if n == "double"@ {
                    Ok((user_type("long double"@), p + 2))
                } else {
                    Ok((user_type("long"@), p + 1))
                },
                Some(TokenV::Int) => Ok((user_type("long int"@), p + 2)),
                _ => Ok((user_type("long"@), p + 1)),
            },
            TokenV::Char => Ok((user_type("char"@), p + 1)),
            TokenV::Fn => match expect_at(st, p + 1, TokenV::OpenParen) {
                Ok(q) => match params_at(st, q) {
                    Ok((ps, r)) => match expect_at(st, r, TokenV::CloseParen) {
                        Ok(r2) => if tok_at(st, r2) == Some(TokenV::Arrow) && p < r2 {
                            match parse_type_at(st, r2 + 1) {
                                Ok((rt, r3)) => Ok((TypeV::FnPointer { params: ps, ret: Some(Box::new(rt)) }, r3)),
                                Err(e) => Err(e),
                            }
                        } else {
                            Ok((TypeV::FnPointer { params: ps, ret: None }, r2))
                        },
                        Err(e) => Err(e),
                    },
                    Err(e) => Err(e),
                },
                Err(e) => Err(e),
            },
            TokenV::Star => Err(prefix_pointer_message()),
            TokenV::Ident(n) => Ok(ident_type_at(st, n, p + 1)),
            other => Err("Expected type, found "@ + token_debug(other)),
        }
    }
}

/// `name: Type` pairs, separated by optional commas, up to (not including)
/// a `)` or the end of the tokens.
pub open spec fn params_at(st: TokenStream, p: int) -> Result<(Seq<ParamV>, int), Seq<char>>
    decreases st.toks.len() - p, 0int,
{
    if p < 0 || p >= st.toks.len() {
        Ok((seq![], p))
    } else {
        match st.toks[p].0 {
            TokenV::CloseParen => Ok((seq![], p)),
            TokenV::Ident(name) => match expect_at(st, p + 1, TokenV::Colon) {
                Ok(q) => match parse_type_at(st, q) {
                    Ok((ty, r)) => {
                        let r2 = if tok_at(st, r) == Some(TokenV::Comma) { r + 1 } else { r };
                        if p < r2 <= st.toks.len() {
                            match params_at(st, r2) {
                                Ok((rest, e)) => Ok((seq![ParamV { name, ty }] + rest, e)),
                                Err(e) => Err(e),
                            }
                        } else {
                            Err(seq![])
                        }
                    },
                    Err(e) => Err(e),
                },
                Err(e) => Err(e),
            },
            other => Err("Expected parameter name, found "@ + opt_token_debug(Some(other))),
        }
    }
}

// ---------------------------------------------------------------------------
// Items
// ---------------------------------------------------------------------------

/// The index of the `}` that closes a block, scanning from `k` with `depth`
/// braces open.
pub open spec fn brace_close(st: TokenStream, k: int, depth: nat) -> Option<int>
    decreases st.toks.len() - k,
{
    if k < 0 || k >= st.toks.len() {
        None
    } else {
        match st.toks[k].0 {
            TokenV::OpenBrace => brace_close(st, k + 1, depth + 1),
            TokenV::CloseBrace => if depth <= 1 { Some(k) } else { brace_close(st, k + 1, (depth - 1) as nat) },
            _ => brace_close(st, k + 1, depth),
        }
    }
}

/// An optional `unsafe` then a `{...}` block: whether `unsafe` was there,
/// and the source text strictly between the braces.
pub open spec fn capture_body_at(st: TokenStream, p: int) -> Result<((bool, Seq<char>), int), Seq<char>> {
    let (is_unsafe, p1) = if tok_at(st, p) == Some(TokenV::Unsafe) { (true, p + 1) } else { (false, p) };
    match tok_at(st, p1) {
        Some(TokenV::OpenBrace) => match brace_close(st, p1 + 1, 1) {
            Some(k) => Ok(((is_unsafe, st.src.subrange(st.toks[p1].1 + 1, st.toks[k].1)), k + 1)),
            None => Err("Unterminated brace block"@),
        },
        other => Err("Expected '{', found "@ + opt_token_debug(other)),
    }
}

/// Attributes `#[...]`, each holding the trimmed text of its tokens.
pub open spec fn attrs_at(st: TokenStream, p: int) -> Result<(Seq<AttributeV>, int), Seq<char>>
    decreases st.toks.len() - p,
{
    if tok_at(st, p) == Some(TokenV::Pound) {
        match expect_at(st, p + 1, TokenV::OpenBracket) {
            Ok(q) => {
                let e = find_tok(st, q, TokenV::CloseBracket);
                let attr = AttributeV { tokens: trim_all(tokens_text(st, q, e)) };
                match expect_at(st, e, TokenV::CloseBracket) {
                    Ok(r) => if p < r <= st.toks.len() {
                        match attrs_at(st, r) {
                            Ok((rest, f)) => Ok((seq![attr] + rest, f)),
                            Err(m) => Err(m),
                        }
                    } else {
                        Err(seq![])
                    },
                    Err(m) => Err(m),
                }
            },
            Err(m) => Err(m),
        }
    } else {
        Ok((seq![], p))
    }
}

/// `name: Type` fields, separated by optional commas, up to a `}`.
pub open spec fn fields_at(st: TokenStream, p: int) -> Result<(Seq<FieldV>, int), Seq<char>>
    decreases st.toks.len() - p,
{
    if p < 0 || p >= st.toks.len() {
        Ok((seq![], p))
    } else {
        match st.toks[p].0 {
            TokenV::CloseBrace => Ok((seq![], p)),
            TokenV::Ident(name) => match expect_at(st, p + 1, TokenV::Colon) {
                Ok(q) => match parse_type_at(st, q) {
                    Ok((ty, r)) => {
                        let r2 = if tok_at(st, r) == Some(TokenV::Comma) { r + 1 } else { r };
                        if p < r2 <= st.toks.len() {
                            match fields_at(st, r2) {
                                Ok((rest, e)) => Ok((seq![FieldV { name, ty }] + rest, e)),
                                Err(e) => Err(e),
                            }
                        } else {
                            Err(seq![])
                        }
                    },
                    Err(e) => Err(e),
                },
                Err(e) => Err(e),
            },
            other => Err("Expected field name, found "@ + opt_token_debug(Some(other))),
        }
    }
}

/// `struct Name { fields }`.
pub open spec fn parse_struct_at(st: TokenStream, p: int, attrs: Seq<AttributeV>) -> Result<(StructV, int), Seq<char>> {
    match expect_at(st, p, TokenV::Struct) {
        Ok(q) => match tok_at(st, q) {
            Some(TokenV::Ident(name)) => match expect_at(st, q + 1, TokenV::OpenBrace) {
                Ok(r) => match fields_at(st, r) {
                    Ok((fields, r2)) => match expect_at(st, r2, TokenV::CloseBrace) {
                        Ok(e) => Ok((StructV { name, fields, attrs }, e)),
                        Err(m) => Err(m),
                    },
                    Err(m) => Err(m),
                },
                Err(m) => Err(m),
            },
            other => Err("Expected struct name, found "@ + opt_token_debug(other)),
        },
        Err(m) => Err(m),
    }
}

/// The head of a function, `[unsafe] [extern "ABI"] fn|proc name`: whether
/// it is unsafe (`unsafe` written, or a `proc`), its ABI, and its name.
pub open spec fn fn_head_at(st: TokenStream, p: int) -> Result<((bool, Option<Seq<char>>, Seq<char>), int), Seq<char>> {
    let (unsafe_kw, p1) = if tok_at(st, p) == Some(TokenV::Unsafe) { (true, p + 1) } else { (false, p) };
    let (abi, p2) = if tok_at(st, p1) == Some(TokenV::Extern) {
        match tok_at(st, p1 + 1) {
            Some(TokenV::StrLit(a)) => (Some(a), p1 + 2),
            _ => (None, p1 + 1),
        }
    } else {
        (None, p1)
    };
    match tok_at(st, p2) {
        Some(TokenV::Fn) | Some(TokenV::Proc) => {
            let is_proc = tok_at(st, p2) == Some(TokenV::Proc);
            match tok_at(st, p2 + 1) {
                Some(TokenV::Ident(name)) => Ok(((unsafe_kw || is_proc, abi, name), p2 + 2)),
                other => Err("Expected function name, found "@ + opt_token_debug(other)),
            }
        },
        other => Err("Expected 'fn' or 'proc', found "@ + opt_token_debug(other)),
    }
}

/// The signature of a function after its name: `(params) [-> Type]`.
pub open spec fn fn_sig_at(st: TokenStream, q: int) -> Result<((Seq<ParamV>, Option<TypeV>), int), Seq<char>> {
    match expect_at(st, q, TokenV::OpenParen) {
        Ok(q1) => match params_at(st, q1) {
            Ok((params, r)) => match expect_at(st, r, TokenV::CloseParen) {
                Ok(r2) => if tok_at(st, r2) == Some(TokenV::Arrow) {
                    match parse_type_at(st, r2 + 1) {
                        Ok((t, r3)) => Ok(((params, Some(t)), r3)),
                        Err(m) => Err(m),
                    }
                } else {
                    Ok(((params, None), r2))
                },
                Err(m) => Err(m),
            },
            Err(m) => Err(m),
        },
        Err(m) => Err(m),
    }
}

/// The rest of a function after its name: `(params) [-> Type] [unsafe] { body }`.
pub open spec fn fn_tail_at(st: TokenStream, q: int) -> Result<((Seq<ParamV>, Option<TypeV>, Seq<char>), int), Seq<char>> {
    match fn_sig_at(st, q) {
        Ok(((params, ret_type), r3)) => match capture_body_at(st, r3) {
            Ok(((_, body_src), e)) => Ok(((params, ret_type, body_src), e)),
            Err(m) => Err(m),
        },
        Err(m) => Err(m),
    }
}

/// A function prototype starting at `p`: attributes, a function head and a
/// signature followed by `;` in place of a body.  It declares what a
/// definition gives elsewhere, and is passed over; the result is the index
/// after its `;`.
pub open spec fn prototype_end(st: TokenStream, p: int) -> Option<int> {
    match attrs_at(st, p) {
        Ok((_, q)) => match tok_at(st, q) {
            Some(TokenV::Fn) | Some(TokenV::Proc) | Some(TokenV::Unsafe) | Some(TokenV::Extern) => match fn_head_at(st, q) {
                Ok((_, q1)) => match fn_sig_at(st, q1) {
                    Ok((_, r)) => if tok_at(st, r) == Some(TokenV::Semicolon) { Some(r + 1) } else { None },
                    Err(_) => None,
                },
                Err(_) => None,
            },
            _ => None,
        },
        Err(_) => None,
    }
}

/// `[unsafe] [extern "ABI"] fn|proc name(params) [-> Type] [unsafe] { body }`.
pub open spec fn parse_fn_at(st: TokenStream, p: int, attrs: Seq<AttributeV>) -> Result<(FunctionV, int), Seq<char>> {
    match fn_head_at(st, p) {
        Ok(((is_unsafe, abi, name), q)) => match fn_tail_at(st, q) {
            Ok(((params, ret_type, body_src), e)) => Ok((FunctionV { name, params, ret_type, body_src, is_unsafe, abi, attrs }, e)),
            Err(m) => Err(m),
        },
        Err(m) => Err(m),
    }
}

/// Methods of an `impl` block, each with its own attributes, up to a `}`.
pub open spec fn methods_at(st: TokenStream, p: int) -> Result<(Seq<FunctionV>, int), Seq<char>>
    decreases st.toks.len() - p,
{
    if p < 0 || p >= st.toks.len() || st.toks[p].0 == TokenV::CloseBrace {
        Ok((seq![], p))
    } else {
        match attrs_at(st, p) {
            Ok((attrs, q)) => match parse_fn_at(st, q, attrs) {
                Ok((f, r)) => if p < r <= st.toks.len() {
                    match methods_at(st, r) {
                        Ok((rest, e)) => Ok((seq![f] + rest, e)),
                        Err(m) => Err(m),
                    }
                } else {
                    Err(seq![])
                },
                Err(m) => Err(m),
            },
            Err(m) => Err(m),
        }
    }
}

/// The index at which a raw item ends: the first `;` outside braces and
/// parentheses, or a `}` that closes nothing, or the end of the tokens.
pub open spec fn raw_end(st: TokenStream, k: int, braces: nat, parens: nat) -> int
    decreases st.toks.len() - k,
{
    if k < 0 || k >= st.toks.len() {
        if k < 0 { 0 } else { st.toks.len() as int }
    } else if braces == 0 && parens == 0 && st.toks[k].0 == TokenV::Semicolon {
        k
    } else {
        match st.toks[k].0 {
            TokenV::OpenBrace => raw_end(st, k + 1, braces + 1, parens),
            TokenV::CloseBrace => if braces > 0 { raw_end(st, k + 1, (braces - 1) as nat, parens) } else { k },
            TokenV::OpenParen => raw_end(st, k + 1, braces, parens + 1),
            TokenV::CloseParen => raw_end(st, k + 1, braces, if parens > 0 { (parens - 1) as nat } else { 0 }),
            _ => raw_end(st, k + 1, braces, parens),
        }
    }
}

/// A raw item starting at the token `q`: the trimmed source text up to the
/// token at which it ends, with its `;` re-attached when there is one.
pub open spec fn raw_item_at(st: TokenStream, q: int, attrs: Seq<AttributeV>) -> (ItemV, int) {
    let k = raw_end(st, q, 0, 0);
    let end = if k < st.toks.len() { st.toks[k].1 } else { st.src.len() as int };
    let text = trim_range(st.src, st.toks[q].1, end);
    if tok_at(st, k) == Some(TokenV::Semicolon) {
        (ItemV::Raw { attrs, src: text.push(';') }, k + 1)
    } else {
        (ItemV::Raw { attrs, src: text }, k)
    }
}

/// An error message as a failure of the whole parse.
pub open spec fn lift<T>(r: Result<T, Seq<char>>) -> Result<T, Failure> {
    match r {
        Ok(v) => Ok(v),
        Err(m) => Err(Failure::Message(m)),
    }
}

/// `enum Name { body }`, with the body kept as source text.
pub open spec fn enum_item_at(st: TokenStream, q: int, attrs: Seq<AttributeV>) -> Result<(ItemV, int), Failure> {
    if attrs.len() > 0 {
        Err(Failure::Message("Attributes on enum not supported yet"@))
    } else {
        match tok_at(st, q + 1) {
            Some(TokenV::Ident(name)) => if tok_at(st, q + 2) == Some(TokenV::OpenBrace) {
                match brace_close(st, q + 3, 1) {
                    Some(k) => Ok((ItemV::Enum { name, body: st.src.subrange(st.toks[q + 2].1 + 1, st.toks[k].1) }, k + 1)),
                    None => Err(Failure::Stuck),
                }
            } else {
                Err(Failure::Message("Expected '{' for enum body, found "@ + opt_positioned_debug(st, q + 2)))
            },
            other => Err(Failure::Message("Expected enum name, found "@ + opt_token_debug(other))),
        }
    }
}

/// `use path;`, with the path rebuilt from its tokens.
pub open spec fn use_item_at(st: TokenStream, q: int, attrs: Seq<AttributeV>) -> Result<(ItemV, int), Seq<char>> {
    if attrs.len() > 0 {
        Err("Attributes on 'use' not supported"@)
    } else {
        let e = find_tok(st, q + 1, TokenV::Semicolon);
        match expect_at(st, e, TokenV::Semicolon) {
            Ok(r) => Ok((ItemV::Use(tokens_text(st, q + 1, e)), r)),
            Err(m) => Err(m),
        }
    }
}

/// `impl Target { methods }`.
pub open spec fn impl_item_at(st: TokenStream, q: int, attrs: Seq<AttributeV>) -> Result<(ItemV, int), Seq<char>> {
    if attrs.len() > 0 {
        Err("Attributes on 'impl' not supported"@)
    } else {
        match tok_at(st, q + 1) {
            Some(TokenV::Ident(target)) => match expect_at(st, q + 2, TokenV::OpenBrace) {
                Ok(r) => match methods_at(st, r) {
                    Ok((methods, r2)) => match expect_at(st, r2, TokenV::CloseBrace) {
                        Ok(e) => Ok((ItemV::Impl { target, methods }, e)),
                        Err(m) => Err(m),
                    },
                    Err(m) => Err(m),
                },
                Err(m) => Err(m),
            },
            other => Err("Expected impl target name, found "@ + opt_token_debug(other)),
        }
    }
}

/// `type Name = Type;`.
pub open spec fn alias_item_at(st: TokenStream, q: int, attrs: Seq<AttributeV>) -> Result<(ItemV, int), Seq<char>> {
    if attrs.len() > 0 {
        Err("Attributes on 'type' aliases not supported"@)
    } else {
        match tok_at(st, q + 1) {
            Some(TokenV::Ident(name)) => match expect_at(st, q + 2, TokenV::Eq) {
                Ok(r) => match parse_type_at(st, r) {
                    Ok((ty, r2)) => match expect_at(st, r2, TokenV::Semicolon) {
                        Ok(e) => Ok((ItemV::TypeAlias { name, ty }, e)),
                        Err(m) => Err(m),
                    },
                    Err(m) => Err(m),
                },
                Err(m) => Err(m),
            },
            other => Err("Expected type alias name, found "@ + opt_token_debug(other)),
        }
    }
}

/// One top-level item, with its leading attributes.
pub open spec fn parse_item_at(st: TokenStream, p: int) -> Result<(ItemV, int), Failure> {
    match attrs_at(st, p) {
        Err(m) => Err(Failure::Message(m)),
        Ok((attrs, q)) => match tok_at(st, q) {
            Some(TokenV::Use) => lift(use_item_at(st, q, attrs)),
            Some(TokenV::Struct) => match parse_struct_at(st, q, attrs) {
                Ok((s, e)) => Ok((ItemV::Struct(s), e)),
                Err(m) => Err(Failure::Message(m)),
            },
            Some(TokenV::Impl) => lift(impl_item_at(st, q, attrs)),
            Some(TokenV::Ident(n)) => if n == "enum"@ {
                enum_item_at(st, q, attrs)
            } else if n == "type"@ {
                lift(alias_item_at(st, q, attrs))
            } else {
                Ok(raw_item_at(st, q, attrs))
            },
            Some(TokenV::Fn) | Some(TokenV::Proc) | Some(TokenV::Unsafe) | Some(TokenV::Extern) => match parse_fn_at(st, q, attrs) {
                Ok((f, e)) => Ok((ItemV::Fn(f), e)),
                Err(m) => Err(Failure::Message(m)),
            },
            Some(_) => Ok(raw_item_at(st, q, attrs)),
            None => Err(Failure::Message("Unexpected EOF while parsing item"@)),
        },
    }
}

/// The items from token `p` to the end; function prototypes are passed
/// over.  An item that consumes no token (a `}` at top level) leaves the
/// parse stuck.
pub open spec fn items_at(st: TokenStream, p: int) -> Result<Seq<ItemV>, Failure>
    decreases st.toks.len() - p,
{
    if p < 0 || p >= st.toks.len() {
        Ok(seq![])
    } else if let Some(e) = prototype_end(st, p) {
        if p < e <= st.toks.len() {
            items_at(st, e)
        } else {
            Err(Failure::Stuck)
        }
    } else {
        match parse_item_at(st, p) {
            Ok((item, q)) => if p < q <= st.toks.len() {
                match items_at(st, q) {
                    Ok(rest) => Ok(seq![item] + rest),
                    Err(f) => Err(f),
                }
            } else {
                Err(Failure::Stuck)
            },
            Err(f) => Err(f),
        }
    }
}

/// Carbide writes pointers and references after the type only: a type that
/// starts with `*`, `&` or `const` is refused, with a message that says so.
pub proof fn law_prefix_types_rejected(st: TokenStream, p: int)
    requires
        0 <= p < st.toks.len(),
    ensures
        st.toks[p].0 == TokenV::Star ==> parse_type_at(st, p) == Err::<(TypeV, int), Seq<char>>(prefix_pointer_message()),
        st.toks[p].0 == TokenV::Ampersand ==> parse_type_at(st, p) == Err::<(TypeV, int), Seq<char>>(prefix_reference_message()),
        st.toks[p].0 == TokenV::Const ==> parse_type_at(st, p) == Err::<(TypeV, int), Seq<char>>(prefix_const_message()),
{
}

/// A raw item that ends at a `;` keeps it as its last character.
pub proof fn law_raw_items_keep_semicolon(st: TokenStream, q: int, attrs: Seq<AttributeV>)
    requires
        0 <= q < st.toks.len(),
        tok_at(st, raw_end(st, q, 0, 0)) == Some(TokenV::Semicolon),
    ensures
        raw_item_at(st, q, attrs).0 matches ItemV::Raw { src, .. } && src.len() > 0 && src.last() == ';',
{
}

/// `proc` and `unsafe fn` declare unsafe functions; a plain `fn` (with or
/// without an `extern "abi"`) is safe.
pub proof fn law_proc_is_unsafe(st: TokenStream, p: int)
    requires
        fn_head_at(st, p) is Ok,
    ensures
        tok_at(st, p) == Some(TokenV::Proc) ==> fn_head_at(st, p)->Ok_0.0.0,
        tok_at(st, p) == Some(TokenV::Unsafe) ==> fn_head_at(st, p)->Ok_0.0.0,
        tok_at(st, p) == Some(TokenV::Fn) ==> !fn_head_at(st, p)->Ok_0.0.0,
        (tok_at(st, p) == Some(TokenV::Extern) && tok_at(st, p + 2) == Some(TokenV::Fn)
            && tok_at(st, p + 1) is Some && tok_at(st, p + 1)->Some_0 is StrLit) ==> !fn_head_at(st, p)->Ok_0.0.0,
{
}

/// A type named by a single identifier (other than the words `unsigned`,
/// `signed` and `short`, which start multi-word C types) takes exactly that
/// token: a Rust primitive type for the Rust primitive names, a named type
/// (`float`, `double`, `size_t`, `Point`, ...) for every other name.
pub proof fn law_ident_base_type(st: TokenStream, p: int, n: Seq<char>)
    requires
        0 <= p < st.toks.len(),
        st.toks[p].0 == TokenV::Ident(n),
        n != "unsigned"@,
        n != "signed"@,
        n != "short"@,
    ensures
        parse_base_at(st, p) == Ok::<(TypeV, int), Seq<char>>((
            if is_rust_primitive_name(n) { TypeV::Primitive(n) } else { TypeV::UserDefined(n) },
            p + 1,
        )),
{
    if n == "double"@ || n == "float"@ {
        reveal_strlit("double");
        reveal_strlit("float");
        reveal_strlit("i8");
        reveal_strlit("i16");
        reveal_strlit("i32");
        reveal_strlit("i64");
        reveal_strlit("i128");
        reveal_strlit("isize");
        reveal_strlit("u8");
        reveal_strlit("u16");
        reveal_strlit("u32");
        reveal_strlit("u64");
        reveal_strlit("u128");
        reveal_strlit("usize");
        reveal_strlit("f32");
        reveal_strlit("f64");
        reveal_strlit("bool");
        reveal_strlit("str");
        assert(n.len() == 5 || n.len() == 6);
        assert(n[0] == 'd' || n[0] == 'f');
        assert(n.len() == 5 ==> n[1] == 'l');
        assert(!is_rust_primitive_name(n));
    }
}

// ---------------------------------------------------------------------------
// Rebuilt token text lexes back
// ---------------------------------------------------------------------------

/// A token whose rebuilt text (`token_text`) is a single token again: an
/// identifier that is a plain word and no keyword, a number of ASCII
/// digits, a string with no `"` or `\`, a character other than `\`, and
/// every keyword and symbol.
pub open spec fn relexable(t: TokenV) -> bool {
    match t {
        TokenV::Ident(w) => w.len() > 0 && (letter(w[0]) || w[0] == '_') && !unicode_whitespace(w[0])
            && (forall|i: int| 0 <= i < w.len() ==> #[trigger] ident_char(w[i]))
            && word_token(w) == TokenV::Ident(w),
        TokenV::IntLit(w) => w.len() > 0 && forall|i: int| 0 <= i < w.len() ==> #[trigger] ascii_digit(w[i]),
        TokenV::StrLit(w) => forall|i: int| 0 <= i < w.len() ==> #[trigger] w[i] != '"' && w[i] != '\\',
        TokenV::CharLit(c) => c != '\\',
        _ => true,
    }
}

proof fn lemma_ident_end_run(s: Seq<char>, j: int, e: int)
    requires
        0 <= j <= e <= s.len(),
        forall|i: int| j <= i < e ==> #[trigger] ident_char(s[i]),
        e == s.len() || !ident_char(s[e]),
    ensures
        ident_end(s, j) == e,
    decreases e - j,
{
    if j < e {
        lemma_ident_end_run(s, j + 1, e);
    }
}

proof fn lemma_digits_end_run(s: Seq<char>, j: int)
    requires
        0 <= j <= s.len(),
        forall|i: int| j <= i < s.len() ==> #[trigger] ascii_digit(s[i]),
    ensures
        digits_end(s, j) == s.len(),
    decreases s.len() - j,
{
    if j < s.len() {
        lemma_digits_end_run(s, j + 1);
    }
}

proof fn lemma_string_scan_run(s: Seq<char>, w: Seq<char>, j: int)
    requires
        s == "\""@ + w + "\""@,
        1 <= j <= w.len() + 1,
        forall|i: int| 0 <= i < w.len() ==> #[trigger] w[i] != '"' && w[i] != '\\',
    ensures
        string_scan(s, j, false) == Some((w.subrange(j - 1, w.len() as int), s.len() as int)),
    decreases w.len() + 1 - j,
{
    reveal_strlit("\"");
    if j <= w.len() {
        assert(s[j] == w[j - 1]);
        lemma_string_scan_run(s, w, j + 1);
        assert(seq![w[j - 1]] + w.subrange(j, w.len() as int) =~= w.subrange(j - 1, w.len() as int));
    } else {
        assert(s[j] == '"');
        assert(w.subrange(j - 1, w.len() as int) =~= Seq::<char>::empty());
    }
}

/// A word of identifier characters that starts with a letter or `_`, alone
/// or followed by one space, lexes as its single word token.
proof fn lemma_word_relexes(w: Seq<char>, s: Seq<char>)
    requires
        w.len() > 0,
        letter(w[0]) || w[0] == '_',
        !unicode_whitespace(w[0]),
        forall|i: int| 0 <= i < w.len() ==> #[trigger] ident_char(w[i]),
        s == w || s == w.push(' '),
    ensures
        lex(s) == Ok::<Seq<(TokenV, int)>, LexError>(seq![(word_token(w), 0)]),
{
    let e = w.len() as int;
    assert forall|i: int| 0 <= i < w.len() implies #[trigger] ident_char(s[i]) by {
        assert(s[i] == w[i]);
        assert(ident_char(w[i]));
    }
    assert(s[0] == w[0]);
    if s.len() > w.len() {
        assert(s[e] == ' ');
        assert(!ident_char(s[e]));
    }
    lemma_ident_end_run(s, 0, e);
    assert(s.subrange(0, e) =~= w);
    assert(s[0] != '/');
    assert(lex_step(s, 0) == LexStep::Emit(word_token(w), e));
    if s.len() > w.len() {
        assert(s[w.len() as int] == ' ');
        assert(lex_from(s, (w.len() + 1) as int) == Ok::<Seq<(TokenV, int)>, LexError>(seq![]));
        assert(lex_from(s, w.len() as int) == Ok::<Seq<(TokenV, int)>, LexError>(seq![]));
    }
    assert(seq![(word_token(w), 0int)] + Seq::<(TokenV, int)>::empty() =~= seq![(word_token(w), 0int)]);
}

/// Each keyword spelling is read as its keyword token.
proof fn lemma_keyword_tokens()
    ensures
        word_token("fn"@) == TokenV::Fn,
        word_token("proc"@) == TokenV::Proc,
        word_token("struct"@) == TokenV::Struct,
        word_token("let"@) == TokenV::Let,
        word_token("mut"@) == TokenV::Mut,
        word_token("const"@) == TokenV::Const,
        word_token("return"@) == TokenV::Return,
        word_token("extern"@) == TokenV::Extern,
        word_token("unsafe"@) == TokenV::Unsafe,
        word_token("use"@) == TokenV::Use,
        word_token("impl"@) == TokenV::Impl,
        word_token("as"@) == TokenV::As,
        word_token("if"@) == TokenV::If,
        word_token("else"@) == TokenV::Else,
        word_token("void"@) == TokenV::Void,
        word_token("int"@) == TokenV::Int,
        word_token("uint"@) == TokenV::Uint,
        word_token("long"@) == TokenV::Long,
        word_token("char"@) == TokenV::Char,
{
    reveal_strlit("fn");
    reveal_strlit("proc");
    reveal_strlit("struct");
    reveal_strlit("let");
    reveal_strlit("mut");
    reveal_strlit("const");
    reveal_strlit("return");
    reveal_strlit("extern");
    reveal_strlit("unsafe");
    reveal_strlit("use");
    reveal_strlit("impl");
    reveal_strlit("as");
    reveal_strlit("if");
    reveal_strlit("else");
    reveal_strlit("void");
    reveal_strlit("int");
    reveal_strlit("uint");
    reveal_strlit("long");
    reveal_strlit("char");
    assert("proc"@.len() != "fn"@.len());
    assert("struct"@.len() != "fn"@.len());
    assert("struct"@.len() != "proc"@.len());
    assert("let"@.len() != "fn"@.len());
    assert("let"@.len() != "proc"@.len());
    assert("let"@.len() != "struct"@.len());
    assert("mut"@.len() != "fn"@.len());
    assert("mut"@.len() != "proc"@.len());
    assert("mut"@.len() != "struct"@.len());
    assert("mut"@[0] != "let"@[0]);
    assert("const"@.len() != "fn"@.len());
    assert("const"@.len() != "proc"@.len());
    assert("const"@.len() != "struct"@.len());
    assert("const"@.len() != "let"@.len());
    assert("const"@.len() != "mut"@.len());
    assert("return"@.len() != "fn"@.len());
    assert("return"@.len() != "proc"@.len());
    assert("return"@[0] != "struct"@[0]);
    assert("return"@.len() != "let"@.len());
    assert("return"@.len() != "mut"@.len());
    assert("return"@.len() != "const"@.len());
    assert("extern"@.len() != "fn"@.len());
    assert("extern"@.len() != "proc"@.len());
    assert("extern"@[0] != "struct"@[0]);
    assert("extern"@.len() != "let"@.len());
    assert("extern"@.len() != "mut"@.len());
    assert("extern"@.len() != "const"@.len());
    assert("extern"@[0] != "return"@[0]);
    assert("unsafe"@.len() != "fn"@.len());
    assert("unsafe"@.len() != "proc"@.len());
    assert("unsafe"@[0] != "struct"@[0]);
    assert("unsafe"@.len() != "let"@.len());
    assert("unsafe"@.len() != "mut"@.len());
    assert("unsafe"@.len() != "const"@.len());
    assert("unsafe"@[0] != "return"@[0]);
    assert("unsafe"@[0] != "extern"@[0]);
    assert("use"@.len() != "fn"@.len());
    assert("use"@.len() != "proc"@.len());
    assert("use"@.len() != "struct"@.len());
    assert("use"@[0] != "let"@[0]);
    assert("use"@[0] != "mut"@[0]);
    assert("use"@.len() != "const"@.len());
    assert("use"@.len() != "return"@.len());
    assert("use"@.len() != "extern"@.len());
    assert("use"@.len() != "unsafe"@.len());
    assert("impl"@.len() != "fn"@.len());
    assert("impl"@[0] != "proc"@[0]);
    assert("impl"@.len() != "struct"@.len());
    assert("impl"@.len() != "let"@.len());
    assert("impl"@.len() != "mut"@.len());
    assert("impl"@.len() != "const"@.len());
    assert("impl"@.len() != "return"@.len());
    assert("impl"@.len() != "extern"@.len());
    assert("impl"@.len() != "unsafe"@.len());
    assert("impl"@.len() != "use"@.len());
    assert("as"@[0] != "fn"@[0]);
    assert("as"@.len() != "proc"@.len());
    assert("as"@.len() != "struct"@.len());
    assert("as"@.len() != "let"@.len());
    assert("as"@.len() != "mut"@.len());
    assert("as"@.len() != "const"@.len());
    assert("as"@.len() != "return"@.len());
    assert("as"@.len() != "extern"@.len());
    assert("as"@.len() != "unsafe"@.len());
    assert("as"@.len() != "use"@.len());
    assert("as"@.len() != "impl"@.len());
    assert("if"@[0] != "fn"@[0]);
    assert("if"@.len() != "proc"@.len());
    assert("if"@.len() != "struct"@.len());
    assert("if"@.len() != "let"@.len());
    assert("if"@.len() != "mut"@.len());
    assert("if"@.len() != "const"@.len());
    assert("if"@.len() != "return"@.len());
    assert("if"@.len() != "extern"@.len());
    assert("if"@.len() != "unsafe"@.len());
    assert("if"@.len() != "use"@.len());
    assert("if"@.len() != "impl"@.len());
    assert("if"@[0] != "as"@[0]);
    assert("else"@.len() != "fn"@.len());
    assert("else"@[0] != "proc"@[0]);
    assert("else"@.len() != "struct"@.len());
    assert("else"@.len() != "let"@.len());
    assert("else"@.len() != "mut"@.len());
    assert("else"@.len() != "const"@.len());
    assert("else"@.len() != "return"@.len());
    assert("else"@.len() != "extern"@.len());
    assert("else"@.len() != "unsafe"@.len());
    assert("else"@.len() != "use"@.len());
    assert("else"@[0] != "impl"@[0]);
    assert("else"@.len() != "as"@.len());
    assert("else"@.len() != "if"@.len());
    assert("void"@.len() != "fn"@.len());
    assert("void"@[0] != "proc"@[0]);
    assert("void"@.len() != "struct"@.len());
    assert("void"@.len() != "let"@.len());
    assert("void"@.len() != "mut"@.len());
    assert("void"@.len() != "const"@.len());
    assert("void"@.len() != "return"@.len());
    assert("void"@.len() != "extern"@.len());
    assert("void"@.len() != "unsafe"@.len());
    assert("void"@.len() != "use"@.len());
    assert("void"@[0] != "impl"@[0]);
    assert("void"@.len() != "as"@.len());
    assert("void"@.len() != "if"@.len());
    assert("void"@[0] != "else"@[0]);
    assert("int"@.len() != "fn"@.len());
    assert("int"@.len() != "proc"@.len());
    assert("int"@.len() != "struct"@.len());
    assert("int"@[0] != "let"@[0]);
    assert("int"@[0] != "mut"@[0]);
    assert("int"@.len() != "const"@.len());
    assert("int"@.len() != "return"@.len());
    assert("int"@.len() != "extern"@.len());
    assert("int"@.len() != "unsafe"@.len());
    assert("int"@[0] != "use"@[0]);
    assert("int"@.len() != "impl"@.len());
    assert("int"@.len() != "as"@.len());
    assert("int"@.len() != "if"@.len());
    assert("int"@.len() != "else"@.len());
    assert("int"@.len() != "void"@.len());
    assert("uint"@.len() != "fn"@.len());
    assert("uint"@[0] != "proc"@[0]);
    assert("uint"@.len() != "struct"@.len());
    assert("uint"@.len() != "let"@.len());
    assert("uint"@.len() != "mut"@.len());
    assert("uint"@.len() != "const"@.len());
    assert("uint"@.len() != "return"@.len());
    assert("uint"@.len() != "extern"@.len());
    assert("uint"@.len() != "unsafe"@.len());
    assert("uint"@.len() != "use"@.len());
    assert("uint"@[0] != "impl"@[0]);
    assert("uint"@.len() != "as"@.len());
    assert("uint"@.len() != "if"@.len());
    assert("uint"@[0] != "else"@[0]);
    assert("uint"@[0] != "void"@[0]);
    assert("uint"@.len() != "int"@.len());
    assert("long"@.len() != "fn"@.len());
    assert("long"@[0] != "proc"@[0]);
    assert("long"@.len() != "struct"@.len());
    assert("long"@.len() != "let"@.len());
    assert("long"@.len() != "mut"@.len());
    assert("long"@.len() != "const"@.len());
    assert("long"@.len() != "return"@.len());
    assert("long"@.len() != "extern"@.len());
    assert("long"@.len() != "unsafe"@.len());
    assert("long"@.len() != "use"@.len());
    assert("long"@[0] != "impl"@[0]);
    assert("long"@.len() != "as"@.len());
    assert("long"@.len() != "if"@.len());
    assert("long"@[0] != "else"@[0]);
    assert("long"@[0] != "void"@[0]);
    assert("long"@.len() != "int"@.len());
    assert("long"@[0] != "uint"@[0]);
    assert("char"@.len() != "fn"@.len());
    assert("char"@[0] != "proc"@[0]);
    assert("char"@.len() != "struct"@.len());
    assert("char"@.len() != "let"@.len());
    assert("char"@.len() != "mut"@.len());
    assert("char"@.len() != "const"@.len());
    assert("char"@.len() != "return"@.len());
    assert("char"@.len() != "extern"@.len());
    assert("char"@.len() != "unsafe"@.len());
    assert("char"@.len() != "use"@.len());
    assert("char"@[0] != "impl"@[0]);
    assert("char"@.len() != "as"@.len());
    assert("char"@.len() != "if"@.len());
    assert("char"@[0] != "else"@[0]);
    assert("char"@[0] != "void"@[0]);
    assert("char"@.len() != "int"@.len());
    assert("char"@[0] != "uint"@[0]);
    assert("char"@[0] != "long"@[0]);
}

/// The text with which a token is rebuilt (in attributes and `use` paths)
/// lexes back to that token alone, for every relexable token.
pub proof fn law_token_text_relexes(t: TokenV)
    requires
        relexable(t),
    ensures
        lex(token_text(t)) == Ok::<Seq<(TokenV, int)>, LexError>(seq![(t, 0)]),
{
    lemma_keyword_tokens();
    let s = token_text(t);
    let one = seq![(t, 0int)];
    assert(one + Seq::<(TokenV, int)>::empty() =~= one);
    match t {
        TokenV::Fn => { reveal_strlit("fn"); lemma_word_relexes(s, s); },
        TokenV::Proc => { reveal_strlit("proc"); lemma_word_relexes(s, s);  },
        TokenV::Struct => { reveal_strlit("struct"); lemma_word_relexes(s, s);  },
        TokenV::Let => { reveal_strlit("let"); lemma_word_relexes(s, s);  },
        TokenV::Mut => {
            reveal_strlit("mut ");
            reveal_strlit("mut");
            assert("mut "@ =~= "mut"@.push(' '));
            lemma_word_relexes("mut"@, s);
        },
        TokenV::Const => { reveal_strlit("const"); lemma_word_relexes(s, s);  },
        TokenV::Return => { reveal_strlit("return"); lemma_word_relexes(s, s);  },
        TokenV::Extern => { reveal_strlit("extern"); lemma_word_relexes(s, s);  },
        TokenV::Unsafe => { reveal_strlit("unsafe"); lemma_word_relexes(s, s);  },
        TokenV::Use => { reveal_strlit("use"); lemma_word_relexes(s, s);  },
        TokenV::Impl => { reveal_strlit("impl"); lemma_word_relexes(s, s);  },
        TokenV::As => { reveal_strlit("as"); lemma_word_relexes(s, s);  },
        TokenV::If => { reveal_strlit("if"); lemma_word_relexes(s, s);  },
        TokenV::Else => { reveal_strlit("else"); lemma_word_relexes(s, s);  },
        TokenV::Void => { reveal_strlit("void"); lemma_word_relexes(s, s);  },
        TokenV::Int => { reveal_strlit("int"); lemma_word_relexes(s, s);  },
        TokenV::Uint => { reveal_strlit("uint"); lemma_word_relexes(s, s);  },
        TokenV::Long => { reveal_strlit("long"); lemma_word_relexes(s, s);  },
        TokenV::Char => { reveal_strlit("char"); lemma_word_relexes(s, s);  },
        TokenV::Ident(w) => { lemma_word_relexes(w, s);  },
        TokenV::IntLit(w) => {
            lemma_digits_end_run(s, 0);
            assert(s.subrange(0, s.len() as int) =~= s);
        },
        TokenV::StrLit(w) => {
            reveal_strlit("\"");
            lemma_string_scan_run(s, w, 1);
            assert(w.subrange(0, w.len() as int) =~= w);
            assert(s[0] == '"');
            assert(string_scan(s, 1, false) == Some((w, s.len() as int)));
            assert(lex_step(s, 0) == LexStep::Emit(TokenV::StrLit(w), s.len() as int));
            assert(lex_from(s, s.len() as int) == Ok::<Seq<(TokenV, int)>, LexError>(seq![]));
        },
        TokenV::CharLit(c) => {
            reveal_strlit("'");
            assert(s =~= seq!['\'', c, '\'']);
        },
        TokenV::Arrow => { reveal_strlit("->");  },
        TokenV::DoubleColon => { reveal_strlit("::");  },
        TokenV::EqEq => { reveal_strlit("==");  },
        TokenV::Comma => {
            reveal_strlit(", ");
            assert(lex_from(s, 2) == Ok::<Seq<(TokenV, int)>, LexError>(seq![]));
            assert(lex_from(s, 1) == Ok::<Seq<(TokenV, int)>, LexError>(seq![]));
        },
        TokenV::Star => { reveal_strlit("*");  },
        TokenV::Ampersand => { reveal_strlit("&");  },
        TokenV::Colon => { reveal_strlit(":");  },
        TokenV::Semicolon => { reveal_strlit(";");  },
        TokenV::Eq => { reveal_strlit("=");  },
        TokenV::Plus => { reveal_strlit("+");  },
        TokenV::Minus => { reveal_strlit("-");  },
        TokenV::Slash => { reveal_strlit("/");  },
        TokenV::Pound => { reveal_strlit("#");  },
        TokenV::OpenParen => { reveal_strlit("(");  },
        TokenV::CloseParen => { reveal_strlit(")");  },
        TokenV::OpenBrace => { reveal_strlit("{");  },
        TokenV::CloseBrace => { reveal_strlit("}");  },
        TokenV::OpenBracket => { reveal_strlit("[");  },
        TokenV::CloseBracket => { reveal_strlit("]");  },
        TokenV::Dot => { reveal_strlit(".");  },
        TokenV::Bang => { reveal_strlit("!");  },
        TokenV::Lt => { reveal_strlit("<");  },
        TokenV::Gt => { reveal_strlit(">");  },
        TokenV::Pipe => { reveal_strlit("|");  },
        TokenV::Percent => { reveal_strlit("%");  },
        TokenV::Caret => { reveal_strlit("^");  },
        TokenV::Question => { reveal_strlit("?");  },
        TokenV::Tilde => { reveal_strlit("~");  },
        TokenV::At => { reveal_strlit("@");  },
        TokenV::Dollar => { reveal_strlit("$");  },
    }
}

/// The texts of the tokens `p..e`, one space between each two.
pub open spec fn spaced_words(st: TokenStream, p: int, e: int) -> Seq<char>
    decreases e - p,
{
    if p >= e || p < 0 || e > st.toks.len() {
        seq![]
    } else if e == p + 1 {
        token_text(st.toks[p].0)
    } else {
        spaced_words(st, p, e - 1) + " "@ + token_text(st.toks[e - 1].0)
    }
}

/// Where the words that name a C type end: a trailing `int` after `long`
/// or `short` is left out of the name (`short int` is `short`).
pub open spec fn type_words_end(st: TokenStream, p: int, q: int) -> int {
    if q - p >= 2 && tok_at(st, q - 1) == Some(TokenV::Int) && (tok_at(st, q - 2) == Some(TokenV::Long) || tok_at(
        st,
        q - 2,
    ) == Some(TokenV::Ident("short"@))) {
        q - 1
    } else {
        q
    }
}

/// The name of the C type written with the tokens `p..q`: their words,
/// without a trailing `int` after `long` or `short`; a bare `unsigned` or
/// `signed` is `unsigned int` or `signed int`.
pub open spec fn c_type_name(st: TokenStream, p: int, q: int) -> Seq<char> {
    if q == p + 1 && (tok_at(st, p) == Some(TokenV::Ident("unsigned"@)) || tok_at(st, p) == Some(
        TokenV::Ident("signed"@),
    )) {
        spaced_words(st, p, q) + " int"@
    } else {
        spaced_words(st, p, type_words_end(st, p, q))
    }
}

proof fn lemma_sign_words(st: TokenStream, p: int, n: Seq<char>)
    requires
        tok_at(st, p) == Some(TokenV::Ident(n)),
        n == "unsigned"@ || n == "signed"@,
    ensures
        ident_type_at(st, n, p + 1) matches (TypeV::UserDefined(name), q)
            && p < q <= st.toks.len() && name == c_type_name(st, p, q),
{
    reveal_with_fuel(spaced_words, 4);
    reveal_strlit(" ");
    reveal_strlit(" int");
    reveal_strlit("int");
    reveal_strlit("char");
    reveal_strlit("long");
    reveal_strlit("short");
    reveal_strlit("unsigned");
    reveal_strlit("unsigned char");
    reveal_strlit("unsigned long long");
    reveal_strlit("unsigned long");
    reveal_strlit("unsigned int");
    reveal_strlit("unsigned short");
    reveal_strlit("signed");
    reveal_strlit("signed char");
    reveal_strlit("signed long long");
    reveal_strlit("signed long");
    reveal_strlit("signed int");
    reveal_strlit("signed short");
    let q = p + 1;
    let w2 = spaced_words(st, p, q + 1);
    let w3 = spaced_words(st, p, q + 2);
    assert(spaced_words(st, p, q) == n);
    match tok_at(st, q) {
        Some(TokenV::Char) => {
            assert(w2 == n + " "@ + "char"@);
            assert("unsigned"@ + " "@ + "char"@ =~= "unsigned char"@);
            assert("signed"@ + " "@ + "char"@ =~= "signed char"@);
        },
        Some(TokenV::Long) => {
            assert(w2 == n + " "@ + "long"@);
            assert("unsigned"@ + " "@ + "long"@ =~= "unsigned long"@);
            assert("signed"@ + " "@ + "long"@ =~= "signed long"@);
            if tok_at(st, q + 1) == Some(TokenV::Long) {
                assert(w3 == n + " "@ + "long"@ + " "@ + "long"@);
                assert("unsigned"@ + " "@ + "long"@ + " "@ + "long"@ =~= "unsigned long long"@);
                assert("signed"@ + " "@ + "long"@ + " "@ + "long"@ =~= "signed long long"@);
            } else if tok_at(st, q + 1) == Some(TokenV::Int) {
                assert(type_words_end(st, p, q + 2) == q + 1);
            }
        },
        Some(TokenV::Int) => {
            assert(w2 == n + " "@ + "int"@);
            assert("unsigned"@ + " "@ + "int"@ =~= "unsigned int"@);
            assert("signed int"@ =~= "signed"@ + " int"@);
        },
        Some(TokenV::Ident(k)) => {
            if k == "short"@ {
                assert(w2 == n + " "@ + "short"@);
                assert("unsigned"@ + " "@ + "short"@ =~= "unsigned short"@);
                assert("signed"@ + " "@ + "short"@ =~= "signed short"@);
                if tok_at(st, q + 1) == Some(TokenV::Int) {
                    assert(type_words_end(st, p, q + 2) == q + 1);
                }
            } else {
                assert("unsigned int"@ =~= "unsigned"@ + " int"@);
                assert("signed int"@ =~= "signed"@ + " int"@);
            }
        },
        _ => {
            assert("unsigned int"@ =~= "unsigned"@ + " int"@);
            assert("signed int"@ =~= "signed"@ + " int"@);
        },
    }
}

/// A C type written with several words parses to the name that those
/// words spell: `unsigned short` and `unsigned short int` to
/// `unsigned short`, `signed char` to `signed char`, `unsigned long int` to
/// `unsigned long`, `short int` to `short`, a bare `unsigned` to
/// `unsigned int`; an identifier that starts no such type is its own name.
pub proof fn law_type_words_spelled(st: TokenStream, p: int)
    requires
        tok_at(st, p) matches Some(TokenV::Ident(_)),
    ensures
        parse_base_at(st, p) matches Ok((TypeV::UserDefined(name), q)) ==> p < q <= st.toks.len()
            && name == c_type_name(st, p, q),
        tok_at(st, p + 1) == Some(TokenV::Ident("short"@)) && (tok_at(st, p) == Some(TokenV::Ident("unsigned"@))
            || tok_at(st, p) == Some(TokenV::Ident("signed"@))) ==> parse_base_at(st, p) == Ok::<(TypeV, int), Seq<char>>((
            TypeV::UserDefined(spaced_words(st, p, p + 2)),
            if tok_at(st, p + 2) == Some(TokenV::Int) { p + 3 } else { p + 2 },
        )),
{
    reveal_with_fuel(spaced_words, 3);
    reveal_strlit(" ");
    reveal_strlit(" int");
    reveal_strlit("int");
    reveal_strlit("short");
    reveal_strlit("unsigned");
    reveal_strlit("signed");
    reveal_strlit("unsigned short");
    reveal_strlit("signed short");
    let n = st.toks[p].0->Ident_0;
    assert(parse_base_at(st, p) == Ok::<(TypeV, int), Seq<char>>(ident_type_at(st, n, p + 1)));
    assert(spaced_words(st, p, p + 1) == n);
    if n == "unsigned"@ || n == "signed"@ {
        lemma_sign_words(st, p, n);
        if tok_at(st, p + 1) == Some(TokenV::Ident("short"@)) {
            assert(spaced_words(st, p, p + 2) == n + " "@ + "short"@);
            assert("unsigned"@ + " "@ + "short"@ =~= "unsigned short"@);
            assert("signed"@ + " "@ + "short"@ =~= "signed short"@);
        }
    } else if n == "short"@ {
        if tok_at(st, p + 1) == Some(TokenV::Int) {
            assert(type_words_end(st, p, p + 2) == p + 1);
        }
    }
}

} // verus!
