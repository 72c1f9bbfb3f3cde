//! The whole transpilation of a Carbide source text: lex, parse, transform
//! and emit.
use vstd::prelude::*;
use crate::body::{body_transform, law_plain_body_unchanged, law_plain_rust_unchanged, plain_rust, type_table};
use crate::emitter::{fn_text, item_text, items_text, program_text, Emitter};
use crate::text::{contains_seq, occurs_at};
use crate::grammar::{items_at, offsets_fit, Failure, TokenStream};
use crate::lexer::{lemma_lex_from_offsets, lex, lex_error_message, Lexer};
use crate::parser::{lemma_char_positioned_inverse, ParseFailure, Parser};
use crate::transform::{transform_program, transformed_fn, transformed_program};
use crate::ast::{ItemV, ProgramV};

verus! {

/// Why a source text could not be transpiled.
pub enum TranspileError {
    /// The lexer rejected the text; the message says why.
    Lex(String),
    /// The parser rejected the tokens; the message says why.
    Parse(String),
    /// The parse cannot go on (a `}` at top level, or an unterminated `enum`).
    Stuck,
}

/// The offsets that the lexer gives increase strictly and lie inside the
/// source: the token stream fits its source, as the parser requires.
pub proof fn law_lexed_offsets_fit(s: Seq<char>)
    ensures
        lex(s) matches Ok(ts) ==> offsets_fit(TokenStream { toks: ts, src: s }),
{
    lemma_lex_from_offsets(s, 0);
}

/// Transpile a Carbide source text to Rust: `#![no_std]` heads the result
/// exactly when `no_std` holds.
pub fn transpile(source: &str, no_std: bool) -> (r: Result<String, TranspileError>)
    ensures
        match lex(source@) {
            Err(e) => r matches Err(TranspileError::Lex(m)) && m@ == lex_error_message(e),
            Ok(ts) => match items_at(TokenStream { toks: ts, src: source@ }, 0) {
                Ok(items) => r matches Ok(out) && out@ == program_text(transformed_program(ProgramV { items }), no_std),
                Err(Failure::Message(m)) => r matches Err(TranspileError::Parse(pm)) && pm@ == m,
                Err(Failure::Stuck) => r matches Err(TranspileError::Stuck),
            },
        },
{
    let lexer = Lexer::new(source);
    let tokens = match lexer.tokenize_with_positions() {
        Ok(t) => t,
        Err(e) => {
            return Err(TranspileError::Lex(e));
        },
    };
    proof {
        law_lexed_offsets_fit(source@);
        lemma_lex_from_offsets(source@, 0);
        let ts = lex(source@)->Ok_0;
        lemma_char_positioned_inverse(source@, ts);
    }
    let mut parser = Parser::new(source, tokens);
    let mut program = match parser.try_parse_program() {
        Ok(p) => p,
        Err(ParseFailure::Message(m)) => {
            return Err(TranspileError::Parse(m));
        },
        Err(ParseFailure::Stuck) => {
            return Err(TranspileError::Stuck);
        },
    };
    transform_program(&mut program);
    let mut emitter = Emitter::with_no_std(no_std);
    emitter.emit_program(&program);
    Ok(emitter.finish())
}

/// An occurrence inside an occurrence is an occurrence.
proof fn lemma_occurs_within(x: Seq<char>, a: Seq<char>, b: Seq<char>, i: int, j: int)
    requires
        occurs_at(a, x, i),
        occurs_at(b, a, j),
    ensures
        occurs_at(b, x, i + j),
{
    assert(b.subrange(i + j, i + j + x.len()) =~= a.subrange(i, i + x.len()));
}

/// Each item's text occurs in the text of the items.
proof fn lemma_item_text_within(items: Seq<ItemV>, i: int)
    requires
        0 <= i < items.len(),
    ensures
        exists|k: int| occurs_at(items_text(items), item_text(items[i], 0), k),
    decreases items.len(),
{
    let pre = items_text(items.drop_last());
    let whole = items_text(items);
    if i == items.len() - 1 {
        assert(whole.subrange(pre.len() as int, (pre.len() + item_text(items[i], 0).len()) as int) =~= item_text(items[i], 0));
        assert(occurs_at(whole, item_text(items[i], 0), pre.len() as int));
    } else {
        lemma_item_text_within(items.drop_last(), i);
        let k = choose|k: int| occurs_at(pre, item_text(items.drop_last()[i], 0), k);
        assert(whole.subrange(0, pre.len() as int) =~= pre);
        assert(occurs_at(whole, pre, 0));
        lemma_occurs_within(item_text(items[i], 0), pre, whole, k, 0);
    }
}

/// Plain Rust in a function body passes through the whole transpilation:
/// when a top-level function's body is Rust without Carbide syntax
/// (`plain_rust`), or holds no C type name of the table and no `*` or `&`,
/// the generated text holds that body, between its braces, character for
/// character.
pub proof fn law_plain_bodies_pass_through(p: ProgramV, no_std: bool, i: int)
    requires
        0 <= i < p.items.len(),
        p.items[i] is Fn,
        plain_rust(p.items[i]->Fn_0.body_src) || ({
            &&& forall|k: int| 0 <= k < type_table().len() ==> !contains_seq(p.items[i]->Fn_0.body_src, #[trigger] type_table()[k].0)
            &&& forall|c: int| 0 <= c < p.items[i]->Fn_0.body_src.len() ==> #[trigger] p.items[i]->Fn_0.body_src[c] != '*'
                && p.items[i]->Fn_0.body_src[c] != '&'
        }),
    ensures
        contains_seq(program_text(transformed_program(p), no_std), "{"@ + p.items[i]->Fn_0.body_src + "}"@),
{
    let f = p.items[i]->Fn_0;
    let g = transformed_fn(f, true);
    if plain_rust(f.body_src) {
        law_plain_rust_unchanged(f.body_src);
    } else {
        law_plain_body_unchanged(f.body_src);
    }
    assert(g.body_src == f.body_src);
    let q = transformed_program(p);
    assert(q.items[i] == ItemV::Fn(g));
    let braced = "{"@ + f.body_src + "}"@;
    let ft = fn_text(g, 0);
    let at = (ft.len() - f.body_src.len() - 3) as int;
    reveal_strlit(" {");
    reveal_strlit("}\n");
    reveal_strlit("{");
    reveal_strlit("}");
    assert(ft.subrange(at, at + braced.len()) =~= braced);
    assert(occurs_at(ft, braced, at));
    assert(item_text(q.items[i], 0) == ft);
    lemma_item_text_within(q.items, i);
    let its = items_text(q.items);
    let k = choose|k: int| occurs_at(its, ft, k);
    lemma_occurs_within(braced, ft, its, at, k);
    let whole = program_text(q, no_std);
    let h = whole.len() - its.len();
    assert(whole.subrange(h, whole.len() as int) =~= its);
    assert(occurs_at(whole, its, h));
    lemma_occurs_within(braced, its, whole, at + k, h);
}

} // verus!
