//! Scenarios for the edges of the library: every error, the header rules,
//! the driver's decisions, and the laws on concrete values.

use carbide::ast::{PrimitiveType, Type};
use carbide::cli::{
    cargo_build_args, is_artifact_extension, is_artifact_lowered, is_binary_extension,
    is_binary_lowered, is_carbide_extension, is_libc_rlib, rustc_args, wants_no_std,
    with_lib_section, Cli, CliError,
};
use carbide::emitter::Emitter;
use carbide::lexer::{Lexer, Token};
use carbide::parser::{ParseFailure, Parser};
use carbide::pipeline::{transpile, TranspileError};
use carbide::transform::{apply_body_transforms, replace_word};

fn lex_error(src: &str) -> String {
    match Lexer::new(src).tokenize_with_positions() {
        Ok(_) => panic!("{src:?} should not lex"),
        Err(e) => e,
    }
}

fn transpile_ok(src: &str, no_std: bool) -> String {
    match transpile(src, no_std) {
        Ok(out) => out,
        Err(TranspileError::Lex(m)) => panic!("lexer error: {m}"),
        Err(TranspileError::Parse(m)) => panic!("parser error: {m}"),
        Err(TranspileError::Stuck) => panic!("stuck"),
    }
}

fn parse_error(src: &str) -> String {
    match transpile(src, false) {
        Err(TranspileError::Parse(m)) => m,
        Ok(out) => panic!("{src:?} should not parse, gave:\n{out}"),
        Err(TranspileError::Lex(m)) => panic!("{src:?} should lex, gave {m}"),
        Err(TranspileError::Stuck) => panic!("{src:?} should not be stuck"),
    }
}

fn cli() -> Cli {
    Cli {
        command: None,
        input: Some("main.carbide".to_string()),
        output: None,
        compile: false,
        crate_type: None,
        dll: false,
        staticlib: false,
        exe: false,
        rlib: false,
        no_std: false,
        std: false,
    }
}

// ---------------------------------------------------------------------------
// Lexer errors
// ---------------------------------------------------------------------------

#[test]
fn lex_unterminated_block_comment() {
    assert_eq!(lex_error("fn /* never closed"), "Unterminated block comment");
}

#[test]
fn lex_unterminated_string() {
    assert_eq!(lex_error("let s = \"abc"), "Unterminated string literal");
}

#[test]
fn lex_unterminated_char_escape() {
    assert_eq!(lex_error("'\\"), "Unterminated char literal escape");
}

#[test]
fn lex_empty_char_literal() {
    assert_eq!(lex_error("'"), "Empty or unterminated char literal");
}

#[test]
fn lex_unclosed_char_literal() {
    assert_eq!(lex_error("'ab'"), "Expected closing single quote for char literal");
}

#[test]
fn lex_unexpected_character() {
    assert_eq!(lex_error("fn `"), "Unexpected character: '`'");
}

#[test]
fn lex_error_reaches_transpile() {
    match transpile("struct S { s: \"x }", false) {
        Err(TranspileError::Lex(m)) => assert_eq!(m, "Unterminated string literal"),
        _ => panic!("expected a lexer error"),
    }
}

#[test]
fn lex_offsets_are_byte_offsets() {
    let toks = Lexer::new("fn  f").tokenize_with_positions().unwrap();
    assert_eq!(toks.len(), 2);
    assert_eq!(toks[0].1, 0);
    assert_eq!(toks[1].1, 4);
    assert_eq!(toks[1].0, Token::Ident("f".to_string()));
    let toks = Lexer::new("/* ü€😀 */ x").tokenize_with_positions().unwrap();
    assert_eq!(toks, vec![(Token::Ident("x".to_string()), 16)]);
}

#[test]
fn tokenize_drops_only_the_offsets() {
    let src = "proc p(x: int*) -> void { *x = 1; }";
    let with = Lexer::new(src).tokenize_with_positions().unwrap();
    let without = Lexer::new(src).tokenize().unwrap();
    let projected: Vec<Token> = with.into_iter().map(|(t, _)| t).collect();
    assert_eq!(projected, without);
}

#[test]
fn lex_offsets_fall_on_char_boundaries_and_spell_tokens() {
    let src = "fn größe(x: Ünits*) -> i32 { 'ü' \"é\" == :: }";
    let toks = Lexer::new(src).tokenize_with_positions().unwrap();
    for w in toks.windows(2) {
        assert!(w[0].1 < w[1].1);
    }
    for (t, p) in &toks {
        assert!(src.is_char_boundary(*p));
        let rest = &src[*p..];
        let spelling = match t {
            Token::Fn => "fn".to_string(),
            Token::Ident(w) | Token::IntLit(w) => w.clone(),
            Token::StrLit(_) => "\"".to_string(),
            Token::CharLit(_) => "'".to_string(),
            Token::OpenParen => "(".to_string(),
            Token::CloseParen => ")".to_string(),
            Token::Colon => ":".to_string(),
            Token::DoubleColon => "::".to_string(),
            Token::Star => "*".to_string(),
            Token::Arrow => "->".to_string(),
            Token::OpenBrace => "{".to_string(),
            Token::CloseBrace => "}".to_string(),
            Token::EqEq => "==".to_string(),
            other => panic!("unexpected token {other:?}"),
        };
        assert!(rest.starts_with(&spelling), "{t:?} at {p}");
    }
}

#[test]
fn lexing_two_texts_after_a_newline() {
    let a = "fn größe() {}\n";
    let b = "x: i32 -> ::";
    let va = Lexer::new(a).tokenize_with_positions().unwrap();
    let vb = Lexer::new(b).tokenize_with_positions().unwrap();
    let joined = format!("{a}{b}");
    let vab = Lexer::new(&joined).tokenize_with_positions().unwrap();
    let mut expected = va.clone();
    expected.extend(vb.iter().map(|(t, p)| (t.clone(), p + a.len())));
    assert_eq!(vab, expected);
}

#[test]
fn rebuilt_token_texts_lex_back() {
    for (text, tok) in [
        ("mut ", Token::Mut),
        (", ", Token::Comma),
        ("::", Token::DoubleColon),
        ("\"ab c\"", Token::StrLit("ab c".to_string())),
        ("'q'", Token::CharLit('q')),
        ("42", Token::IntLit("42".to_string())),
        ("größe", Token::Ident("größe".to_string())),
    ] {
        assert_eq!(Lexer::new(text).tokenize().unwrap(), vec![tok]);
    }
}

#[test]
fn lex_operators_of_bodies() {
    let toks = Lexer::new("| % ^ ? ~ @ $").tokenize().unwrap();
    assert_eq!(toks.len(), 7);
}

#[test]
fn lex_unicode_letters_and_spaces() {
    let toks = Lexer::new("fn\u{a0}größe_1\u{2003}").tokenize_with_positions().unwrap();
    assert_eq!(toks.len(), 2);
    assert_eq!(toks[1].0, Token::Ident("größe_1".to_string()));
    assert_eq!(toks[1].1, 4);
}

#[test]
fn parse_messages_render_literals_with_debug() {
    assert_eq!(
        parse_error("enum \"a\\\"b\" { }"),
        "Expected enum name, found Some(StrLit(\"a\\\"b\"))"
    );
    assert_eq!(parse_error("enum 'q' { }"), "Expected enum name, found Some(CharLit('q'))");
}

// ---------------------------------------------------------------------------
// Parser errors and stuck parses
// ---------------------------------------------------------------------------

#[test]
fn parse_prefix_pointer_rejected_with_message() {
    let m = parse_error("struct S { p: *const int }");
    assert_eq!(
        m,
        "Prefix pointer syntax ('*mut T' / '*const T') is not allowed in Carbide; use C++-style postfix pointer syntax ('T*' / 'T const*' / 'T mut*') instead"
    );
}

#[test]
fn parse_prefix_reference_and_const_rejected() {
    assert_eq!(
        parse_error("fn f(x: &int) { }"),
        "Prefix reference syntax ('&T' / '&mut T') is not allowed in Carbide; use C++-style postfix reference syntax ('T&' / 'T const&' / 'T mut&') instead"
    );
    assert_eq!(
        parse_error("type P = const int*;"),
        "Prefix 'const' type syntax ('const T*') is not allowed in Carbide; use C++-style postfix syntax ('T const*') instead"
    );
}

#[test]
fn parse_missing_semicolon_after_alias() {
    assert_eq!(parse_error("type T = u32"), "Expected Semicolon, found EOF");
}

#[test]
fn parse_unclosed_impl() {
    assert_eq!(
        parse_error("impl Foo { fn f() -> int { return 0; }"),
        "Expected CloseBrace, found EOF"
    );
}

#[test]
fn parse_attributes_on_use_rejected() {
    assert_eq!(parse_error("#[foo] use a::b;"), "Attributes on 'use' not supported");
}

#[test]
fn parse_enum_without_name() {
    assert_eq!(parse_error("enum { A }"), "Expected enum name, found Some(OpenBrace)");
}

#[test]
fn parse_error_offsets_count_bytes() {
    assert_eq!(
        parse_error("/* ü */ enum E x"),
        "Expected '{' for enum body, found Some((Ident(\"x\"), 16))"
    );
}

#[test]
fn non_ascii_bodies_pass_through() {
    let out = transpile_ok("fn f() -> int { let s = \"größe €\"; return 0; }", false);
    assert!(out.contains("{ let s = \"größe €\"; return 0; }"), "{out}");
}

#[test]
fn parse_stray_close_brace_is_stuck() {
    assert!(matches!(transpile("}", false), Err(TranspileError::Stuck)));
    let src = "struct S { x: int } }";
    let toks = Lexer::new(src).tokenize_with_positions().unwrap();
    assert!(matches!(Parser::new(src, toks).try_parse_program(), Err(ParseFailure::Stuck)));
}

#[test]
fn parse_program_reports_a_stuck_parse() {
    let src = "struct S { x: int } }";
    let toks = Lexer::new(src).tokenize_with_positions().unwrap();
    match Parser::new(src, toks).parse_program() {
        Err(m) => assert_eq!(m, "Unbalanced '}' at top level or unterminated enum body"),
        Ok(_) => panic!("a stray '}}' must be refused"),
    }
}

#[test]
fn parse_unterminated_enum_is_stuck() {
    assert!(matches!(transpile("enum E { A, B", false), Err(TranspileError::Stuck)));
}

#[test]
fn parse_type_postfix_const_pointer() {
    let src = "char const*";
    let toks = Lexer::new(src).tokenize_with_positions().unwrap();
    let ty = Parser::new(src, toks).parse_type().unwrap();
    let mut e = Emitter::new();
    e.emit_type(&ty);
    assert_eq!(e.finish(), "*const char");
    assert!(matches!(ty, Type::Pointer { is_const: true, .. }));
}

#[test]
fn parse_raw_item_keeps_semicolon() {
    let out = transpile_ok("static COUNT: u32 = 3;", false);
    assert!(out.contains("static COUNT: u32 = 3;\n"), "{out}");
}

// ---------------------------------------------------------------------------
// Transform and emitter rules
// ---------------------------------------------------------------------------

#[test]
fn header_default_mode_has_no_no_std() {
    let out = transpile_ok("fn f() -> int { return 0; }", false);
    assert!(out.starts_with("#![allow(non_camel_case_types)]\n"), "{out}");
    assert!(!out.contains("#![no_std]"));
    assert!(out.contains("#![allow(non_snake_case)]\n"));
    assert!(out.contains("#![allow(non_upper_case_globals)]\n\n"));
    assert!(out.contains("use core::ffi::*;\n"));
}

#[test]
fn header_bare_metal_mode_has_no_std_first() {
    let out = transpile_ok("fn f() -> int { return 0; }", true);
    assert!(out.starts_with("#![no_std]\n#![allow(non_camel_case_types)]\n"), "{out}");
}

#[test]
fn libc_import_only_when_libc_type_used() {
    let with = transpile_ok("fn f(n: size_t) -> size_t { return n; }", false);
    assert!(with.contains("use libc::*;\n"), "{with}");
    let without = transpile_ok("fn f(n: int) -> int { return n; }", false);
    assert!(!without.contains("use libc::*;"), "{without}");
    assert!(without.contains("use core::ffi::*;\n\n"));
}

#[test]
fn void_return_is_omitted() {
    let out = transpile_ok("proc f(x: int) -> void { }", false);
    assert!(out.contains("pub unsafe extern \"system\" fn f(x: c_int) {"), "{out}");
}

#[test]
fn main_keeps_its_abi_and_gets_no_no_mangle() {
    let out = transpile_ok("fn main() { let x: int = 10; }", false);
    assert!(out.contains("pub fn main() {"), "{out}");
    assert!(!out.contains("#[no_mangle]"), "{out}");
}

#[test]
fn explicit_abi_is_kept() {
    let out = transpile_ok("extern \"C\" fn f() -> int { return 0; }", false);
    assert!(out.contains("#[no_mangle]\npub extern \"C\" fn f() -> c_int {"), "{out}");
}

#[test]
fn structs_get_repr_c_first() {
    let out = transpile_ok("#[derive(Clone)] struct P { x: u32 }", false);
    assert!(out.contains("#[repr(C)]\n#[derive(Clone)]\npub struct P {\n    pub x: u32,\n}"), "{out}");
}

#[test]
fn rust_types_pass_through() {
    let out = transpile_ok("struct P { a: u8, b: usize, c: bool, d: i64 }", false);
    assert!(out.contains("pub a: u8,\n    pub b: usize,\n    pub c: bool,\n    pub d: i64,"), "{out}");
}

#[test]
fn methods_stay_plain() {
    let out = transpile_ok("impl P { fn get(self: P const&) -> int { return 0; } }", false);
    assert!(out.contains("impl P {\n    pub fn get(self: &P) -> c_int {"), "{out}");
}

#[test]
fn replace_word_by_itself_is_identity() {
    let s = "int point = hint + int;";
    assert_eq!(replace_word(s, "int", "int"), s);
}

#[test]
fn replace_absent_word_is_identity() {
    assert_eq!(replace_word("let p = point;", "int", "c_int"), "let p = point;");
    assert_eq!(replace_word("a int b", "int", "c_int"), "a c_int b");
}

#[test]
fn replace_word_boundary_is_read_in_the_whole_text() {
    assert_eq!(replace_word("intint int", "int", "c_int"), "intint c_int");
    assert_eq!(replace_word("int int", "int", "c_int"), "c_int c_int");
}

#[test]
fn long_long_types_in_bodies() {
    assert_eq!(
        apply_body_transforms("let x: long long = 0; let y: unsigned long long = 1;"),
        "let x: c_longlong = 0; let y: c_ulonglong = 1;"
    );
}

#[test]
fn function_prototypes_are_passed_over() {
    let src = "fn add_two_ints(x1: int, x2: int) -> int;\nfn add_two_ints(x1: int, x2: int) -> int { return x1 + x2; }";
    let toks = Lexer::new(src).tokenize_with_positions().unwrap();
    let prog = Parser::new(src, toks).parse_program().unwrap();
    assert_eq!(prog.items.len(), 1);
    let out = transpile_ok("#[inline] proc p(x: int*) -> void;\nfn main() { }", false);
    assert!(!out.contains("fn p("), "{out}");
    assert!(out.contains("pub fn main() {"), "{out}");
}

#[test]
fn atomics_import_when_atomic_types_used() {
    let out = transpile_ok("struct C { val: atomic_int }", false);
    assert!(out.contains("use core::ffi::*;\nuse core::sync::atomic::*;\n\n"), "{out}");
    assert!(out.contains("pub val: AtomicI32,"), "{out}");
    let both = transpile_ok("struct C { n: size_t, f: atomic_bool }", false);
    assert!(both.contains("use core::ffi::*;\nuse libc::*;\nuse core::sync::atomic::*;\n\n"), "{both}");
    let none = transpile_ok("struct C { n: int }", false);
    assert!(!none.contains("core::sync::atomic"), "{none}");
}

#[test]
fn plain_rust_body_passes_through() {
    let body = " let v = vec![1, 2, 3]; for x in v.iter() { println!(\"{}\", x); } ";
    assert_eq!(apply_body_transforms(body), body);
}

#[test]
fn plain_body_passes_through_the_pipeline() {
    let body = " let v = vec![1u32, 2]; let n = v.len(); n == 2 ";
    let src = format!("fn f() -> bool {{{body}}}");
    let out = transpile_ok(&src, false);
    assert!(out.contains(&format!("{{{body}}}")), "{out}");
}

#[test]
fn rust_without_carbide_syntax_passes_through() {
    let body = "// héllo\nlet s = \"é\"; let v = Vec::<u32>::new(); let p = &v; let q = *p.first().unwrap() * 2; println!(\"{}\", q);";
    assert_eq!(apply_body_transforms(body), body);
}

#[test]
fn emit_function_pointer_type() {
    let src = "fn(buffer: void*, frames: uint) -> void";
    let toks = Lexer::new(src).tokenize_with_positions().unwrap();
    let ty = Parser::new(src, toks).parse_type().unwrap();
    let mut e = Emitter::with_no_std(false);
    e.emit_type(&ty);
    assert_eq!(e.finish(), "Option<unsafe extern \"system\" fn(buffer: *mut void, frames: uint)>");
}

#[test]
fn emit_array_type() {
    let ty = Type::Array {
        base: Box::new(Type::Primitive(PrimitiveType::RustPrimitive("u8".to_string()))),
        len: "16".to_string(),
    };
    let mut e = Emitter::new();
    e.emit_type(&ty);
    assert_eq!(e.finish(), "[u8; 16]");
}

// ---------------------------------------------------------------------------
// Driver decisions
// ---------------------------------------------------------------------------

#[test]
fn crate_type_named_wins() {
    let mut c = cli();
    c.crate_type = Some("rlib".to_string());
    c.dll = true;
    assert_eq!(c.effective_crate_type(), Some("rlib".to_string()));
    assert!(c.should_compile());
}

#[test]
fn crate_type_from_flags_in_order() {
    let mut c = cli();
    assert_eq!(c.effective_crate_type(), None);
    assert!(!c.should_compile());
    c.rlib = true;
    assert_eq!(c.effective_crate_type(), Some("lib".to_string()));
    c.exe = true;
    assert_eq!(c.effective_crate_type(), Some("bin".to_string()));
    c.staticlib = true;
    assert_eq!(c.effective_crate_type(), Some("staticlib".to_string()));
    c.dll = true;
    assert_eq!(c.effective_crate_type(), Some("cdylib".to_string()));
}

#[test]
fn compile_flag_alone_compiles() {
    let mut c = cli();
    c.compile = true;
    assert!(c.should_compile());
    assert_eq!(c.effective_crate_type(), None);
}

#[test]
fn input_checks() {
    let mut c = cli();
    assert!(c.check_input(Some("carbide")).is_ok());
    match c.check_input(Some("rs")) {
        Err(e) => {
            assert!(matches!(e, CliError::NotCarbide));
            assert_eq!(e.message(), "Error: Input file must have a .carbide extension.");
        }
        Ok(()) => panic!("a .rs input must be refused"),
    }
    assert!(matches!(c.check_input(None), Err(CliError::NotCarbide)));
    c.input = None;
    match c.check_input(Some("carbide")) {
        Err(e) => {
            assert!(matches!(e, CliError::NoInput));
            assert_eq!(e.message(), "Error: No input file specified.");
        }
        Ok(()) => panic!("a missing input must be refused"),
    }
}

#[test]
fn output_split_rules() {
    let mut c = cli();
    assert!(!c.splits_output("dll"));
    c.compile = true;
    assert!(c.splits_output("DLL"));
    assert!(c.splits_output("so"));
    assert!(!c.splits_output("rs"));
    assert!(!c.splits_output("out"));
    c.dll = true;
    assert!(c.splits_output("out"));
    assert!(c.splits_output(""));
    assert!(!c.splits_output("rs"));
}

#[test]
fn output_split_given_binary_class() {
    let mut c = cli();
    assert!(!c.output_split_for("dll", true));
    c.compile = true;
    assert!(c.output_split_for("dll", true));
    assert!(!c.output_split_for("out", false));
    c.exe = true;
    assert!(c.output_split_for("out", false));
    assert!(!c.output_split_for("rs", false));
}

#[test]
fn extension_classes() {
    assert!(is_binary_extension("Exe"));
    assert!(is_binary_extension("dylib"));
    assert!(!is_binary_extension("rlib"));
    assert!(is_artifact_extension("RLIB"));
    assert!(!is_artifact_extension("rs"));
    assert!(is_binary_lowered("a"));
    assert!(!is_binary_lowered("A"));
    assert!(is_artifact_lowered("rlib"));
    assert!(is_carbide_extension(Some("carbide")));
    assert!(!is_carbide_extension(Some("Carbide")));
    assert!(!is_carbide_extension(None));
}

#[test]
fn cargo_arguments() {
    let args: Vec<String> = ["build", "--release", "--no-std", "-v", "--std"]
        .iter()
        .map(|s| s.to_string())
        .collect();
    assert!(wants_no_std(&args));
    assert!(!wants_no_std(&vec!["--release".to_string()]));
    let out = cargo_build_args("ws/Cargo.toml", &args);
    assert_eq!(out, vec!["build", "--manifest-path", "ws/Cargo.toml", "--release", "-v"]);
}

#[test]
fn manifest_lib_section() {
    let plain = "[package]\nname = \"x\"\n";
    assert_eq!(
        with_lib_section(plain),
        "[package]\nname = \"x\"\n\n[lib]\ncrate-type = [\"staticlib\", \"cdylib\"]\n"
    );
    let with_lib = "[package]\n[lib]\npath = \"a.rs\"\n";
    assert_eq!(with_lib_section(with_lib), with_lib);
}

#[test]
fn libc_rlib_names() {
    assert!(is_libc_rlib("liblibc-1a2b3c.rlib"));
    assert!(is_libc_rlib("liblibc-.rlib"));
    assert!(!is_libc_rlib("liblibc-1a2b3c.rmeta"));
    assert!(!is_libc_rlib("libserde-1.rlib"));
    assert!(!is_libc_rlib(".rlib"));
}

#[test]
fn rustc_command_arguments() {
    assert_eq!(
        rustc_args("out.rs", None, None, None, None),
        vec!["--edition=2021", "out.rs"]
    );
    assert_eq!(
        rustc_args("out.rs", Some("target/debug/deps"), Some("target/debug/deps/liblibc-1.rlib"), Some("cdylib"), Some("out.dll")),
        vec![
            "--edition=2021",
            "out.rs",
            "-L",
            "dependency=target/debug/deps",
            "--extern=libc=target/debug/deps/liblibc-1.rlib",
            "--crate-type=cdylib",
            "-o",
            "out.dll",
        ]
    );
}
