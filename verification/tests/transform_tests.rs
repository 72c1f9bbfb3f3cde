use carbide::ast::Item;
use carbide::lexer::Lexer;
use carbide::parser::Parser;
use carbide::transform::{apply_body_transforms, replace_word, transform_program};

fn transpile(src: &str) -> String {
    let tokens = Lexer::new(src).tokenize_with_positions().unwrap();
    let mut program = Parser::new(src, tokens).parse_program().unwrap();
    transform_program(&mut program);
    // Quick structural check: emit just enough to verify transforms
    let mut out = String::new();
    for item in &program.items {
        if let Item::Fn(f) = item {
            for a in &f.attrs { out.push_str(&format!("#[{}]\n", a.tokens)); }
            if f.is_unsafe { out.push_str("unsafe "); }
            if let Some(ref abi) = f.abi { out.push_str(&format!("extern \"{}\" ", abi)); }
            out.push_str(&format!("fn {}(", f.name));
            for (i, p) in f.params.iter().enumerate() {
                if i > 0 { out.push_str(", "); }
                // Quick type display
                out.push_str(&format!("{}: {:?}", p.name, p.ty));
            }
            out.push_str(")\n");
            out.push_str(&f.body_src);
            out.push('\n');
        }
    }
    out
}

#[test]
fn test_transform_fn_remains_safe() {
    let src = "fn safe(x: int) -> int { return x; }";
    let out = transpile(src);
    assert!(out.contains("extern \"system\""), "missing extern system");
    assert!(!out.contains("unsafe"), "fn should not be unsafe");
}

#[test]
fn test_transform_system_abi_and_repr() {
    let src = "proc go(p: void*) -> void { *p = 0; }";
    let out = transpile(src);
    assert!(out.contains("unsafe"), "proc should be unsafe");
    assert!(out.contains("extern \"system\""), "missing extern system");
}

#[test]
fn test_replace_word() {
    assert_eq!(replace_word("int x = 0;", "int", "c_int"), "c_int x = 0;");
    assert_eq!(replace_word("point.x", "int", "c_int"), "point.x"); // no false match
    assert_eq!(replace_word("hint", "int", "c_int"), "hint");        // no false match
}

#[test]
fn test_apply_body_transforms() {
    let src = "let x: int = 0; let p: void* = &x as void*;";
    let out = apply_body_transforms(src);
    assert!(out.contains("c_int"), "int should become c_int");
    assert!(out.contains("c_void"), "void should become c_void");
    assert!(out.contains("as *mut c_void"), "postfix pointer cast should flip");
}

#[test]
fn test_binary_multiplication_not_flipped() {
    let src = "let res = e1 as usize * e2;";
    let out = apply_body_transforms(src);
    assert_eq!(out, "let res = e1 as usize * e2;");

    let src2 = "let total = a as int * 5;";
    let out2 = apply_body_transforms(src2);
    assert_eq!(out2, "let total = a as c_int * 5;");

    let src3 = "let total2 = a as i32 * 5;";
    let out3 = apply_body_transforms(src3);
    assert_eq!(out3, "let total2 = a as i32 * 5;");
}

#[test]
fn test_char_pointer_and_atomics_and_impl_methods() {
    let src = "let s = p as char*; let c = p as char const*; let a: atomic_int = 0;";
    let out = apply_body_transforms(src);
    assert!(out.contains("as *mut c_char"), "char* should become *mut c_char");
    assert!(out.contains("as *const c_char"), "char const* should become *const c_char");
    assert!(out.contains("AtomicI32"), "atomic_int should become AtomicI32");

    let impl_src = "impl Point { fn new(x: float, y: float) -> Point { return Point { x, y }; } }";
    let tokens = Lexer::new(impl_src).tokenize_with_positions().unwrap();
    let mut program = Parser::new(impl_src, tokens).parse_program().unwrap();
    transform_program(&mut program);
    if let Item::Impl { methods, .. } = &program.items[0] {
        assert!(!methods[0].attrs.iter().any(|a| a.tokens == "no_mangle"), "impl methods must not have #[no_mangle]");
    } else {
        panic!("Expected Impl");
    }
}

#[test]
fn test_mut_ref_expression_flip() {
    let src = "let raw = (mut& num as int*) as void*; let r = mut& x;";
    let out = apply_body_transforms(src);
    assert!(out.contains("(&mut num as *mut c_int) as *mut c_void"), "mut& cast should flip properly: {out}");
    assert!(out.contains("let r = &mut x;"), "mut& x should flip to &mut x");
}

#[test]
fn test_stdint_fixed_width_types_mapping() {
    let src = "let a: int8_t = 1; let b: uint16_t = 2; let c: int32_t = 3; let d: uint64_t = 4; let e: intmax_t = 5; let f: char16_t = 6;";
    let out = apply_body_transforms(src);
    assert!(out.contains("let a: i8 = 1;"), "int8_t failed: {out}");
    assert!(out.contains("let b: u16 = 2;"), "uint16_t failed: {out}");
    assert!(out.contains("let c: i32 = 3;"), "int32_t failed: {out}");
    assert!(out.contains("let d: u64 = 4;"), "uint64_t failed: {out}");
    assert!(out.contains("let e: i64 = 5;"), "intmax_t failed: {out}");
    assert!(out.contains("let f: u16 = 6;"), "char16_t failed: {out}");
}
