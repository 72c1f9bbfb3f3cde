use carbide::ast::{Item, PrimitiveType, Program, Type};
use carbide::lexer::Lexer;
use carbide::parser::Parser;

fn parse(src: &str) -> Program {
    let tokens = Lexer::new(src).tokenize_with_positions().unwrap();
    Parser::new(src, tokens).parse_program().unwrap()
}

#[test]
fn test_parse_function() {
    let src = "fn add(x: int, y: int) -> int { return x + y; }";
    let prog = parse(src);
    assert_eq!(prog.items.len(), 1);
    if let Item::Fn(f) = &prog.items[0] {
        assert_eq!(f.name, "add");
        assert_eq!(f.params.len(), 2);
        assert!(!f.is_unsafe);
        assert!(f.body_src.contains("return x + y;"));
    } else {
        panic!("Expected Fn item");
    }
}

#[test]
fn test_parse_struct() {
    let src = "struct Point { x: int, y: int }";
    let prog = parse(src);
    assert_eq!(prog.items.len(), 1);
    if let Item::Struct(s) = &prog.items[0] {
        assert_eq!(s.name, "Point");
        assert_eq!(s.fields.len(), 2);
    } else {
        panic!("Expected Struct item");
    }
}

#[test]
fn test_parse_type_pointer() {
    let src = "fn f(p: int*) -> void {}";
    let prog = parse(src);
    if let Item::Fn(f) = &prog.items[0] {
        assert!(matches!(
            &f.params[0].ty,
            Type::Pointer {
                is_const: false,
                ..
            }
        ));
    } else {
        panic!("Expected Fn");
    }
}

#[test]
fn test_parse_rust_primitives() {
    let src = "fn f(x: i32, y: u64) -> bool {}";
    let prog = parse(src);
    if let Item::Fn(f) = &prog.items[0] {
        assert!(
            matches!(&f.params[0].ty, Type::Primitive(PrimitiveType::RustPrimitive(s)) if s == "i32")
        );
        assert!(
            matches!(&f.params[1].ty, Type::Primitive(PrimitiveType::RustPrimitive(s)) if s == "u64")
        );
    } else {
        panic!("Expected Fn");
    }
}

#[test]
fn test_parse_multiword_c_types() {
    let src = "fn f(a: unsigned long, b: signed char) -> void {}";
    let prog = parse(src);
    if let Item::Fn(f) = &prog.items[0] {
        assert!(matches!(&f.params[0].ty, Type::UserDefined(s) if s == "unsigned long"));
        assert!(matches!(&f.params[1].ty, Type::UserDefined(s) if s == "signed char"));
    } else {
        panic!("Expected Fn");
    }
}

#[test]
fn test_parse_raw_statement() {
    // Body contains arbitrary Rust — parser stores it verbatim.
    let src = "fn f() -> int { let x = if a > b { a } else { b }; x }";
    let prog = parse(src);
    if let Item::Fn(f) = &prog.items[0] {
        assert!(f.body_src.contains("let x = if a > b"));
        assert!(f.body_src.contains("else"));
    } else {
        panic!("Expected Fn");
    }
}

#[test]
fn test_parse_fn_pointer_type() {
    // C callback fields: fn(name: Type, …) -> Ret inside a struct.
    let src = r#"
        struct Plugin {
            init: fn(plugin: Plugin const*) -> bool,
            destroy: fn(plugin: Plugin const*) -> void,
            process: fn(plugin: Plugin const*, frames: uint) -> int*
        }
    "#;
    let prog = parse(src);
    if let Item::Struct(s) = &prog.items[0] {
        assert_eq!(s.fields.len(), 3);
        let init = &s.fields[0].ty;
        match init {
            Type::FnPointer { params, ret } => {
                assert_eq!(params.len(), 1);
                assert_eq!(params[0].name, "plugin");
                assert!(matches!(params[0].ty, Type::Pointer { is_const: true, .. }));
                let ret = ret.as_ref().expect("fn pointer should have a return type");
                // `bool` is a Rust primitive, preserved verbatim
                assert!(
                    matches!(ret.as_ref(), Type::Primitive(PrimitiveType::RustPrimitive(n)) if n == "bool")
                );
            }
            other => panic!("Expected FnPointer type, got {:?}", other),
        }
        // Multi-param + pointer return: process field
        let process = &s.fields[2].ty;
        match process {
            Type::FnPointer { params, ret } => {
                assert_eq!(params.len(), 2);
                let ret = ret.as_ref().expect("return type");
                assert!(matches!(
                    ret.as_ref(),
                    Type::Pointer {
                        is_const: false,
                        ..
                    }
                ));
            }
            other => panic!("Expected FnPointer type, got {:?}", other),
        }
    } else {
        panic!("Expected Struct");
    }
}

#[test]
fn test_parse_fn_pointer_param_and_return() {
    // fn pointer as a function parameter and return type
    let src = "proc register(cb: fn(a: int) -> int) -> fn(b: int) -> int { return cb; }";
    let prog = parse(src);
    if let Item::Fn(f) = &prog.items[0] {
        assert!(matches!(f.params[0].ty, Type::FnPointer { .. }));
        let ret = f.ret_type.as_ref().expect("return type");
        assert!(matches!(ret, Type::FnPointer { .. }));
    } else {
        panic!("Expected Fn");
    }
}

#[test]
fn test_parse_type_alias() {
    let src = "type AudioCallback = fn(buffer: void*, frames: uint) -> void;";
    let prog = parse(src);
    if let Item::TypeAlias { name, ty } = &prog.items[0] {
        assert_eq!(name, "AudioCallback");
        assert!(matches!(ty, Type::FnPointer { .. }));
    } else {
        panic!("Expected TypeAlias item, got {:?}", prog.items[0]);
    }
}

#[test]
fn test_parse_postfix_references() {
    let src = r#"
        struct RefStruct {
            a: int&,
            b: int const&,
            c: int mut&,
            d: int mut*,
            e: int const*
        }
    "#;
    let prog = parse(src);
    if let Item::Struct(s) = &prog.items[0] {
        assert_eq!(s.fields.len(), 5);
        assert!(matches!(s.fields[0].ty, Type::Reference { is_mut: true, .. }));
        assert!(matches!(s.fields[1].ty, Type::Reference { is_mut: false, .. }));
        assert!(matches!(s.fields[2].ty, Type::Reference { is_mut: true, .. }));
        assert!(matches!(s.fields[3].ty, Type::Pointer { is_const: false, .. }));
        assert!(matches!(s.fields[4].ty, Type::Pointer { is_const: true, .. }));
    } else {
        panic!("Expected Struct");
    }
}

#[test]
fn test_reject_prefix_pointers_and_references() {
    let src_ref = "struct S { a: &int }";
    let tokens = Lexer::new(src_ref).tokenize_with_positions().unwrap();
    assert!(Parser::new(src_ref, tokens).parse_program().is_err());

    let src_mut_ref = "struct S { a: &mut int }";
    let tokens = Lexer::new(src_mut_ref).tokenize_with_positions().unwrap();
    assert!(Parser::new(src_mut_ref, tokens).parse_program().is_err());

    let src_ptr = "struct S { a: *const int }";
    let tokens = Lexer::new(src_ptr).tokenize_with_positions().unwrap();
    assert!(Parser::new(src_ptr, tokens).parse_program().is_err());

    let src_mut_ptr = "struct S { a: *mut int }";
    let tokens = Lexer::new(src_mut_ptr).tokenize_with_positions().unwrap();
    assert!(Parser::new(src_mut_ptr, tokens).parse_program().is_err());

    let src_prefix_const_ptr = "struct S { a: const int* }";
    let tokens = Lexer::new(src_prefix_const_ptr).tokenize_with_positions().unwrap();
    assert!(Parser::new(src_prefix_const_ptr, tokens).parse_program().is_err());

    let src_prefix_const_ref = "struct S { a: const int& }";
    let tokens = Lexer::new(src_prefix_const_ref).tokenize_with_positions().unwrap();
    assert!(Parser::new(src_prefix_const_ref, tokens).parse_program().is_err());
}
