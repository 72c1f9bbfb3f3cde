use carbide::emitter::Emitter;
use carbide::lexer::Lexer;
use carbide::parser::Parser;
use carbide::transform::transform_program;

fn transpile(src: &str, no_std: bool) -> String {
    let tokens = Lexer::new(src).tokenize_with_positions().unwrap();
    let mut program = Parser::new(src, tokens).parse_program().unwrap();
    transform_program(&mut program);
    let mut emitter = Emitter::with_no_std(no_std);
    emitter.emit_program(&program);
    emitter.finish()
}

#[test]
fn test_emitter_output() {
    let src = r#"
            struct Point {
                x: int,
                y: int*
            }

            proc add(p: Point const*) -> int {
                return (*p).x;
            }
        "#;
    let output = transpile(src, true);

    assert!(output.contains("#![no_std]"), "Missing no_std");
    assert!(output.contains("use core::ffi::*;"), "Missing ffi import");
    assert!(!output.contains("use libc::*;"), "Unexpected libc import");
    assert!(output.contains("#[repr(C)]"), "Missing repr(C)");
    assert!(output.contains("pub struct Point"), "Missing struct");
    assert!(output.contains("pub x: c_int"), "Missing c_int field");
    assert!(output.contains("pub y: *mut c_int"), "Missing pointer field");
    assert!(output.contains("#[no_mangle]"), "Missing no_mangle");
    assert!(
        output.contains("pub unsafe extern \"system\" fn add(p: *const Point) -> c_int"),
        "Wrong function signature"
    );
    // Body is emitted verbatim — user's formatting preserved
    assert!(output.contains("return (*p).x;"), "Body not preserved");

    let default_mode = transpile(src, false);
    assert!(!default_mode.contains("#![no_std]"), "Unexpected no_std in standard library mode");
}

#[test]
fn test_emitter_fn_pointer_and_type_alias() {
    let src = r#"
            type AudioCallback = fn(buffer: void*, frames: uint) -> void;

            struct Plugin {
                init: fn(plugin: Plugin const*) -> bool,
                destroy: fn(plugin: Plugin const*) -> void
            }
        "#;
    let output = transpile(src, false);

    // Type alias: C fn-pointer typedef → Option<unsafe extern "system" fn>
    assert!(
        output.contains("pub type AudioCallback = Option<unsafe extern \"system\" fn(buffer: *mut c_void, frames: c_uint)>;"),
        "Wrong AudioCallback alias: {output}"
    );

    // Struct fn-pointer fields: nullable + system ABI
    assert!(
        output.contains("pub init: Option<unsafe extern \"system\" fn(plugin: *const Plugin) -> bool>,"),
        "Wrong init field: {output}"
    );
    assert!(
        output.contains("pub destroy: Option<unsafe extern \"system\" fn(plugin: *const Plugin)>,"),
        "Wrong destroy field: {output}"
    );
    assert!(output.contains("#[repr(C)]"), "Missing repr(C) on struct");
}
