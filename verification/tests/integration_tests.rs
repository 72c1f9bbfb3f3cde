//! End-to-end transpilation of whole Carbide sources.
//!
//! Each source below is transpiled, in the default (standard library) mode
//! unless a test asks for bare-metal mode, and the generated Rust is checked
//! for the headers and for the expected snippets.

use carbide::pipeline::{transpile, TranspileError};

const FFI_COMPUTE: &str = "\
struct FfiStruct {
    val: int,
    ptr: int*
}

proc compute(s: FfiStruct const*) -> int {
    return (*s).val;
}
";

const CLAP_AUDIO: &str = "\
type clap_id = u32;
type clap_process_status = i32;

const CLAP_VERSION_MAJOR: u32 = 1;
const CLAP_VERSION_MINOR: u32 = 2;

struct clap_version {
    major: u32,
    minor: u32
}

struct clap_plugin_descriptor {
    id: char const*,
    name: char const*,
    features: char const* const*
}

struct clap_process {
    frames_count: u32
}

struct clap_plugin {
    desc: clap_plugin_descriptor const*,
    init: fn(plugin: clap_plugin const*) -> bool,
    destroy: fn(plugin: clap_plugin const*) -> void,
    process: fn(plugin: clap_plugin const*, process: clap_process const*) -> clap_process_status
}

struct clap_plugin_entry {
    version: clap_version,
    get_factory: fn(factory_id: char const*) -> void const*
}

pub static clap_entry: clap_plugin_entry = clap_plugin_entry {
    version: clap_version { major: 1, minor: 2 },
    get_factory: None
};

fn clap_version_is_compatible(v: clap_version) -> bool {
    return v.major >= 1;
}

proc plugin_has_init(plugin: clap_plugin const*) -> bool {
    return (*plugin).init.is_some();
}
";

const RAYLIB_API: &str = "\
struct Texture {
    id: uint,
    width: int,
    height: int
}

type Texture2D = Texture;
type AudioCallback = fn(buffer: void*, frames: uint) -> void;

struct Color {
    r: unsigned char,
    g: unsigned char,
    b: unsigned char,
    a: unsigned char
}

struct Rectangle {
    x: float,
    y: float,
    width: float,
    height: float
}

struct Font {
    base_size: int,
    glyph_count: int,
    recs: Rectangle*
}

struct rAudioBuffer {
}

struct AudioStream {
    buffer: rAudioBuffer*,
    sample_rate: uint
}

struct Sound {
    stream: AudioStream,
    frame_count: uint
}

proc InitWindow(width: int, height: int, title: char const*) -> void {
}

proc LoadSound(file_name: char const*) -> Sound {
    return Sound { stream: AudioStream { buffer: core::ptr::null_mut(), sample_rate: 0 }, frame_count: 0 };
}

proc SetAudioStreamCallback(stream: AudioStream, callback: AudioCallback) -> void {
}

fn raylib_color(r: u8, g: u8, b: u8, a: u8) -> Color {
    return Color { r, g, b, a };
}
";

const RUST_SYNTAX: &str = "\
struct Point {
    x: int,
    y: int
}

impl Point {
    proc shift(self: Point&, dx: int, dy: int) -> void {
        self.x = self.x + dx;
        self.y = self.y + dy;
    }
}

proc test_rust_syntax(p: Point*) -> int {
    let e1: u32 = 10;
    let e2: usize = 20;
    let prod: usize = e1 as usize * e2;
    let r: int& = &mut (*p).x;
    return *r;
}
";

const ATOMICS_OPERATORS: &str = "\
use core::sync::atomic::*;

struct Counter {
    val: atomic_int,
    active: atomic_bool,
    total: atomic_size_t
}

impl Counter {
    fn new(init: int) -> Counter {
        return Counter { val: AtomicI32::new(init), active: AtomicBool::new(true), total: AtomicUsize::new(0) };
    }

    fn increment(self: Counter&, step: int) -> int {
        return self.val.fetch_add(step, Ordering::SeqCst) + step;
    }
}

proc test_operators_and_closures(a: int, b: int) -> int {
    let add = |x: int, y: int| x + y;
    let m: int = a % 3;
    return add(a, b) ^ m;
}
";

fn transpile_mode(name: &str, src: &str, no_std: bool) -> String {
    match transpile(src, no_std) {
        Ok(out) => out,
        Err(TranspileError::Lex(m)) => panic!("{name}: lexer error: {m}"),
        Err(TranspileError::Parse(m)) => panic!("{name}: parser error: {m}"),
        Err(TranspileError::Stuck) => panic!("{name}: parse cannot proceed"),
    }
}

fn check_transpiled_with_mode(name: &str, src: &str, expected_snippets: &[&str], no_std: bool) {
    let transpiled_code = transpile_mode(name, src, no_std);
    if no_std {
        assert!(transpiled_code.contains("#![no_std]"), "Missing #![no_std] in no_std mode");
    } else {
        assert!(
            !transpiled_code.contains("#![no_std]"),
            "Unexpected #![no_std] in default mode"
        );
    }
    assert!(
        transpiled_code.contains("use core::ffi::*;"),
        "Missing core::ffi import"
    );
    for snippet in expected_snippets {
        assert!(
            transpiled_code.contains(snippet),
            "Missing expected output `{snippet}` in {name}:\n{transpiled_code}"
        );
    }
}

fn check_transpiled(name: &str, src: &str, expected_snippets: &[&str]) {
    check_transpiled_with_mode(name, src, expected_snippets, false);
}

#[test]
fn test_integration_transpile_and_compile() {
    check_transpiled(
        "ffi_compute",
        FFI_COMPUTE,
        &[
            "#[repr(C)]",
            "pub struct FfiStruct",
            "pub val: c_int",
            "pub ptr: *mut c_int",
            "#[no_mangle]",
            "pub unsafe extern \"system\" fn compute(s: *const FfiStruct) -> c_int",
        ],
    );
}

#[test]
fn test_integration_clap_audio_compiles() {
    check_transpiled(
        "clap_audio",
        CLAP_AUDIO,
        &[
            "pub type clap_id = u32;",
            "pub type clap_process_status = i32;",
            "const CLAP_VERSION_MAJOR: u32 = 1;",
            "pub init: Option<unsafe extern \"system\" fn(plugin: *const clap_plugin) -> bool>,",
            "pub features: *const *const c_char,",
            "pub static clap_entry: clap_plugin_entry = clap_plugin_entry {",
            "    get_factory: None\n};",
            "pub extern \"system\" fn clap_version_is_compatible",
            "pub unsafe extern \"system\" fn plugin_has_init",
        ],
    );
}

#[test]
fn test_integration_raylib_api_compiles() {
    check_transpiled(
        "raylib_api",
        RAYLIB_API,
        &[
            "pub type Texture2D = Texture;",
            "pub type AudioCallback = Option<unsafe extern \"system\" fn(buffer: *mut c_void, frames: c_uint)>;",
            "pub struct Color",
            "pub r: c_uchar,",
            "pub recs: *mut Rectangle,",
            "pub struct rAudioBuffer {",
            "pub unsafe extern \"system\" fn InitWindow(width: c_int, height: c_int, title: *const c_char)",
            "pub unsafe extern \"system\" fn LoadSound(file_name: *const c_char) -> Sound",
            "pub unsafe extern \"system\" fn SetAudioStreamCallback(stream: AudioStream, callback: AudioCallback)",
            "pub extern \"system\" fn raylib_color",
        ],
    );
}

#[test]
fn test_integration_rust_syntax_compiles() {
    check_transpiled(
        "rust_syntax",
        RUST_SYNTAX,
        &[
            "pub unsafe fn shift",
            "pub unsafe extern \"system\" fn test_rust_syntax",
            "let prod: usize = e1 as usize * e2;",
        ],
    );
}

#[test]
fn test_integration_atomics_operators_compiles() {
    check_transpiled(
        "atomics_operators",
        ATOMICS_OPERATORS,
        &[
            "use core::sync::atomic::*;",
            "pub val: AtomicI32,",
            "pub active: AtomicBool,",
            "pub total: AtomicUsize,",
            "pub fn new(init: c_int) -> Counter",
            "pub fn increment(self: &mut Counter, step: c_int) -> c_int",
            "pub unsafe extern \"system\" fn test_operators_and_closures",
        ],
    );
}

#[test]
fn test_integration_no_std_flag_compiles() {
    check_transpiled_with_mode(
        "ffi_compute",
        FFI_COMPUTE,
        &["#![no_std]", "pub unsafe extern \"system\" fn compute"],
        true,
    );
}

#[test]
fn test_integration_no_std_header_comes_first() {
    let out = transpile_mode("ffi_compute", FFI_COMPUTE, true);
    assert!(out.starts_with("#![no_std]\n"), "Missing leading #![no_std]:\n{out}");
}
