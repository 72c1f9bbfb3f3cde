//! The decisions of the command-line driver: which crate type to build,
//! whether to compile, where the outputs go, and what to hand to `rustc`
//! and `cargo`.  Reading files, writing them and running the compilers is
//! left to the program that uses this library.
use vstd::prelude::*;
use crate::ast::opt_string_view;
use crate::text::{chars_of, contains_chars, contains_seq, matches_at, occurs_at, push_str, str_eq, string_of};

verus! {

// ---------------------------------------------------------------------------
// The options
// ---------------------------------------------------------------------------

/// Available subcommands for carbide.
pub enum Commands {
    /// Carbide cargo subcommand driver; the arguments go to the build driver.
    Carbide { args: Vec<String> },
}

/// The options of the Carbide transpiler's command line.
pub struct Cli {
    /// The subcommand to execute (cargo subcommand routing).
    pub command: Option<Commands>,
    /// Positional input `.carbide` file.
    pub input: Option<String>,
    /// Target output path for the generated Rust file.
    pub output: Option<String>,
    /// Run rustc on the transpiled output.
    pub compile: bool,
    /// Target crate type passed to rustc.
    pub crate_type: Option<String>,
    /// Compile as a dynamic library (cdylib).
    pub dll: bool,
    /// Compile as a static library archive (staticlib).
    pub staticlib: bool,
    /// Compile as a standalone executable (bin).
    pub exe: bool,
    /// Compile as a Rust library (lib).
    pub rlib: bool,
    /// Emit `#![no_std]` at the top of generated files.
    pub no_std: bool,
    /// Standard library mode (the default).
    pub std: bool,
}

/// Why a command line cannot be carried out.
pub enum CliError {
    /// No input file was given.
    NoInput,
    /// The input file does not end in `.carbide`.
    NotCarbide,
}

impl CliError {
    /// The message printed for the error.
    pub open spec fn message_spec(&self) -> Seq<char> {
        match self {
            CliError::NoInput => "Error: No input file specified."@,
            CliError::NotCarbide => "Error: Input file must have a .carbide extension."@,
        }
    }

    /// The message printed for the error.
    pub fn message(&self) -> (r: String)
        ensures
            r@ == self.message_spec(),
    {
        match self {
            CliError::NoInput => string_of(&chars_of("Error: No input file specified.")),
            CliError::NotCarbide => string_of(&chars_of("Error: Input file must have a .carbide extension.")),
        }
    }
}

/// The crate type to build: the one named, else the one that the first of
/// the shortcut flags set selects.
pub open spec fn crate_type_for(named: Option<Seq<char>>, dll: bool, staticlib: bool, exe: bool, rlib: bool) -> Option<Seq<char>> {
    match named {
        Some(c) => Some(c),
        None => if dll {
            Some("cdylib"@)
        } else if staticlib {
            Some("staticlib"@)
        } else if exe {
            Some("bin"@)
        } else if rlib {
            Some("lib"@)
        } else {
            None
        },
    }
}

/// What `str::to_lowercase` returns for a text (the Unicode lowercase
/// mapping, which does not depend on the locale).
pub uninterp spec fn unicode_lowercase(s: Seq<char>) -> Seq<char>;

/// Calls `str::to_lowercase`; its result is named `unicode_lowercase`.
#[verifier::external_body]
fn lowercase_of(s: &str) -> (r: String)
    ensures
        r@ == unicode_lowercase(s@),
{
    s.to_lowercase()
}

/// The (lowercase) file extensions of compiled binaries.
pub open spec fn is_binary_name(e: Seq<char>) -> bool {
    e == "dll"@ || e == "lib"@ || e == "a"@ || e == "so"@ || e == "dylib"@ || e == "exe"@
}

/// The (lowercase) file extensions of build artifacts worth copying back.
pub open spec fn is_artifact_name(e: Seq<char>) -> bool {
    is_binary_name(e) || e == "rlib"@
}

/// Whether a lowercase extension names a compiled binary.
pub fn is_binary_lowered(lower: &str) -> (r: bool)
    ensures
        r == is_binary_name(lower@),
{
    str_eq(lower, "dll") || str_eq(lower, "lib") || str_eq(lower, "a") || str_eq(lower, "so")
        || str_eq(lower, "dylib") || str_eq(lower, "exe")
}

/// Whether a file extension, in any case, names a compiled binary.
pub fn is_binary_extension(ext: &str) -> (r: bool)
    ensures
        r == is_binary_name(unicode_lowercase(ext@)),
{
    let lower = lowercase_of(ext);
    is_binary_lowered(lower.as_str())
}

/// Whether a lowercase extension names a build artifact.
pub fn is_artifact_lowered(lower: &str) -> (r: bool)
    ensures
        r == is_artifact_name(lower@),
{
    is_binary_lowered(lower) || str_eq(lower, "rlib")
}

/// Whether a file extension, in any case, names a build artifact.
pub fn is_artifact_extension(ext: &str) -> (r: bool)
    ensures
        r == is_artifact_name(unicode_lowercase(ext@)),
{
    let lower = lowercase_of(ext);
    is_artifact_lowered(lower.as_str())
}

/// Whether an extension is that of a Carbide source.
pub fn is_carbide_extension(ext: Option<&str>) -> (r: bool)
    ensures
        r == (ext matches Some(e) && e@ == "carbide"@),
{
    match ext {
        Some(e) => str_eq(e, "carbide"),
        None => false,
    }
}

impl Cli {
    /// The crate type that the options select.
    pub open spec fn crate_type_spec(&self) -> Option<Seq<char>> {
        crate_type_for(opt_string_view(self.crate_type), self.dll, self.staticlib, self.exe, self.rlib)
    }

    /// Whether the options ask for compilation.
    pub open spec fn compiles(&self) -> bool {
        self.compile || self.crate_type_spec() is Some
    }

    /// The crate type to pass to rustc: `--crate-type` when given, else
    /// `cdylib`, `staticlib`, `bin` or `lib` for the first of `--dll`,
    /// `--static`, `--exe` and `--lib` that is set, else none.
    pub fn effective_crate_type(&self) -> (r: Option<String>)
        ensures
            opt_string_view(r) == self.crate_type_spec(),
    {
        match &self.crate_type {
            Some(ct) => Some(ct.clone()),
            None => if self.dll {
                Some(string_of(&chars_of("cdylib")))
            } else if self.staticlib {
                Some(string_of(&chars_of("staticlib")))
            } else if self.exe {
                Some(string_of(&chars_of("bin")))
            } else if self.rlib {
                Some(string_of(&chars_of("lib")))
            } else {
                None
            },
        }
    }

    /// Whether rustc is run: `-c`, or any option that selects a crate type.
    pub fn should_compile(&self) -> (r: bool)
        ensures
            r == self.compiles(),
    {
        let ct = self.effective_crate_type();
        self.compile || ct.is_some()
    }

    /// Check the input before transpiling: there must be one, and its
    /// extension (`input_ext`) must be `carbide`.
    pub fn check_input(&self, input_ext: Option<&str>) -> (r: Result<(), CliError>)
        ensures
            self.input is None ==> r matches Err(CliError::NoInput),
            self.input is Some && !(input_ext matches Some(e) && e@ == "carbide"@) ==> r matches Err(CliError::NotCarbide),
            self.input is Some && (input_ext matches Some(e) && e@ == "carbide"@) ==> r is Ok,
    {
        if self.input.is_none() {
            Err(CliError::NoInput)
        } else if !is_carbide_extension(input_ext) {
            Err(CliError::NotCarbide)
        } else {
            Ok(())
        }
    }

    /// Whether the output path receives the compiled binary (and the
    /// generated Rust goes to the same path with the extension `rs`), for an
    /// output path with extension `out_ext` of which `binary` tells whether it
    /// names a compiled binary: when compiling to a binary extension, or to a
    /// selected crate type under a name that does not end in `.rs`.
    pub fn output_split_for(&self, out_ext: &str, binary: bool) -> (r: bool)
        ensures
            r == (self.compiles() && (binary || (self.crate_type_spec() is Some && out_ext@ != "rs"@))),
    {
        let compile = self.should_compile();
        let ct = self.effective_crate_type();
        compile && (binary || (ct.is_some() && !str_eq(out_ext, "rs")))
    }

    /// `output_split_for` an output path with extension `out_ext` (empty when
    /// it has none), whose lowercase form tells whether it names a binary.
    pub fn splits_output(&self, out_ext: &str) -> (r: bool)
        ensures
            r == (self.compiles() && (is_binary_name(unicode_lowercase(out_ext@))
                || (self.crate_type_spec() is Some && out_ext@ != "rs"@))),
    {
        let binary = is_binary_extension(out_ext);
        self.output_split_for(out_ext, binary)
    }
}

// ---------------------------------------------------------------------------
// The cargo subcommand
// ---------------------------------------------------------------------------

/// The texts of a vector of strings.
pub open spec fn strings_view(v: Seq<String>) -> Seq<Seq<char>> {
    v.map_values(|s: String| s@)
}

/// Whether `--no-std` is among the subcommand's arguments.
pub open spec fn asks_no_std(args: Seq<Seq<char>>) -> bool {
    exists|i: int| 0 <= i < args.len() && args[i] == "--no-std"@
}

/// Whether the subcommand's arguments ask for bare-metal mode.
pub fn wants_no_std(args: &Vec<String>) -> (r: bool)
    ensures
        r == asks_no_std(strings_view(args@)),
{
    let mut i: usize = 0;
    while i < args.len()
        invariant
            i <= args@.len(),
            forall|k: int| 0 <= k < i ==> strings_view(args@)[k] != "--no-std"@,
        decreases args@.len() - i,
    {
        if str_eq(args[i].as_str(), "--no-std") {
            assert(strings_view(args@)[i as int] == "--no-std"@);
            return true;
        }
        i += 1;
    }
    false
}

/// Whether an argument is one that the driver consumes itself.
pub open spec fn is_driver_arg(a: Seq<char>) -> bool {
    a == "build"@ || a == "--no-std"@ || a == "--std"@
}

/// The arguments passed on to `cargo build`, in order.
pub open spec fn forwarded_args(args: Seq<Seq<char>>) -> Seq<Seq<char>>
    decreases args.len(),
{
    if args.len() == 0 {
        seq![]
    } else if is_driver_arg(args.last()) {
        forwarded_args(args.drop_last())
    } else {
        forwarded_args(args.drop_last()).push(args.last())
    }
}

/// `build --manifest-path <manifest>`, then the subcommand's arguments but
/// `build`, `--no-std` and `--std`.
pub fn cargo_build_args(manifest: &str, args: &Vec<String>) -> (r: Vec<String>)
    ensures
        strings_view(r@) == seq!["build"@, "--manifest-path"@, manifest@] + forwarded_args(strings_view(args@)),
{
    let mut out: Vec<String> = Vec::new();
    out.push(string_of(&chars_of("build")));
    out.push(string_of(&chars_of("--manifest-path")));
    out.push(string_of(&chars_of(manifest)));
    let ghost head = seq!["build"@, "--manifest-path"@, manifest@];
    assert(strings_view(out@) =~= head);
    let mut i: usize = 0;
    while i < args.len()
        invariant
            i <= args@.len(),
            strings_view(out@) == head + forwarded_args(strings_view(args@).take(i as int)),
        decreases args@.len() - i,
    {
        let a = args[i].as_str();
        let ghost before = out@;
        assert(strings_view(args@).take(i + 1).drop_last() =~= strings_view(args@).take(i as int));
        if !(str_eq(a, "build") || str_eq(a, "--no-std") || str_eq(a, "--std")) {
            out.push(args[i].clone());
            assert(strings_view(out@) =~= strings_view(before).push(args@[i as int]@));
        }
        i += 1;
    }
    assert(strings_view(args@).take(args@.len() as int) =~= strings_view(args@));
    out
}

/// The library section added to a manifest that has none, so that cargo
/// builds the static and dynamic C libraries.
pub open spec fn lib_section() -> Seq<char> {
    "\n[lib]\ncrate-type = [\"staticlib\", \"cdylib\"]\n"@
}

/// The manifest for the build workspace: the project's own, with a library
/// section appended when it has none (no `[lib]` in it).
pub fn with_lib_section(manifest: &str) -> (r: String)
    ensures
        r@ == if contains_seq(manifest@, "[lib]"@) { manifest@ } else { manifest@ + lib_section() },
{
    let mut text = chars_of(manifest);
    let needle = chars_of("[lib]");
    if !contains_chars(&text, &needle) {
        push_str(&mut text, "\n[lib]\ncrate-type = [\"staticlib\", \"cdylib\"]\n");
    }
    string_of(&text)
}

/// Whether a file of the dependency directory is the compiled `libc`
/// crate: its name starts with `liblibc-` and ends with `.rlib`.
pub fn is_libc_rlib(file_name: &str) -> (r: bool)
    ensures
        r == (occurs_at(file_name@, "liblibc-"@, 0)
            && occurs_at(file_name@, ".rlib"@, file_name@.len() - ".rlib"@.len())),
{
    let s = chars_of(file_name);
    let pre = chars_of("liblibc-");
    let suf = chars_of(".rlib");
    if !matches_at(&s, &pre, 0) {
        return false;
    }
    if s.len() < suf.len() {
        return false;
    }
    matches_at(&s, &suf, s.len() - suf.len())
}

// ---------------------------------------------------------------------------
// The rustc command
// ---------------------------------------------------------------------------

/// The arguments of the rustc call on the generated file `rs_path`:
/// edition 2021; when the dependency directory `deps` exists, `-L` for it
/// and, when a compiled `libc` was found there, `--extern` for it; the crate
/// type; and `-o` with the binary path when there is one.
pub open spec fn rustc_args_spec(rs_path: Seq<char>, deps: Option<Seq<char>>, libc_rlib: Option<Seq<char>>,
    crate_type: Option<Seq<char>>, bin_out: Option<Seq<char>>) -> Seq<Seq<char>>
{
    seq!["--edition=2021"@, rs_path]
        + (match deps {
            Some(d) => seq!["-L"@, "dependency="@ + d] + (match libc_rlib {
                Some(l) => seq!["--extern=libc="@ + l],
                None => seq![],
            }),
            None => seq![],
        })
        + (match crate_type {
            Some(c) => seq!["--crate-type="@ + c],
            None => seq![],
        })
        + (match bin_out {
            Some(b) => seq!["-o"@, b],
            None => seq![],
        })
}

/// `prefix` followed by `rest`, as a string.
fn joined(prefix: &str, rest: &str) -> (r: String)
    ensures
        r@ == prefix@ + rest@,
{
    let mut v = chars_of(prefix);
    push_str(&mut v, rest);
    string_of(&v)
}

/// The arguments of the rustc call (see `rustc_args_spec`).
pub fn rustc_args(rs_path: &str, deps: Option<&str>, libc_rlib: Option<&str>, crate_type: Option<&str>,
    bin_out: Option<&str>) -> (r: Vec<String>)
    ensures
        strings_view(r@) == rustc_args_spec(rs_path@,
            match deps { Some(d) => Some(d@), None => None },
            match libc_rlib { Some(l) => Some(l@), None => None },
            match crate_type { Some(c) => Some(c@), None => None },
            match bin_out { Some(b) => Some(b@), None => None }),
{
    let mut out: Vec<String> = Vec::new();
    out.push(string_of(&chars_of("--edition=2021")));
    out.push(string_of(&chars_of(rs_path)));
    let ghost a = seq!["--edition=2021"@, rs_path@];
    assert(strings_view(out@) =~= a);
    let ghost b = match deps {
        Some(d) => seq!["-L"@, "dependency="@ + d@] + (match libc_rlib {
            Some(l) => seq!["--extern=libc="@ + l@],
            None => seq![],
        }),
        None => seq![],
    };
    if let Some(d) = deps {
        out.push(string_of(&chars_of("-L")));
        out.push(joined("dependency=", d));
        if let Some(l) = libc_rlib {
            out.push(joined("--extern=libc=", l));
        }
    }
    assert(strings_view(out@) =~= a + b);
    let ghost c = match crate_type {
        Some(c) => seq!["--crate-type="@ + c@],
        None => seq![],
    };
    if let Some(ct) = crate_type {
        out.push(joined("--crate-type=", ct));
    }
    assert(strings_view(out@) =~= a + b + c);
    let ghost e = match bin_out {
        Some(b) => seq!["-o"@, b@],
        None => seq![],
    };
    if let Some(bo) = bin_out {
        out.push(string_of(&chars_of("-o")));
        out.push(string_of(&chars_of(bo)));
    }
    assert(strings_view(out@) =~= a + b + c + e);
    out
}

} // verus!
