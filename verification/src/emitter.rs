//! Code emitter: converts the transformed Carbide AST into Rust source text.
//!
//! Function bodies are emitted verbatim from `body_src`; only the
//! structural skeleton (signatures, struct definitions, headers) is
//! constructed here.
use vstd::prelude::*;
use crate::ast::{
    attrs_view, fields_view, functions_view, items_view, params_view, AttributeV, FieldV,
    FunctionV, Item, ItemV, Param, ParamV, PrimitiveType, Program, ProgramV, StructV, Type, TypeV,
    Attribute, Function, Struct,
};
use crate::text::{
    chars_of, contains_chars, contains_seq, occurs_at, push_chars, push_str, str_eq, string_of,
};

verus! {

// ---------------------------------------------------------------------------
// The emitted text, as functions of the AST
// ---------------------------------------------------------------------------

/// `n` levels of four-space indentation.
pub open spec fn indentation(n: nat) -> Seq<char>
    decreases n,
{
    if n == 0 {
        seq![]
    } else {
        indentation((n - 1) as nat) + "    "@
    }
}

/// A return type that is emitted as no return type at all: `void`,
/// `c_void` or `()`.
pub open spec fn is_unit_return(t: TypeV) -> bool {
    match t {
        TypeV::UserDefined(n) => n == "void"@ || n == "c_void"@ || n == "()"@,
        _ => false,
    }
}

/// ` -> T` for a return type, or nothing when there is none or it is unit.
pub open spec fn ret_text(ret: Option<TypeV>) -> Seq<char> {
    match ret {
        Some(t) => if is_unit_return(t) { seq![] } else { " -> "@ + type_text(t) },
        None => seq![],
    }
}

/// The Rust text of a type: `*mut T`, `*const T`, `&mut T`, `&T`, `[T; N]`,
/// and `Option<unsafe extern "system" fn(..) [-> R]>` for a C function
/// pointer (nullable, as C callbacks are).
pub open spec fn type_text(t: TypeV) -> Seq<char>
    decreases t,
{
    match t {
        TypeV::Primitive(s) => s,
        TypeV::UserDefined(n) => n,
        TypeV::Pointer { base, is_const } =>
            (if is_const { "*const "@ } else { "*mut "@ }) + type_text(*base),
        TypeV::Reference { base, is_mut } =>
            (if is_mut { "&mut "@ } else { "&"@ }) + type_text(*base),
        TypeV::Array { base, len } => "["@ + type_text(*base) + "; "@ + len + "]"@,
        TypeV::FnPointer { params, ret } =>
            "Option<unsafe extern \"system\" fn("@ + params_text(params) + ")"@ + (match ret {
                Some(r) => if is_unit_return(*r) { seq![] } else { " -> "@ + type_text(*r) },
                None => seq![],
            }) + ">"@,
    }
}

/// `name: T` for each parameter, separated by `, `.
pub open spec fn params_text(ps: Seq<ParamV>) -> Seq<char>
    decreases ps,
{
    if ps.len() == 0 {
        seq![]
    } else if ps.len() == 1 {
        ps[0].name + ": "@ + type_text(ps[0].ty)
    } else {
        params_text(ps.drop_last()) + ", "@ + ps.last().name + ": "@ + type_text(ps.last().ty)
    }
}

/// One line: indentation, the text, a newline.
pub open spec fn line_text(n: nat, s: Seq<char>) -> Seq<char> {
    indentation(n) + s + "\n"@
}

/// `#[attr]` lines.
pub open spec fn attrs_text(attrs: Seq<AttributeV>, n: nat) -> Seq<char>
    decreases attrs.len(),
{
    if attrs.len() == 0 {
        seq![]
    } else {
        attrs_text(attrs.drop_last(), n) + line_text(n, "#["@ + attrs.last().tokens + "]"@)
    }
}

/// `pub [unsafe] [extern "abi"] fn name(`.
pub open spec fn fn_head_text(f: FunctionV) -> Seq<char> {
    "pub "@
        + (if f.is_unsafe { "unsafe "@ } else { seq![] })
        + (match f.abi {
            Some(a) => "extern \""@ + a + "\" "@,
            None => seq![],
        })
        + "fn "@ + f.name + "("@
}

/// A function: its attributes, then `pub [unsafe] [extern "abi"] fn name(params) [-> R] {body}`.
pub open spec fn fn_text(f: FunctionV, n: nat) -> Seq<char> {
    attrs_text(f.attrs, n) + indentation(n) + fn_head_text(f) + params_text(f.params) + ")"@
        + ret_text(f.ret_type) + " {"@ + f.body_src + "}\n"@
}

/// `pub name: T,` lines for the fields of a struct.
pub open spec fn fields_text(fs: Seq<FieldV>, n: nat) -> Seq<char>
    decreases fs.len(),
{
    if fs.len() == 0 {
        seq![]
    } else {
        fields_text(fs.drop_last(), n) + indentation(n) + "pub "@ + fs.last().name + ": "@ + type_text(fs.last().ty) + ",\n"@
    }
}

/// A struct: its attributes, `pub struct Name {`, its fields, `}`.
pub open spec fn struct_text(s: StructV, n: nat) -> Seq<char> {
    attrs_text(s.attrs, n) + line_text(n, "pub struct "@ + s.name + " {"@) + fields_text(s.fields, n + 1) + line_text(n, "}"@)
}

/// The methods of an impl block, each followed by an empty line.
pub open spec fn methods_text(ms: Seq<FunctionV>, n: nat) -> Seq<char>
    decreases ms.len(),
{
    if ms.len() == 0 {
        seq![]
    } else {
        methods_text(ms.drop_last(), n) + fn_text(ms.last(), n) + "\n"@
    }
}

/// The text of an item.
pub open spec fn item_text(item: ItemV, n: nat) -> Seq<char> {
    match item {
        ItemV::Use(path) => line_text(n, "use "@ + path + ";"@),
        ItemV::Struct(s) => struct_text(s, n),
        ItemV::Fn(f) => fn_text(f, n),
        ItemV::Enum { name, body } => line_text(n, "enum "@ + name + " {"@) + body
            + (if body.len() > 0 && body.last() == '\n' { seq![] } else { "\n"@ }) + line_text(n, "}"@),
        ItemV::Impl { target, methods } => line_text(n, "impl "@ + target + " {"@) + methods_text(methods, n + 1) + line_text(n, "}"@),
        ItemV::TypeAlias { name, ty } => indentation(n) + "pub type "@ + name + " = "@ + type_text(ty) + ";\n"@,
        ItemV::Raw { attrs, src } => attrs_text(attrs, n) + indentation(n) + src + "\n"@,
    }
}

/// The items of a program, each followed by an empty line.
pub open spec fn items_text(items: Seq<ItemV>) -> Seq<char>
    decreases items.len(),
{
    if items.len() == 0 {
        seq![]
    } else {
        items_text(items.drop_last()) + item_text(items.last(), 0) + "\n"@
    }
}

/// The libc type names whose use brings in `use libc::*;`.
pub open spec fn libc_type_names() -> Seq<Seq<char>> {
    seq!["size_t"@, "ssize_t"@, "ptrdiff_t"@, "uintptr_t"@, "intptr_t"@, "off_t"@, "pid_t"@]
}

/// Some libc type name occurs in `text`.
pub open spec fn needs_libc(text: Seq<char>) -> bool {
    exists|i: int| 0 <= i < libc_type_names().len() && contains_seq(text, #[trigger] libc_type_names()[i])
}

/// The atomic types that the C atomic type names map to, whose use brings
/// in `use core::sync::atomic::*;`.
pub open spec fn atomic_type_names() -> Seq<Seq<char>> {
    seq!["AtomicBool"@, "AtomicI32"@, "AtomicU32"@, "AtomicI64"@, "AtomicU64"@, "AtomicUsize"@, "AtomicIsize"@]
}

/// Some atomic type name occurs in `text`.
pub open spec fn needs_atomics(text: Seq<char>) -> bool {
    exists|i: int| 0 <= i < atomic_type_names().len() && contains_seq(text, #[trigger] atomic_type_names()[i])
}

/// The header of a generated file: `#![no_std]` in bare-metal mode, the
/// FFI style lints, `use core::ffi::*;`, `use libc::*;` when the items
/// mention a libc type, and `use core::sync::atomic::*;` when they mention
/// an atomic type.
pub open spec fn header_text(no_std: bool, items: Seq<char>) -> Seq<char> {
    (if no_std { "#![no_std]\n"@ } else { seq![] })
        + "#![allow(non_camel_case_types)]\n"@
        + "#![allow(non_snake_case)]\n"@
        + "#![allow(non_upper_case_globals)]\n\n"@
        + "use core::ffi::*;\n"@
        + (if needs_libc(items) { "use libc::*;\n"@ } else { seq![] })
        + (if needs_atomics(items) { "use core::sync::atomic::*;\n"@ } else { seq![] })
        + "\n"@
}

/// The complete text generated for a program.
pub open spec fn program_text(p: ProgramV, no_std: bool) -> Seq<char> {
    header_text(no_std, items_text(p.items)) + items_text(p.items)
}

// ---------------------------------------------------------------------------
// Laws of the emitted text
// ---------------------------------------------------------------------------

/// The generated file starts with `#![no_std]` exactly in bare-metal mode:
/// standard library mode, the default, never emits it.
pub proof fn law_no_std_header(p: ProgramV, no_std: bool)
    ensures
        ({
            let t = program_text(p, no_std);
            let h = "#![no_std]\n"@;
            t.len() >= h.len() && t.subrange(0, h.len() as int) == h
        }) <==> no_std,
{
    reveal_strlit("#![no_std]\n");
    reveal_strlit("#![allow(non_camel_case_types)]\n");
    let t = program_text(p, no_std);
    let h = "#![no_std]\n"@;
    if no_std {
        assert(t.subrange(0, h.len() as int) =~= h);
    } else {
        assert(t[3] == 'a');
        assert(h[3] == 'n');
        assert(t.len() >= h.len() ==> t.subrange(0, h.len() as int)[3] != h[3]);
    }
}

/// Every generated file carries the FFI style lint allowances and
/// `use core::ffi::*;`, whatever the mode and the items.
pub proof fn law_header_lines(p: ProgramV, no_std: bool)
    ensures
        contains_seq(program_text(p, no_std), "#![allow(non_camel_case_types)]\n"@),
        contains_seq(program_text(p, no_std), "#![allow(non_snake_case)]\n"@),
        contains_seq(program_text(p, no_std), "#![allow(non_upper_case_globals)]\n\n"@),
        contains_seq(program_text(p, no_std), "use core::ffi::*;\n"@),
{
    let t = program_text(p, no_std);
    let a = if no_std { "#![no_std]\n"@ } else { seq![] };
    let l1 = "#![allow(non_camel_case_types)]\n"@;
    let l2 = "#![allow(non_snake_case)]\n"@;
    let l3 = "#![allow(non_upper_case_globals)]\n\n"@;
    let ffi = "use core::ffi::*;\n"@;
    let i1 = a.len() as int;
    let i2 = i1 + l1.len();
    let i3 = i2 + l2.len();
    let i4 = i3 + l3.len();
    assert(t.subrange(i1, i1 + l1.len()) =~= l1);
    assert(occurs_at(t, l1, i1));
    assert(t.subrange(i2, i2 + l2.len()) =~= l2);
    assert(occurs_at(t, l2, i2));
    assert(t.subrange(i3, i3 + l3.len()) =~= l3);
    assert(occurs_at(t, l3, i3));
    assert(t.subrange(i4, i4 + ffi.len()) =~= ffi);
    assert(occurs_at(t, ffi, i4));
}

/// The header of the file, after the lint allowances and
/// `use core::ffi::*;`, imports `libc` exactly when a libc type name occurs
/// in the emitted items, and `core::sync::atomic` exactly when an atomic
/// type name does; nothing else stands between the imports and the items.
pub proof fn law_conditional_imports(p: ProgramV, no_std: bool)
    ensures
        program_text(p, no_std) ==
            (if no_std { "#![no_std]\n"@ } else { seq![] })
            + "#![allow(non_camel_case_types)]\n"@
            + "#![allow(non_snake_case)]\n"@
            + "#![allow(non_upper_case_globals)]\n\n"@
            + "use core::ffi::*;\n"@
            + (if needs_libc(items_text(p.items)) { "use libc::*;\n"@ } else { seq![] })
            + (if needs_atomics(items_text(p.items)) { "use core::sync::atomic::*;\n"@ } else { seq![] })
            + "\n"@
            + items_text(p.items),
        needs_libc(items_text(p.items)) ==> contains_seq(program_text(p, no_std), "use libc::*;\n"@),
        needs_atomics(items_text(p.items)) ==> contains_seq(program_text(p, no_std), "use core::sync::atomic::*;\n"@),
{
    let t = program_text(p, no_std);
    let items = items_text(p.items);
    let pre = (if no_std { "#![no_std]\n"@ } else { seq![] })
        + "#![allow(non_camel_case_types)]\n"@
        + "#![allow(non_snake_case)]\n"@
        + "#![allow(non_upper_case_globals)]\n\n"@
        + "use core::ffi::*;\n"@;
    let lib = "use libc::*;\n"@;
    let lib_part = if needs_libc(items) { lib } else { seq![] };
    let atom = "use core::sync::atomic::*;\n"@;
    if needs_libc(items) {
        assert(t.subrange(pre.len() as int, (pre.len() + lib.len()) as int) =~= lib);
        assert(occurs_at(t, lib, pre.len() as int));
    }
    if needs_atomics(items) {
        let k = (pre.len() + lib_part.len()) as int;
        assert(t.subrange(k, k + atom.len()) =~= atom);
        assert(occurs_at(t, atom, k));
    }
}

/// A `void`, `c_void` or `()` return type is emitted as no return type at
/// all, for functions and for function pointer types alike.
pub proof fn law_unit_return_omitted(t: TypeV, params: Seq<ParamV>)
    requires
        is_unit_return(t),
    ensures
        ret_text(Some(t)) == Seq::<char>::empty(),
        type_text(TypeV::FnPointer { params, ret: Some(Box::new(t)) })
            == "Option<unsafe extern \"system\" fn("@ + params_text(params) + ")>"@,
{
    assert(type_text(TypeV::FnPointer { params, ret: Some(Box::new(t)) })
        =~= "Option<unsafe extern \"system\" fn("@ + params_text(params) + ")>"@) by {
        reveal_strlit(")>");
        reveal_strlit(")");
        reveal_strlit(">");
    }
}

/// An enum item is emitted as the line `enum Name {`, then its body
/// verbatim, a newline where the body does not already end with one, and
/// the closing line `}`; the body is thus found whole in the emitted text.
pub proof fn law_enum_body_verbatim(name: Seq<char>, body: Seq<char>, n: nat)
    ensures
        ({
            let t = item_text(ItemV::Enum { name, body }, n);
            let head = indentation(n) + "enum "@ + name + " {\n"@;
            let tail = indentation(n) + "}\n"@;
            let gap: int = if body.len() > 0 && body.last() == '\n' { 0 } else { 1 };
            &&& t.len() == head.len() + body.len() + gap + tail.len()
            &&& t.subrange(0, head.len() as int) == head
            &&& t.subrange(head.len() as int, (head.len() + body.len()) as int) == body
            &&& t.subrange((t.len() - tail.len()) as int, t.len() as int) == tail
            &&& (gap == 1 ==> t[(head.len() + body.len()) as int] == '\n')
            &&& contains_seq(t, body)
        }),
{
    reveal_strlit("enum ");
    reveal_strlit(" {");
    reveal_strlit(" {\n");
    reveal_strlit("}");
    reveal_strlit("}\n");
    reveal_strlit("\n");
    let t = item_text(ItemV::Enum { name, body }, n);
    let head = indentation(n) + "enum "@ + name + " {\n"@;
    let tail = indentation(n) + "}\n"@;
    let nl: Seq<char> = if body.len() > 0 && body.last() == '\n' { seq![] } else { "\n"@ };
    assert(line_text(n, "enum "@ + name + " {"@) =~= head);
    assert(line_text(n, "}"@) =~= tail);
    assert(t =~= head + body + nl + tail);
    assert(t.subrange(0, head.len() as int) =~= head);
    assert(t.subrange(head.len() as int, (head.len() + body.len()) as int) =~= body);
    assert(t.subrange((t.len() - tail.len()) as int, t.len() as int) =~= tail);
    assert(occurs_at(t, body, head.len() as int));
}

/// Whether one of `names` (whose texts are `spec_names`) occurs in `text`.
fn mentions_any(text: &Vec<char>, names: &Vec<&str>, Ghost(spec_names): Ghost<Seq<Seq<char>>>) -> (r: bool)
    requires
        names@.map_values(|n: &str| n@) == spec_names,
    ensures
        r == exists|i: int| 0 <= i < spec_names.len() && contains_seq(text@, #[trigger] spec_names[i]),
{
    let mut i: usize = 0;
    while i < names.len()
        invariant
            i <= names@.len(),
            names@.map_values(|n: &str| n@) == spec_names,
            forall|k: int| 0 <= k < i ==> !contains_seq(text@, #[trigger] spec_names[k]),
        decreases names@.len() - i,
    {
        let needle = chars_of(names[i]);
        assert(spec_names[i as int] == names@[i as int]@);
        if contains_chars(text, &needle) {
            return true;
        }
        i += 1;
    }
    false
}

// ---------------------------------------------------------------------------
// The emitter
// ---------------------------------------------------------------------------

/// Emits a transformed Carbide AST as a Rust source string.
pub struct Emitter {
    output: Vec<char>,
    indent_level: usize,
    no_std: bool,
}

impl Emitter {
    /// The text emitted so far.
    pub closed spec fn text(&self) -> Seq<char> {
        self.output@
    }

    /// The current indentation level.
    pub closed spec fn level(&self) -> nat {
        self.indent_level as nat
    }

    /// Whether `#![no_std]` is emitted.
    pub closed spec fn bare_metal(&self) -> bool {
        self.no_std
    }

    /// Create a new Emitter in standard library mode (no `#![no_std]`).
    pub fn new() -> (e: Self)
        ensures
            e.text() == Seq::<char>::empty(),
            e.level() == 0,
            !e.bare_metal(),
    {
        Emitter { output: Vec::new(), indent_level: 0, no_std: false }
    }

    /// Create a new Emitter that emits `#![no_std]` exactly when `no_std` holds.
    pub fn with_no_std(no_std: bool) -> (e: Self)
        ensures
            e.text() == Seq::<char>::empty(),
            e.level() == 0,
            e.bare_metal() == no_std,
    {
        Emitter { output: Vec::new(), indent_level: 0, no_std }
    }

    /// Retrieve the final emitted source.
    pub fn finish(self) -> (s: String)
        ensures
            s@ == self.text(),
    {
        string_of(&self.output)
    }

    // -------------------------------------------------------------------------
    // Helpers
    // -------------------------------------------------------------------------

    fn indent(&mut self)
        ensures
            final(self).output@ == old(self).output@ + indentation(old(self).indent_level as nat),
            final(self).indent_level == old(self).indent_level,
            final(self).no_std == old(self).no_std,
    {
        let mut i: usize = 0;
        let ghost start = self.output@;
        while i < self.indent_level
            invariant
                i <= self.indent_level,
                self.indent_level == old(self).indent_level,
                self.no_std == old(self).no_std,
                start == old(self).output@,
                self.output@ == start + indentation(i as nat),
            decreases self.indent_level - i,
        {
            push_str(&mut self.output, "    ");
            i += 1;
            assert(start + indentation((i - 1) as nat) + "    "@ =~= start + indentation(i as nat));
        }
    }

    fn line(&mut self, s: &Vec<char>)
        ensures
            final(self).output@ == old(self).output@ + line_text(old(self).indent_level as nat, s@),
            final(self).indent_level == old(self).indent_level,
            final(self).no_std == old(self).no_std,
    {
        self.indent();
        push_chars(&mut self.output, s);
        push_str(&mut self.output, "\n");
        assert(old(self).output@ + indentation(old(self).indent_level as nat) + s@ + "\n"@
            =~= old(self).output@ + line_text(old(self).indent_level as nat, s@));
    }

    // -------------------------------------------------------------------------
    // Program
    // -------------------------------------------------------------------------

    /// Emit a complete program, after the header: `#![no_std]` in bare-metal
    /// mode, the lint allowances, `use core::ffi::*;`, and `use libc::*;`
    /// when a libc type name occurs in the emitted items.
    pub fn emit_program(&mut self, program: &Program)
        ensures
            final(self).text() == old(self).text() + program_text(program@, old(self).bare_metal()),
            final(self).level() == old(self).level(),
            final(self).bare_metal() == old(self).bare_metal(),
    {
        // Emit items to a temporary buffer so we can scan for libc types
        let mut tmp = Emitter::new();
        let mut i: usize = 0;
        while i < program.items.len()
            invariant
                i <= program.items@.len(),
                tmp.indent_level == 0,
                tmp.output@ == items_text(items_view(program.items@).take(i as int)),
            decreases program.items@.len() - i,
        {
            tmp.emit_item(&program.items[i]);
            push_str(&mut tmp.output, "\n");
            proof {
                let iv = items_view(program.items@);
                assert(iv.take(i + 1).drop_last() =~= iv.take(i as int));
                assert(items_text(iv.take(i as int)) + item_text(iv[i as int], 0) + "\n"@ == items_text(iv.take(i + 1)));
            }
            i += 1;
        }
        assert(items_view(program.items@).take(program.items@.len() as int) =~= program@.items);
        let items_src = tmp.output;
        let ghost start = self.output@;
        self.emit_header(&items_src);
        push_chars(&mut self.output, &items_src);
        assert(self.output@ =~= start + (header_text(self.no_std, items_src@) + items_src@));
    }

    /// Emit the header for items whose text is `items_src`.
    fn emit_header(&mut self, items_src: &Vec<char>)
        ensures
            final(self).output@ == old(self).output@ + header_text(old(self).no_std, items_src@),
            final(self).indent_level == old(self).indent_level,
            final(self).no_std == old(self).no_std,
    {
        let ghost start = self.output@;
        let libc_names = vec!["size_t", "ssize_t", "ptrdiff_t", "uintptr_t", "intptr_t", "off_t", "pid_t"];
        let atomic_names = vec!["AtomicBool", "AtomicI32", "AtomicU32", "AtomicI64", "AtomicU64", "AtomicUsize", "AtomicIsize"];
        proof {
            assert(libc_names@.map_values(|n: &str| n@) =~= libc_type_names());
            assert(atomic_names@.map_values(|n: &str| n@) =~= atomic_type_names());
        }
        let needs = mentions_any(items_src, &libc_names, Ghost(libc_type_names()));
        let needs_atomic = mentions_any(items_src, &atomic_names, Ghost(atomic_type_names()));
        if self.no_std {
            push_str(&mut self.output, "#![no_std]\n");
        }
        // FFI bindings carry C-style names (snake_case types, SCREAMING
        // constants): silence the style lints that would otherwise fire on
        // every generated binding.
        push_str(&mut self.output, "#![allow(non_camel_case_types)]\n");
        push_str(&mut self.output, "#![allow(non_snake_case)]\n");
        push_str(&mut self.output, "#![allow(non_upper_case_globals)]\n\n");
        push_str(&mut self.output, "use core::ffi::*;\n");
        if needs {
            push_str(&mut self.output, "use libc::*;\n");
        }
        if needs_atomic {
            push_str(&mut self.output, "use core::sync::atomic::*;\n");
        }
        push_str(&mut self.output, "\n");
        assert(self.output@ =~= start + header_text(self.no_std, items_src@));
    }

    // -------------------------------------------------------------------------
    // Items
    // -------------------------------------------------------------------------

    fn emit_attrs(&mut self, attrs: &Vec<Attribute>)
        ensures
            final(self).output@ == old(self).output@ + attrs_text(attrs_view(attrs@), old(self).indent_level as nat),
            final(self).indent_level == old(self).indent_level,
            final(self).no_std == old(self).no_std,
    {
        let mut i: usize = 0;
        let ghost n = self.indent_level as nat;
        while i < attrs.len()
            invariant
                i <= attrs@.len(),
                self.indent_level == old(self).indent_level,
                n == old(self).indent_level as nat,
                self.no_std == old(self).no_std,
                self.output@ == old(self).output@ + attrs_text(attrs_view(attrs@).take(i as int), n),
            decreases attrs@.len() - i,
        {
            let mut v = chars_of("#[");
            push_str(&mut v, attrs[i].tokens.as_str());
            push_str(&mut v, "]");
            self.line(&v);
            proof {
                let av = attrs_view(attrs@);
                assert(av.take(i + 1).drop_last() =~= av.take(i as int));
                assert(old(self).output@ + attrs_text(av.take(i as int), n) + line_text(n, "#["@ + attrs@[i as int].tokens@ + "]"@)
                    =~= old(self).output@ + attrs_text(av.take(i + 1), n));
            }
            i += 1;
        }
        assert(attrs_view(attrs@).take(attrs@.len() as int) =~= attrs_view(attrs@));
    }

    #[verifier::spinoff_prover]
    #[verifier::rlimit(40)]
    fn emit_item(&mut self, item: &Item)
        requires
            old(self).indent_level < usize::MAX,
        ensures
            final(self).output@ == old(self).output@ + item_text(item@, old(self).indent_level as nat),
            final(self).indent_level == old(self).indent_level,
            final(self).no_std == old(self).no_std,
    {
        let ghost n = self.indent_level as nat;
        match item {
            Item::Use(path) => {
                let mut v = chars_of("use ");
                push_str(&mut v, path.as_str());
                push_str(&mut v, ";");
                self.line(&v);
            },
            Item::Struct(s) => {
                self.emit_struct(s);
            },
            Item::Fn(f) => {
                self.emit_fn(f);
            },
            Item::Enum { name, body } => {
                let mut v = chars_of("enum ");
                push_str(&mut v, name.as_str());
                push_str(&mut v, " {");
                self.line(&v);
                // Body already contains the user's enum variants verbatim
                let b = chars_of(body.as_str());
                push_chars(&mut self.output, &b);
                let ends_nl = b.len() > 0 && b[b.len() - 1] == '\n';
                if !ends_nl {
                    push_str(&mut self.output, "\n");
                }
                self.line(&chars_of("}"));
                assert(self.output@ =~= old(self).output@ + item_text(item@, n));
            },
            Item::Impl { target, methods } => {
                let mut v = chars_of("impl ");
                push_str(&mut v, target.as_str());
                push_str(&mut v, " {");
                self.line(&v);
                let ghost mid = self.output@;
                self.indent_level += 1;
                self.emit_methods(methods);
                self.indent_level -= 1;
                self.line(&chars_of("}"));
                assert(self.output@ =~= old(self).output@ + item_text(item@, n));
            },
            Item::TypeAlias { name, ty } => {
                self.indent();
                push_str(&mut self.output, "pub type ");
                push_str(&mut self.output, name.as_str());
                push_str(&mut self.output, " = ");
                self.emit_type(ty);
                push_str(&mut self.output, ";\n");
                assert(self.output@ =~= old(self).output@ + item_text(item@, n));
            },
            Item::Raw { attrs, src } => {
                self.emit_attrs(attrs);
                self.indent();
                push_str(&mut self.output, src.as_str());
                push_str(&mut self.output, "\n");
                assert(self.output@ =~= old(self).output@ + item_text(item@, n));
            },
        }
    }

    fn emit_methods(&mut self, methods: &Vec<Function>)
        ensures
            final(self).output@ == old(self).output@ + methods_text(functions_view(methods@), old(self).indent_level as nat),
            final(self).indent_level == old(self).indent_level,
            final(self).no_std == old(self).no_std,
    {
        let ghost n = self.indent_level as nat;
        let mut i: usize = 0;
        while i < methods.len()
            invariant
                i <= methods@.len(),
                self.indent_level == old(self).indent_level,
                n == old(self).indent_level as nat,
                self.no_std == old(self).no_std,
                self.output@ == old(self).output@ + methods_text(functions_view(methods@).take(i as int), n),
            decreases methods@.len() - i,
        {
            self.emit_fn(&methods[i]);
            push_str(&mut self.output, "\n");
            proof {
                let mv = functions_view(methods@);
                assert(mv.take(i + 1).drop_last() =~= mv.take(i as int));
                assert(old(self).output@ + methods_text(mv.take(i as int), n) + fn_text(mv[i as int], n) + "\n"@
                    =~= old(self).output@ + methods_text(mv.take(i + 1), n));
            }
            i += 1;
        }
        assert(functions_view(methods@).take(methods@.len() as int) =~= functions_view(methods@));
    }

    // -------------------------------------------------------------------------
    // Struct
    // -------------------------------------------------------------------------

    fn emit_struct(&mut self, s: &Struct)
        requires
            old(self).indent_level < usize::MAX,
        ensures
            final(self).output@ == old(self).output@ + struct_text(s@, old(self).indent_level as nat),
            final(self).indent_level == old(self).indent_level,
            final(self).no_std == old(self).no_std,
    {
        let ghost n = self.indent_level as nat;
        self.emit_attrs(&s.attrs);
        let mut v = chars_of("pub struct ");
        push_str(&mut v, s.name.as_str());
        push_str(&mut v, " {");
        self.line(&v);
        let ghost mid = self.output@;
        self.indent_level += 1;
        let mut i: usize = 0;
        while i < s.fields.len()
            invariant
                i <= s.fields@.len(),
                self.indent_level == n + 1,
                self.no_std == old(self).no_std,
                self.output@ == mid + fields_text(fields_view(s.fields@).take(i as int), n + 1),
            decreases s.fields@.len() - i,
        {
            let ghost before = self.output@;
            self.indent();
            push_str(&mut self.output, "pub ");
            push_str(&mut self.output, s.fields[i].name.as_str());
            push_str(&mut self.output, ": ");
            self.emit_type(&s.fields[i].ty);
            push_str(&mut self.output, ",\n");
            proof {
                let fv = fields_view(s.fields@);
                assert(fv.take(i + 1).drop_last() =~= fv.take(i as int));
                assert(self.output@ =~= mid + fields_text(fv.take(i + 1), n + 1));
            }
            i += 1;
        }
        assert(fields_view(s.fields@).take(s.fields@.len() as int) =~= fields_view(s.fields@));
        self.indent_level -= 1;
        self.line(&chars_of("}"));
        assert(self.output@ =~= old(self).output@ + struct_text(s@, n));
    }

    // -------------------------------------------------------------------------
    // Function
    // -------------------------------------------------------------------------

    fn emit_fn(&mut self, f: &Function)
        ensures
            final(self).output@ == old(self).output@ + fn_text(f@, old(self).indent_level as nat),
            final(self).indent_level == old(self).indent_level,
            final(self).no_std == old(self).no_std,
    {
        let ghost n = self.indent_level as nat;
        self.emit_attrs(&f.attrs);
        self.indent();
        let ghost a = self.output@;
        self.emit_fn_head(f);
        let ghost b = self.output@;
        self.emit_params(&f.params);
        push_str(&mut self.output, ")");
        let ghost c = self.output@;
        match &f.ret_type {
            Some(ret) => {
                if !is_unit_type(ret) {
                    push_str(&mut self.output, " -> ");
                    self.emit_type(ret);
                    assert(self.output@ =~= c + ret_text(f@.ret_type));
                } else {
                    assert(self.output@ =~= c + ret_text(f@.ret_type));
                }
            },
            None => {
                assert(self.output@ =~= c + ret_text(f@.ret_type));
            },
        }
        let ghost d = self.output@;
        // The body is emitted verbatim between `{` and `}`.
        push_str(&mut self.output, " {");
        push_str(&mut self.output, f.body_src.as_str());
        push_str(&mut self.output, "}\n");
        assert(self.output@ =~= d + (" {"@ + f@.body_src + "}\n"@));
        assert(self.output@ =~= old(self).output@ + fn_text(f@, n));
    }

    /// Emits `pub [unsafe] [extern "abi"] fn name(`.
    fn emit_fn_head(&mut self, f: &Function)
        ensures
            final(self).output@ == old(self).output@ + fn_head_text(f@),
            final(self).indent_level == old(self).indent_level,
            final(self).no_std == old(self).no_std,
    {
        push_str(&mut self.output, "pub ");
        let ghost a = self.output@;
        if f.is_unsafe {
            push_str(&mut self.output, "unsafe ");
        }
        let ghost b = self.output@;
        match &f.abi {
            Some(abi) => {
                push_str(&mut self.output, "extern \"");
                push_str(&mut self.output, abi.as_str());
                push_str(&mut self.output, "\" ");
                assert(self.output@ =~= b + ("extern \""@ + abi@ + "\" "@));
            },
            None => {},
        }
        push_str(&mut self.output, "fn ");
        push_str(&mut self.output, f.name.as_str());
        push_str(&mut self.output, "(");
        assert(self.output@ =~= old(self).output@ + fn_head_text(f@));
    }

    /// Emits `name: T` for each parameter, separated by `, `.
    #[verifier::loop_isolation(false)]
    fn emit_params(&mut self, params: &Vec<Param>)
        ensures
            final(self).output@ == old(self).output@ + params_text(params_view(params@)),
            final(self).indent_level == old(self).indent_level,
            final(self).no_std == old(self).no_std,
        decreases params@,
    {
        let mut i: usize = 0;
        while i < params.len()
            invariant
                i <= params@.len(),
                self.indent_level == old(self).indent_level,
                self.no_std == old(self).no_std,
                self.output@ == old(self).output@ + params_text(params_view(params@.take(i as int))),
            decreases params@.len() - i,
        {
            if i > 0 {
                push_str(&mut self.output, ", ");
            }
            push_str(&mut self.output, params[i].name.as_str());
            push_str(&mut self.output, ": ");
            proof {
                broadcast use vstd::std_specs::vec::axiom_vec_index_decreases;
                assert(decreases_to!(*params => params[i as int]));
            }
            self.emit_type(&params[i].ty);
            proof {
                let pt = params@.take(i + 1);
                assert(pt.drop_last() =~= params@.take(i as int));
                assert(params_view(pt).drop_last() =~= params_view(params@.take(i as int)));
                assert(params_view(pt).last() == params@[i as int]@);
                if i == 0 {
                    assert(params_view(pt).len() == 1);
                }
                assert(self.output@ =~= old(self).output@ + params_text(params_view(pt)));
            }
            i += 1;
        }
        assert(params@.take(params@.len() as int) =~= params@);
    }

    // -------------------------------------------------------------------------
    // Type
    // -------------------------------------------------------------------------

    /// Emit a structured type node.  Only called for signature types; body
    /// types are emitted as part of the verbatim `body_src` string.
    pub fn emit_type(&mut self, ty: &Type)
        ensures
            final(self).text() == old(self).text() + type_text(ty@),
            final(self).level() == old(self).level(),
            final(self).bare_metal() == old(self).bare_metal(),
        decreases ty,
    {
        match ty {
            Type::Primitive(PrimitiveType::RustPrimitive(s)) => {
                push_str(&mut self.output, s.as_str());
            },
            Type::UserDefined(name) => {
                push_str(&mut self.output, name.as_str());
            },
            Type::Pointer { base, is_const } => {
                if *is_const {
                    push_str(&mut self.output, "*const ");
                } else {
                    push_str(&mut self.output, "*mut ");
                }
                self.emit_type(base);
                assert(self.output@ =~= old(self).output@ + type_text(ty@));
            },
            Type::Reference { base, is_mut } => {
                if *is_mut {
                    push_str(&mut self.output, "&mut ");
                } else {
                    push_str(&mut self.output, "&");
                }
                self.emit_type(base);
                assert(self.output@ =~= old(self).output@ + type_text(ty@));
            },
            Type::Array { base, len } => {
                push_str(&mut self.output, "[");
                self.emit_type(base);
                push_str(&mut self.output, "; ");
                push_str(&mut self.output, len.as_str());
                push_str(&mut self.output, "]");
                assert(self.output@ =~= old(self).output@ + type_text(ty@));
            },
            Type::FnPointer { params, ret } => {
                // C function pointers are nullable: Option<...> with the
                // pointer-null optimisation, and calling into C is unsafe.
                push_str(&mut self.output, "Option<unsafe extern \"system\" fn(");
                self.emit_params(params);
                push_str(&mut self.output, ")");
                match ret {
                    Some(r) => {
                        if !is_unit_type(r) {
                            push_str(&mut self.output, " -> ");
                            self.emit_type(r);
                        }
                    },
                    None => {},
                }
                push_str(&mut self.output, ">");
                assert(self.output@ =~= old(self).output@ + type_text(ty@));
            },
        }
    }
}

/// Whether a return type is emitted as no return type (`void`, `c_void`, `()`).
fn is_unit_type(t: &Type) -> (r: bool)
    ensures
        r == is_unit_return(t@),
{
    match t {
        Type::UserDefined(n) => str_eq(n.as_str(), "void") || str_eq(n.as_str(), "c_void") || str_eq(n.as_str(), "()"),
        _ => false,
    }
}

/// The header without a libc import.
spec fn header_without_libc(no_std: bool, atomics: bool) -> Seq<char> {
    (if no_std { "#![no_std]\n"@ } else { seq![] })
        + "#![allow(non_camel_case_types)]\n"@
        + "#![allow(non_snake_case)]\n"@
        + "#![allow(non_upper_case_globals)]\n\n"@
        + "use core::ffi::*;\n"@
        + (if atomics { "use core::sync::atomic::*;\n"@ } else { seq![] })
        + "\n"@
}

proof fn lemma_no_libc_import_in(no_std: bool, atomics: bool)
    ensures
        !contains_seq(header_without_libc(no_std, atomics), "use libc::*;"@),
{
    reveal_strlit("#![no_std]\n");
    reveal_strlit("#![allow(non_camel_case_types)]\n");
    reveal_strlit("#![allow(non_snake_case)]\n");
    reveal_strlit("#![allow(non_upper_case_globals)]\n\n");
    reveal_strlit("use core::ffi::*;\n");
    reveal_strlit("use core::sync::atomic::*;\n");
    reveal_strlit("\n");
    reveal_strlit("use libc::*;");
    let h = header_without_libc(no_std, atomics);
    let n = "use libc::*;"@;
    assert forall|k: int| !#[trigger] occurs_at(h, n, k) by {
        if occurs_at(h, n, k) {
            assert(h.subrange(k, k + n.len())[4] == n[4]);
            assert(h.subrange(k, k + n.len())[0] == n[0]);
            assert(h.subrange(k, k + n.len())[1] == n[1]);
            assert(h[k + 4] == 'l' && h[k] == 'u' && h[k + 1] == 's');
        }
    }
}

/// The generated text ends with the items' text, and the header before it
/// imports `libc` exactly when a libc type name occurs in the items.
pub proof fn law_libc_import_exactly_when_needed(p: ProgramV, no_std: bool)
    ensures
        ({
            let t = program_text(p, no_std);
            let items = items_text(p.items);
            &&& t.len() >= items.len()
            &&& t.subrange(t.len() - items.len(), t.len() as int) == items
            &&& contains_seq(t.subrange(0, t.len() - items.len()), "use libc::*;"@) <==> needs_libc(items)
        }),
{
    let t = program_text(p, no_std);
    let items = items_text(p.items);
    let h = header_text(no_std, items);
    assert(t.subrange(t.len() - items.len(), t.len() as int) =~= items);
    assert(t.subrange(0, t.len() - items.len()) =~= h);
    let atomics = needs_atomics(items);
    if needs_libc(items) {
        reveal_strlit("use libc::*;\n");
        reveal_strlit("use libc::*;");
        let pre = (if no_std { "#![no_std]\n"@ } else { seq![] })
            + "#![allow(non_camel_case_types)]\n"@
            + "#![allow(non_snake_case)]\n"@
            + "#![allow(non_upper_case_globals)]\n\n"@
            + "use core::ffi::*;\n"@;
        let n = "use libc::*;"@;
        assert(h.subrange(pre.len() as int, (pre.len() + n.len()) as int) =~= n);
        assert(occurs_at(h, n, pre.len() as int));
    } else {
        assert(h =~= header_without_libc(no_std, atomics));
        lemma_no_libc_import_in(no_std, atomics);
    }
}

} // verus!
