//! AST transformation passes for the Carbide transpiler.
//!
//! 1. **Signature transforms** operate on parsed `Type` nodes in function
//!    parameters, return types, struct fields and type aliases: C type
//!    names are mapped through the table of `body.rs`.
//! 2. **Body transforms** operate on raw body text (see `body.rs`).
//!
//! Top-level functions also get `#[no_mangle]` and the `system` ABI (unless
//! they name one), and structs get `#[repr(C)]`.
use vstd::prelude::*;
use crate::ast::{
    attrs_view, fields_view, functions_view, items_view, opt_type_view, params_view, Attribute,
    AttributeV, Field, FieldV, Function, FunctionV, Item, ItemV, Param, ParamV, PrimitiveType,
    Program, ProgramV, Struct, StructV, Type, TypeV,
};
use crate::body::{
    body_transform, body_transform_chars, replace_word_chars, replace_word_spec, table_view,
    type_map, type_table,
};
use crate::text::{chars_of, str_eq, string_of};

verus! {

/// Replace all word-boundary occurrences of `word` with `replacement`.
///
/// A match is a "word-boundary" match when the character immediately before
/// the match (if any) is not alphanumeric or `_`, and the character
/// immediately after the match (if any) is not alphanumeric or `_`.
/// This prevents `int` from matching inside `point`, `hint`, etc.
pub fn replace_word(src: &str, word: &str, replacement: &str) -> (r: String)
    ensures
        r@ == replace_word_spec(src@, word@, replacement@),
{
    let s = chars_of(src);
    let w = chars_of(word);
    let rep = chars_of(replacement);
    let out = replace_word_chars(&s, &w, &rep);
    string_of(&out)
}

/// Apply all text-level substitutions to a function body source string.
///
/// 1. Multi-word and single-word C type keywords -> FFI equivalents
///    (word-boundary aware, so `point` is not mangled by `int` -> `c_int`).
/// 2. Postfix pointer casts: `as TYPE*` -> `as *mut TYPE`,
///    `as TYPE const*` -> `as *const TYPE`.
/// 3. Postfix pointer and reference annotations: `: TYPE*`, `: TYPE&`, ...
/// 4. Prefix `mut&` borrows: `mut& expr` -> `&mut expr`.
pub fn apply_body_transforms(src: &str) -> (r: String)
    ensures
        r@ == body_transform(src@),
{
    let s = chars_of(src);
    let out = body_transform_chars(&s);
    string_of(&out)
}


// ---------------------------------------------------------------------------
// What the transforms do, on values
// ---------------------------------------------------------------------------

/// The partner of `name` in the first table entry that names it, or `name`.
pub open spec fn table_lookup(t: Seq<(Seq<char>, Seq<char>)>, name: Seq<char>) -> Seq<char>
    decreases t.len(),
{
    if t.len() == 0 {
        name
    } else if t[0].0 == name {
        t[0].1
    } else {
        table_lookup(t.drop_first(), name)
    }
}

/// The Rust FFI name of a C type name (`char` becomes `c_char`); libc,
/// platform and user-defined names stay as they are.
pub open spec fn mapped_type_name(name: Seq<char>) -> Seq<char> {
    if name == "char"@ {
        "c_char"@
    } else {
        table_lookup(type_table(), name)
    }
}

/// A type with every user-defined name mapped; the shape is kept.
pub open spec fn transformed_type(t: TypeV) -> TypeV
    decreases t,
{
    match t {
        TypeV::Primitive(p) => TypeV::Primitive(p),
        TypeV::UserDefined(n) => TypeV::UserDefined(mapped_type_name(n)),
        TypeV::Pointer { base, is_const } => TypeV::Pointer { base: Box::new(transformed_type(*base)), is_const },
        TypeV::Reference { base, is_mut } => TypeV::Reference { base: Box::new(transformed_type(*base)), is_mut },
        TypeV::Array { base, len } => TypeV::Array { base: Box::new(transformed_type(*base)), len },
        TypeV::FnPointer { params, ret } => TypeV::FnPointer {
            params: transformed_params(params),
            ret: match ret {
                Some(r) => Some(Box::new(transformed_type(*r))),
                None => None,
            },
        },
    }
}

/// Parameters with their types transformed.
pub open spec fn transformed_params(ps: Seq<ParamV>) -> Seq<ParamV>
    decreases ps,
{
    if ps.len() == 0 {
        seq![]
    } else {
        transformed_params(ps.drop_last()).push(ParamV { name: ps.last().name, ty: transformed_type(ps.last().ty) })
    }
}

pub open spec fn transformed_opt_type(t: Option<TypeV>) -> Option<TypeV> {
    match t {
        Some(t) => Some(transformed_type(t)),
        None => None,
    }
}

/// Whether a function gets the C-ABI treatment: top-level, and not `main`.
pub open spec fn gets_c_abi(f: FunctionV, is_top_level: bool) -> bool {
    is_top_level && f.name != "main"@
}

/// A function after the transform: types mapped, body rewritten, and, for a
/// top-level function other than `main`, `#[no_mangle]` put first and the
/// `system` ABI set when none was written.  Its safety is kept.
pub open spec fn transformed_fn(f: FunctionV, is_top_level: bool) -> FunctionV {
    FunctionV {
        name: f.name,
        params: transformed_params(f.params),
        ret_type: transformed_opt_type(f.ret_type),
        body_src: body_transform(f.body_src),
        is_unsafe: f.is_unsafe,
        abi: if gets_c_abi(f, is_top_level) && f.abi is None { Some("system"@) } else { f.abi },
        attrs: if gets_c_abi(f, is_top_level) {
            seq![AttributeV { tokens: "no_mangle"@ }] + f.attrs
        } else {
            f.attrs
        },
    }
}

/// A struct after the transform: `#[repr(C)]` first, field types mapped.
pub open spec fn transformed_struct(s: StructV) -> StructV {
    StructV {
        name: s.name,
        fields: s.fields.map_values(|fl: FieldV| FieldV { name: fl.name, ty: transformed_type(fl.ty) }),
        attrs: seq![AttributeV { tokens: "repr(C)"@ }] + s.attrs,
    }
}

/// An item after the transform; `use`, `enum` and raw items are kept.
pub open spec fn transformed_item(item: ItemV) -> ItemV {
    match item {
        ItemV::Fn(f) => ItemV::Fn(transformed_fn(f, true)),
        ItemV::Struct(s) => ItemV::Struct(transformed_struct(s)),
        ItemV::Impl { target, methods } => ItemV::Impl {
            target,
            methods: methods.map_values(|m: FunctionV| transformed_fn(m, false)),
        },
        ItemV::TypeAlias { name, ty } => ItemV::TypeAlias { name, ty: transformed_type(ty) },
        other => other,
    }
}

/// A program after the transform: each item transformed.
pub open spec fn transformed_program(p: ProgramV) -> ProgramV {
    ProgramV { items: p.items.map_values(|it: ItemV| transformed_item(it)) }
}

// ---------------------------------------------------------------------------
// Public entry point
// ---------------------------------------------------------------------------

/// Apply all Carbide transforms to a parsed program in place.
///
/// - Function signatures: `extern "system"`, `#[no_mangle]`, type mapping.
/// - Struct definitions: `#[repr(C)]`, type mapping.
/// - Function bodies: word-boundary type substitution and postfix flips.
pub fn transform_program(program: &mut Program)
    ensures
        final(program)@ == transformed_program(old(program)@),
{
    let mut items: Vec<Item> = Vec::new();
    std::mem::swap(&mut items, &mut program.items);
    let ghost old_items = items@;
    let mut out: Vec<Item> = Vec::new();
    let mut i: usize = 0;
    while i < items.len()
        invariant
            i <= items@.len(),
            items@ == old_items,
            items_view(out@) == items_view(old_items).take(i as int).map_values(|it: ItemV| transformed_item(it)),
        decreases items@.len() - i,
    {
        let item = transformed_item_exec(&items[i]);
        let ghost before = out@;
        out.push(item);
        proof {
            assert(items_view(out@) =~= items_view(before).push(out@.last()@));
            assert(items_view(old_items).take(i + 1) =~= items_view(old_items).take(i as int).push(items_view(old_items)[i as int]));
            assert(items_view(out@) =~= items_view(old_items).take(i + 1).map_values(|it: ItemV| transformed_item(it)));
        }
        i += 1;
    }
    assert(items_view(old_items).take(items@.len() as int) =~= items_view(old_items));
    program.items = out;
}

// ---------------------------------------------------------------------------
// Item, function and struct transformation
// ---------------------------------------------------------------------------

/// The transformed copy of an item.
fn transformed_item_exec(item: &Item) -> (r: Item)
    ensures
        r@ == transformed_item(item@),
{
    match item {
        Item::Fn(f) => {
            let mut g = copy_function(f);
            transform_fn(&mut g, true);
            Item::Fn(g)
        },
        Item::Struct(s) => {
            let mut t = copy_struct(s);
            transform_struct(&mut t);
            Item::Struct(t)
        },
        Item::Impl { target, methods } => {
            let mut ms: Vec<Function> = Vec::new();
            let mut i: usize = 0;
            while i < methods.len()
                invariant
                    i <= methods@.len(),
                    functions_view(ms@) == functions_view(methods@).take(i as int).map_values(|m: FunctionV| transformed_fn(m, false)),
                decreases methods@.len() - i,
            {
                let mut g = copy_function(&methods[i]);
                transform_fn(&mut g, false);
                let ghost before = ms@;
                ms.push(g);
                proof {
                    assert(functions_view(ms@) =~= functions_view(before).push(ms@.last()@));
                    assert(functions_view(methods@).take(i + 1) =~= functions_view(methods@).take(i as int).push(functions_view(methods@)[i as int]));
                    assert(functions_view(ms@) =~= functions_view(methods@).take(i + 1).map_values(|m: FunctionV| transformed_fn(m, false)));
                }
                i += 1;
            }
            assert(functions_view(methods@).take(methods@.len() as int) =~= functions_view(methods@));
            Item::Impl { target: target.clone(), methods: ms }
        },
        Item::TypeAlias { name, ty } => {
            let mut t = copy_type_of(ty);
            transform_type(&mut t);
            Item::TypeAlias { name: name.clone(), ty: t }
        },
        Item::Use(p) => Item::Use(p.clone()),
        Item::Enum { name, body } => Item::Enum { name: name.clone(), body: body.clone() },
        Item::Raw { attrs, src } => Item::Raw { attrs: copy_attrs(attrs), src: src.clone() },
    }
}

/// A copy of a type with the same value.
fn copy_type_of(t: &Type) -> (r: Type)
    ensures
        r@ == t@,
{
    crate::ast::copy_type(t)
}

/// A copy of attributes with the same value.
fn copy_attrs(v: &Vec<Attribute>) -> (r: Vec<Attribute>)
    ensures
        attrs_view(r@) == attrs_view(v@),
{
    let mut out: Vec<Attribute> = Vec::new();
    let mut i: usize = 0;
    while i < v.len()
        invariant
            i <= v@.len(),
            out@.len() == i,
            forall|k: int| 0 <= k < i ==> out@[k]@ == v@[k]@,
        decreases v@.len() - i,
    {
        out.push(Attribute { tokens: v[i].tokens.clone() });
        i += 1;
    }
    assert(attrs_view(out@) =~= attrs_view(v@));
    out
}

/// A copy of parameters with the same value.
fn copy_params(v: &Vec<Param>) -> (r: Vec<Param>)
    ensures
        params_view(r@) == params_view(v@),
{
    let mut out: Vec<Param> = Vec::new();
    let mut i: usize = 0;
    while i < v.len()
        invariant
            i <= v@.len(),
            params_view(out@) == params_view(v@.take(i as int)),
        decreases v@.len() - i,
    {
        let ghost before = out@;
        out.push(Param { name: v[i].name.clone(), ty: copy_type_of(&v[i].ty) });
        assert(out@.drop_last() =~= before);
        assert(v@.take(i + 1).drop_last() =~= v@.take(i as int));
        i += 1;
    }
    assert(v@.take(v@.len() as int) =~= v@);
    out
}

/// A copy of a function with the same value.
fn copy_function(f: &Function) -> (r: Function)
    ensures
        r@ == f@,
{
    let ret_type = match &f.ret_type {
        Some(t) => Some(copy_type_of(t)),
        None => None,
    };
    let abi = match &f.abi {
        Some(a) => Some(a.clone()),
        None => None,
    };
    Function {
        name: f.name.clone(),
        params: copy_params(&f.params),
        ret_type,
        body_src: f.body_src.clone(),
        is_unsafe: f.is_unsafe,
        abi,
        attrs: copy_attrs(&f.attrs),
    }
}

/// A copy of a struct with the same value.
fn copy_struct(s: &Struct) -> (r: Struct)
    ensures
        r@ == s@,
{
    let mut fields: Vec<Field> = Vec::new();
    let mut i: usize = 0;
    while i < s.fields.len()
        invariant
            i <= s.fields@.len(),
            fields@.len() == i,
            forall|k: int| 0 <= k < i ==> fields@[k]@ == s.fields@[k]@,
        decreases s.fields@.len() - i,
    {
        fields.push(Field { name: s.fields[i].name.clone(), ty: copy_type_of(&s.fields[i].ty) });
        i += 1;
    }
    assert(fields_view(fields@) =~= fields_view(s.fields@));
    Struct { name: s.name.clone(), fields, attrs: copy_attrs(&s.attrs) }
}

/// Transform a function in place.  Only top-level functions other than
/// `main` get `#[no_mangle]` and the `system` ABI.
fn transform_fn(func: &mut Function, is_top_level: bool)
    ensures
        final(func)@ == transformed_fn(old(func)@, is_top_level),
{
    // Inject C-ABI attributes and calling convention only on top-level
    // functions and procedures (excluding main)
    if is_top_level && !str_eq(func.name.as_str(), "main") {
        let ghost before = func.attrs@;
        func.attrs.insert(0, Attribute { tokens: String::from_str("no_mangle") });
        assert(attrs_view(func.attrs@) =~= seq![AttributeV { tokens: "no_mangle"@ }] + attrs_view(before));
        if func.abi.is_none() {
            func.abi = Some(String::from_str("system"));
        }
    }
    // Map parameter types
    let mut params: Vec<Param> = Vec::new();
    let mut i: usize = 0;
    while i < func.params.len()
        invariant
            i <= func.params@.len(),
            params_view(params@) == transformed_params(params_view(func.params@.take(i as int))),
        decreases func.params@.len() - i,
    {
        let mut t = copy_type_of(&func.params[i].ty);
        transform_type(&mut t);
        let ghost before = params@;
        params.push(Param { name: func.params[i].name.clone(), ty: t });
        proof {
            assert(params@.drop_last() =~= before);
            assert(func.params@.take(i + 1).drop_last() =~= func.params@.take(i as int));
            assert(params_view(func.params@.take(i + 1)).drop_last() =~= params_view(func.params@.take(i as int)));
        }
        i += 1;
    }
    assert(func.params@.take(func.params@.len() as int) =~= func.params@);
    func.params = params;
    // Map return type
    let ret = match &func.ret_type {
        Some(t) => {
            let mut t2 = copy_type_of(t);
            transform_type(&mut t2);
            Some(t2)
        },
        None => None,
    };
    func.ret_type = ret;
    // Apply text-level substitutions to the body
    func.body_src = apply_body_transforms(func.body_src.as_str());
}

/// Transform a struct in place: `#[repr(C)]` first, field types mapped.
fn transform_struct(strct: &mut Struct)
    ensures
        final(strct)@ == transformed_struct(old(strct)@),
{
    let ghost before = strct.attrs@;
    strct.attrs.insert(0, Attribute { tokens: String::from_str("repr(C)") });
    assert(attrs_view(strct.attrs@) =~= seq![AttributeV { tokens: "repr(C)"@ }] + attrs_view(before));
    let mut fields: Vec<Field> = Vec::new();
    let mut i: usize = 0;
    while i < strct.fields.len()
        invariant
            i <= strct.fields@.len(),
            fields@.len() == i,
            forall|k: int| 0 <= k < i ==> fields@[k]@ == (FieldV { name: strct.fields@[k]@.name, ty: transformed_type(strct.fields@[k]@.ty) }),
        decreases strct.fields@.len() - i,
    {
        let mut t = copy_type_of(&strct.fields[i].ty);
        transform_type(&mut t);
        fields.push(Field { name: strct.fields[i].name.clone(), ty: t });
        i += 1;
    }
    assert(fields_view(fields@) =~= fields_view(strct.fields@).map_values(|fl: FieldV| FieldV { name: fl.name, ty: transformed_type(fl.ty) }));
    strct.fields = fields;
}

// ---------------------------------------------------------------------------
// Type node transformation (signature-level, precise)
// ---------------------------------------------------------------------------

/// Recursively map a parsed `Type` node using the C -> FFI type table.
fn transform_type(ty: &mut Type)
    ensures
        final(ty)@ == transformed_type(old(ty)@),
{
    let t = transformed_copy(ty);
    *ty = t;
}

/// The transformed copy of a type.
#[verifier::loop_isolation(false)]
fn transformed_copy(t: &Type) -> (r: Type)
    ensures
        r@ == transformed_type(t@),
    decreases t,
{
    match t {
        Type::Primitive(PrimitiveType::RustPrimitive(s)) => Type::Primitive(PrimitiveType::RustPrimitive(s.clone())),
        Type::UserDefined(name) => Type::UserDefined(map_type_name(name.as_str())),
        Type::Pointer { base, is_const } => Type::Pointer { base: Box::new(transformed_copy(base)), is_const: *is_const },
        Type::Reference { base, is_mut } => Type::Reference { base: Box::new(transformed_copy(base)), is_mut: *is_mut },
        Type::Array { base, len } => Type::Array { base: Box::new(transformed_copy(base)), len: len.clone() },
        Type::FnPointer { params, ret } => {
            let mut ps: Vec<Param> = Vec::new();
            let mut i: usize = 0;
            while i < params.len()
                invariant
                    i <= params@.len(),
                    params_view(ps@) == transformed_params(params_view(params@.take(i as int))),
                decreases params.len() - i,
            {
                proof {
                    broadcast use vstd::std_specs::vec::axiom_vec_index_decreases;
                    assert(decreases_to!(*params => params[i as int]));
                    assert(decreases_to!(params[i as int] => params[i as int].ty));
                    assert(decreases_to!(*t => params[i as int].ty));
                }
                let ghost before = ps@;
                let p = Param { name: params[i].name.clone(), ty: transformed_copy(&params[i].ty) };
                ps.push(p);
                proof {
                    assert(ps@.drop_last() =~= before);
                    assert(params@.take(i + 1).drop_last() =~= params@.take(i as int));
                    assert(params_view(params@.take(i + 1)).drop_last() =~= params_view(params@.take(i as int)));
                }
                i += 1;
            }
            assert(params@.take(params@.len() as int) =~= params@);
            let r = match ret {
                Some(b) => Some(Box::new(transformed_copy(b))),
                None => None,
            };
            Type::FnPointer { params: ps, ret: r }
        },
    }
}

/// Look up a type-name string in the mapping table.
///
/// `char` is mapped at the signature level only: the lexer tokenises it as
/// `Token::Char`, so there is no ambiguity with Rust's `char` keyword.
fn map_type_name(name: &str) -> (r: String)
    ensures
        r@ == mapped_type_name(name@),
{
    if str_eq(name, "char") {
        return String::from_str("c_char");
    }
    let table = type_map();
    assert(type_table().skip(0) =~= type_table());
    let mut i: usize = 0;
    while i < table.len()
        invariant
            i <= table@.len(),
            table_view(table@) == type_table(),
            name@ != "char"@,
            table_lookup(type_table(), name@) == table_lookup(type_table().skip(i as int), name@),
        decreases table@.len() - i,
    {
        let (from, to) = table[i];
        assert(type_table().skip(i as int).len() > 0);
        assert(type_table().skip(i as int)[0] == (from@, to@));
        assert(type_table().skip(i as int).drop_first() =~= type_table().skip(i + 1));
        if str_eq(from, name) {
            return String::from_str(to);
        }
        i += 1;
    }
    assert(type_table().skip(table@.len() as int) =~= Seq::<(Seq<char>, Seq<char>)>::empty());
    // libc / platform types and user-defined types pass through unchanged
    String::from_str(name)
}

// ---------------------------------------------------------------------------
// Laws of the transform
// ---------------------------------------------------------------------------

/// A name that no table entry maps, other than `char`, is kept by the lookup.
proof fn lemma_table_lookup_absent(t: Seq<(Seq<char>, Seq<char>)>, name: Seq<char>)
    requires
        forall|k: int| 0 <= k < t.len() ==> #[trigger] t[k].0 != name,
    ensures
        table_lookup(t, name) == name,
    decreases t.len(),
{
    if t.len() > 0 {
        assert(t[0].0 != name);
        let rest = t.drop_first();
        assert forall|k: int| 0 <= k < rest.len() implies #[trigger] rest[k].0 != name by {
            assert(rest[k] == t[k + 1]);
        }
        lemma_table_lookup_absent(rest, name);
    }
}

/// Rust type names pass through the signature transform unchanged: a name
/// that is not a C type name of the table (and not `char`) is kept.
pub proof fn law_unmapped_names_kept(name: Seq<char>)
    requires
        name != "char"@,
        forall|k: int| 0 <= k < type_table().len() ==> #[trigger] type_table()[k].0 != name,
    ensures
        mapped_type_name(name) == name,
{
    lemma_table_lookup_absent(type_table(), name);
}

/// The transform keeps the program's items: as many, in the same order,
/// each of the same kind and under the same name.
pub proof fn law_transform_keeps_items(p: ProgramV)
    ensures
        transformed_program(p).items.len() == p.items.len(),
        forall|i: int| 0 <= i < p.items.len() ==> match (#[trigger] p.items[i], transformed_program(p).items[i]) {
            (ItemV::Fn(f), ItemV::Fn(g)) => g.name == f.name && g.params.len() == f.params.len(),
            (ItemV::Struct(s), ItemV::Struct(u)) => u.name == s.name && u.fields.len() == s.fields.len(),
            (ItemV::Use(a), ItemV::Use(b)) => a == b,
            (ItemV::Enum { name: a, body: x }, ItemV::Enum { name: b, body: y }) => a == b && x == y,
            (ItemV::Impl { target: a, methods: ms }, ItemV::Impl { target: b, methods: ns }) => a == b && ms.len() == ns.len(),
            (ItemV::TypeAlias { name: a, .. }, ItemV::TypeAlias { name: b, .. }) => a == b,
            (ItemV::Raw { attrs: a, src: x }, ItemV::Raw { attrs: b, src: y }) => a == b && x == y,
            _ => false,
        },
{
    assert forall|i: int| 0 <= i < p.items.len() implies match (#[trigger] p.items[i], transformed_program(p).items[i]) {
            (ItemV::Fn(f), ItemV::Fn(g)) => g.name == f.name && g.params.len() == f.params.len(),
            (ItemV::Struct(s), ItemV::Struct(u)) => u.name == s.name && u.fields.len() == s.fields.len(),
            (ItemV::Use(a), ItemV::Use(b)) => a == b,
            (ItemV::Enum { name: a, body: x }, ItemV::Enum { name: b, body: y }) => a == b && x == y,
            (ItemV::Impl { target: a, methods: ms }, ItemV::Impl { target: b, methods: ns }) => a == b && ms.len() == ns.len(),
            (ItemV::TypeAlias { name: a, .. }, ItemV::TypeAlias { name: b, .. }) => a == b,
            (ItemV::Raw { attrs: a, src: x }, ItemV::Raw { attrs: b, src: y }) => a == b && x == y,
            _ => false,
        } by {
        if let ItemV::Fn(f) = p.items[i] {
            lemma_transformed_params_len(f.params);
        }
    }
}

proof fn lemma_transformed_params_len(ps: Seq<ParamV>)
    ensures
        transformed_params(ps).len() == ps.len(),
        forall|k: int| 0 <= k < ps.len() ==> (#[trigger] transformed_params(ps)[k]).name == ps[k].name,
    decreases ps.len(),
{
    if ps.len() > 0 {
        lemma_transformed_params_len(ps.drop_last());
    }
}

/// Every struct gets `#[repr(C)]` as its first attribute, keeping its own
/// attributes after it and its fields' names.
pub proof fn law_structs_get_repr_c(p: ProgramV)
    ensures
        forall|i: int| 0 <= i < p.items.len() ==> (#[trigger] p.items[i] matches ItemV::Struct(s) ==>
            transformed_program(p).items[i] matches ItemV::Struct(u) && u.attrs[0] == (AttributeV { tokens: "repr(C)"@ })
                && u.attrs.drop_first() == s.attrs
                && u.fields.len() == s.fields.len()
                && forall|k: int| 0 <= k < s.fields.len() ==> (#[trigger] u.fields[k]).name == s.fields[k].name),
{
    assert forall|i: int| 0 <= i < p.items.len() implies (#[trigger] p.items[i] matches ItemV::Struct(s) ==>
            transformed_program(p).items[i] matches ItemV::Struct(u) && u.attrs[0] == (AttributeV { tokens: "repr(C)"@ })
                && u.attrs.drop_first() == s.attrs
                && u.fields.len() == s.fields.len()
                && forall|k: int| 0 <= k < s.fields.len() ==> (#[trigger] u.fields[k]).name == s.fields[k].name) by {
        if let ItemV::Struct(s) = p.items[i] {
            let u = transformed_struct(s);
            assert(u.attrs.drop_first() =~= s.attrs);
        }
    }
}

/// A top-level function other than `main` gets `#[no_mangle]` first and the
/// `system` ABI unless it names its own; `main` is left as written.  A
/// function's safety is kept either way: `fn` stays safe, `proc` and
/// `unsafe fn` stay unsafe.
pub proof fn law_top_level_fns_get_c_abi(p: ProgramV)
    ensures
        forall|i: int| 0 <= i < p.items.len() ==> (#[trigger] p.items[i] matches ItemV::Fn(f) ==>
            transformed_program(p).items[i] matches ItemV::Fn(g)
                && g.is_unsafe == f.is_unsafe
                && (f.name != "main"@ ==> g.attrs[0] == (AttributeV { tokens: "no_mangle"@ })
                    && g.attrs.drop_first() == f.attrs
                    && g.abi == (if f.abi is None { Some("system"@) } else { f.abi }))
                && (f.name == "main"@ ==> g.attrs == f.attrs && g.abi == f.abi)),
{
    assert forall|i: int| 0 <= i < p.items.len() implies (#[trigger] p.items[i] matches ItemV::Fn(f) ==>
            transformed_program(p).items[i] matches ItemV::Fn(g)
                && g.is_unsafe == f.is_unsafe
                && (f.name != "main"@ ==> g.attrs[0] == (AttributeV { tokens: "no_mangle"@ })
                    && g.attrs.drop_first() == f.attrs
                    && g.abi == (if f.abi is None { Some("system"@) } else { f.abi }))
                && (f.name == "main"@ ==> g.attrs == f.attrs && g.abi == f.abi)) by {
        if let ItemV::Fn(f) = p.items[i] {
            let g = transformed_fn(f, true);
            if f.name != "main"@ {
                assert(g.attrs.drop_first() =~= f.attrs);
            }
        }
    }
}

/// Methods of an `impl` block keep their attributes, ABI and safety: they
/// are emitted as ordinary Rust methods.
pub proof fn law_methods_keep_abi(p: ProgramV)
    ensures
        forall|i: int| 0 <= i < p.items.len() ==> (#[trigger] p.items[i] matches ItemV::Impl { methods, .. } ==>
            transformed_program(p).items[i] matches ItemV::Impl { methods: ms, .. }
                && ms.len() == methods.len()
                && forall|k: int| 0 <= k < methods.len() ==> {
                    &&& (#[trigger] ms[k]).attrs == methods[k].attrs
                    &&& ms[k].abi == methods[k].abi
                    &&& ms[k].is_unsafe == methods[k].is_unsafe
                    &&& ms[k].name == methods[k].name
                }),
{
}

proof fn lemma_table_lookup_first(t: Seq<(Seq<char>, Seq<char>)>, name: Seq<char>, k: int)
    requires
        0 <= k < t.len(),
        t[k].0 == name,
        forall|j: int| 0 <= j < k ==> #[trigger] t[j].0 != name,
    ensures
        table_lookup(t, name) == t[k].1,
    decreases k,
{
    if k > 0 {
        assert(t[0].0 != name);
        let rest = t.drop_first();
        assert forall|j: int| 0 <= j < k - 1 implies #[trigger] rest[j].0 != name by {
            assert(rest[j] == t[j + 1]);
        }
        lemma_table_lookup_first(rest, name, k - 1);
    }
}

/// The signature transform maps `char` to `c_char`, and a C type name of
/// the table to the partner of its first entry (`unsigned long long` to
/// `c_ulonglong`, `uint` to `c_uint`, `atomic_int` to `AtomicI32`, ...).
pub proof fn law_table_names_mapped(name: Seq<char>, k: int)
    requires
        name != "char"@,
        0 <= k < type_table().len(),
        type_table()[k].0 == name,
        forall|j: int| 0 <= j < k ==> #[trigger] type_table()[j].0 != name,
    ensures
        mapped_type_name("char"@) == "c_char"@,
        mapped_type_name(name) == type_table()[k].1,
{
    lemma_table_lookup_first(type_table(), name, k);
}

/// The user-defined type names written in a type, in the order they are
/// written: under pointers, references and arrays, then in a function
/// pointer's parameters and its return type.
pub open spec fn written_names(t: TypeV) -> Seq<Seq<char>>
    decreases t,
{
    match t {
        TypeV::Primitive(_) => seq![],
        TypeV::UserDefined(n) => seq![n],
        TypeV::Pointer { base, is_const: _ } => written_names(*base),
        TypeV::Reference { base, is_mut: _ } => written_names(*base),
        TypeV::Array { base, len: _ } => written_names(*base),
        TypeV::FnPointer { params, ret } => written_param_names(params) + match ret {
            Some(r) => written_names(*r),
            None => seq![],
        },
    }
}

/// The user-defined type names written in parameter types, in order.
pub open spec fn written_param_names(ps: Seq<ParamV>) -> Seq<Seq<char>>
    decreases ps,
{
    if ps.len() == 0 {
        seq![]
    } else {
        written_param_names(ps.drop_last()) + written_names(ps.last().ty)
    }
}

/// A type with every user-defined name blanked out: what is left is its
/// shape (pointers, references, arrays and their lengths, primitives).
pub open spec fn type_shape(t: TypeV) -> TypeV
    decreases t,
{
    match t {
        TypeV::Primitive(p) => TypeV::Primitive(p),
        TypeV::UserDefined(_) => TypeV::UserDefined(seq![]),
        TypeV::Pointer { base, is_const } => TypeV::Pointer { base: Box::new(type_shape(*base)), is_const },
        TypeV::Reference { base, is_mut } => TypeV::Reference { base: Box::new(type_shape(*base)), is_mut },
        TypeV::Array { base, len } => TypeV::Array { base: Box::new(type_shape(*base)), len },
        TypeV::FnPointer { params, ret } => TypeV::FnPointer {
            params: params_shape(params),
            ret: match ret {
                Some(r) => Some(Box::new(type_shape(*r))),
                None => None,
            },
        },
    }
}

/// Parameters with their types reduced to their shapes.
pub open spec fn params_shape(ps: Seq<ParamV>) -> Seq<ParamV>
    decreases ps,
{
    if ps.len() == 0 {
        seq![]
    } else {
        params_shape(ps.drop_last()).push(ParamV { name: ps.last().name, ty: type_shape(ps.last().ty) })
    }
}

proof fn lemma_map_names_concat(a: Seq<Seq<char>>, b: Seq<Seq<char>>)
    ensures
        (a + b).map_values(|n: Seq<char>| mapped_type_name(n))
            == a.map_values(|n: Seq<char>| mapped_type_name(n)) + b.map_values(|n: Seq<char>| mapped_type_name(n)),
{
    assert((a + b).map_values(|n: Seq<char>| mapped_type_name(n))
        =~= a.map_values(|n: Seq<char>| mapped_type_name(n)) + b.map_values(|n: Seq<char>| mapped_type_name(n)));
}

proof fn lemma_transformed_type_names(t: TypeV)
    ensures
        written_names(transformed_type(t)) == written_names(t).map_values(|n: Seq<char>| mapped_type_name(n)),
        type_shape(transformed_type(t)) == type_shape(t),
    decreases t,
{
    match t {
        TypeV::Primitive(_) => {
            assert(written_names(t).map_values(|n: Seq<char>| mapped_type_name(n)) =~= seq![]);
        },
        TypeV::UserDefined(n) => {
            assert(written_names(t).map_values(|n: Seq<char>| mapped_type_name(n)) =~= seq![mapped_type_name(n)]);
        },
        TypeV::Pointer { base, is_const: _ } => {
            lemma_transformed_type_names(*base);
        },
        TypeV::Reference { base, is_mut: _ } => {
            lemma_transformed_type_names(*base);
        },
        TypeV::Array { base, len: _ } => {
            lemma_transformed_type_names(*base);
        },
        TypeV::FnPointer { params, ret } => {
            lemma_transformed_params_names(params);
            let rn: Seq<Seq<char>> = match ret {
                Some(r) => written_names(*r),
                None => seq![],
            };
            match ret {
                Some(r) => {
                    lemma_transformed_type_names(*r);
                },
                None => {
                    assert(rn.map_values(|n: Seq<char>| mapped_type_name(n)) =~= seq![]);
                },
            }
            lemma_map_names_concat(written_param_names(params), rn);
        },
    }
}

proof fn lemma_transformed_params_names(ps: Seq<ParamV>)
    ensures
        written_param_names(transformed_params(ps))
            == written_param_names(ps).map_values(|n: Seq<char>| mapped_type_name(n)),
        params_shape(transformed_params(ps)) == params_shape(ps),
    decreases ps,
{
    if ps.len() == 0 {
        assert(written_param_names(ps).map_values(|n: Seq<char>| mapped_type_name(n)) =~= seq![]);
    } else {
        let init = ps.drop_last();
        let tp = transformed_params(ps);
        lemma_transformed_params_names(init);
        lemma_transformed_type_names(ps.last().ty);
        assert(tp.drop_last() =~= transformed_params(init));
        assert(tp.last().ty == transformed_type(ps.last().ty));
        lemma_map_names_concat(written_param_names(init), written_names(ps.last().ty));
        assert(params_shape(tp) =~= params_shape(ps));
    }
}

/// The signature transform maps every C type name in a type, wherever it
/// stands (under pointers, references, as the element of an array, in a
/// function pointer's parameters or return type), and changes nothing
/// else: the names written in the result are those of the input, each
/// mapped, in the same order, and the shape is the input's.  So the
/// element type of `[int; 4]` becomes `c_int`: `[c_int; 4]`.
pub proof fn law_type_names_mapped_in_place(t: TypeV)
    ensures
        written_names(transformed_type(t)) == written_names(t).map_values(|n: Seq<char>| mapped_type_name(n)),
        type_shape(transformed_type(t)) == type_shape(t),
{
    lemma_transformed_type_names(t);
}

} // verus!
