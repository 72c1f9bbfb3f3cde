//! Abstract syntax tree of a Carbide program.
//!
//! Only function and struct *signatures* are parsed structurally, so that
//! type mapping and pointer flips apply precisely to declared types.
//! Everything else (function bodies, enum bodies, free-standing items) is
//! kept as verbatim source text.
//!
//! Each type has a mathematical counterpart (suffix `V`) in which text is a
//! character sequence; `@` maps a value to it.
use vstd::prelude::*;

verus! {

/// A complete Carbide program.
#[derive(Debug, Clone, PartialEq, Eq)]
pub struct Program {
    pub items: Vec<Item>,
}

/// A top-level item in a Carbide program.
#[derive(Debug, Clone, PartialEq, Eq)]
pub enum Item {
    /// A function / procedure declaration.
    Fn(Function),
    /// A struct declaration (fields parsed for type mapping).
    Struct(Struct),
    /// A `use` import.
    Use(String),
    /// An enum declaration.  Body text is stored verbatim.
    Enum {
        name: String,
        /// Raw source text between `{` and `}`.
        body: String,
    },
    /// An `impl` block.  Methods are parsed so `proc`/`fn` transforms apply.
    Impl {
        target: String,
        methods: Vec<Function>,
    },
    /// A `type Name = Type;` alias declaration; the right-hand side is parsed
    /// so that C type mapping and pointer flips apply to it.
    TypeAlias {
        name: String,
        ty: Type,
    },
    /// Any other top-level item (`const`, `static`, ...), as raw source text.
    Raw {
        attrs: Vec<Attribute>,
        src: String,
    },
}

/// An attribute attached to an item (e.g. `#[repr(C)]`).
#[derive(Debug, Clone, PartialEq, Eq)]
pub struct Attribute {
    pub tokens: String,
}

/// A function / procedure declaration.
#[derive(Debug, Clone, PartialEq, Eq)]
pub struct Function {
    pub name: String,
    pub params: Vec<Param>,
    pub ret_type: Option<Type>,
    /// Raw source text of the function body (between outer `{` and `}`).
    pub body_src: String,
    /// True for `proc` (or explicit `unsafe fn`): emitted as `unsafe fn`.
    pub is_unsafe: bool,
    pub abi: Option<String>,
    pub attrs: Vec<Attribute>,
}

/// A function parameter.
#[derive(Debug, PartialEq, Eq)]
pub struct Param {
    pub name: String,
    pub ty: Type,
}

/// A struct field.
#[derive(Debug, Clone, PartialEq, Eq)]
pub struct Field {
    pub name: String,
    pub ty: Type,
}

/// A struct declaration.
#[derive(Debug, Clone, PartialEq, Eq)]
pub struct Struct {
    pub name: String,
    pub fields: Vec<Field>,
    pub attrs: Vec<Attribute>,
}

/// A type expression in a signature.
#[derive(Debug, PartialEq, Eq)]
pub enum Type {
    /// A standard Rust primitive (`i32`, `u8`, `bool`, ...).
    Primitive(PrimitiveType),
    /// A user-defined or mapped C FFI type name.
    UserDefined(String),
    /// A raw pointer (`*mut T` / `*const T`).
    Pointer { base: Box<Type>, is_const: bool },
    /// A reference (`&mut T` / `&T`).
    Reference { base: Box<Type>, is_mut: bool },
    /// An array (`[T; N]`).
    Array { base: Box<Type>, len: String },
    /// A C function pointer type: `fn(param: Type, ...) -> Ret`.
    FnPointer {
        params: Vec<Param>,
        ret: Option<Box<Type>>,
    },
}

/// Standard Rust primitive type.
#[derive(Debug, Clone, PartialEq, Eq)]
pub enum PrimitiveType {
    RustPrimitive(String),
}

impl Clone for Type {
    fn clone(&self) -> (r: Self)
        ensures
            r@ == self@,
    {
        copy_type(self)
    }
}

impl Clone for Param {
    fn clone(&self) -> (r: Self)
        ensures
            r@ == self@,
    {
        Param { name: self.name.clone(), ty: copy_type(&self.ty) }
    }
}

/// A copy of `t` with the same value.
#[verifier::loop_isolation(false)]
pub fn copy_type(t: &Type) -> (r: Type)
    ensures
        r@ == t@,
    decreases t,
{
    match t {
        Type::Primitive(PrimitiveType::RustPrimitive(s)) => Type::Primitive(PrimitiveType::RustPrimitive(s.clone())),
        Type::UserDefined(s) => Type::UserDefined(s.clone()),
        Type::Pointer { base, is_const } => Type::Pointer { base: Box::new(copy_type(base)), is_const: *is_const },
        Type::Reference { base, is_mut } => Type::Reference { base: Box::new(copy_type(base)), is_mut: *is_mut },
        Type::Array { base, len } => Type::Array { base: Box::new(copy_type(base)), len: len.clone() },
        Type::FnPointer { params, ret } => {
            let mut ps: Vec<Param> = Vec::new();
            let mut i: usize = 0;
            while i < params.len()
                invariant
                    i <= params@.len(),
                    params_view(ps@) == params_view(params@.subrange(0, i as int)),
                    ps@.len() == i,
                decreases params.len() - i,
            {
                proof {
                    broadcast use vstd::std_specs::vec::axiom_vec_index_decreases;
                    assert(decreases_to!(*params => params[i as int]));
                    assert(decreases_to!(params[i as int] => params[i as int].ty));
                    assert(decreases_to!(*t => params[i as int].ty));
                }
                let ghost old_ps = ps@;
                let p = Param { name: params[i].name.clone(), ty: copy_type(&params[i].ty) };
                ps.push(p);
                i += 1;
                assert(ps@.drop_last() =~= old_ps);
                assert(params@.subrange(0, i as int).drop_last() =~= params@.subrange(0, i - 1));
            }
            assert(params@.subrange(0, params@.len() as int) =~= params@);
            let r = match ret {
                Some(b) => Some(Box::new(copy_type(b))),
                None => None,
            };
            Type::FnPointer { params: ps, ret: r }
        },
    }
}

// ---------------------------------------------------------------------------
// Mathematical values
// ---------------------------------------------------------------------------

pub struct ProgramV {
    pub items: Seq<ItemV>,
}

pub enum ItemV {
    Fn(FunctionV),
    Struct(StructV),
    Use(Seq<char>),
    Enum { name: Seq<char>, body: Seq<char> },
    Impl { target: Seq<char>, methods: Seq<FunctionV> },
    TypeAlias { name: Seq<char>, ty: TypeV },
    Raw { attrs: Seq<AttributeV>, src: Seq<char> },
}

pub struct AttributeV {
    pub tokens: Seq<char>,
}

pub struct FunctionV {
    pub name: Seq<char>,
    pub params: Seq<ParamV>,
    pub ret_type: Option<TypeV>,
    pub body_src: Seq<char>,
    pub is_unsafe: bool,
    pub abi: Option<Seq<char>>,
    pub attrs: Seq<AttributeV>,
}

pub struct ParamV {
    pub name: Seq<char>,
    pub ty: TypeV,
}

pub struct FieldV {
    pub name: Seq<char>,
    pub ty: TypeV,
}

pub struct StructV {
    pub name: Seq<char>,
    pub fields: Seq<FieldV>,
    pub attrs: Seq<AttributeV>,
}

pub enum TypeV {
    Primitive(Seq<char>),
    UserDefined(Seq<char>),
    Pointer { base: Box<TypeV>, is_const: bool },
    Reference { base: Box<TypeV>, is_mut: bool },
    Array { base: Box<TypeV>, len: Seq<char> },
    FnPointer { params: Seq<ParamV>, ret: Option<Box<TypeV>> },
}

pub open spec fn type_view(t: Type) -> TypeV
    decreases t,
{
    match t {
        Type::Primitive(PrimitiveType::RustPrimitive(s)) => TypeV::Primitive(s@),
        Type::UserDefined(s) => TypeV::UserDefined(s@),
        Type::Pointer { base, is_const } => TypeV::Pointer { base: Box::new(type_view(*base)), is_const },
        Type::Reference { base, is_mut } => TypeV::Reference { base: Box::new(type_view(*base)), is_mut },
        Type::Array { base, len } => TypeV::Array { base: Box::new(type_view(*base)), len: len@ },
        Type::FnPointer { params, ret } => TypeV::FnPointer {
            params: params_view(params@),
            ret: match ret {
                Some(r) => Some(Box::new(type_view(*r))),
                None => None,
            },
        },
    }
}

pub open spec fn params_view(ps: Seq<Param>) -> Seq<ParamV>
    decreases ps,
{
    if ps.len() == 0 {
        seq![]
    } else {
        params_view(ps.drop_last()).push(ParamV { name: ps.last().name@, ty: type_view(ps.last().ty) })
    }
}

impl View for Type {
    type V = TypeV;

    open spec fn view(&self) -> TypeV {
        type_view(*self)
    }
}

impl View for Param {
    type V = ParamV;

    open spec fn view(&self) -> ParamV {
        ParamV { name: self.name@, ty: self.ty@ }
    }
}

impl View for Field {
    type V = FieldV;

    open spec fn view(&self) -> FieldV {
        FieldV { name: self.name@, ty: self.ty@ }
    }
}

impl View for Attribute {
    type V = AttributeV;

    open spec fn view(&self) -> AttributeV {
        AttributeV { tokens: self.tokens@ }
    }
}

pub open spec fn attrs_view(v: Seq<Attribute>) -> Seq<AttributeV> {
    Seq::new(v.len(), |i: int| v[i]@)
}

pub open spec fn fields_view(v: Seq<Field>) -> Seq<FieldV> {
    Seq::new(v.len(), |i: int| v[i]@)
}

pub open spec fn opt_type_view(t: Option<Type>) -> Option<TypeV> {
    match t {
        Some(t) => Some(t@),
        None => None,
    }
}

pub open spec fn opt_string_view(s: Option<String>) -> Option<Seq<char>> {
    match s {
        Some(s) => Some(s@),
        None => None,
    }
}

impl View for Function {
    type V = FunctionV;

    open spec fn view(&self) -> FunctionV {
        FunctionV {
            name: self.name@,
            params: params_view(self.params@),
            ret_type: opt_type_view(self.ret_type),
            body_src: self.body_src@,
            is_unsafe: self.is_unsafe,
            abi: opt_string_view(self.abi),
            attrs: attrs_view(self.attrs@),
        }
    }
}

pub open spec fn functions_view(v: Seq<Function>) -> Seq<FunctionV> {
    Seq::new(v.len(), |i: int| v[i]@)
}

impl View for Struct {
    type V = StructV;

    open spec fn view(&self) -> StructV {
        StructV { name: self.name@, fields: fields_view(self.fields@), attrs: attrs_view(self.attrs@) }
    }
}

impl View for Item {
    type V = ItemV;

    open spec fn view(&self) -> ItemV {
        match self {
            Item::Fn(f) => ItemV::Fn(f@),
            Item::Struct(s) => ItemV::Struct(s@),
            Item::Use(p) => ItemV::Use(p@),
            Item::Enum { name, body } => ItemV::Enum { name: name@, body: body@ },
            Item::Impl { target, methods } => ItemV::Impl { target: target@, methods: functions_view(methods@) },
            Item::TypeAlias { name, ty } => ItemV::TypeAlias { name: name@, ty: ty@ },
            Item::Raw { attrs, src } => ItemV::Raw { attrs: attrs_view(attrs@), src: src@ },
        }
    }
}

pub open spec fn items_view(v: Seq<Item>) -> Seq<ItemV> {
    Seq::new(v.len(), |i: int| v[i]@)
}

impl View for Program {
    type V = ProgramV;

    open spec fn view(&self) -> ProgramV {
        ProgramV { items: items_view(self.items@) }
    }
}

} // verus!
