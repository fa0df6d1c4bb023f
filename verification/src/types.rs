//! The checker's types and their structural relations.

use vstd::prelude::*;
use crate::text::push_char;

verus! {

#[derive(Debug)]
pub enum Ty {
    Int,
    Float,
    Bool,
    Str,
    Unit,
    Struct(String),
    Enum(String),
    /// `[T]` — growable array.
    Vec(Box<Ty>),
    /// `Result<T, E>` — builtin success/failure type.
    Result(Box<Ty>, Box<Ty>),
    /// A side of `Result` that a bare `Ok(..)` / `Err(..)` constructor leaves
    /// undetermined; compatible with any type (resolved by context).
    Unknown,
}

/// The model of a [`Ty`]: names become character sequences.
pub enum SpecTy {
    Int,
    Float,
    Bool,
    Str,
    Unit,
    Struct(Seq<char>),
    Enum(Seq<char>),
    Vec(Box<SpecTy>),
    Result(Box<SpecTy>, Box<SpecTy>),
    Unknown,
}

pub open spec fn ty_view(t: Ty) -> SpecTy
    decreases t,
{
    match t {
        Ty::Int => SpecTy::Int,
        Ty::Float => SpecTy::Float,
        Ty::Bool => SpecTy::Bool,
        Ty::Str => SpecTy::Str,
        Ty::Unit => SpecTy::Unit,
        Ty::Struct(n) => SpecTy::Struct(n@),
        Ty::Enum(n) => SpecTy::Enum(n@),
        Ty::Vec(x) => SpecTy::Vec(Box::new(ty_view(*x))),
        Ty::Result(a, b) => SpecTy::Result(Box::new(ty_view(*a)), Box::new(ty_view(*b))),
        Ty::Unknown => SpecTy::Unknown,
    }
}

impl View for Ty {
    type V = SpecTy;

    open spec fn view(&self) -> SpecTy {
        ty_view(*self)
    }
}

/// Structural compatibility: like equality, but `Unknown` matches anything.
pub open spec fn spec_types_match(a: SpecTy, b: SpecTy) -> bool
    decreases a,
{
    match (a, b) {
        (SpecTy::Unknown, _) => true,
        (_, SpecTy::Unknown) => true,
        (SpecTy::Vec(x), SpecTy::Vec(y)) => spec_types_match(*x, *y),
        (SpecTy::Result(t1, e1), SpecTy::Result(t2, e2)) => spec_types_match(*t1, *t2) && spec_types_match(*e1, *e2),
        _ => a == b,
    }
}

/// Whether `Unknown` occurs anywhere in `t`.
pub open spec fn spec_has_unknown(t: SpecTy) -> bool
    decreases t,
{
    match t {
        SpecTy::Unknown => true,
        SpecTy::Vec(x) => spec_has_unknown(*x),
        SpecTy::Result(a, b) => spec_has_unknown(*a) || spec_has_unknown(*b),
        _ => false,
    }
}

/// Of two compatible types, the more concrete one.
pub open spec fn spec_join(a: SpecTy, b: SpecTy) -> SpecTy {
    if spec_has_unknown(a) { b } else { a }
}

/// Copy types are freely duplicated; everything else moves on use.
pub open spec fn spec_is_copy(t: SpecTy) -> bool {
    t is Int || t is Float || t is Bool || t is Unit || t is Unknown
}

/// How a type is written in diagnostics.
pub open spec fn spec_ty_text(t: SpecTy) -> Seq<char>
    decreases t,
{
    match t {
        SpecTy::Int => "int"@,
        SpecTy::Float => "f64"@,
        SpecTy::Bool => "bool"@,
        SpecTy::Str => "str"@,
        SpecTy::Unit => "unit"@,
        SpecTy::Struct(n) => n,
        SpecTy::Enum(n) => n,
        SpecTy::Vec(x) => "["@ + spec_ty_text(*x) + "]"@,
        SpecTy::Result(a, b) => "Result<"@ + spec_ty_text(*a) + ", "@ + spec_ty_text(*b) + ">"@,
        SpecTy::Unknown => "_"@,
    }
}

/// Structural equality of types (names compared by their text).
pub fn ty_eq(a: &Ty, b: &Ty) -> (r: bool)
    ensures
        r == (a@ == b@),
    decreases a,
{
    match (a, b) {
        (Ty::Int, Ty::Int) => true,
        (Ty::Float, Ty::Float) => true,
        (Ty::Bool, Ty::Bool) => true,
        (Ty::Str, Ty::Str) => true,
        (Ty::Unit, Ty::Unit) => true,
        (Ty::Unknown, Ty::Unknown) => true,
        (Ty::Struct(x), Ty::Struct(y)) => *x == *y,
        (Ty::Enum(x), Ty::Enum(y)) => *x == *y,
        (Ty::Vec(x), Ty::Vec(y)) => ty_eq(x, y),
        (Ty::Result(a1, b1), Ty::Result(a2, b2)) => ty_eq(a1, a2) && ty_eq(b1, b2),
        _ => false,
    }
}

/// A copy of a type.
pub fn clone_ty(t: &Ty) -> (r: Ty)
    ensures
        r@ == t@,
    decreases t,
{
    match t {
        Ty::Int => Ty::Int,
        Ty::Float => Ty::Float,
        Ty::Bool => Ty::Bool,
        Ty::Str => Ty::Str,
        Ty::Unit => Ty::Unit,
        Ty::Unknown => Ty::Unknown,
        Ty::Struct(x) => Ty::Struct(x.clone()),
        Ty::Enum(x) => Ty::Enum(x.clone()),
        Ty::Vec(x) => Ty::Vec(Box::new(clone_ty(x))),
        Ty::Result(a, b) => Ty::Result(Box::new(clone_ty(a)), Box::new(clone_ty(b))),
    }
}

/// Structural compatibility: like equality, but `Unknown` matches anything.
pub fn types_match(a: &Ty, b: &Ty) -> (r: bool)
    ensures
        r == spec_types_match(a@, b@),
    decreases a,
{
    match (a, b) {
        (Ty::Unknown, _) => true,
        (_, Ty::Unknown) => true,
        (Ty::Vec(x), Ty::Vec(y)) => types_match(x, y),
        (Ty::Result(t1, e1), Ty::Result(t2, e2)) => types_match(t1, t2) && types_match(e1, e2),
        _ => ty_eq(a, b),
    }
}

pub fn has_unknown(t: &Ty) -> (r: bool)
    ensures
        r == spec_has_unknown(t@),
    decreases t,
{
    match t {
        Ty::Unknown => true,
        Ty::Vec(x) => has_unknown(x),
        Ty::Result(a, b) => has_unknown(a) || has_unknown(b),
        _ => false,
    }
}

/// Of two compatible types, keep the more concrete one (fewer `Unknown`s).
pub fn join(a: Ty, b: &Ty) -> (r: Ty)
    ensures
        r@ == spec_join(a@, b@),
{
    if has_unknown(&a) {
        clone_ty(b)
    } else {
        a
    }
}

pub fn is_copy(t: &Ty) -> (r: bool)
    ensures
        r == spec_is_copy(t@),
{
    match t {
        Ty::Int | Ty::Float | Ty::Bool | Ty::Unit | Ty::Unknown => true,
        _ => false,
    }
}

fn push_ty_text(s: &mut String, t: &Ty)
    ensures
        final(s)@ == old(s)@ + spec_ty_text(t@),
    decreases t,
{
    match t {
        Ty::Int => s.append("int"),
        Ty::Float => s.append("f64"),
        Ty::Bool => s.append("bool"),
        Ty::Str => s.append("str"),
        Ty::Unit => s.append("unit"),
        Ty::Struct(n) => s.append(n.as_str()),
        Ty::Enum(n) => s.append(n.as_str()),
        Ty::Vec(x) => {
            s.append("[");
            push_ty_text(s, x);
            s.append("]");
        }
        Ty::Result(a, b) => {
            s.append("Result<");
            push_ty_text(s, a);
            s.append(", ");
            push_ty_text(s, b);
            s.append(">");
        }
        Ty::Unknown => s.append("_"),
    }
    assert(final(s)@ =~= old(s)@ + spec_ty_text(t@));
}

impl Ty {
    /// The type as written in diagnostics (`int`, `[str]`, `Result<int, _>`).
    pub fn to_text(&self) -> (r: String)
        ensures
            r@ == spec_ty_text(self@),
    {
        let mut s = String::new();
        push_ty_text(&mut s, self);
        assert(s@ =~= spec_ty_text(self@));
        s
    }
}

} // verus!
