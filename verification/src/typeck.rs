//! Static type checker.
//!
//! Runs after parsing and before execution. Catches type errors up front and
//! performs **compile-time match exhaustiveness checking**, **mutability
//! checking** (`var` vs `let`, `&mut self` vs `&self`) and an **ownership move
//! checker** (use-after-move, moves inside loops, moving a borrowed `self`).
//!
//! Inference is local: `let` bindings infer their type from the initializer,
//! while function signatures, struct fields, and enum payloads are explicit
//! anchors.
//!
//! The decisions of the checker (how a type is resolved, what an operator
//! yields, when a match is exhaustive, when a variable is moved or mutable)
//! are made by the functions of this module with exact contracts; the tree
//! walk that applies them is verified to terminate and never to panic.

use vstd::prelude::*;
use crate::ast::{
    single_entry,    declares_type, distinct_type_names, distinct_variant_names, distinct_variants_upto,
    impls_declared, is_variant, item_name, variant_before, variant_name, AssignTarget, BinOp,
    Block, Expr, ExprKind, FnDecl, Item, MatchArm, MethodDecl, Pattern, Program, SelfKind, Stmt,
    StrPart, TypeExpr, UnOp,
};
use crate::table::{
    find, find_in_scopes, first_key, get, get2, has_key, insert, lemma_first_key, lemma_get_put,
    lemma_get_update, lemma_has_key, lemma_put, lemma_put_keys, lemma_scope_find, lookup, put, same_text, scope_find,
};
use crate::text::{chars_eq_str, dec, push_dec, str_chars, string_of_str};
use crate::token::{array_method, is_clone_method, is_print_builtin, spec_is_print, ArrayMethod};
use crate::interp::{is_len_call, print_args};
use crate::types::{
    clone_ty, has_unknown, is_copy, join, spec_has_unknown, spec_is_copy, spec_join,
    spec_ty_text, spec_types_match, ty_eq, types_match, SpecTy, Ty,
};

verus! {

broadcast use vstd::std_specs::vec::axiom_vec_index_decreases;

// ---------------------------------------------------------------------------
// Messages
// ---------------------------------------------------------------------------

/// Whether a diagnostic already carries a `line N:` prefix.
pub open spec fn has_line_prefix(msg: Seq<char>) -> bool {
    msg.len() >= 5 && msg.take(5) == "line "@
}

/// Prefix a diagnostic with its source line, unless it already carries one.
pub open spec fn spec_with_line(line: nat, msg: Seq<char>) -> Seq<char> {
    if has_line_prefix(msg) { msg } else { "line "@ + dec(line) + ": "@ + msg }
}

pub fn with_line(line: usize, msg: String) -> (r: String)
    ensures
        r@ == spec_with_line(line as nat, msg@),
{
    let v = str_chars(msg.as_str());
    let starts = if v.len() >= 5 {
        let head = slice_take(v.as_slice(), 5);
        chars_eq_str(head.as_slice(), "line ")
    } else {
        false
    };
    proof {
        if v@.len() >= 5 {
            assert(v@.take(5) == msg@.take(5));
        }
    }
    if starts {
        msg
    } else {
        let mut m = String::new();
        m.append("line ");
        push_dec(&mut m, line as u64);
        m.append(": ");
        m.append(msg.as_str());
        m
    }
}

fn slice_take(v: &[char], n: usize) -> (r: Vec<char>)
    requires
        n <= v@.len(),
    ensures
        r@ == v@.take(n as int),
{
    let mut r: Vec<char> = Vec::new();
    let mut i: usize = 0;
    while i < n
        invariant
            i <= n,
            n <= v@.len(),
            r@ == v@.take(i as int),
        decreases n - i,
    {
        r.push(v[i]);
        i = i + 1;
        assert(r@ =~= v@.take(i as int));
    }
    r
}

/// `a` + `` `t` `` text helpers.
fn text(s: &str) -> (r: String)
    ensures
        r@ == s@,
{
    string_of_str(s)
}

fn push_ty(m: &mut String, t: &Ty)
    ensures
        final(m)@ == old(m)@ + spec_ty_text(t@),
{
    let s = t.to_text();
    m.append(s.as_str());
}

// ---------------------------------------------------------------------------
// Bindings and scopes
// ---------------------------------------------------------------------------

pub struct Binding {
    pub ty: Ty,
    pub mutable: bool,
    /// `Some(line)` once the value has been moved out of this binding.
    pub moved: Option<usize>,
}

impl Binding {
    pub fn new(ty: Ty, mutable: bool) -> (r: Self)
        ensures
            r.ty == ty,
            r.mutable == mutable,
            r.moved is None,
    {
        Binding { ty, mutable, moved: None }
    }
}

fn clone_binding(b: &Binding) -> (r: Binding)
    ensures
        r.ty@ == b.ty@,
        r.mutable == b.mutable,
        r.moved == b.moved,
{
    Binding { ty: clone_ty(&b.ty), mutable: b.mutable, moved: b.moved }
}

pub type Scope = Vec<(String, Binding)>;

/// Some variant declared before variant `w` of item `i` is named `n`.
pub open spec fn names_variant(p: Program, i: int, w: int, n: Seq<char>) -> bool {
    exists|k: int, v: int| is_variant(p, k, v) && variant_before(k, v, i, w) && #[trigger] variant_name(p, k, v) == n
}

/// `new` is `old` with only the `moved` mark of entry (i, j) set to `line`.
pub open spec fn moved_at(old: Seq<Scope>, new: Seq<Scope>, i: int, j: int, line: usize) -> bool {
    &&& new.len() == old.len()
    &&& forall|s: int| 0 <= s < old.len() && s != i ==> new[s]@ == old[s]@
    &&& new[i]@.len() == old[i]@.len()
    &&& forall|b: int| 0 <= b < old[i]@.len() && b != j ==> new[i]@[b] == old[i]@[b]
    &&& new[i]@[j].0 == old[i]@[j].0
    &&& new[i]@[j].1.ty == old[i]@[j].1.ty
    &&& new[i]@[j].1.mutable == old[i]@[j].1.mutable
    &&& new[i]@[j].1.moved == Some(line)
}

/// The move-state of `old` after folding in the branch state `other`: a
/// binding moved in either state counts as moved.
pub open spec fn merged(old: Seq<Scope>, other: Seq<Scope>, new: Seq<Scope>) -> bool {
    &&& new.len() == old.len()
    &&& forall|s: int| 0 <= s < old.len() ==> (#[trigger] new[s])@.len() == old[s]@.len()
    &&& forall|s: int, b: int| 0 <= s < old.len() && 0 <= b < old[s]@.len() ==> {
        &&& (#[trigger] new[s]@[b]).0 == old[s]@[b].0
        &&& new[s]@[b].1.ty == old[s]@[b].1.ty
        &&& new[s]@[b].1.mutable == old[s]@[b].1.mutable
        &&& new[s]@[b].1.moved == (
            if old[s]@[b].1.moved is None && s < other.len() && get(other[s]@, old[s]@[b].0@) is Some {
                get(other[s]@, old[s]@[b].0@)->0.moved
            } else {
                old[s]@[b].1.moved
            })
    }
}

/// The first binding (in scope order, then declaration order) that is moved
/// in `after` but was present and not moved in `before`.
pub open spec fn is_loop_move(after: Seq<Scope>, before: Seq<Scope>, s: int, b: int) -> bool {
    &&& 0 <= s < after.len()
    &&& s < before.len()
    &&& 0 <= b < after[s]@.len()
    &&& after[s]@[b].1.moved is Some
    &&& get(before[s]@, after[s]@[b].0@) matches Some(ob) && ob.moved is None
}

// ---------------------------------------------------------------------------
// Signatures
// ---------------------------------------------------------------------------

pub struct FnSig {
    pub params: Vec<Ty>,
    pub ret: Ty,
}

pub struct MethodSig {
    pub self_kind: SelfKind,
    pub params: Vec<Ty>,
    pub ret: Ty,
}

fn clone_tys(v: &Vec<Ty>) -> (r: Vec<Ty>)
    ensures
        r@.len() == v@.len(),
        forall|i: int| 0 <= i < v@.len() ==> #[trigger] r@[i]@ == v@[i]@,
{
    let mut r: Vec<Ty> = Vec::new();
    let mut i: usize = 0;
    while i < v.len()
        invariant
            i <= v.len(),
            r@.len() == i,
            forall|j: int| 0 <= j < i ==> #[trigger] r@[j]@ == v@[j]@,
        decreases v.len() - i,
    {
        r.push(clone_ty(&v[i]));
        i = i + 1;
    }
    r
}

/// What a top-level match pattern covers, for exhaustiveness analysis.
pub enum Coverage {
    /// `_` or a bare binding — covers everything.
    Wildcard,
    /// An enum variant.
    Variant(String),
    /// A boolean literal.
    Bool(bool),
    /// An int/str literal — never exhaustive on its own.
    Partial,
}

// ---------------------------------------------------------------------------
// Primitive types
// ---------------------------------------------------------------------------

/// The primitive type that a name spells, in any surface language.
pub open spec fn spec_prim(n: Seq<char>) -> Option<SpecTy> {
    if n == "int"@ || n == "عدد"@ || n == "entier"@ {
        Some(SpecTy::Int)
    } else if n == "f64"@ || n == "float"@ || n == "عائم"@ || n == "flottant"@ {
        Some(SpecTy::Float)
    } else if n == "bool"@ || n == "منطقي"@ || n == "booléen"@ || n == "booleen"@ {
        Some(SpecTy::Bool)
    } else if n == "str"@ || n == "نص"@ || n == "chaîne"@ || n == "chaine"@ {
        Some(SpecTy::Str)
    } else if n == "unit"@ {
        Some(SpecTy::Unit)
    } else {
        None
    }
}

pub fn prim(n: &str) -> (r: Option<Ty>)
    ensures
        match r {
            Some(t) => spec_prim(n@) == Some(t@),
            None => spec_prim(n@) is None,
        },
{
    let w = str_chars(n);
    let w = w.as_slice();
    if chars_eq_str(w, "int") || chars_eq_str(w, "عدد") || chars_eq_str(w, "entier") {
        Some(Ty::Int)
    } else if chars_eq_str(w, "f64") || chars_eq_str(w, "float") || chars_eq_str(w, "عائم")
        || chars_eq_str(w, "flottant") {
        Some(Ty::Float)
    } else if chars_eq_str(w, "bool") || chars_eq_str(w, "منطقي") || chars_eq_str(w, "booléen")
        || chars_eq_str(w, "booleen") {
        Some(Ty::Bool)
    } else if chars_eq_str(w, "str") || chars_eq_str(w, "نص") || chars_eq_str(w, "chaîne")
        || chars_eq_str(w, "chaine") {
        Some(Ty::Str)
    } else if chars_eq_str(w, "unit") {
        Some(Ty::Unit)
    } else {
        None
    }
}

// ---------------------------------------------------------------------------
// Operator typing
// ---------------------------------------------------------------------------

/// The type of `lhs op rhs`, or the diagnostic for it.
pub open spec fn spec_binary_ty(op: BinOp, lt: SpecTy, rt: SpecTy) -> Result<SpecTy, Seq<char>> {
    match op {
        BinOp::Add | BinOp::Sub | BinOp::Mul | BinOp::Div | BinOp::Rem => {
            if lt == rt && (lt is Int || lt is Float) {
                Ok(lt)
            } else {
                Err("arithmetic requires two ints or two floats, got `"@ + spec_ty_text(lt) + "` and `"@
                    + spec_ty_text(rt) + "`"@)
            }
        }
        BinOp::Lt | BinOp::Le | BinOp::Gt | BinOp::Ge => {
            if lt == rt && (lt is Int || lt is Float || lt is Str) {
                Ok(SpecTy::Bool)
            } else {
                Err("ordering requires two numbers or two strs, got `"@ + spec_ty_text(lt) + "` and `"@
                    + spec_ty_text(rt) + "`"@)
            }
        }
        BinOp::Eq | BinOp::Ne => {
            if lt != rt {
                Err("cannot compare `"@ + spec_ty_text(lt) + "` with `"@ + spec_ty_text(rt) + "`"@)
            } else {
                Ok(SpecTy::Bool)
            }
        }
    }
}

pub fn binary_ty(op: BinOp, lt: Ty, rt: &Ty) -> (r: Result<Ty, String>)
    ensures
        match spec_binary_ty(op, lt@, rt@) {
            Ok(t) => r matches Ok(x) && x@ == t,
            Err(m) => r matches Err(x) && x@ == m,
        },
{
    let same = ty_eq(&lt, rt);
    match op {
        BinOp::Add | BinOp::Sub | BinOp::Mul | BinOp::Div | BinOp::Rem => {
            if same && (matches!(lt, Ty::Int) || matches!(lt, Ty::Float)) {
                Ok(lt)
            } else {
                let mut m = text("arithmetic requires two ints or two floats, got `");
                push_ty(&mut m, &lt);
                m.append("` and `");
                push_ty(&mut m, rt);
                m.append("`");
                Err(m)
            }
        }
        BinOp::Lt | BinOp::Le | BinOp::Gt | BinOp::Ge => {
            if same && (matches!(lt, Ty::Int) || matches!(lt, Ty::Float) || matches!(lt, Ty::Str)) {
                Ok(Ty::Bool)
            } else {
                let mut m = text("ordering requires two numbers or two strs, got `");
                push_ty(&mut m, &lt);
                m.append("` and `");
                push_ty(&mut m, rt);
                m.append("`");
                Err(m)
            }
        }
        BinOp::Eq | BinOp::Ne => {
            if !same {
                let mut m = text("cannot compare `");
                push_ty(&mut m, &lt);
                m.append("` with `");
                push_ty(&mut m, rt);
                m.append("`");
                Err(m)
            } else {
                Ok(Ty::Bool)
            }
        }
    }
}

/// The type of a numeric cast `from as to`, or the diagnostic for it.
pub open spec fn spec_cast_ty(from: SpecTy, to: SpecTy) -> Result<SpecTy, Seq<char>> {
    if (from is Int || from is Float) && (to is Int || to is Float) {
        Ok(to)
    } else {
        Err("cannot cast `"@ + spec_ty_text(from) + "` to `"@ + spec_ty_text(to) + "` (numeric casts only)"@)
    }
}

pub fn cast_ty(from: &Ty, to: Ty) -> (r: Result<Ty, String>)
    ensures
        match spec_cast_ty(from@, to@) {
            Ok(t) => r matches Ok(x) && x@ == t,
            Err(m) => r matches Err(x) && x@ == m,
        },
{
    let numeric_from = matches!(from, Ty::Int) || matches!(from, Ty::Float);
    let numeric_to = matches!(to, Ty::Int) || matches!(to, Ty::Float);
    if numeric_from && numeric_to {
        Ok(to)
    } else {
        let mut m = text("cannot cast `");
        push_ty(&mut m, from);
        m.append("` to `");
        push_ty(&mut m, &to);
        m.append("` (numeric casts only)");
        Err(m)
    }
}

/// The type of `-x` for `x: t`, or the diagnostic for it.
pub open spec fn spec_neg_ty(t: SpecTy) -> Result<SpecTy, Seq<char>> {
    if t is Int || t is Float {
        Ok(t)
    } else {
        Err("negation requires a number, got `"@ + spec_ty_text(t) + "`"@)
    }
}

pub fn neg_ty(t: Ty) -> (r: Result<Ty, String>)
    ensures
        match spec_neg_ty(t@) {
            Ok(x) => r matches Ok(y) && y@ == x,
            Err(m) => r matches Err(y) && y@ == m,
        },
{
    if matches!(t, Ty::Int) || matches!(t, Ty::Float) {
        Ok(t)
    } else {
        let mut m = text("negation requires a number, got `");
        push_ty(&mut m, &t);
        m.append("`");
        Err(m)
    }
}

/// `got` must be compatible with `want`; otherwise the diagnostic names both.
pub open spec fn spec_expect_ty(got: SpecTy, want: SpecTy, ctx: Seq<char>) -> Result<(), Seq<char>> {
    if spec_types_match(got, want) {
        Ok(())
    } else {
        Err(ctx + ": expected `"@ + spec_ty_text(want) + "`, found `"@ + spec_ty_text(got) + "`"@)
    }
}

pub fn expect_ty(got: &Ty, want: &Ty, ctx: &str) -> (r: Result<(), String>)
    ensures
        match spec_expect_ty(got@, want@, ctx@) {
            Ok(()) => r is Ok,
            Err(m) => r matches Err(y) && y@ == m,
        },
{
    if types_match(got, want) {
        Ok(())
    } else {
        let mut m = text(ctx);
        m.append(": expected `");
        push_ty(&mut m, want);
        m.append("`, found `");
        push_ty(&mut m, got);
        m.append("`");
        Err(m)
    }
}

// ---------------------------------------------------------------------------
// The types of operator expressions
// ---------------------------------------------------------------------------

pub open spec fn msg_moved(name: Seq<char>, line: usize) -> Seq<char> {
    "use of moved value `"@ + name + "` (moved on line "@ + dec(line as nat) + ") — use `.clone()` to keep a copy"@
}

/// A binding as the checker sees it: its name, type, whether it was
/// declared `var`, and the line it was moved on, if it was.
pub struct TyView {
    pub name: Seq<char>,
    pub ty: SpecTy,
    pub mutable: bool,
    pub moved: Option<usize>,
}

/// The bindings of one scope.
pub open spec fn tscope_view(sc: Seq<(String, Binding)>) -> Seq<TyView> {
    sc.map_values(|x: (String, Binding)| TyView { name: x.0@, ty: x.1.ty@, mutable: x.1.mutable, moved: x.1.moved })
}

/// The bindings of a scope stack, innermost last.
pub open spec fn tenv_of(scopes: Seq<Scope>) -> Seq<Seq<TyView>> {
    scopes.map_values(|sc: Scope| tscope_view(sc@))
}

/// The index of the first binding of `sc`, from `i` on, named `k`.
pub open spec fn tfirst_in(sc: Seq<TyView>, k: Seq<char>, i: int) -> Option<int>
    decreases sc.len() - i,
{
    if i < 0 || i >= sc.len() {
        None
    } else if sc[i].name == k {
        Some(i)
    } else {
        tfirst_in(sc, k, i + 1)
    }
}

/// Where the innermost binding named `k` lives: (scope, position).
pub open spec fn tenv_find(env: Seq<Seq<TyView>>, k: Seq<char>) -> Option<(int, int)>
    decreases env.len(),
{
    if env.len() == 0 {
        None
    } else {
        match tfirst_in(env.last(), k, 0) {
            Some(j) => Some(((env.len() - 1) as int, j)),
            None => tenv_find(env.drop_last(), k),
        }
    }
}

proof fn lemma_tfirst_in(sc: Seq<(String, Binding)>, k: Seq<char>, i: int)
    requires
        0 <= i,
    ensures
        tfirst_in(tscope_view(sc), k, i) == first_key(sc, k, i),
    decreases sc.len() - i,
{
    if i < sc.len() {
        lemma_tfirst_in(sc, k, i + 1);
    }
}

pub proof fn lemma_tenv_find(scopes: Seq<Scope>, k: Seq<char>)
    ensures
        tenv_find(tenv_of(scopes), k) == scope_find(scopes, k),
        scope_find(scopes, k) matches Some((i, j)) ==> 0 <= i < scopes.len() && 0 <= j < scopes[i]@.len()
            && scopes[i]@[j].0@ == k,
    decreases scopes.len(),
{
    lemma_scope_find(scopes, k);
    if scopes.len() > 0 {
        lemma_tfirst_in(scopes.last()@, k, 0);
        assert(tenv_of(scopes).last() == tscope_view(scopes.last()@));
        assert(tenv_of(scopes).drop_last() =~= tenv_of(scopes.drop_last()));
        lemma_tenv_find(scopes.drop_last(), k);
    }
}

pub proof fn lemma_tenv_find_bounds(env: Seq<Seq<TyView>>, k: Seq<char>)
    ensures
        tenv_find(env, k) matches Some((i, j)) ==> 0 <= i < env.len() && 0 <= j < env[i].len() && env[i][j].name == k,
    decreases env.len(),
{
    if env.len() > 0 {
        lemma_tfirst_in_bounds(env.last(), k, 0);
        if tfirst_in(env.last(), k, 0) is None {
            lemma_tenv_find_bounds(env.drop_last(), k);
        }
    }
}

pub proof fn lemma_tfirst_in_bounds(sc: Seq<TyView>, k: Seq<char>, i: int)
    ensures
        tfirst_in(sc, k, i) matches Some(j) ==> i <= j < sc.len() && 0 <= j && sc[j].name == k,
    decreases sc.len() - i,
{
    if 0 <= i < sc.len() && sc[i].name != k {
        lemma_tfirst_in_bounds(sc, k, i + 1);
    }
}

/// The type the checker gives `e` in the bindings `scopes`, for the
/// expressions made of literals, variables, the unary and binary operators,
/// interpolated strings, array literals (whose bare-variable elements are
/// of `Copy` types), indexing and array lengths (`None` for any other
/// expression). A
/// diagnostic carries the line of the innermost expression that raised it.
pub open spec fn pure_type(scopes: Seq<Seq<TyView>>, e: Expr) -> Option<Result<SpecTy, Seq<char>>>
    decreases e, 1int,
{
    match pure_type_kind(scopes, e) {
        Some(Ok(t)) => Some(Ok(t)),
        Some(Err(m)) => Some(Err(spec_with_line(e.line as nat, m))),
        None => None,
    }
}

/// [`pure_type`] before the line of `e` is attached to a diagnostic `e`
/// raises.
pub open spec fn pure_type_kind(scopes: Seq<Seq<TyView>>, e: Expr) -> Option<Result<SpecTy, Seq<char>>>
    decreases e, 0int,
{
    match e.kind {
        ExprKind::Int(_) => Some(Ok(SpecTy::Int)),
        ExprKind::Float(_) => Some(Ok(SpecTy::Float)),
        ExprKind::Str(_) => Some(Ok(SpecTy::Str)),
        ExprKind::Bool(_) => Some(Ok(SpecTy::Bool)),
        ExprKind::Ident(name) => match tenv_find(scopes, name@) {
            Some((i, j)) => match scopes[i][j].moved {
                Some(line) => Some(Err(msg_moved(name@, line))),
                None => Some(Ok(scopes[i][j].ty)),
            },
            None => None,
        },
        ExprKind::Unary { op, rhs } => match pure_type(scopes, *rhs) {
            Some(Ok(t)) => match op {
                UnOp::Neg => Some(spec_neg_ty(t)),
                UnOp::Not => match spec_expect_ty(t, SpecTy::Bool, "logical not"@) {
                    Ok(_) => Some(Ok(SpecTy::Bool)),
                    Err(m) => Some(Err(spec_with_line(rhs.line as nat, m))),
                },
            },
            other => other,
        },
        ExprKind::Binary { op, lhs, rhs } => match pure_type(scopes, *lhs) {
            Some(Ok(a)) => match pure_type(scopes, *rhs) {
                Some(Ok(b)) => Some(spec_binary_ty(op, a, b)),
                other => other,
            },
            other => other,
        },
        ExprKind::StrInterp(parts) => match pure_part_types(scopes, parts@) {
            Some(Ok(_)) => Some(Ok(SpecTy::Str)),
            Some(Err(m)) => Some(Err(m)),
            None => None,
        },
        ExprKind::ArrayLit(elems) => if elems@.len() == 0 {
            Some(Err(msg_empty_array()))
        } else {
            match pure_type(scopes, elems@[0]) {
                Some(Ok(t0)) => match pure_elem_types(scopes, elems@, t0) {
                    Some(Ok(_)) => if elems_stay(scopes, elems@) {
                        Some(Ok(SpecTy::Vec(Box::new(t0))))
                    } else {
                        None
                    },
                    Some(Err(m)) => Some(Err(m)),
                    None => None,
                },
                other => other,
            }
        },
        ExprKind::MethodCall { receiver, method, args } => if is_len_call(method@, args@) {
            match pure_type(scopes, *receiver) {
                Some(Ok(SpecTy::Vec(_))) => Some(Ok(SpecTy::Int)),
                Some(Ok(_)) => None,
                Some(Err(m)) => Some(Err(m)),
                None => None,
            }
        } else {
            None
        },
        ExprKind::Index { base, index } => match pure_type(scopes, *base) {
            Some(Ok(bt)) => match pure_type(scopes, *index) {
                Some(Ok(it)) => match spec_expect_ty(it, SpecTy::Int, "array index"@) {
                    Err(m) => Some(Err(spec_with_line(index.line as nat, m))),
                    Ok(_) => match bt {
                        SpecTy::Vec(t) => Some(Ok(*t)),
                        _ => Some(Err("cannot index a value of type `"@ + spec_ty_text(bt) + "`"@)),
                    },
                },
                other => other,
            },
            other => other,
        },
        _ => None,
    }
}

/// The diagnostic for an array literal with no element to take a type from.
pub open spec fn msg_empty_array() -> Seq<char> {
    "cannot infer the element type of an empty array — annotate the binding, e.g. `let v: [int] = []`"@
}

/// Whether checking `e` against the expected type `want` accepts it as it
/// stands: an empty array literal takes its element type from `want`.
pub open spec fn takes_empty(e: Expr, want: SpecTy) -> bool {
    e.kind matches ExprKind::ArrayLit(es) && es@.len() == 0 && want is Vec
}

/// What the checker gives the elements after the first of an array literal,
/// each checked against the first one's type `t0`: success, or the first
/// diagnostic.
pub open spec fn pure_elem_types(scopes: Seq<Seq<TyView>>, s: Seq<Expr>, t0: SpecTy) -> Option<Result<(), Seq<char>>>
    decreases s, 0int,
{
    if s.len() <= 1 {
        Some(Ok(()))
    } else {
        match pure_elem_types(scopes, s.drop_last(), t0) {
            Some(Ok(_)) => if takes_empty(s.last(), t0) {
                Some(Ok(()))
            } else {
                match pure_type(scopes, s.last()) {
                    Some(Ok(t)) => match spec_expect_ty(t, t0, "array element"@) {
                        Ok(_) => Some(Ok(())),
                        Err(m) => Some(Err(spec_with_line(s.last().line as nat, m))),
                    },
                    Some(Err(m)) => Some(Err(m)),
                    None => None,
                }
            },
            other => other,
        }
    }
}

proof fn lemma_elem_types_prefix(scopes: Seq<Seq<TyView>>, s: Seq<Expr>, t0: SpecTy, k: int)
    requires
        1 <= k <= s.len(),
        pure_elem_types(scopes, s, t0) is Some,
    ensures
        pure_elem_types(scopes, s.take(k), t0) is Some,
        pure_elem_types(scopes, s.take(k), t0) matches Some(Err(m)) ==> pure_elem_types(scopes, s, t0) == Some(
            Err::<(), Seq<char>>(m),
        ),
    decreases s.len() - k,
{
    if k < s.len() {
        assert(s.take(k + 1).drop_last() =~= s.take(k));
        lemma_elem_types_prefix(scopes, s, t0, k + 1);
    } else {
        assert(s.take(k) =~= s);
    }
}

/// Putting the elements `s` into an array leaves the bindings as they are:
/// each element that is a bare variable is one of a `Copy` type (and not
/// `self`).
pub open spec fn elems_stay(scopes: Seq<Seq<TyView>>, s: Seq<Expr>) -> bool {
    forall|k: int|
        0 <= k < s.len() ==> ((#[trigger] s[k]).kind matches ExprKind::Ident(n) ==> n@ != "self"@ && (tenv_find(
            scopes,
            n@,
        ) matches Some((i, j)) && spec_is_copy(scopes[i][j].ty)))
}

/// What the checker gives the embedded expressions of an interpolated
/// string, typed in turn: success (any type may be shown), or the first
/// diagnostic.
pub open spec fn pure_part_types(scopes: Seq<Seq<TyView>>, ps: Seq<StrPart>) -> Option<Result<(), Seq<char>>>
    decreases ps, 0int,
{
    if ps.len() == 0 {
        Some(Ok(()))
    } else {
        match pure_part_types(scopes, ps.drop_last()) {
            Some(Ok(_)) => match ps.last() {
                StrPart::Lit(_) => Some(Ok(())),
                StrPart::Expr(x) => match pure_type(scopes, *x) {
                    Some(Ok(_)) => Some(Ok(())),
                    Some(Err(m)) => Some(Err(m)),
                    None => None,
                },
            },
            other => other,
        }
    }
}

proof fn lemma_part_types_prefix(scopes: Seq<Seq<TyView>>, ps: Seq<StrPart>, k: int)
    requires
        0 <= k <= ps.len(),
        pure_part_types(scopes, ps) is Some,
    ensures
        pure_part_types(scopes, ps.take(k)) is Some,
        pure_part_types(scopes, ps.take(k)) matches Some(Err(m)) ==> pure_part_types(scopes, ps) == Some(
            Err::<(), Seq<char>>(m),
        ),
    decreases ps.len() - k,
{
    if k < ps.len() {
        assert(ps.take(k + 1).drop_last() =~= ps.take(k));
        lemma_part_types_prefix(scopes, ps, k + 1);
    } else {
        assert(ps.take(k) =~= ps);
    }
}

/// What the checker gives the expressions `s`, typed in turn: success, or
/// the first diagnostic (`None` if one falls outside [`pure_type`]'s
/// fragment before any diagnostic).
pub open spec fn pure_types(scopes: Seq<Seq<TyView>>, s: Seq<Expr>) -> Option<Result<(), Seq<char>>>
    decreases s.len(),
{
    if s.len() == 0 {
        Some(Ok(()))
    } else {
        match pure_types(scopes, s.drop_last()) {
            Some(Ok(_)) => match pure_type(scopes, s.last()) {
                Some(Ok(_)) => Some(Ok(())),
                Some(Err(m)) => Some(Err(m)),
                None => None,
            },
            other => other,
        }
    }
}

proof fn lemma_types_prefix(scopes: Seq<Seq<TyView>>, s: Seq<Expr>, k: int)
    requires
        0 <= k <= s.len(),
        pure_types(scopes, s) is Some,
    ensures
        pure_types(scopes, s.take(k)) is Some,
        pure_types(scopes, s.take(k)) matches Some(Err(m)) ==> pure_types(scopes, s) == Some(Err::<(), Seq<char>>(m)),
    decreases s.len() - k,
{
    if k < s.len() {
        assert(s.take(k + 1).drop_last() =~= s.take(k));
        lemma_types_prefix(scopes, s, k + 1);
    } else {
        assert(s.take(k) =~= s);
    }
}

/// A diagnostic tagged with a line keeps its tag.
pub proof fn lemma_with_line_prefix(l: nat, m: Seq<char>)
    ensures
        has_line_prefix(spec_with_line(l, m)),
{
    reveal_strlit("line ");
    if !has_line_prefix(m) {
        assert(spec_with_line(l, m).take(5) =~= "line "@);
    }
}

proof fn lemma_types_tagged(scopes: Seq<Seq<TyView>>, s: Seq<Expr>)
    ensures
        pure_types(scopes, s) matches Some(Err(m)) ==> has_line_prefix(m),
    decreases s.len(),
{
    if s.len() > 0 {
        lemma_types_tagged(scopes, s.drop_last());
        match pure_type_kind(scopes, s.last()) {
            Some(Err(m)) => lemma_with_line_prefix(s.last().line as nat, m),
            _ => {},
        }
    }
}

/// `sc` with the binding `b` put in place of the one of its name, or added.
pub open spec fn tput(sc: Seq<TyView>, b: TyView) -> Seq<TyView> {
    match tfirst_in(sc, b.name, 0) {
        Some(i) => sc.update(i, b),
        None => sc.push(b),
    }
}

/// `env` with the binding `b` made in its innermost scope.
pub open spec fn tenv_bind(env: Seq<Seq<TyView>>, b: TyView) -> Seq<Seq<TyView>> {
    env.update(env.len() - 1, tput(env.last(), b))
}

/// `env` with binding (i, j) marked moved on `line`.
pub open spec fn tenv_mark(env: Seq<Seq<TyView>>, i: int, j: int, line: usize) -> Seq<Seq<TyView>> {
    env.update(i, env[i].update(j, TyView { name: env[i][j].name, ty: env[i][j].ty, mutable: env[i][j].mutable, moved: Some(line) }))
}

/// What using `e` by value does to the bindings: a bare variable of a type
/// that is not `Copy` is moved.
pub open spec fn tenv_move(env: Seq<Seq<TyView>>, e: Expr) -> Seq<Seq<TyView>> {
    match e.kind {
        ExprKind::Ident(n) => match tenv_find(env, n@) {
            Some((i, j)) => if spec_is_copy(env[i][j].ty) { env } else { tenv_mark(env, i, j, e.line) },
            None => env,
        },
        _ => env,
    }
}

/// `env` with the innermost binding named `k` usable again.
pub open spec fn tenv_unmove(env: Seq<Seq<TyView>>, k: Seq<char>) -> Seq<Seq<TyView>> {
    match tenv_find(env, k) {
        Some((i, j)) => env.update(i, env[i].update(j, TyView { name: env[i][j].name, ty: env[i][j].ty, mutable: env[i][j].mutable, moved: None })),
        None => env,
    }
}

/// The first binding of `sc` named `n`.
pub open spec fn tget(sc: Seq<TyView>, n: Seq<char>) -> Option<TyView> {
    match tfirst_in(sc, n, 0) {
        Some(i) => Some(sc[i]),
        None => None,
    }
}

/// The bindings `old` after folding in the move-state of another branch,
/// `other`: a binding moved in either counts as moved.
pub open spec fn tmerge(old: Seq<Seq<TyView>>, other: Seq<Seq<TyView>>) -> Seq<Seq<TyView>> {
    Seq::new(
        old.len(),
        |s: int|
            Seq::new(
                old[s].len(),
                |b: int|
                    TyView {
                        name: old[s][b].name,
                        ty: old[s][b].ty,
                        mutable: old[s][b].mutable,
                        moved: if old[s][b].moved is None && s < other.len() && tget(other[s], old[s][b].name) is Some {
                            tget(other[s], old[s][b].name)->0.moved
                        } else {
                            old[s][b].moved
                        },
                    },
            ),
    )
}

/// Binding (s, b) of `after` is moved, but the binding of its name in the
/// same scope of `before` was not.
pub open spec fn tmove_at(after: Seq<Seq<TyView>>, before: Seq<Seq<TyView>>, s: int, b: int) -> bool {
    &&& 0 <= s < after.len()
    &&& s < before.len()
    &&& 0 <= b < after[s].len()
    &&& after[s][b].moved is Some
    &&& tget(before[s], after[s][b].name) matches Some(ob) && ob.moved is None
}

/// (s, b) is the first such binding, in scope order and then position.
pub open spec fn tmove_first(after: Seq<Seq<TyView>>, before: Seq<Seq<TyView>>, s: int, b: int) -> bool {
    &&& tmove_at(after, before, s, b)
    &&& forall|s2: int, b2: int| (s2 < s || (s2 == s && b2 < b)) ==> !tmove_at(after, before, s2, b2)
}

/// The first binding moved in `after` that was not moved in `before`.
pub open spec fn first_move(after: Seq<Seq<TyView>>, before: Seq<Seq<TyView>>) -> Option<(int, int)> {
    if exists|s: int, b: int| tmove_first(after, before, s, b) {
        Some(choose|s: int, b: int| tmove_first(after, before, s, b))
    } else {
        None
    }
}

/// The diagnostic for a value moved inside a loop body.
pub open spec fn msg_loop_move(v: TyView) -> Seq<char> {
    spec_with_line(
        (match v.moved {
            Some(l) => l,
            None => 0,
        }) as nat,
        "`"@ + v.name + "` is moved inside a loop — a later iteration would use the moved value; use `.clone()`"@,
    )
}

/// The annotation of a `let`: none (`Some(None)`), or a primitive type
/// named in any surface language (`Some(Some(t))`); `None` for any other.
pub open spec fn ann_prim(a: Option<TypeExpr>) -> Option<Option<SpecTy>> {
    match a {
        None => Some(None),
        Some(TypeExpr::Name(n)) => match spec_prim(n@) {
            Some(p) => Some(Some(p)),
            None => None,
        },
        _ => None,
    }
}

/// The bindings inside `for var in` an array: a scope holding the loop
/// variable, of the element type `t`.
pub open spec fn elem_scope(env: Seq<Seq<TyView>>, var: Seq<char>, t: SpecTy) -> Seq<Seq<TyView>> {
    env.push(seq![TyView { name: var, ty: t, mutable: false, moved: None }])
}

/// The bindings inside `for var in ..`: a scope holding the loop variable.
pub open spec fn for_scope(env: Seq<Seq<TyView>>, var: Seq<char>) -> Seq<Seq<TyView>> {
    env.push(seq![TyView { name: var, ty: SpecTy::Int, mutable: false, moved: None }])
}

/// What checking the statement `s` in the bindings `env` gives: the
/// statement's type and the bindings after it, or the diagnostic — for
/// `let` bindings (without annotation or annotated with a primitive type)
/// and assignments to variables of
/// operator expressions, `print` calls, operator expressions, `if`
/// statements, `while` loops and `for` loops over ranges and arrays
/// (`None` for any other statement).
pub open spec fn pure_check_stmt(env: Seq<Seq<TyView>>, s: Stmt) -> Option<Result<(SpecTy, Seq<Seq<TyView>>), Seq<char>>>
    decreases s, 0int,
{
    match s {
        Stmt::Let { name, mutable, ty_ann, init } => match ann_prim(ty_ann) {
            None => None,
            Some(a) => match pure_type(env, init) {
                Some(Ok(t)) => match a {
                    None => Some(Ok((
                        SpecTy::Unit,
                        tenv_bind(tenv_move(env, init), TyView { name: name@, ty: t, mutable, moved: None }),
                    ))),
                    Some(p) => if spec_types_match(p, t) {
                        Some(Ok((
                            SpecTy::Unit,
                            tenv_bind(tenv_move(env, init), TyView { name: name@, ty: p, mutable, moved: None }),
                        )))
                    } else {
                        Some(Err("let `"@ + name@ + "`: annotated `"@ + spec_ty_text(p) + "` but initializer has type `"@
                            + spec_ty_text(t) + "`"@))
                    },
                },
                Some(Err(m)) => Some(Err(m)),
                None => None,
            },
        },
        Stmt::Assign { target: AssignTarget::Var(name), value } => match spec_require_mutable(env, name@) {
            Err(m) => Some(Err(m)),
            Ok(slot) => match pure_type(env, value) {
                Some(Ok(vt)) => if spec_types_match(slot, vt) {
                    Some(Ok((SpecTy::Unit, tenv_unmove(tenv_move(env, value), name@))))
                } else {
                    Some(Err("cannot assign `"@ + spec_ty_text(vt) + "` to `"@ + name@ + "` of type `"@
                        + spec_ty_text(slot) + "`"@))
                },
                Some(Err(m)) => Some(Err(m)),
                None => None,
            },
        },
        Stmt::While { cond, body } => match pure_type(env, cond) {
            Some(Ok(t)) => match spec_expect_ty(t, SpecTy::Bool, "while condition"@) {
                Err(m) => Some(Err(spec_with_line(cond.line as nat, m))),
                Ok(_) => match pure_check_block(env, body) {
                    Some(Ok((_, env1))) => match first_move(env1, env) {
                        Some((i, j)) => Some(Err(msg_loop_move(env1[i][j]))),
                        None => Some(Ok((SpecTy::Unit, env1))),
                    },
                    Some(Err(m)) => Some(Err(m)),
                    None => None,
                },
            },
            Some(Err(m)) => Some(Err(m)),
            None => None,
        },
        Stmt::For { var, start, end, body } => match pure_type(env, start) {
            Some(Ok(t1)) => match spec_expect_ty(t1, SpecTy::Int, "for range start"@) {
                Err(m) => Some(Err(spec_with_line(start.line as nat, m))),
                Ok(_) => match pure_type(env, end) {
                    Some(Ok(t2)) => match spec_expect_ty(t2, SpecTy::Int, "for range end"@) {
                        Err(m) => Some(Err(spec_with_line(end.line as nat, m))),
                        Ok(_) => {
                            let el = for_scope(env, var@);
                            match pure_check_block(el, body) {
                                Some(Ok((_, env1))) => match first_move(env1, el) {
                                    Some((i, j)) => Some(Err(msg_loop_move(env1[i][j]))),
                                    None => Some(Ok((SpecTy::Unit, env1.drop_last()))),
                                },
                                Some(Err(m)) => Some(Err(m)),
                                None => None,
                            }
                        },
                    },
                    Some(Err(m)) => Some(Err(m)),
                    None => None,
                },
            },
            Some(Err(m)) => Some(Err(m)),
            None => None,
        },
        Stmt::ForEach { var, iter, body } => match pure_type(env, iter) {
            Some(Ok(t)) => match t {
                SpecTy::Vec(et) => {
                    let el = elem_scope(tenv_move(env, iter), var@, *et);
                    match pure_check_block(el, body) {
                        Some(Ok((_, env1))) => match first_move(env1, el) {
                            Some((i, j)) => Some(Err(msg_loop_move(env1[i][j]))),
                            None => Some(Ok((SpecTy::Unit, env1.drop_last()))),
                        },
                        Some(Err(m)) => Some(Err(m)),
                        None => None,
                    }
                },
                _ => Some(Err(spec_with_line(
                    iter.line as nat,
                    "`for .. in` requires an array, got `"@ + spec_ty_text(t) + "`"@,
                ))),
            },
            Some(Err(m)) => Some(Err(m)),
            None => None,
        },
        Stmt::Expr(e) => match print_args(e) {
            Some(args) => match pure_types(env, args) {
                Some(Ok(_)) => Some(Ok((SpecTy::Unit, env))),
                Some(Err(m)) => Some(Err(m)),
                None => None,
            },
            None => if e.kind is If || e.kind is Block {
                pure_check_ctl(env, e)
            } else {
                match pure_type(env, e) {
                    Some(Ok(t)) => Some(Ok((t, env))),
                    Some(Err(m)) => Some(Err(m)),
                    None => None,
                }
            },
        },
        _ => None,
    }
}

/// What checking the statements `ss` in turn gives: the type of the last
/// one (unit if there is none) and the bindings after them, or the first
/// diagnostic.
pub open spec fn pure_check_stmts(env: Seq<Seq<TyView>>, ss: Seq<Stmt>) -> Option<Result<(SpecTy, Seq<Seq<TyView>>), Seq<char>>>
    decreases ss, 1int,
{
    if ss.len() == 0 {
        Some(Ok((SpecTy::Unit, env)))
    } else {
        match pure_check_stmts(env, ss.drop_last()) {
            Some(Ok((_, env2))) => pure_check_stmt(env2, ss.last()),
            other => other,
        }
    }
}

/// What checking the block `b` gives: its statements are checked in a
/// scope of their own.
pub open spec fn pure_check_block(env: Seq<Seq<TyView>>, b: Block) -> Option<Result<(SpecTy, Seq<Seq<TyView>>), Seq<char>>>
    decreases b, 2int,
{
    match pure_check_stmts(env.push(Seq::empty()), b.stmts@) {
        Some(Ok((t, en))) => Some(Ok((t, en.drop_last()))),
        other => other,
    }
}

/// What checking the `if` or block expression `e` gives: its type and the
/// bindings after it; a diagnostic carries the line of `e` if it has none.
pub open spec fn pure_check_ctl(env: Seq<Seq<TyView>>, e: Expr) -> Option<Result<(SpecTy, Seq<Seq<TyView>>), Seq<char>>>
    decreases e, 1int,
{
    match pure_check_ctl_kind(env, e) {
        Some(Err(m)) => Some(Err(spec_with_line(e.line as nat, m))),
        other => other,
    }
}

/// [`pure_check_ctl`] before the line of `e` is attached.
pub open spec fn pure_check_ctl_kind(env: Seq<Seq<TyView>>, e: Expr) -> Option<Result<(SpecTy, Seq<Seq<TyView>>), Seq<char>>>
    decreases e, 0int,
{
    match e.kind {
        ExprKind::Block(b) => pure_check_block(env, b),
        ExprKind::If { cond, then_b, els } => match pure_type(env, *cond) {
            Some(Ok(t)) => match spec_expect_ty(t, SpecTy::Bool, "if condition"@) {
                Err(m) => Some(Err(spec_with_line(cond.line as nat, m))),
                Ok(_) => match pure_check_block(env, then_b) {
                    Some(Ok((tt, e_then))) => match els {
                        Some(x) => match pure_check_ctl(env, *x) {
                            Some(Ok((et, e_else))) => if spec_types_match(tt, et) {
                                Some(Ok((spec_join(tt, et), tmerge(e_else, e_then))))
                            } else {
                                Some(Err("if branches have differing types: `"@ + spec_ty_text(tt) + "` vs `"@
                                    + spec_ty_text(et) + "`"@))
                            },
                            other => other,
                        },
                        None => Some(Ok((SpecTy::Unit, tmerge(env, e_then)))),
                    },
                    other => other,
                },
            },
            Some(Err(m)) => Some(Err(m)),
            None => None,
        },
        _ => None,
    }
}

/// The return type of an entry point, resolved with no declared types.
pub open spec fn entry_ret(f: FnDecl) -> Result<SpecTy, Seq<char>> {
    match f.ret {
        None => Ok(SpecTy::Unit),
        Some(t) => spec_resolve(Seq::empty(), Seq::empty(), t),
    }
}

/// What checking a program made of the one function `f` gives, for a body
/// of [`pure_check_stmt`]'s statements: success, or the diagnostic.
pub open spec fn pure_check_entry(f: FnDecl) -> Option<Result<(), Seq<char>>> {
    match entry_ret(f) {
        Err(m) => Some(Err(m)),
        Ok(rt) => match pure_check_stmts(seq![Seq::empty(), Seq::empty()], f.body.stmts@) {
            Some(Ok((t, _))) => if spec_types_match(t, rt) {
                Some(Ok(()))
            } else {
                Some(Err("function `"@ + f.name@ + "`: body has type `"@ + spec_ty_text(t)
                    + "` but the declared return type is `"@ + spec_ty_text(rt) + "`"@))
            },
            Some(Err(m)) => Some(Err(m)),
            None => None,
        },
    }
}

proof fn lemma_tput(sc: Seq<(String, Binding)>, name: String, b: Binding)
    ensures
        tscope_view(put(sc, name, b)) == tput(
            tscope_view(sc),
            TyView { name: name@, ty: b.ty@, mutable: b.mutable, moved: b.moved },
        ),
{
    lemma_tfirst_in(sc, name@, 0);
    lemma_first_key(sc, name@, 0);
    assert(tscope_view(put(sc, name, b)) =~= tput(
        tscope_view(sc),
        TyView { name: name@, ty: b.ty@, mutable: b.mutable, moved: b.moved },
    ));
}

proof fn lemma_tmark(old: Seq<Scope>, new: Seq<Scope>, i: int, j: int, line: usize)
    requires
        0 <= i < old.len(),
        0 <= j < old[i]@.len(),
        moved_at(old, new, i, j, line),
    ensures
        tenv_of(new) == tenv_mark(tenv_of(old), i, j, line),
{
    assert(tscope_view(new[i]@) =~= tenv_mark(tenv_of(old), i, j, line)[i]);
    assert(tenv_of(new) =~= tenv_mark(tenv_of(old), i, j, line));
}

proof fn lemma_tbind(before: Seq<Scope>, after: Seq<Scope>, name: String, b: Binding)
    requires
        before.len() >= 1,
        after.len() == before.len(),
        after.last()@ == put(before.last()@, name, b),
        forall|i: int| 0 <= i < before.len() - 1 ==> after[i] == before[i],
    ensures
        tenv_of(after) == tenv_bind(
            tenv_of(before),
            TyView { name: name@, ty: b.ty@, mutable: b.mutable, moved: b.moved },
        ),
{
    lemma_tput(before.last()@, name, b);
    assert(tenv_of(after) =~= tenv_bind(
        tenv_of(before),
        TyView { name: name@, ty: b.ty@, mutable: b.mutable, moved: b.moved },
    ));
}

proof fn lemma_tunmove(before: Seq<Scope>, after: Seq<Scope>, i: int, j: int)
    requires
        0 <= i < before.len(),
        0 <= j < before[i]@.len(),
        after.len() == before.len(),
        forall|s: int| 0 <= s < before.len() && s != i ==> after[s] == before[s],
        after[i]@.len() == before[i]@.len(),
        forall|b: int| 0 <= b < before[i]@.len() && b != j ==> after[i]@[b] == before[i]@[b],
        after[i]@[j].0 == before[i]@[j].0,
        after[i]@[j].1.ty == before[i]@[j].1.ty,
        after[i]@[j].1.mutable == before[i]@[j].1.mutable,
        after[i]@[j].1.moved is None,
    ensures
        tenv_of(after) == tenv_of(before).update(
            i,
            tenv_of(before)[i].update(
                j,
                TyView {
                    name: tenv_of(before)[i][j].name,
                    ty: tenv_of(before)[i][j].ty,
                    mutable: tenv_of(before)[i][j].mutable,
                    moved: None,
                },
            ),
        ),
{
    let tb = tenv_of(before);
    let nv = TyView { name: tb[i][j].name, ty: tb[i][j].ty, mutable: tb[i][j].mutable, moved: None };
    assert(tscope_view(after[i]@) =~= tb[i].update(j, nv));
    assert(tenv_of(after) =~= tb.update(i, tb[i].update(j, nv)));
}

proof fn lemma_check_prefix(env: Seq<Seq<TyView>>, ss: Seq<Stmt>, k: int)
    requires
        0 <= k <= ss.len(),
        pure_check_stmts(env, ss) is Some,
    ensures
        pure_check_stmts(env, ss.take(k)) is Some,
        pure_check_stmts(env, ss.take(k)) matches Some(Err(m)) ==> pure_check_stmts(env, ss) == Some(
            Err::<(SpecTy, Seq<Seq<TyView>>), Seq<char>>(m),
        ),
    decreases ss.len() - k,
{
    if k < ss.len() {
        assert(ss.take(k + 1).drop_last() =~= ss.take(k));
        lemma_check_prefix(env, ss, k + 1);
    } else {
        assert(ss.take(k) =~= ss);
    }
}

proof fn lemma_tget(sc: Seq<(String, Binding)>, n: Seq<char>)
    ensures
        (tget(tscope_view(sc), n) is Some) == (get(sc, n) is Some),
        get(sc, n) matches Some(b) ==> tget(tscope_view(sc), n)->0.moved == b.moved,
{
    lemma_tfirst_in(sc, n, 0);
    lemma_first_key(sc, n, 0);
}

proof fn lemma_tmerge(old: Seq<Scope>, other: Seq<Scope>, new: Seq<Scope>)
    requires
        merged(old, other, new),
    ensures
        tenv_of(new) == tmerge(tenv_of(old), tenv_of(other)),
{
    let t = tmerge(tenv_of(old), tenv_of(other));
    assert forall|s: int| 0 <= s < old.len() implies #[trigger] tscope_view(new[s]@) == t[s] by {
        assert forall|b: int| 0 <= b < old[s]@.len() implies #[trigger] tscope_view(new[s]@)[b] == t[s][b] by {
            if s < other.len() {
                lemma_tget(other[s]@, old[s]@[b].0@);
                assert(tenv_of(other)[s] == tscope_view(other[s]@));
            }
        }
        assert(tscope_view(new[s]@) =~= t[s]);
    }
    assert(tenv_of(new) =~= t);
}

proof fn lemma_loop_move_view(after: Seq<Scope>, before: Seq<Scope>, s: int, b: int)
    ensures
        is_loop_move(after, before, s, b) == tmove_at(tenv_of(after), tenv_of(before), s, b),
{
    if 0 <= s < after.len() && s < before.len() && 0 <= b < after[s]@.len() {
        lemma_tget(before[s]@, after[s]@[b].0@);
        assert(tenv_of(before)[s] == tscope_view(before[s]@));
    }
}

proof fn lemma_first_move_unique(after: Seq<Seq<TyView>>, before: Seq<Seq<TyView>>, s: int, b: int)
    requires
        tmove_first(after, before, s, b),
    ensures
        first_move(after, before) == Some((s, b)),
{
    let (s2, b2) = choose|s2: int, b2: int| tmove_first(after, before, s2, b2);
    if s2 < s || (s2 == s && b2 < b) {
        assert(!tmove_at(after, before, s2, b2));
    } else if s < s2 || (s == s2 && b < b2) {
        assert(!tmove_at(after, before, s, b));
    }
}

/// `a` and `b` hold the same bindings (names, types, mutability) in the
/// same places; only `moved` marks may differ.
pub open spec fn tsame_shape(a: Seq<Seq<TyView>>, b: Seq<Seq<TyView>>) -> bool {
    &&& a.len() == b.len()
    &&& forall|i: int| 0 <= i < a.len() ==> (#[trigger] a[i]).len() == b[i].len()
    &&& forall|i: int, j: int|
        0 <= i < a.len() && 0 <= j < a[i].len() ==> {
            &&& (#[trigger] a[i][j]).name == b[i][j].name
            &&& a[i][j].ty == b[i][j].ty
            &&& a[i][j].mutable == b[i][j].mutable
        }
}

pub proof fn lemma_shape_trans(a: Seq<Seq<TyView>>, b: Seq<Seq<TyView>>, c: Seq<Seq<TyView>>)
    requires
        tsame_shape(a, b),
        tsame_shape(b, c),
    ensures
        tsame_shape(a, c),
{
    assert forall|i: int| 0 <= i < a.len() implies (#[trigger] a[i]).len() == c[i].len() by {
        assert(b[i].len() == c[i].len());
    }
    assert forall|i: int, j: int| 0 <= i < a.len() && 0 <= j < a[i].len() implies {
        &&& (#[trigger] a[i][j]).name == c[i][j].name
        &&& a[i][j].ty == c[i][j].ty
        &&& a[i][j].mutable == c[i][j].mutable
    } by {
        assert(b[i][j].name == c[i][j].name);
    }
}

pub proof fn lemma_shape_sym(a: Seq<Seq<TyView>>, b: Seq<Seq<TyView>>)
    requires
        tsame_shape(a, b),
    ensures
        tsame_shape(b, a),
{
    assert forall|i: int| 0 <= i < b.len() implies (#[trigger] b[i]).len() == a[i].len() by {
        assert(a[i].len() == b[i].len());
    }
    assert forall|i: int, j: int| 0 <= i < b.len() && 0 <= j < b[i].len() implies {
        &&& (#[trigger] b[i][j]).name == a[i][j].name
        &&& b[i][j].ty == a[i][j].ty
        &&& b[i][j].mutable == a[i][j].mutable
    } by {
        assert(a[i][j].name == b[i][j].name);
    }
}

pub proof fn lemma_shape_drop_last_pub(a: Seq<Seq<TyView>>, b: Seq<Seq<TyView>>)
    requires
        tsame_shape(a, b),
        a.len() >= 1,
    ensures
        tsame_shape(a.drop_last(), b.drop_last()),
{
    lemma_shape_drop_last(a, b);
}

proof fn lemma_shape_drop_last(a: Seq<Seq<TyView>>, b: Seq<Seq<TyView>>)
    requires
        tsame_shape(a, b),
        a.len() >= 1,
    ensures
        tsame_shape(a.drop_last(), b.drop_last()),
{
    assert forall|i: int| 0 <= i < a.drop_last().len() implies (#[trigger] a.drop_last()[i]).len() == b.drop_last()[i].len() by {
        assert(a[i].len() == b[i].len());
    }
    assert forall|i: int, j: int| 0 <= i < a.drop_last().len() && 0 <= j < a.drop_last()[i].len() implies {
        &&& (#[trigger] a.drop_last()[i][j]).name == b.drop_last()[i][j].name
        &&& a.drop_last()[i][j].ty == b.drop_last()[i][j].ty
        &&& a.drop_last()[i][j].mutable == b.drop_last()[i][j].mutable
    } by {
        assert(a[i][j].name == b[i][j].name);
    }
}

proof fn lemma_move_shape(env: Seq<Seq<TyView>>, e: Expr)
    ensures
        tsame_shape(tenv_move(env, e), env),
{
    match e.kind {
        ExprKind::Ident(n) => lemma_tenv_find_bounds(env, n@),
        _ => {},
    }
}

proof fn lemma_unmove_shape(env: Seq<Seq<TyView>>, k: Seq<char>)
    ensures
        tsame_shape(tenv_unmove(env, k), env),
{
    lemma_tenv_find_bounds(env, k);
}

pub proof fn lemma_merge_shape(old: Seq<Seq<TyView>>, other: Seq<Seq<TyView>>)
    ensures
        tsame_shape(tmerge(old, other), old),
{
}

proof fn lemma_bind_shape(env: Seq<Seq<TyView>>, b: TyView)
    requires
        env.len() >= 1,
    ensures
        tenv_bind(env, b).len() == env.len(),
        tsame_shape(tenv_bind(env, b).drop_last(), env.drop_last()),
{
    let e2 = tenv_bind(env, b);
    assert(e2.drop_last() =~= env.drop_last());
}

/// Checking a statement keeps the bindings of the outer scopes (only
/// `moved` marks change); a statement other than `let` keeps all of them.
pub proof fn lemma_check_stmt_shape(env: Seq<Seq<TyView>>, s: Stmt)
    requires
        env.len() >= 1,
    ensures
        pure_check_stmt(env, s) matches Some(Ok((_, env2))) ==> {
            &&& env2.len() == env.len()
            &&& tsame_shape(env2.drop_last(), env.drop_last())
            &&& !(s is Let) ==> tsame_shape(env2, env)
        },
    decreases s, 0int,
{
    match pure_check_stmt(env, s) {
        Some(Ok((_, env2))) => {
            match s {
                Stmt::Let { name, mutable, ty_ann, init } => {
                    let t = pure_type(env, init)->0->Ok_0;
                    let bt = match ann_prim(ty_ann)->0 {
                        Some(p) => p,
                        None => t,
                    };
                    lemma_move_shape(env, init);
                    let m = tenv_move(env, init);
                    lemma_bind_shape(m, TyView { name: name@, ty: bt, mutable, moved: None });
                    lemma_shape_drop_last(m, env);
                    lemma_shape_trans(env2.drop_last(), m.drop_last(), env.drop_last());
                },
                Stmt::Assign { value, target } => {
                    match target {
                        AssignTarget::Var(name) => {
                            lemma_move_shape(env, value);
                            lemma_unmove_shape(tenv_move(env, value), name@);
                            lemma_shape_trans(env2, tenv_move(env, value), env);
                            lemma_shape_drop_last(env2, env);
                        },
                        _ => {},
                    }
                },
                Stmt::While { cond, body } => {
                    lemma_check_block_shape(env, body);
                    lemma_shape_drop_last(env2, env);
                },
                Stmt::For { var, body, .. } => {
                    let el = for_scope(env, var@);
                    lemma_check_block_shape(el, body);
                    let env1 = pure_check_block(el, body)->0->Ok_0.1;
                    lemma_shape_drop_last(env1, el);
                    assert(el.drop_last() =~= env);
                    lemma_shape_drop_last(env2, env);
                },
                Stmt::ForEach { var, iter, body } => {
                    let et = pure_type(env, iter)->0->Ok_0->Vec_0;
                    let m = tenv_move(env, iter);
                    let el = elem_scope(m, var@, *et);
                    lemma_move_shape(env, iter);
                    lemma_check_block_shape(el, body);
                    let env1 = pure_check_block(el, body)->0->Ok_0.1;
                    lemma_shape_drop_last(env1, el);
                    assert(el.drop_last() =~= m);
                    lemma_shape_trans(env2, m, env);
                    lemma_shape_drop_last(env2, env);
                },
                Stmt::Expr(e) => {
                    if print_args(e) is None && (e.kind is If || e.kind is Block) {
                        lemma_check_ctl_shape(env, e);
                        lemma_shape_drop_last(env2, env);
                    } else {
                        assert(env2 == env);
                        lemma_shape_drop_last(env, env);
                    }
                },
                _ => {},
            }
        },
        _ => {},
    }
}

pub proof fn lemma_check_stmts_shape(env: Seq<Seq<TyView>>, ss: Seq<Stmt>)
    requires
        env.len() >= 1,
    ensures
        pure_check_stmts(env, ss) matches Some(Ok((_, env2))) ==> env2.len() == env.len() && tsame_shape(
            env2.drop_last(),
            env.drop_last(),
        ),
    decreases ss, 1int,
{
    if ss.len() == 0 {
        lemma_shape_drop_last(env, env);
    } else {
        lemma_check_stmts_shape(env, ss.drop_last());
        match pure_check_stmts(env, ss.drop_last()) {
            Some(Ok((_, env2))) => {
                lemma_check_stmt_shape(env2, ss.last());
                match pure_check_stmt(env2, ss.last()) {
                    Some(Ok((_, env3))) => lemma_shape_trans(env3.drop_last(), env2.drop_last(), env.drop_last()),
                    _ => {},
                }
            },
            _ => {},
        }
    }
}

pub proof fn lemma_check_block_shape(env: Seq<Seq<TyView>>, b: Block)
    ensures
        pure_check_block(env, b) matches Some(Ok((_, env2))) ==> tsame_shape(env2, env),
    decreases b, 2int,
{
    lemma_check_stmts_shape(env.push(Seq::empty()), b.stmts@);
    assert(env.push(Seq::empty()).drop_last() =~= env);
}

pub proof fn lemma_check_ctl_shape(env: Seq<Seq<TyView>>, e: Expr)
    ensures
        pure_check_ctl(env, e) matches Some(Ok((_, env2))) ==> tsame_shape(env2, env),
        pure_check_ctl_kind(env, e) matches Some(Ok((_, env2))) ==> tsame_shape(env2, env),
    decreases e, 1int,
{
    match e.kind {
        ExprKind::Block(b) => lemma_check_block_shape(env, b),
        ExprKind::If { cond, then_b, els } => {
            lemma_check_block_shape(env, then_b);
            match pure_check_block(env, then_b) {
                Some(Ok((_, e_then))) => {
                    match els {
                        Some(x) => {
                            lemma_check_ctl_shape(env, *x);
                            match pure_check_ctl(env, *x) {
                                Some(Ok((_, e_else))) => {
                                    lemma_merge_shape(e_else, e_then);
                                    lemma_shape_trans(tmerge(e_else, e_then), e_else, env);
                                },
                                _ => {},
                            }
                        },
                        None => lemma_merge_shape(env, e_then),
                    }
                },
                _ => {},
            }
        },
        _ => {},
    }
}

// ---------------------------------------------------------------------------
// Exhaustiveness
// ---------------------------------------------------------------------------

/// The names in `all` that `covered` does not hold, in order.
pub open spec fn missing_names(all: Seq<Seq<char>>, covered: Seq<Seq<char>>) -> Seq<Seq<char>>
    decreases all.len(),
{
    if all.len() == 0 {
        Seq::empty()
    } else {
        let rest = missing_names(all.drop_last(), covered);
        if covered.contains(all.last()) { rest } else { rest.push(all.last()) }
    }
}

/// `names` joined with `", "`.
pub open spec fn comma_join(names: Seq<Seq<char>>) -> Seq<char>
    decreases names.len(),
{
    if names.len() == 0 {
        Seq::empty()
    } else if names.len() == 1 {
        names[0]
    } else {
        comma_join(names.drop_last()) + ", "@ + names.last()
    }
}

pub open spec fn texts(v: Seq<String>) -> Seq<Seq<char>> {
    v.map_values(|s: String| s@)
}

/// Whether the arms of a match on a value of type `scrut` cover every value,
/// given whether an arm is a wildcard or binding, which variant names the
/// arms name, and which boolean literals they name. `variants` are the
/// variant names of the enum `scrut` names, in declaration order.
pub open spec fn spec_exhaustive(
    scrut: SpecTy,
    has_wildcard: bool,
    variants: Seq<Seq<char>>,
    covered: Seq<Seq<char>>,
    covers_true: bool,
    covers_false: bool,
) -> Result<(), Seq<char>> {
    if has_wildcard {
        Ok(())
    } else {
        match scrut {
            SpecTy::Enum(e) => {
                let missing = missing_names(variants, covered);
                if missing.len() == 0 {
                    Ok(())
                } else {
                    Err("non-exhaustive match on `"@ + e + "`: missing variant(s) "@ + comma_join(missing)
                        + " — add an arm for each, or a `_` arm"@)
                }
            }
            SpecTy::Bool => {
                if covers_true && covers_false {
                    Ok(())
                } else {
                    Err("non-exhaustive match on `bool`: cover both `true` and `false`, or add a `_` arm"@)
                }
            }
            SpecTy::Result(_, _) => {
                let missing = missing_names(seq!["Ok"@, "Err"@], covered);
                if missing.len() == 0 {
                    Ok(())
                } else {
                    Err("non-exhaustive match on `Result`: missing variant(s) "@ + comma_join(missing)
                        + " — add an arm for each, or a `_` arm"@)
                }
            }
            _ => Err("non-exhaustive match on `"@ + spec_ty_text(scrut) + "`: add a `_` (wildcard) arm"@),
        }
    }
}

fn contains_text(v: &Vec<String>, k: &str) -> (r: bool)
    ensures
        r == texts(v@).contains(k@),
{
    let mut i: usize = 0;
    while i < v.len()
        invariant
            i <= v.len(),
            forall|j: int| 0 <= j < i ==> v@[j]@ != k@,
        decreases v.len() - i,
    {
        if same_text(v[i].as_str(), k) {
            assert(texts(v@)[i as int] == k@);
            return true;
        }
        i = i + 1;
    }
    assert(!texts(v@).contains(k@)) by {
        if texts(v@).contains(k@) {
            let j = choose|j: int| 0 <= j < texts(v@).len() && texts(v@)[j] == k@;
            assert(v@[j]@ == k@);
        }
    }
    false
}

/// The names of `all` missing from `covered`.
fn missing_of(all: &Vec<String>, covered: &Vec<String>) -> (r: Vec<String>)
    ensures
        texts(r@) == missing_names(texts(all@), texts(covered@)),
{
    let mut r: Vec<String> = Vec::new();
    let mut i: usize = 0;
    while i < all.len()
        invariant
            i <= all.len(),
            texts(r@) == missing_names(texts(all@).take(i as int), texts(covered@)),
        decreases all.len() - i,
    {
        let ghost before = texts(r@);
        assert(texts(all@).take(i + 1).drop_last() =~= texts(all@).take(i as int));
        if !contains_text(covered, all[i].as_str()) {
            r.push(all[i].clone());
            assert(texts(r@) =~= before.push(all@[i as int]@));
        } else {
            assert(texts(r@) =~= before);
        }
        i = i + 1;
    }
    assert(texts(all@).take(all.len() as int) =~= texts(all@));
    r
}

fn push_comma_join(m: &mut String, names: &Vec<String>)
    ensures
        final(m)@ == old(m)@ + comma_join(texts(names@)),
{
    let mut i: usize = 0;
    assert(texts(names@).take(0) =~= Seq::<Seq<char>>::empty());
    while i < names.len()
        invariant
            i <= names.len(),
            m@ == old(m)@ + comma_join(texts(names@).take(i as int)),
        decreases names.len() - i,
    {
        let ghost before = m@;
        assert(texts(names@).take(i + 1).drop_last() =~= texts(names@).take(i as int));
        if i > 0 {
            m.append(", ");
        }
        m.append(names[i].as_str());
        i = i + 1;
        assert(m@ =~= old(m)@ + comma_join(texts(names@).take(i as int)));
    }
    assert(texts(names@).take(names.len() as int) =~= texts(names@));
}

/// Reports a non-exhaustive match.
pub fn check_exhaustive(
    scrut: &Ty,
    has_wildcard: bool,
    variants: &Vec<String>,
    covered: &Vec<String>,
    covers_true: bool,
    covers_false: bool,
) -> (r: Result<(), String>)
    ensures
        match spec_exhaustive(scrut@, has_wildcard, texts(variants@), texts(covered@), covers_true, covers_false) {
            Ok(()) => r is Ok,
            Err(m) => r matches Err(y) && y@ == m,
        },
{
    if has_wildcard {
        return Ok(());
    }
    match scrut {
        Ty::Enum(e) => {
            let missing = missing_of(variants, covered);
            if missing.len() == 0 {
                Ok(())
            } else {
                let mut m = text("non-exhaustive match on `");
                m.append(e.as_str());
                m.append("`: missing variant(s) ");
                push_comma_join(&mut m, &missing);
                m.append(" — add an arm for each, or a `_` arm");
                Err(m)
            }
        }
        Ty::Bool => {
            if covers_true && covers_false {
                Ok(())
            } else {
                Err(text("non-exhaustive match on `bool`: cover both `true` and `false`, or add a `_` arm"))
            }
        }
        Ty::Result(_, _) => {
            let mut both: Vec<String> = Vec::new();
            both.push(text("Ok"));
            both.push(text("Err"));
            assert(texts(both@) =~= seq!["Ok"@, "Err"@]);
            let missing = missing_of(&both, covered);
            if missing.len() == 0 {
                Ok(())
            } else {
                let mut m = text("non-exhaustive match on `Result`: missing variant(s) ");
                push_comma_join(&mut m, &missing);
                m.append(" — add an arm for each, or a `_` arm");
                Err(m)
            }
        }
        _ => {
            let mut m = text("non-exhaustive match on `");
            push_ty(&mut m, scrut);
            m.append("`: add a `_` (wildcard) arm");
            Err(m)
        }
    }
}


// ---------------------------------------------------------------------------
// Resolution of written types
// ---------------------------------------------------------------------------

/// What a written type resolves to, given the declared struct and enum names.
pub open spec fn spec_resolve(sn: Seq<(String, ())>, en: Seq<(String, ())>, t: TypeExpr) -> Result<SpecTy, Seq<char>>
    decreases t,
{
    match t {
        TypeExpr::Array(inner) => match spec_resolve(sn, en, *inner) {
            Ok(x) => Ok(SpecTy::Vec(Box::new(x))),
            Err(m) => Err(m),
        },
        TypeExpr::Result(a, b) => match spec_resolve(sn, en, *a) {
            Ok(x) => match spec_resolve(sn, en, *b) {
                Ok(y) => Ok(SpecTy::Result(Box::new(x), Box::new(y))),
                Err(m) => Err(m),
            },
            Err(m) => Err(m),
        },
        TypeExpr::Name(n) => spec_resolve_name(sn, en, n@),
    }
}

/// What a type name denotes: a primitive, a declared struct or enum, or an
/// error.
pub open spec fn spec_resolve_name(sn: Seq<(String, ())>, en: Seq<(String, ())>, n: Seq<char>) -> Result<SpecTy, Seq<char>> {
    match spec_prim(n) {
        Some(p) => Ok(p),
        None => if has_key(sn, n) {
            Ok(SpecTy::Struct(n))
        } else if has_key(en, n) {
            Ok(SpecTy::Enum(n))
        } else {
            Err("unknown type `"@ + n + "`"@)
        },
    }
}

/// Each type of `tys` resolved, or the error of the first that fails.
pub open spec fn spec_resolve_all(sn: Seq<(String, ())>, en: Seq<(String, ())>, tys: Seq<TypeExpr>) -> Result<Seq<SpecTy>, Seq<char>>
    decreases tys.len(),
{
    if tys.len() == 0 {
        Ok(Seq::empty())
    } else {
        match spec_resolve_all(sn, en, tys.drop_last()) {
            Err(m) => Err(m),
            Ok(ts) => match spec_resolve(sn, en, tys.last()) {
                Ok(t) => Ok(ts.push(t)),
                Err(m) => Err(m),
            },
        }
    }
}

/// A failure among the first `j` types is the failure of the whole list.
proof fn lemma_resolve_all_prefix_err(sn: Seq<(String, ())>, en: Seq<(String, ())>, tys: Seq<TypeExpr>, j: int)
    requires
        0 <= j <= tys.len(),
        spec_resolve_all(sn, en, tys.take(j)) is Err,
    ensures
        spec_resolve_all(sn, en, tys) == spec_resolve_all(sn, en, tys.take(j)),
    decreases tys.len() - j,
{
    if j < tys.len() {
        assert(tys.take(j + 1).drop_last() =~= tys.take(j));
        lemma_resolve_all_prefix_err(sn, en, tys, j + 1);
    } else {
        assert(tys.take(j) =~= tys);
    }
}

/// What an arm's pattern covers, as the exhaustiveness check counts it.
pub enum SCov {
    Wild,
    Variant(Seq<char>),
    Bool(bool),
    Partial,
}

/// The view of a pattern's coverage.
pub open spec fn cov_view(c: Coverage) -> SCov {
    match c {
        Coverage::Wildcard => SCov::Wild,
        Coverage::Variant(v) => SCov::Variant(v@),
        Coverage::Bool(b) => SCov::Bool(b),
        Coverage::Partial => SCov::Partial,
    }
}

/// The coverage of a pattern that binds no variable and checks against the
/// scrutinee type `t`; `None` for a pattern that binds a variable or does not
/// check.
pub open spec fn closed_pattern(
    v2e: Seq<(String, String)>,
    enums: Seq<(String, Vec<(String, Vec<Ty>)>)>,
    p: Pattern,
    t: SpecTy,
) -> Option<SCov> {
    match p {
        Pattern::Wildcard => Some(SCov::Wild),
        Pattern::Int(_) => if spec_expect_ty(t, SpecTy::Int, "int pattern"@) is Ok { Some(SCov::Partial) } else { None },
        Pattern::Str(_) => if spec_expect_ty(t, SpecTy::Str, "str pattern"@) is Ok { Some(SCov::Partial) } else { None },
        Pattern::Bool(b) => if spec_expect_ty(t, SpecTy::Bool, "bool pattern"@) is Ok { Some(SCov::Bool(b)) } else { None },
        Pattern::Ident(n) => match spec_unit_variant_enum(v2e, enums, n@) {
            Some(en) => if spec_expect_ty(t, SpecTy::Enum(en), "variant pattern"@) is Ok {
                Some(SCov::Variant(n@))
            } else {
                None
            },
            None => None,
        },
        Pattern::Variant { enum_name, name, subs } => match t {
            SpecTy::Enum(en) => if subs@.len() == 0 && (enum_name matches Some(x) ==> x@ == en) && (get2(
                enums,
                en,
                name@,
            ) matches Some(ps) && ps@.len() == 0) {
                Some(SCov::Variant(name@))
            } else {
                None
            },
            _ => None,
        },
    }
}

/// The coverages of arms whose patterns all bind nothing.
pub open spec fn arm_covs(
    v2e: Seq<(String, String)>,
    enums: Seq<(String, Vec<(String, Vec<Ty>)>)>,
    arms: Seq<MatchArm>,
    t: SpecTy,
) -> Seq<SCov> {
    arms.map_values(|a: MatchArm| closed_pattern(v2e, enums, a.pattern, t)->0)
}

/// Some arm covers everything.
pub open spec fn any_wild(cs: Seq<SCov>) -> bool {
    exists|k: int| 0 <= k < cs.len() && #[trigger] cs[k] is Wild
}

/// Some arm is the boolean literal `b`.
pub open spec fn covers_bool(cs: Seq<SCov>, b: bool) -> bool {
    exists|k: int| 0 <= k < cs.len() && #[trigger] cs[k] == SCov::Bool(b)
}

/// The variants the arms name, in arm order.
pub open spec fn covered_names(cs: Seq<SCov>) -> Seq<Seq<char>>
    decreases cs.len(),
{
    if cs.len() == 0 {
        Seq::empty()
    } else {
        match cs.last() {
            SCov::Variant(v) => covered_names(cs.drop_last()).push(v),
            _ => covered_names(cs.drop_last()),
        }
    }
}

/// The arms of a match whose patterns bind nothing and check against `t`,
/// and whose bodies the checker types `u` in the bindings `tenv` plus the
/// arm's own (empty) scope.
pub open spec fn simple_arms(
    v2e: Seq<(String, String)>,
    enums: Seq<(String, Vec<(String, Vec<Ty>)>)>,
    tenv: Seq<Seq<TyView>>,
    arms: Seq<MatchArm>,
    t: SpecTy,
    u: SpecTy,
) -> bool {
    &&& arms.len() > 0
    &&& forall|k: int| 0 <= k < arms.len() ==> #[trigger] closed_pattern(v2e, enums, arms[k].pattern, t) is Some
    &&& forall|k: int| 0 <= k < arms.len() ==> pure_type(tenv.push(Seq::empty()), #[trigger] arms[k].body) == Some(
        Ok::<SpecTy, Seq<char>>(u),
    )
}

/// The variant names of the enum `t`, in declaration order (none for a
/// type that is not a declared enum).
pub open spec fn variants_of(enums: Seq<(String, Vec<(String, Vec<Ty>)>)>, t: SpecTy) -> Seq<Seq<char>> {
    match t {
        SpecTy::Enum(en) => match get(enums, en) {
            Some(vs) => vs@.map_values(|v: (String, Vec<Ty>)| v.0@),
            None => Seq::empty(),
        },
        _ => Seq::empty(),
    }
}

/// The bindings after the checker marks the scrutinee `e` moved: a
/// variable of a type that is not copied is marked moved on `e`'s line.
pub open spec fn tenv_after_move(tenv: Seq<Seq<TyView>>, e: Expr) -> Seq<Seq<TyView>> {
    match e.kind {
        ExprKind::Ident(n) => match tenv_find(tenv, n@) {
            Some((i, j)) => if spec_is_copy(tenv[i][j].ty) {
                tenv
            } else {
                tenv.update(i, tenv[i].update(j, TyView { moved: Some(e.line), ..tenv[i][j] }))
            },
            None => tenv,
        },
        _ => tenv,
    }
}

/// The bindings after a move of `e` are [`tenv_after_move`] of those before,
/// wherever the checker's move leaves its mark as `mark_move` states.
proof fn lemma_move_tenv(old: Seq<Scope>, new: Seq<Scope>, e: Expr, borrowed: bool)
    requires
        match e.kind {
            ExprKind::Ident(n) => {
                if n@ == "self"@ && borrowed {
                    new == old
                } else {
                    match scope_find(old, n@) {
                        Some((i, j)) => if spec_is_copy(old[i]@[j].1.ty@) {
                            new == old
                        } else {
                            moved_at(old, new, i, j, e.line)
                        },
                        None => new == old,
                    }
                }
            },
            _ => new == old,
        },
    ensures
        !(e.kind matches ExprKind::Ident(n) && n@ == "self"@ && borrowed) ==> tenv_of(new) == tenv_after_move(
            tenv_of(old),
            e,
        ),
{
    match e.kind {
        ExprKind::Ident(n) => {
            lemma_tenv_find(old, n@);
            if !(n@ == "self"@ && borrowed) {
                match scope_find(old, n@) {
                    Some((i, j)) => {
                        let t0 = tenv_of(old);
                        assert(t0[i][j].ty == old[i]@[j].1.ty@);
                        if !spec_is_copy(old[i]@[j].1.ty@) {
                            let want = t0.update(i, t0[i].update(j, TyView { moved: Some(e.line), ..t0[i][j] }));
                            assert forall|q: int| 0 <= q < new.len() implies tenv_of(new)[q] == want[q] by {
                                if q == i {
                                    assert(tscope_view(new[i]@) =~= want[i]);
                                } else {
                                    assert(new[q]@ == old[q]@);
                                }
                            }
                            assert(tenv_of(new) =~= want);
                        }
                    },
                    None => {},
                }
            }
        },
        _ => {},
    }
}

/// The variable that a mutating call on `e` mutates: `e` itself when it is a
/// variable, the base of a field of a variable.
pub open spec fn mutable_receiver_name(e: Expr) -> Option<Seq<char>> {
    match e.kind {
        ExprKind::Ident(n) => Some(n@),
        ExprKind::Field { base, .. } => match base.kind {
            ExprKind::Ident(n) => Some(n@),
            _ => None,
        },
        _ => None,
    }
}

/// The enum that a unit variant `name` belongs to, if `name` is one.
pub open spec fn spec_unit_variant_enum(
    v2e: Seq<(String, String)>,
    enums: Seq<(String, Vec<(String, Vec<Ty>)>)>,
    name: Seq<char>,
) -> Option<Seq<char>> {
    match get(v2e, name) {
        Some(en) => match get(enums, en@) {
            Some(vs) => match get(vs@, name) {
                Some(p) => if p@.len() == 0 { Some(en@) } else { None },
                None => None,
            },
            None => None,
        },
        None => None,
    }
}

/// What requiring `name` to be mutable yields: its type, or the diagnostic.
pub open spec fn spec_require_mutable(scopes: Seq<Seq<TyView>>, name: Seq<char>) -> Result<SpecTy, Seq<char>> {
    match tenv_find(scopes, name) {
        None => Err("cannot assign to unknown variable `"@ + name + "`"@),
        Some((i, j)) => {
            let b = scopes[i][j];
            if !b.mutable && name == "self"@ {
                Err("cannot mutate `self` here — declare the method with `&mut self`"@)
            } else if !b.mutable {
                Err("cannot mutate immutable binding `"@ + name + "` — declare it with `var`/`متغير`/`variable`"@)
            } else {
                Ok(b.ty)
            }
        },
    }
}

pub struct Checker {
    struct_names: Vec<(String, ())>,
    enum_names: Vec<(String, ())>,
    structs: Vec<(String, Vec<(String, Ty)>)>,
    enums: Vec<(String, Vec<(String, Vec<Ty>)>)>,
    variant_to_enum: Vec<(String, String)>,
    funcs: Vec<(String, FnSig)>,
    /// type name -> (method name -> signature).
    methods: Vec<(String, Vec<(String, MethodSig)>)>,
    /// Mutability AND ownership (moves) are enforced here, at compile time.
    scopes: Vec<Scope>,
    cur_ret: Ty,
    /// Whether `self` in the current body is a borrow (`&self`/`&mut self`) —
    /// borrowed selves cannot be moved out of the method.
    cur_self_borrowed: bool,
}

impl Checker {
    pub fn new() -> (r: Self)
        ensures
            r.is_empty(),
    {
        Checker {
            struct_names: Vec::new(),
            enum_names: Vec::new(),
            structs: Vec::new(),
            enums: Vec::new(),
            variant_to_enum: Vec::new(),
            funcs: Vec::new(),
            methods: Vec::new(),
            scopes: Vec::new(),
            cur_ret: Ty::Unit,
            cur_self_borrowed: false,
        }
    }

    /// A checker that has seen no declarations.
    pub closed spec fn is_empty(&self) -> bool {
        &&& self.struct_names@.len() == 0
        &&& self.enum_names@.len() == 0
        &&& self.structs@.len() == 0
        &&& self.enums@.len() == 0
        &&& self.variant_to_enum@.len() == 0
        &&& self.funcs@.len() == 0
        &&& self.methods@.len() == 0
        &&& self.scopes@.len() == 0
        &&& self.cur_ret@ == SpecTy::Unit
        &&& !self.cur_self_borrowed
    }

    // ---- scopes ----

    fn push_scope(&mut self)
        ensures
            final(self).scopes@.len() == old(self).scopes@.len() + 1,
            final(self).scopes@.drop_last() == old(self).scopes@,
            final(self).scopes@.last()@.len() == 0,
            final(self).same_decls(old(self)),
    {
        self.scopes.push(Vec::new());
    }

    fn pop_scope(&mut self)
        ensures
            final(self).scopes@ == (if old(self).scopes@.len() > 0 { old(self).scopes@.drop_last() } else { old(self).scopes@ }),
            final(self).same_decls(old(self)),
    {
        let _ = self.scopes.pop();
    }

    /// Declarations are unchanged (only scopes may differ).
    closed spec fn same_decls(&self, other: &Checker) -> bool {
        &&& self.struct_names == other.struct_names
        &&& self.enum_names == other.enum_names
        &&& self.structs == other.structs
        &&& self.enums == other.enums
        &&& self.variant_to_enum == other.variant_to_enum
        &&& self.funcs == other.funcs
        &&& self.methods == other.methods
        &&& self.cur_ret == other.cur_ret
        &&& self.cur_self_borrowed == other.cur_self_borrowed
    }

    /// Binds `name` in the innermost scope.
    fn bind(&mut self, name: String, b: Binding)
        ensures
            final(self).same_decls(old(self)),
            final(self).scopes@.len() > 0,
            old(self).scopes@.len() > 0 ==> {
                &&& final(self).scopes@.len() == old(self).scopes@.len()
                &&& final(self).scopes@.last()@ == put(old(self).scopes@.last()@, name, b)
                &&& forall|i: int| 0 <= i < old(self).scopes@.len() - 1 ==> final(self).scopes@[i] == old(self).scopes@[i]
            },
    {
        if self.scopes.len() == 0 {
            self.scopes.push(Vec::new());
        }
        let last = self.scopes.len() - 1;
        let sc = &mut self.scopes[last];
        insert(sc, name, b);
    }

    /// Where the innermost binding of `name` lives.
    fn find_binding(&self, name: &str) -> (r: Option<(usize, usize)>)
        ensures
            match r {
                Some((i, j)) => scope_find(self.scopes@, name@) == Some((i as int, j as int))
                    && i < self.scopes@.len() && j < self.scopes@[i as int]@.len(),
                None => scope_find(self.scopes@, name@) is None,
            },
    {
        find_in_scopes(&self.scopes, name)
    }

    fn lookup_full(&self, name: &str) -> (r: Option<Binding>)
        ensures
            match scope_find(self.scopes@, name@) {
                Some((i, j)) => r matches Some(b) && b.ty@ == self.scopes@[i]@[j].1.ty@
                    && b.mutable == self.scopes@[i]@[j].1.mutable && b.moved == self.scopes@[i]@[j].1.moved,
                None => r is None,
            },
    {
        proof {
            lemma_scope_find(self.scopes@, name@);
        }
        match self.find_binding(name) {
            Some((i, j)) => Some(clone_binding(&self.scopes[i][j].1)),
            None => None,
        }
    }

    /// Resolve a variable that is about to be mutated; immutability is a
    /// compile error (trilingual hint included). Whole-variable assignment
    /// may target a moved binding (it revives it), so moves are not checked
    /// here — consuming contexts check them via `infer`.
    fn require_mutable(&self, name: &str) -> (r: Result<Ty, String>)
        ensures
            match spec_require_mutable(tenv_of(self.scopes@), name@) {
                Ok(t) => r matches Ok(x) && x@ == t,
                Err(m) => r matches Err(x) && x@ == m,
            },
    {
        proof {
            lemma_tenv_find(self.scopes@, name@);
        }
        match self.lookup_full(name) {
            None => {
                let mut m = text("cannot assign to unknown variable `");
                m.append(name);
                m.append("`");
                Err(m)
            }
            Some(b) => {
                if !b.mutable && same_text(name, "self") {
                    Err(text("cannot mutate `self` here — declare the method with `&mut self`"))
                } else if !b.mutable {
                    let mut m = text("cannot mutate immutable binding `");
                    m.append(name);
                    m.append("` — declare it with `var`/`متغير`/`variable`");
                    Err(m)
                } else {
                    Ok(b.ty)
                }
            }
        }
    }

    fn unit_variant_enum(&self, name: &str) -> (r: Option<String>)
        ensures
            match spec_unit_variant_enum(self.variant_to_enum@, self.enums@, name@) {
                Some(e) => r matches Some(x) && x@ == e,
                None => r is None,
            },
    {
        let en = match lookup(&self.variant_to_enum, name) {
            Some(en) => en,
            None => return None,
        };
        let vs = match lookup(&self.enums, en.as_str()) {
            Some(vs) => vs,
            None => return None,
        };
        match lookup(vs, name) {
            Some(p) => if p.len() == 0 { Some(en.clone()) } else { None },
            None => None,
        }
    }

    /// Resolve a source-level type to a `Ty`, using the known struct/enum names.
    fn resolve(&self, ty: &TypeExpr) -> (r: Result<Ty, String>)
        ensures
            match spec_resolve(self.struct_names@, self.enum_names@, *ty) {
                Ok(t) => r matches Ok(x) && x@ == t,
                Err(m) => r matches Err(x) && x@ == m,
            },
        decreases ty,
    {
        match ty {
            TypeExpr::Array(inner) => Ok(Ty::Vec(Box::new(self.resolve(inner)?))),
            TypeExpr::Result(ok, err) => {
                let a = self.resolve(ok)?;
                let b = self.resolve(err)?;
                Ok(Ty::Result(Box::new(a), Box::new(b)))
            }
            TypeExpr::Name(name) => match prim(name.as_str()) {
                Some(p) => Ok(p),
                None => {
                    if find(&self.struct_names, name.as_str()).is_some() {
                        Ok(Ty::Struct(name.clone()))
                    } else if find(&self.enum_names, name.as_str()).is_some() {
                        Ok(Ty::Enum(name.clone()))
                    } else {
                        let mut m = text("unknown type `");
                        m.append(name.as_str());
                        m.append("`");
                        Err(m)
                    }
                }
            },
        }
    }

    // ---- ownership / move tracking ----

    /// If `e` is a bare variable of a non-Copy type, mark it moved. Called by
    /// every consuming context (let-init, call args, struct/array literals,
    /// constructor payloads, match scrutinees, `?`, value-self receivers).
    fn mark_move(&mut self, e: &Expr) -> (r: Result<(), String>)
        ensures
            final(self).same_decls(old(self)),
            match e.kind {
                ExprKind::Ident(n) => {
                    if n@ == "self"@ && old(self).cur_self_borrowed {
                        r matches Err(m) && m@ == spec_with_line(e.line as nat,
                            "cannot move `self` out of a `&self`/`&mut self` method — use `.clone()`"@)
                            && final(self).scopes@ == old(self).scopes@
                    } else {
                        r is Ok && match scope_find(old(self).scopes@, n@) {
                            Some((i, j)) => if spec_is_copy(old(self).scopes@[i]@[j].1.ty@) {
                                *final(self) == *old(self)
                            } else {
                                moved_at(old(self).scopes@, final(self).scopes@, i, j, e.line)
                            },
                            None => *final(self) == *old(self),
                        }
                    }
                },
                _ => r is Ok && *final(self) == *old(self),
            },
    {
        let name = match &e.kind {
            ExprKind::Ident(n) => n,
            _ => return Ok(()),
        };
        let line = e.line;
        if same_text(name.as_str(), "self") && self.cur_self_borrowed {
            // Reads of fields are fine; moving the whole self is not.
            return Err(with_line(line, text("cannot move `self` out of a `&self`/`&mut self` method — use `.clone()`")));
        }
        proof {
            lemma_scope_find(self.scopes@, name@);
        }
        match self.find_binding(name.as_str()) {
            Some((i, j)) => {
                if !is_copy(&self.scopes[i][j].1.ty) {
                    let sc = &mut self.scopes[i];
                    let entry = &mut sc[j];
                    entry.1.moved = Some(line);
                }
                Ok(())
            }
            None => Ok(()),
        }
    }

    fn snapshot(&self) -> (r: Vec<Scope>)
        ensures
            r@.len() == self.scopes@.len(),
            tenv_of(r@) == tenv_of(self.scopes@),
    {
        clone_scopes(&self.scopes)
    }


    /// Fold another control-flow branch's move-state into the current one:
    /// a value moved in EITHER branch counts as moved afterwards.
    fn merge_moves(&mut self, other: &Vec<Scope>)
        ensures
            final(self).same_decls(old(self)),
            merged(old(self).scopes@, other@, final(self).scopes@),
    {
        let ghost old_scopes = self.scopes@;
        let n = self.scopes.len();
        let mut si: usize = 0;
        while si < n
            invariant
                self.same_decls(old(self)),
                old_scopes == old(self).scopes@,
                n == old_scopes.len(),
                si <= n,
                self.scopes@.len() == n,
                forall|s: int| 0 <= s < n ==> (#[trigger] self.scopes@[s])@.len() == old_scopes[s]@.len(),
                forall|s: int, b: int| si <= s < n && 0 <= b < old_scopes[s]@.len() ==>
                    #[trigger] self.scopes@[s]@[b] == old_scopes[s]@[b],
                forall|s: int, b: int| 0 <= s < si && 0 <= b < old_scopes[s]@.len() ==> {
                    &&& (#[trigger] self.scopes@[s]@[b]).0 == old_scopes[s]@[b].0
                    &&& self.scopes@[s]@[b].1.ty == old_scopes[s]@[b].1.ty
                    &&& self.scopes@[s]@[b].1.mutable == old_scopes[s]@[b].1.mutable
                    &&& self.scopes@[s]@[b].1.moved == (
                        if old_scopes[s]@[b].1.moved is None && s < other@.len() && get(other@[s]@, old_scopes[s]@[b].0@) is Some {
                            get(other@[s]@, old_scopes[s]@[b].0@)->0.moved
                        } else {
                            old_scopes[s]@[b].1.moved
                        })
                },
            decreases n - si,
        {
            let m = self.scopes[si].len();
            let mut bj: usize = 0;
            while bj < m
                invariant
                    self.same_decls(old(self)),
                    old_scopes == old(self).scopes@,
                    n == old_scopes.len(),
                    si < n,
                    m == old_scopes[si as int]@.len(),
                    bj <= m,
                    self.scopes@.len() == n,
                    forall|s: int| 0 <= s < n ==> (#[trigger] self.scopes@[s])@.len() == old_scopes[s]@.len(),
                    forall|s: int, b: int| si < s < n && 0 <= b < old_scopes[s]@.len() ==>
                        #[trigger] self.scopes@[s]@[b] == old_scopes[s]@[b],
                    forall|b: int| bj <= b < m ==> #[trigger] self.scopes@[si as int]@[b] == old_scopes[si as int]@[b],
                    forall|s: int, b: int| (0 <= s < si && 0 <= b < old_scopes[s]@.len()) || (s == si && 0 <= b < bj) ==> {
                        &&& (#[trigger] self.scopes@[s]@[b]).0 == old_scopes[s]@[b].0
                        &&& self.scopes@[s]@[b].1.ty == old_scopes[s]@[b].1.ty
                        &&& self.scopes@[s]@[b].1.mutable == old_scopes[s]@[b].1.mutable
                        &&& self.scopes@[s]@[b].1.moved == (
                            if old_scopes[s]@[b].1.moved is None && s < other@.len() && get(other@[s]@, old_scopes[s]@[b].0@) is Some {
                                get(other@[s]@, old_scopes[s]@[b].0@)->0.moved
                            } else {
                                old_scopes[s]@[b].1.moved
                            })
                    },
                decreases m - bj,
            {
                if self.scopes[si][bj].1.moved.is_none() && si < other.len() {
                    let found = match lookup(&other[si], self.scopes[si][bj].0.as_str()) {
                        Some(ob) => Some(ob.moved),
                        None => None,
                    };
                    match found {
                        Some(mv) => {
                            let sc = &mut self.scopes[si];
                            let entry = &mut sc[bj];
                            entry.1.moved = mv;
                        }
                        None => {}
                    }
                }
                bj = bj + 1;
            }
            si = si + 1;
        }
    }

    /// The first binding moved since `before` that existed then unmoved.
    fn first_loop_move(&self, before: &Vec<Scope>) -> (r: Option<(usize, usize)>)
        ensures
            match r {
                Some((s, b)) => is_loop_move(self.scopes@, before@, s as int, b as int)
                    && forall|s2: int, b2: int| (s2 < s || (s2 == s && b2 < b))
                        ==> !is_loop_move(self.scopes@, before@, s2, b2),
                None => forall|s2: int, b2: int| !is_loop_move(self.scopes@, before@, s2, b2),
            },
    {
        let mut si: usize = 0;
        while si < self.scopes.len()
            invariant
                si <= self.scopes@.len(),
                forall|s2: int, b2: int| s2 < si ==> !is_loop_move(self.scopes@, before@, s2, b2),
            decreases self.scopes.len() - si,
        {
            let mut bj: usize = 0;
            while bj < self.scopes[si].len()
                invariant
                    si < self.scopes@.len(),
                    bj <= self.scopes@[si as int]@.len(),
                    forall|s2: int, b2: int| s2 < si ==> !is_loop_move(self.scopes@, before@, s2, b2),
                    forall|b2: int| b2 < bj ==> !is_loop_move(self.scopes@, before@, si as int, b2),
                decreases self.scopes@[si as int]@.len() - bj,
            {
                if self.scopes[si][bj].1.moved.is_some() && si < before.len() {
                    match lookup(&before[si], self.scopes[si][bj].0.as_str()) {
                        Some(ob) => {
                            if ob.moved.is_none() {
                                return Some((si, bj));
                            }
                        }
                        None => {}
                    }
                }
                bj = bj + 1;
            }
            proof {
                assert forall|s2: int, b2: int| s2 < si + 1 implies !is_loop_move(self.scopes@, before@, s2, b2) by {
                    if s2 == si && b2 >= bj {
                    }
                }
            }
            si = si + 1;
        }
        None
    }

    fn method_sig(&self, ty: &str, name: &str) -> (r: Option<(SelfKind, Vec<Ty>, Ty)>)
        ensures
            match get(self.methods@, ty@) {
                Some(ms) => match get(ms@, name@) {
                    Some(sig) => r matches Some((k, ps, t)) && k == sig.self_kind && t@ == sig.ret@
                        && ps@.len() == sig.params@.len()
                        && forall|i: int| 0 <= i < ps@.len() ==> #[trigger] ps@[i]@ == sig.params@[i]@,
                    None => r is None,
                },
                None => r is None,
            },
    {
        match lookup(&self.methods, ty) {
            Some(ms) => match lookup(ms, name) {
                Some(sig) => Some((sig.self_kind, clone_tys(&sig.params), clone_ty(&sig.ret))),
                None => None,
            },
            None => None,
        }
    }
}


fn clone_scopes(scopes: &Vec<Scope>) -> (r: Vec<Scope>)
    ensures
        r@.len() == scopes@.len(),
        tenv_of(r@) == tenv_of(scopes@),
{
    let mut out: Vec<Scope> = Vec::new();
    let mut i: usize = 0;
    while i < scopes.len()
        invariant
            i <= scopes.len(),
            out@.len() == i,
            forall|k: int| 0 <= k < i ==> tscope_view(#[trigger] out@[k]@) == tscope_view(scopes@[k]@),
        decreases scopes.len() - i,
    {
        let sc = &scopes[i];
        let mut copy: Scope = Vec::new();
        let mut j: usize = 0;
        while j < sc.len()
            invariant
                j <= sc.len(),
                copy@.len() == j,
                forall|k: int| 0 <= k < j ==> tscope_view(copy@)[k] == #[trigger] tscope_view(sc@)[k],
            decreases sc.len() - j,
        {
            copy.push((sc[j].0.clone(), clone_binding(&sc[j].1)));
            j = j + 1;
        }
        proof {
            assert(tscope_view(copy@) =~= tscope_view(sc@));
        }
        out.push(copy);
        i = i + 1;
    }
    proof {
        assert(tenv_of(out@) =~= tenv_of(scopes@));
    }
    out
}

fn field_ty(fields: &Vec<(String, Ty)>, name: &str) -> (r: Option<Ty>)
    ensures
        match get(fields@, name@) {
            Some(t) => r matches Some(x) && x@ == t@,
            None => r is None,
        },
{
    match lookup(fields, name) {
        Some(t) => Some(clone_ty(t)),
        None => None,
    }
}

impl Checker {
    // ---- program ----

    /// Checks `prog`: declarations first (type names, variants, signatures,
    /// impl targets), then every function and method body.
    pub fn check(&mut self, prog: &Program) -> (r: Result<(), String>)
        ensures
            r is Ok ==> distinct_type_names(*prog),
            !distinct_type_names(*prog) ==> (r matches Err(m) && exists|k: int|
                0 <= k < prog.items@.len() && (prog.items@[k] is Struct || prog.items@[k] is Enum) && m@ == "type `"@
                    + #[trigger] item_name(prog.items@[k]) + "` is declared more than once"@),
            r is Ok ==> distinct_variant_names(*prog),
            old(self).is_empty() && r is Ok ==> impls_declared(*prog),
            old(self).is_empty() ==> match single_entry(*prog) {
                Some(f) => match pure_check_entry(f) {
                    Some(Ok(_)) => r is Ok,
                    Some(Err(m)) => r matches Err(x) && x@ == m,
                    None => true,
                },
                None => true,
            },
    {
        let ghost p = *prog;
        let ghost fresh = old(self).is_empty();
        let ghost single = fresh && single_entry(p) is Some;
        let ghost ef = single_entry(p)->0;
        let ghost s0 = *old(self);
        // Pass 1: gather all user-defined type names (so forward references and
        // mutually-recursive types resolve).
        let mut i: usize = 0;
        while i < prog.items.len()
            invariant
                i <= prog.items.len(),
                p == *prog,
                fresh == old(self).is_empty(),
                forall|k: int| 0 <= k < i && p.items@[k] is Struct ==> has_key(self.struct_names@, #[trigger] item_name(p.items@[k])),
                forall|k: int| 0 <= k < i && p.items@[k] is Enum ==> has_key(self.enum_names@, #[trigger] item_name(p.items@[k])),
                forall|j: int, k: int|
                    0 <= j < k < i && (p.items@[j] is Struct || p.items@[j] is Enum) && (p.items@[k] is Struct
                        || p.items@[k] is Enum) ==> #[trigger] item_name(p.items@[j]) != #[trigger] item_name(p.items@[k]),
                fresh ==> forall|n: Seq<char>| has_key(self.struct_names@, n) ==> declares_type(p, n),
                fresh ==> forall|n: Seq<char>| has_key(self.enum_names@, n) ==> declares_type(p, n),
                fresh ==> self.variant_to_enum@.len() == 0,
                single == (fresh && single_entry(p) is Some),
                s0 == *old(self),
                single ==> *self == s0,
            decreases prog.items.len() - i,
        {
            match &prog.items[i] {
                Item::Struct(s) => {
                    let ghost before = self.struct_names@;
                    let dup_struct = find(&self.struct_names, s.name.as_str()).is_some();
                    if !dup_struct {
                        let key = s.name.clone();
                        let ghost kg = key;
                        insert(&mut self.struct_names, key, ());
                        proof {
                            assert forall|n: Seq<char>| #[trigger] has_key(self.struct_names@, n) == (has_key(before, n) || n == s.name@) by {
                                lemma_put_keys(before, kg, (), n);
                            }
                            assert(item_name(p.items@[i as int]) == s.name@);
                        }
                    }
                    if dup_struct || find(&self.enum_names, s.name.as_str()).is_some() {
                        assert(item_name(p.items@[i as int]) == s.name@);
                        return Err(duplicate_type(s.name.as_str()));
                    }
                }
                Item::Enum(e) => {
                    let ghost before = self.enum_names@;
                    let dup_enum = find(&self.enum_names, e.name.as_str()).is_some();
                    if !dup_enum {
                        let key = e.name.clone();
                        let ghost kg = key;
                        insert(&mut self.enum_names, key, ());
                        proof {
                            assert forall|n: Seq<char>| #[trigger] has_key(self.enum_names@, n) == (has_key(before, n) || n == e.name@) by {
                                lemma_put_keys(before, kg, (), n);
                            }
                            assert(item_name(p.items@[i as int]) == e.name@);
                        }
                    }
                    if dup_enum || find(&self.struct_names, e.name.as_str()).is_some() {
                        assert(item_name(p.items@[i as int]) == e.name@);
                        return Err(duplicate_type(e.name.as_str()));
                    }
                }
                _ => {}
            }
            i = i + 1;
        }
        proof {
            assert(distinct_type_names(p));
        }
        let ghost snames = self.struct_names@;
        let ghost enames = self.enum_names@;

        // Pass 2: resolve struct fields, enum variants, function signatures.
        let mut i: usize = 0;
        while i < prog.items.len()
            invariant
                distinct_type_names(*prog),
                i <= prog.items.len(),
                p == *prog,
                fresh == old(self).is_empty(),
                self.struct_names@ == snames,
                self.enum_names@ == enames,
                fresh ==> forall|n: Seq<char>| has_key(snames, n) ==> declares_type(p, n),
                fresh ==> forall|n: Seq<char>| has_key(enames, n) ==> declares_type(p, n),
                fresh ==> forall|k: int| 0 <= k < i && p.items@[k] is Impl ==> declares_type(p, #[trigger] item_name(p.items@[k])),
                distinct_variants_upto(p, i as int, 0),
                forall|k: int, v: int| is_variant(p, k, v) && variant_before(k, v, i as int, 0) ==> has_key(self.variant_to_enum@, #[trigger] variant_name(p, k, v)),
                fresh ==> forall|j: int| 0 <= j < self.variant_to_enum@.len() ==> names_variant(p, i as int, 0, (#[trigger] self.variant_to_enum@[j]).0@),
                single == (fresh && single_entry(p) is Some),
                ef == single_entry(p)->0,
                s0 == *old(self),
                single ==> self.scopes == s0.scopes && self.cur_self_borrowed == s0.cur_self_borrowed,
                single ==> self.struct_names@.len() == 0 && self.enum_names@.len() == 0,
                single && i == 0 ==> self.funcs == s0.funcs,
                single && i == 1 ==> match get(self.funcs@, ef.name@) {
                    Some(sig) => sig.params@.len() == 0 && entry_ret(ef) == Ok::<SpecTy, Seq<char>>(sig.ret@),
                    None => false,
                },
            decreases prog.items.len() - i,
        {
            match &prog.items[i] {
                Item::Struct(s) => {
                    let mut fields: Vec<(String, Ty)> = Vec::new();
                    let mut k: usize = 0;
                    while k < s.fields.len()
                        invariant
                            distinct_type_names(*prog),
                            k <= s.fields.len(),
                            !(old(self).is_empty() && single_entry(*prog) is Some),
                        decreases s.fields.len() - k,
                    {
                        let t = self.resolve(&s.fields[k].1)?;
                        fields.push((s.fields[k].0.clone(), t));
                        k = k + 1;
                    }
                    insert(&mut self.structs, s.name.clone(), fields);
                }
                Item::Enum(e) => {
                    let mut variants: Vec<(String, Vec<Ty>)> = Vec::new();
                    let mut w: usize = 0;
                    while w < e.variants.len()
                        invariant
                            distinct_type_names(*prog),
                            w <= e.variants.len(),
                            i < p.items@.len(),
                            p == *prog,
                            p.items@[i as int] == Item::Enum(*e),
                            fresh == old(self).is_empty(),
                            self.struct_names@ == snames,
                            self.enum_names@ == enames,
                            distinct_variants_upto(p, i as int, w as int),
                            forall|k: int, v: int| is_variant(p, k, v) && variant_before(k, v, i as int, w as int) ==> has_key(self.variant_to_enum@, #[trigger] variant_name(p, k, v)),
                            fresh ==> forall|j: int| 0 <= j < self.variant_to_enum@.len() ==> names_variant(p, i as int, w as int, (#[trigger] self.variant_to_enum@[j]).0@),
                        decreases e.variants.len() - w,
                    {
                        let v = &e.variants[w];
                        assert(variant_name(p, i as int, w as int) == v.name@);
                        match lookup(&self.variant_to_enum, v.name.as_str()) {
                            Some(other) => {
                                let mut m = text("variant `");
                                m.append(v.name.as_str());
                                m.append("` declared in both `");
                                m.append(other.as_str());
                                m.append("` and `");
                                m.append(e.name.as_str());
                                m.append("`");
                                return Err(m);
                            }
                            None => {}
                        }
                        let ghost before = self.variant_to_enum@;
                        let key = v.name.clone();
                        let ghost kg = key;
                        let val = e.name.clone();
                        let ghost vg = val;
                        proof {
                            lemma_put(before, key, val);
                            assert forall|k1: int, v1: int, k2: int, v2: int|
                                is_variant(p, k1, v1) && is_variant(p, k2, v2) && variant_before(k1, v1, i as int, w + 1)
                                    && variant_before(k2, v2, i as int, w + 1) && (k1 != k2 || v1 != v2) implies
                                #[trigger] variant_name(p, k1, v1) != #[trigger] variant_name(p, k2, v2) by {
                                if k1 == i && v1 == w {
                                    assert(has_key(before, variant_name(p, k2, v2)));
                                } else if k2 == i && v2 == w {
                                    assert(has_key(before, variant_name(p, k1, v1)));
                                }
                            }
                        }
                        insert(&mut self.variant_to_enum, key, val);
                        proof {
                            assert forall|k: int, x: int| is_variant(p, k, x) && variant_before(k, x, i as int, w + 1) implies has_key(self.variant_to_enum@, #[trigger] variant_name(p, k, x)) by {
                                lemma_put_keys(before, kg, vg, variant_name(p, k, x));
                            }
                            if fresh {
                                assert forall|j: int| 0 <= j < self.variant_to_enum@.len() implies names_variant(p, i as int, w + 1, (#[trigger] self.variant_to_enum@[j]).0@) by {
                                    if self.variant_to_enum@[j] == (kg, vg) {
                                        assert(is_variant(p, i as int, w as int) && variant_before(i as int, w as int, i as int, w + 1)
                                            && variant_name(p, i as int, w as int) == self.variant_to_enum@[j].0@);
                                    } else {
                                        assert(self.variant_to_enum@[j] == before[j]);
                                        assert(names_variant(p, i as int, w as int, before[j].0@));
                                        let (k, x) = choose|k: int, x: int| is_variant(p, k, x) && variant_before(k, x, i as int, w as int)
                                            && #[trigger] variant_name(p, k, x) == before[j].0@;
                                        assert(is_variant(p, k, x) && variant_before(k, x, i as int, w + 1)
                                            && variant_name(p, k, x) == self.variant_to_enum@[j].0@);
                                    }
                                }
                            }
                        }
                        let payloads = self.resolve_all(&v.payloads)?;
                        variants.push((v.name.clone(), payloads));
                        w = w + 1;
                    }
                    proof {
                        if fresh {
                            assert forall|j: int| 0 <= j < self.variant_to_enum@.len() implies names_variant(p, i + 1, 0, (#[trigger] self.variant_to_enum@[j]).0@) by {
                                assert(names_variant(p, i as int, w as int, self.variant_to_enum@[j].0@));
                                let (k, x) = choose|k: int, x: int| is_variant(p, k, x) && variant_before(k, x, i as int, w as int)
                                    && #[trigger] variant_name(p, k, x) == self.variant_to_enum@[j].0@;
                                assert(is_variant(p, k, x) && variant_before(k, x, i + 1, 0) && variant_name(p, k, x) == self.variant_to_enum@[j].0@);
                            }
                        }
                    }
                    insert(&mut self.enums, e.name.clone(), variants);
                }
                Item::Fn(f) => {
                    proof {
                        if single {
                            assert(self.struct_names@ =~= Seq::<(String, ())>::empty());
                            assert(self.enum_names@ =~= Seq::<(String, ())>::empty());
                        }
                    }
                    let sig = self.resolve_sig(f)?;
                    let key = f.name.clone();
                    insert(&mut self.funcs, key, sig);
                    proof {
                        if single {
                            assert(self.funcs@[0].0@ == ef.name@);
                        }
                    }
                }
                Item::Impl(b) => {
                    if find(&self.struct_names, b.self_type.as_str()).is_none()
                        && find(&self.enum_names, b.self_type.as_str()).is_none() {
                        let mut m = text("cannot impl unknown type `");
                        m.append(b.self_type.as_str());
                        m.append("`");
                        return Err(m);
                    }
                    assert(item_name(p.items@[i as int]) == b.self_type@);
                    let ghost vte = self.variant_to_enum@;
                    let mut k: usize = 0;
                    while k < b.methods.len()
                        invariant
                            distinct_type_names(*prog),
                            k <= b.methods.len(),
                            self.struct_names@ == snames,
                            !(old(self).is_empty() && single_entry(*prog) is Some),
                            self.enum_names@ == enames,
                            self.variant_to_enum@ == vte,
                        decreases b.methods.len() - k,
                    {
                        let m = &b.methods[k];
                        let sig = self.resolve_sig(&m.func)?;
                        let msig = MethodSig { self_kind: m.self_kind, params: sig.params, ret: sig.ret };
                        self.add_method(b.self_type.clone(), m.func.name.clone(), msig);
                        k = k + 1;
                    }
                }
            }
            i = i + 1;
        }
        proof {
            assert(distinct_variant_names(p));
            if fresh {
                assert(impls_declared(p));
            }
        }

        // Pass 3: check function and method bodies.
        let mut i: usize = 0;
        while i < prog.items.len()
            invariant
                distinct_type_names(*prog),
                i <= prog.items.len(),
                p == *prog,
                single == (fresh && single_entry(p) is Some),
                ef == single_entry(p)->0,
                s0 == *old(self),
                single && i == 0 ==> {
                    &&& self.scopes@.len() == 0
                    &&& !self.cur_self_borrowed
                    &&& match get(self.funcs@, ef.name@) {
                        Some(sig) => sig.params@.len() == 0 && entry_ret(ef) == Ok::<SpecTy, Seq<char>>(sig.ret@),
                        None => false,
                    }
                },
                single && i >= 1 ==> !(pure_check_entry(ef) matches Some(Err(_))),
                fresh == old(self).is_empty(),
            decreases prog.items.len() - i,
        {
            proof {
                if single {
                    assert(tenv_of(self.scopes@).push(Seq::empty()).push(Seq::empty()) =~= seq![
                        Seq::<TyView>::empty(),
                        Seq::<TyView>::empty(),
                    ]);
                }
            }
            match &prog.items[i] {
                Item::Fn(f) => {
                    proof {
                        if single {
                            assert(i == 0);
                            assert(*f == ef);
                        }
                    }
                    self.check_fn(f)?
                }
                Item::Impl(b) => {
                    let self_ty = self.resolve_name(b.self_type.as_str())?;
                    let mut k: usize = 0;
                    while k < b.methods.len()
                        invariant
                            distinct_type_names(*prog),
                            k <= b.methods.len(),
                            !(old(self).is_empty() && single_entry(*prog) is Some),
                        decreases b.methods.len() - k,
                    {
                        self.check_method(&self_ty, b.self_type.as_str(), &b.methods[k])?;
                        k = k + 1;
                    }
                }
                _ => {}
            }
            i = i + 1;
        }
        Ok(())
    }

    fn resolve_all(&self, tys: &Vec<TypeExpr>) -> (r: Result<Vec<Ty>, String>)
        ensures
            match spec_resolve_all(self.struct_names@, self.enum_names@, tys@) {
                Ok(ts) => r matches Ok(v) && v@.len() == ts.len() && forall|i: int| 0 <= i < ts.len() ==> #[trigger] v@[i]@ == ts[i],
                Err(m) => r matches Err(x) && x@ == m,
            },
    {
        let ghost sn = self.struct_names@;
        let ghost en = self.enum_names@;
        let mut out: Vec<Ty> = Vec::new();
        let mut k: usize = 0;
        assert(tys@.take(0) =~= Seq::<TypeExpr>::empty());
        while k < tys.len()
            invariant
                k <= tys.len(),
                sn == self.struct_names@,
                en == self.enum_names@,
                spec_resolve_all(sn, en, tys@.take(k as int)) matches Ok(ts) && out@.len() == ts.len()
                    && forall|i: int| 0 <= i < ts.len() ==> #[trigger] out@[i]@ == ts[i],
            decreases tys.len() - k,
        {
            let ghost pre = tys@.take(k as int);
            assert(tys@.take(k + 1).drop_last() =~= pre);
            assert(tys@.take(k + 1).last() == tys@[k as int]);
            match self.resolve(&tys[k]) {
                Ok(t) => {
                    out.push(t);
                }
                Err(m) => {
                    proof {
                        lemma_resolve_all_prefix_err(sn, en, tys@, k as int + 1);
                    }
                    return Err(m);
                }
            }
            k = k + 1;
        }
        assert(tys@.take(tys@.len() as int) =~= tys@);
        Ok(out)
    }

    fn resolve_sig(&self, f: &FnDecl) -> (r: Result<FnSig, String>)
        ensures
            f.params@.len() == 0 ==> match f.ret {
                None => r matches Ok(sig) && sig.params@.len() == 0 && sig.ret@ == SpecTy::Unit,
                Some(t) => match spec_resolve(self.struct_names@, self.enum_names@, t) {
                    Ok(rt) => r matches Ok(sig) && sig.params@.len() == 0 && sig.ret@ == rt,
                    Err(m) => r matches Err(x) && x@ == m,
                },
            },
    {
        let mut params: Vec<Ty> = Vec::new();
        let mut k: usize = 0;
        while k < f.params.len()
            invariant
                k <= f.params.len(),
                params@.len() == k,
            decreases f.params.len() - k,
        {
            params.push(self.resolve(&f.params[k].ty)?);
            k = k + 1;
        }
        let ret = match &f.ret {
            Some(t) => self.resolve(t)?,
            None => Ty::Unit,
        };
        Ok(FnSig { params, ret })
    }

    fn resolve_name(&self, name: &str) -> (r: Result<Ty, String>)
        ensures
            match spec_resolve_name(self.struct_names@, self.enum_names@, name@) {
                Ok(t) => r matches Ok(x) && x@ == t,
                Err(m) => r matches Err(x) && x@ == m,
            },
    {
        match prim(name) {
            Some(p) => Ok(p),
            None => {
                if find(&self.struct_names, name).is_some() {
                    Ok(Ty::Struct(string_of_str(name)))
                } else if find(&self.enum_names, name).is_some() {
                    Ok(Ty::Enum(string_of_str(name)))
                } else {
                    let mut m = text("unknown type `");
                    m.append(name);
                    m.append("`");
                    Err(m)
                }
            }
        }
    }

    fn add_method(&mut self, ty: String, name: String, sig: MethodSig)
        ensures
            final(self).struct_names == old(self).struct_names,
            final(self).enum_names == old(self).enum_names,
            final(self).variant_to_enum == old(self).variant_to_enum,
            final(self).structs == old(self).structs,
            final(self).enums == old(self).enums,
            final(self).funcs == old(self).funcs,
            final(self).scopes == old(self).scopes,
            forall|t2: Seq<char>, n2: Seq<char>| #[trigger] get2(final(self).methods@, t2, n2)
                == if t2 == ty@ && n2 == name@ { Some(sig) } else { get2(old(self).methods@, t2, n2) },
    {
        let ghost tyv = ty@;
        let ghost namev = name@;
        let ghost before = self.methods@;
        let ghost name_g = name;
        let ghost sig_g = sig;
        match find(&self.methods, ty.as_str()) {
            Some(i) => {
                proof {
                    lemma_first_key(before, tyv, 0);
                }
                let entry = &mut self.methods[i];
                insert(&mut entry.1, name, sig);
                assert(self.methods@ =~= before.update(i as int, (before[i as int].0, self.methods@[i as int].1)));
                assert forall|t2: Seq<char>, n2: Seq<char>| #[trigger] get2(self.methods@, t2, n2)
                    == if t2 == tyv && n2 == namev { Some(sig_g) } else { get2(before, t2, n2) } by {
                    lemma_first_key(before, t2, 0);
                    lemma_get_update(before, i as int, self.methods@[i as int].1, t2);
                    lemma_get_put(before[i as int].1@, name_g, sig_g, n2);
                }
            }
            None => {
                let ghost ty_g = ty;
                let mut ms: Vec<(String, MethodSig)> = Vec::new();
                ms.push((name, sig));
                proof {
                    assert(ms@ =~= put(Seq::<(String, MethodSig)>::empty(), name_g, sig_g));
                }
                let ghost ms_g = ms;
                self.methods.push((ty, ms));
                assert(self.methods@ == put(before, ty_g, ms_g));
                assert forall|t2: Seq<char>, n2: Seq<char>| #[trigger] get2(self.methods@, t2, n2)
                    == if t2 == tyv && n2 == namev { Some(sig_g) } else { get2(before, t2, n2) } by {
                    lemma_get_put(before, ty_g, ms_g, t2);
                    lemma_get_put(Seq::<(String, MethodSig)>::empty(), name_g, sig_g, n2);
                }
            }
        }
    }

    fn check_method(&mut self, self_ty: &Ty, self_type: &str, m: &MethodDecl) -> (r: Result<(), String>)
        ensures
            get2(old(self).methods@, self_type@, m.func.name@) is None ==> *final(self) == *old(self) && (r matches Err(
                x,
            ) && x@ == "internal error: unregistered method"@),
    {
        let (ret, param_tys) = match lookup(&self.methods, self_type) {
            Some(ms) => match lookup(ms, m.func.name.as_str()) {
                Some(sig) => (clone_ty(&sig.ret), clone_tys(&sig.params)),
                None => return Err(text("internal error: unregistered method")),
            },
            None => return Err(text("internal error: unregistered method")),
        };
        self.cur_ret = ret;
        self.push_scope();
        if m.self_kind != SelfKind::Assoc {
            // The parser canonicalized all `self` spellings to "self".
            // It is a mutable slot only inside `&mut self` methods.
            let self_mut = m.self_kind == SelfKind::MutRef;
            self.bind(text("self"), Binding::new(clone_ty(self_ty), self_mut));
        }
        self.cur_self_borrowed = m.self_kind == SelfKind::Ref || m.self_kind == SelfKind::MutRef;
        let mut k: usize = 0;
        while k < m.func.params.len() && k < param_tys.len()
            invariant
                k <= m.func.params.len(),
            decreases m.func.params.len() - k,
        {
            self.bind(m.func.params[k].name.clone(), Binding::new(clone_ty(&param_tys[k]), false));
            k = k + 1;
        }
        let body_ty = self.check_block(&m.func.body)?;
        self.pop_scope();
        self.cur_self_borrowed = false;

        if !types_match(&body_ty, &self.cur_ret) {
            let mut msg = text("method `");
            msg.append(m.func.name.as_str());
            msg.append("`: body has type `");
            push_ty(&mut msg, &body_ty);
            msg.append("` but the declared return type is `");
            push_ty(&mut msg, &self.cur_ret);
            msg.append("`");
            return Err(msg);
        }
        Ok(())
    }

    fn check_fn(&mut self, f: &FnDecl) -> (r: Result<(), String>)
        ensures
            !old(self).cur_self_borrowed && f.params@.len() == 0 ==> match get(old(self).funcs@, f.name@) {
                Some(sig) => match pure_check_stmts(
                    tenv_of(old(self).scopes@).push(Seq::empty()).push(Seq::empty()),
                    f.body.stmts@,
                ) {
                    Some(Ok((t, _))) => if spec_types_match(t, sig.ret@) {
                        r is Ok
                    } else {
                        r matches Err(x) && x@ == "function `"@ + f.name@ + "`: body has type `"@ + spec_ty_text(t)
                            + "` but the declared return type is `"@ + spec_ty_text(sig.ret@) + "`"@
                    },
                    Some(Err(m)) => r matches Err(x) && x@ == m,
                    None => true,
                },
                None => true,
            },
    {
        let (ret, param_tys) = match lookup(&self.funcs, f.name.as_str()) {
            Some(sig) => (clone_ty(&sig.ret), clone_tys(&sig.params)),
            None => return Err(text("internal error: unregistered function")),
        };
        self.cur_ret = ret;
        self.push_scope();
        let ghost pushed = *self;
        proof {
            assert(tscope_view(self.scopes@.last()@) =~= Seq::<TyView>::empty());
            assert(self.scopes@ =~= old(self).scopes@.push(self.scopes@.last()));
            assert(tenv_of(self.scopes@) =~= tenv_of(old(self).scopes@).push(Seq::empty()));
        }
        let mut k: usize = 0;
        while k < f.params.len() && k < param_tys.len()
            invariant
                k <= f.params.len(),
                f.params@.len() == 0 ==> *self == pushed,
            decreases f.params.len() - k,
        {
            self.bind(f.params[k].name.clone(), Binding::new(clone_ty(&param_tys[k]), false));
            k = k + 1;
        }
        let body_ty = self.check_block(&f.body)?;
        self.pop_scope();

        if !types_match(&body_ty, &self.cur_ret) {
            let mut msg = text("function `");
            msg.append(f.name.as_str());
            msg.append("`: body has type `");
            push_ty(&mut msg, &body_ty);
            msg.append("` but the declared return type is `");
            push_ty(&mut msg, &self.cur_ret);
            msg.append("`");
            return Err(msg);
        }
        Ok(())
    }

    /// A block's type is the type of its final statement if that statement is a
    /// bare expression, otherwise unit.
    fn check_block(&mut self, b: &Block) -> (r: Result<Ty, String>)
        ensures
            !old(self).cur_self_borrowed ==> match pure_check_stmts(
                tenv_of(old(self).scopes@).push(Seq::empty()),
                b.stmts@,
            ) {
                Some(Ok((t, en))) => {
                    &&& r matches Ok(x) && x@ == t
                    &&& tenv_of(final(self).scopes@) == en.drop_last()
                    &&& final(self).same_decls(old(self))
                },
                Some(Err(m)) => r matches Err(x) && x@ == m,
                None => true,
            },
        decreases b, 1int,
    {
        let ghost before = *old(self);
        let ghost e0 = tenv_of(old(self).scopes@).push(Seq::empty());
        let ghost pure = !old(self).cur_self_borrowed && pure_check_stmts(e0, b.stmts@) is Some;
        self.push_scope();
        proof {
            assert(tscope_view(self.scopes@.last()@) =~= Seq::<TyView>::empty());
            assert(tenv_of(self.scopes@) =~= e0);
            assert(b.stmts@.take(0) =~= Seq::<Stmt>::empty());
        }
        let mut last = Ty::Unit;
        let mut i: usize = 0;
        while i < b.stmts.len()
            invariant
                i <= b.stmts.len(),
                before == *old(self),
                e0 == tenv_of(before.scopes@).push(Seq::empty()),
                pure == (!before.cur_self_borrowed && pure_check_stmts(e0, b.stmts@) is Some),
                pure ==> match pure_check_stmts(e0, b.stmts@.take(i as int)) {
                    Some(Ok((t, en))) => {
                        &&& last@ == t
                        &&& tenv_of(self.scopes@) == en
                        &&& self.same_decls(&before)
                        &&& self.scopes@.len() > 0
                    },
                    _ => false,
                },
            decreases b.stmts.len() - i,
        {
            proof {
                if pure {
                    lemma_check_prefix(e0, b.stmts@, i + 1);
                    assert(b.stmts@.take(i + 1).drop_last() =~= b.stmts@.take(i as int));
                    assert(b.stmts@.take(i + 1).last() == b.stmts@[i as int]);
                    match pure_check_stmts(e0, b.stmts@.take(i as int)) {
                        Some(Ok((t, en))) => {
                            lemma_check_stmts_shape(e0, b.stmts@.take(i + 1));
                        },
                        _ => {},
                    }
                }
            }
            match self.check_stmt(&b.stmts[i]) {
                Ok(t) => last = t,
                Err(e) => {
                    self.pop_scope();
                    return Err(e);
                }
            }
            i = i + 1;
        }
        proof {
            assert(b.stmts@.take(b.stmts@.len() as int) =~= b.stmts@);
        }
        let ghost inner = self.scopes@;
        self.pop_scope();
        proof {
            if pure {
                assert(self.scopes@ =~= inner.drop_last());
                assert(tenv_of(self.scopes@) =~= tenv_of(inner).drop_last());
            }
        }
        Ok(last)
    }

    /// Check a loop body, rejecting moves of variables that outlive the loop
    /// (a second iteration would use the moved value).
    fn check_loop_body(&mut self, body: &Block) -> (r: Result<(), String>)
        ensures
            !old(self).cur_self_borrowed ==> match pure_check_block(tenv_of(old(self).scopes@), *body) {
                Some(Ok((_, en))) => match first_move(en, tenv_of(old(self).scopes@)) {
                    Some((i, j)) => r matches Err(x) && x@ == msg_loop_move(en[i][j]),
                    None => r is Ok && tenv_of(final(self).scopes@) == en && final(self).same_decls(old(self)),
                },
                Some(Err(m)) => r matches Err(x) && x@ == m,
                None => true,
            },
        decreases body, 2int,
    {
        let before = self.snapshot();
        self.check_block(body)?;
        let ghost t0 = tenv_of(old(self).scopes@);
        let ghost en = tenv_of(self.scopes@);
        let fm = self.first_loop_move(&before);
        proof {
            match fm {
                Some((s, b)) => {
                    lemma_loop_move_view(self.scopes@, before@, s as int, b as int);
                    assert forall|s2: int, b2: int| (s2 < s || (s2 == s && b2 < b)) implies !tmove_at(en, t0, s2, b2) by {
                        lemma_loop_move_view(self.scopes@, before@, s2, b2);
                    }
                    assert(tmove_first(en, t0, s as int, b as int));
                    lemma_first_move_unique(en, t0, s as int, b as int);
                },
                None => {
                    assert forall|s2: int, b2: int| !tmove_at(en, t0, s2, b2) by {
                        lemma_loop_move_view(self.scopes@, before@, s2, b2);
                    }
                    assert(!exists|s2: int, b2: int| tmove_first(en, t0, s2, b2));
                },
            }
        }
        match fm {
            Some((s, b)) => {
                let line = match self.scopes[s][b].1.moved {
                    Some(l) => l,
                    None => 0,
                };
                let mut m = text("`");
                m.append(self.scopes[s][b].0.as_str());
                m.append("` is moved inside a loop — a later iteration would use the moved value; use `.clone()`");
                Err(with_line(line, m))
            }
            None => Ok(()),
        }
    }

    /// `for var in iter { body }` over an array.
    fn check_foreach(&mut self, s: &Stmt, var: &String, iter: &Expr, body: &Block) -> (r: Result<Ty, String>)
        requires
            *s == (Stmt::ForEach { var: *var, iter: *iter, body: *body }),
        ensures
            !old(self).cur_self_borrowed && old(self).scopes@.len() > 0 ==> match pure_check_stmt(
                tenv_of(old(self).scopes@),
                *s,
            ) {
                Some(Ok((t, en))) => {
                    &&& r matches Ok(x) && x@ == t
                    &&& tenv_of(final(self).scopes@) == en
                    &&& final(self).same_decls(old(self))
                },
                Some(Err(m)) => r matches Err(x) && x@ == m,
                None => true,
            },
        decreases s, 0int,
    {
        let ghost sc0 = self.scopes@;
        let ghost t0 = tenv_of(sc0);
        let elem = match self.infer(iter)? {
            Ty::Vec(t) => *t,
            other => {
                let mut m = text("`for .. in` requires an array, got `");
                push_ty(&mut m, &other);
                m.append("`");
                return Err(with_line(iter.line, m));
            }
        };
        let ghost eg = elem@;
        proof {
            match &iter.kind {
                ExprKind::Ident(n) => lemma_tenv_find(sc0, n@),
                _ => {},
            }
        }
        // Iterating consumes the array (clone it to keep it).
        self.mark_move(iter)?;
        proof {
            match &iter.kind {
                ExprKind::Ident(n) => match scope_find(sc0, n@) {
                    Some((i, j)) => if !spec_is_copy(sc0[i]@[j].1.ty@) {
                        lemma_tmark(sc0, self.scopes@, i, j, iter.line);
                    },
                    None => {},
                },
                _ => {},
            }
        }
        let ghost sa = self.scopes@;
        self.push_scope();
        let ghost sb = self.scopes@;
        let key = var.clone();
        let ghost kg = key;
        let bnd = Binding::new(elem, false);
        let ghost bg = bnd;
        self.bind(key, bnd);
        proof {
            assert(tscope_view(sb.last()@) =~= Seq::<TyView>::empty());
            assert(sb =~= sa.push(sb.last()));
            assert(tenv_of(sb) =~= tenv_of(sa).push(Seq::empty()));
            lemma_tbind(sb, self.scopes@, kg, bg);
            assert(tenv_of(self.scopes@) =~= elem_scope(tenv_of(sa), var@, eg));
        }
        let r = self.check_loop_body(body);
        let ghost inner = self.scopes@;
        self.pop_scope();
        proof {
            lemma_check_block_shape(elem_scope(tenv_of(sa), var@, eg), *body);
            if inner.len() > 0 {
                assert(tenv_of(self.scopes@) =~= tenv_of(inner).drop_last());
            }
        }
        r?;
        Ok(Ty::Unit)
    }

    fn check_stmt(&mut self, s: &Stmt) -> (r: Result<Ty, String>)
        ensures
            !old(self).cur_self_borrowed && old(self).scopes@.len() > 0 ==> match pure_check_stmt(
                tenv_of(old(self).scopes@),
                *s,
            ) {
                Some(Ok((t, en))) => {
                    &&& r matches Ok(x) && x@ == t
                    &&& tenv_of(final(self).scopes@) == en
                    &&& final(self).same_decls(old(self))
                },
                Some(Err(m)) => r matches Err(x) && x@ == m,
                None => true,
            },
            match *s {
                Stmt::Assign { target, .. } => match spec_require_mutable(
                    tenv_of(old(self).scopes@),
                    match target {
                        AssignTarget::Var(x) => x@,
                        AssignTarget::Index { name, .. } => name@,
                        AssignTarget::Field { name, .. } => name@,
                    },
                ) {
                    Err(m) => r matches Err(y) && y@ == m,
                    Ok(_) => true,
                },
                _ => true,
            },
        decreases s, 1int,
    {
        let ghost sc0 = self.scopes@;
        let ghost t0 = tenv_of(sc0);
        match s {
            Stmt::Let { name, mutable, ty_ann, init } => {
                // An empty array literal has no inferable element type — the
                // annotation supplies it (`let v: [int] = []`).
                match (ty_ann, &init.kind) {
                    (Some(ann), ExprKind::ArrayLit(elems)) => {
                        if elems.len() == 0 {
                            let want = self.resolve(ann)?;
                            if matches!(want, Ty::Vec(_)) {
                                self.bind(name.clone(), Binding::new(want, *mutable));
                                return Ok(Ty::Unit);
                            }
                        }
                    }
                    _ => {}
                }
                let init_ty = self.infer(init)?;
                let ty = match ty_ann {
                    Some(ann) => {
                        let want = self.resolve(ann)?;
                        if !types_match(&want, &init_ty) {
                            let mut m = text("let `");
                            m.append(name.as_str());
                            m.append("`: annotated `");
                            push_ty(&mut m, &want);
                            m.append("` but initializer has type `");
                            push_ty(&mut m, &init_ty);
                            m.append("`");
                            return Err(m);
                        }
                        want
                    }
                    None => init_ty,
                };
                proof {
                    match &init.kind {
                        ExprKind::Ident(n) => lemma_tenv_find(sc0, n@),
                        _ => {},
                    }
                }
                self.mark_move(init)?;
                proof {
                    match &init.kind {
                        ExprKind::Ident(n) => match scope_find(sc0, n@) {
                            Some((i, j)) => if !spec_is_copy(sc0[i]@[j].1.ty@) {
                                lemma_tmark(sc0, self.scopes@, i, j, init.line);
                            },
                            None => {},
                        },
                        _ => {},
                    }
                }
                let ghost sc1 = self.scopes@;
                let key = name.clone();
                let ghost kg = key;
                let bnd = Binding::new(ty, *mutable);
                let ghost bg = bnd;
                self.bind(key, bnd);
                proof {
                    if sc1.len() > 0 {
                        lemma_tbind(sc1, self.scopes@, kg, bg);
                    }
                }
                Ok(Ty::Unit)
            }
            Stmt::Assign { target, value } => {
                let (slot_ty, desc) = match target {
                    AssignTarget::Var(name) => (self.require_mutable(name.as_str())?, name.clone()),
                    AssignTarget::Index { name, index } => {
                        let base_ty = self.require_mutable(name.as_str())?;
                        self.expect(index, &Ty::Int, "array index")?;
                        match base_ty {
                            Ty::Vec(t) => {
                                let mut d = name.clone();
                                d.append("[..]");
                                (*t, d)
                            }
                            other => {
                                let mut m = text("cannot index `");
                                m.append(name.as_str());
                                m.append("` of type `");
                                push_ty(&mut m, &other);
                                m.append("`");
                                return Err(m);
                            }
                        }
                    }
                    AssignTarget::Field { name, field } => {
                        let base_ty = self.require_mutable(name.as_str())?;
                        match base_ty {
                            Ty::Struct(sname) => {
                                let fty = match lookup(&self.structs, sname.as_str()) {
                                    Some(fields) => field_ty(fields, field.as_str()),
                                    None => None,
                                };
                                match fty {
                                    Some(t) => {
                                        let mut d = name.clone();
                                        d.append(".");
                                        d.append(field.as_str());
                                        (t, d)
                                    }
                                    None => return Err(no_field(sname.as_str(), field.as_str())),
                                }
                            }
                            other => {
                                let mut m = text("cannot assign to field `");
                                m.append(field.as_str());
                                m.append("` on `");
                                push_ty(&mut m, &other);
                                m.append("`");
                                return Err(m);
                            }
                        }
                    }
                };
                let val_ty = self.infer(value)?;
                if !types_match(&slot_ty, &val_ty) {
                    let mut m = text("cannot assign `");
                    push_ty(&mut m, &val_ty);
                    m.append("` to `");
                    m.append(desc.as_str());
                    m.append("` of type `");
                    push_ty(&mut m, &slot_ty);
                    m.append("`");
                    return Err(m);
                }
                let ghost scm = self.scopes@;
                proof {
                    match &value.kind {
                        ExprKind::Ident(n) => lemma_tenv_find(scm, n@),
                        _ => {},
                    }
                }
                self.mark_move(value)?;
                proof {
                    match &value.kind {
                        ExprKind::Ident(n) => match scope_find(scm, n@) {
                            Some((i, j)) => if !spec_is_copy(scm[i]@[j].1.ty@) {
                                lemma_tmark(scm, self.scopes@, i, j, value.line);
                            },
                            None => {},
                        },
                        _ => {},
                    }
                }
                // Assigning to a whole variable gives it a fresh value: a
                // previously-moved binding becomes usable again.
                match target {
                    AssignTarget::Var(name) => {
                        let ghost sc1 = self.scopes@;
                        proof {
                            lemma_tenv_find(sc1, name@);
                        }
                        match self.find_binding(name.as_str()) {
                            Some((i, j)) => {
                                let sc = &mut self.scopes[i];
                                let entry = &mut sc[j];
                                entry.1.moved = None;
                                proof {
                                    lemma_tunmove(sc1, self.scopes@, i as int, j as int);
                                }
                            }
                            None => {}
                        }
                    }
                    _ => {}
                }
                Ok(Ty::Unit)
            }
            Stmt::While { cond, body } => {
                self.expect(cond, &Ty::Bool, "while condition")?;
                self.check_loop_body(body)?;
                Ok(Ty::Unit)
            }
            Stmt::For { var, start, end, body } => {
                self.expect(start, &Ty::Int, "for range start")?;
                self.expect(end, &Ty::Int, "for range end")?;
                let ghost sa = self.scopes@;
                self.push_scope();
                let ghost sb = self.scopes@;
                let key = var.clone();
                let ghost kg = key;
                let bnd = Binding::new(Ty::Int, false);
                let ghost bg = bnd;
                self.bind(key, bnd);
                proof {
                    assert(tscope_view(sb.last()@) =~= Seq::<TyView>::empty());
                    assert(sb =~= sa.push(sb.last()));
                    assert(tenv_of(sb) =~= tenv_of(sa).push(Seq::empty()));
                    lemma_tbind(sb, self.scopes@, kg, bg);
                    assert(tenv_of(self.scopes@) =~= for_scope(tenv_of(sa), var@));
                }
                let r = self.check_loop_body(body);
                let ghost inner = self.scopes@;
                self.pop_scope();
                proof {
                    lemma_check_block_shape(for_scope(tenv_of(sa), var@), *body);
                    if inner.len() > 0 {
                        assert(tenv_of(self.scopes@) =~= tenv_of(inner).drop_last());
                    }
                }
                r?;
                Ok(Ty::Unit)
            }
            Stmt::ForEach { var, iter, body } => self.check_foreach(s, var, iter, body),
            Stmt::Return(opt) => {
                let t = match opt {
                    Some(e) => self.infer(e)?,
                    None => Ty::Unit,
                };
                if !types_match(&t, &self.cur_ret) {
                    let mut m = text("return type `");
                    push_ty(&mut m, &t);
                    m.append("` does not match declared `");
                    push_ty(&mut m, &self.cur_ret);
                    m.append("`");
                    return Err(m);
                }
                Ok(Ty::Unit)
            }
            Stmt::Expr(e) => self.infer(e),
        }
    }

    /// Infer the type of `e`, tagging any error with its source line (the
    /// innermost expression's line wins, since nested calls tag first).
    fn infer(&mut self, e: &Expr) -> (r: Result<Ty, String>)
        ensures
            match pure_type(tenv_of(old(self).scopes@), *e) {
                Some(Ok(t)) => *final(self) == *old(self) && (r matches Ok(x) && x@ == t),
                Some(Err(m)) => final(self).scopes@ == old(self).scopes@ && (r matches Err(x) && x@ == m),
                None => true,
            },
            match print_args(*e) {
                Some(args) => match pure_types(tenv_of(old(self).scopes@), args) {
                    Some(Ok(_)) => *final(self) == *old(self) && (r matches Ok(x) && x@ == SpecTy::Unit),
                    Some(Err(m)) => final(self).scopes@ == old(self).scopes@ && (r matches Err(x) && x@ == m),
                    None => true,
                },
                None => true,
            },
            !old(self).cur_self_borrowed ==> match pure_check_ctl(tenv_of(old(self).scopes@), *e) {
                Some(Ok((t, en))) => (r matches Ok(x) && x@ == t) && tenv_of(final(self).scopes@) == en
                    && final(self).same_decls(old(self)),
                Some(Err(m)) => r matches Err(x) && x@ == m,
                None => true,
            },
        decreases e, 2int,
    {
        proof {
            match print_args(*e) {
                Some(args) => lemma_types_tagged(tenv_of(old(self).scopes@), args),
                None => {},
            }
        }
        match self.infer_kind(e) {
            Ok(t) => Ok(t),
            Err(m) => Err(with_line(e.line, m)),
        }
    }

    fn expect(&mut self, e: &Expr, want: &Ty, ctx: &str) -> (r: Result<(), String>)
        ensures
            takes_empty(*e, want@) ==> r is Ok && *final(self) == *old(self),
            !takes_empty(*e, want@) ==> match pure_type(tenv_of(old(self).scopes@), *e) {
                Some(Ok(t)) => *final(self) == *old(self) && match spec_expect_ty(t, want@, ctx@) {
                    Ok(_) => r is Ok,
                    Err(m) => r matches Err(x) && x@ == spec_with_line(e.line as nat, m),
                },
                Some(Err(m)) => final(self).scopes@ == old(self).scopes@ && (r matches Err(x) && x@ == m),
                None => true,
            },
        decreases e, 3int,
    {
        // An empty array literal takes its element type from the expected
        // type (struct fields, function args, enum payloads, ...).
        match (&e.kind, want) {
            (ExprKind::ArrayLit(elems), Ty::Vec(_)) => {
                if elems.len() == 0 {
                    return Ok(());
                }
            }
            _ => {}
        }
        let got = self.infer(e)?;
        match expect_ty(&got, want, ctx) {
            Ok(()) => Ok(()),
            Err(m) => Err(with_line(e.line, m)),
        }
    }

    fn check_args(&mut self, args: &Vec<Expr>, params: &Vec<Ty>, ctx: &str) -> (r: Result<(), String>)
        ensures
            args@.len() == 0 && params@.len() == 0 ==> r is Ok && *final(self) == *old(self),
            args@.len() != params@.len() ==> *final(self) == *old(self) && (r matches Err(m) && m@ == ctx@
                + " expects "@ + dec(params@.len()) + " arg(s), got "@ + dec(args@.len())),
        decreases args, 0int,
    {
        if args.len() != params.len() {
            let mut m = text(ctx);
            m.append(" expects ");
            push_dec(&mut m, params.len() as u64);
            m.append(" arg(s), got ");
            push_dec(&mut m, args.len() as u64);
            return Err(m);
        }
        let mut i: usize = 0;
        while i < args.len()
            invariant
                i <= args.len(),
                args.len() == params.len(),
                args.len() == 0 ==> *self == *old(self),
            decreases args.len() - i,
        {
            self.expect(&args[i], &params[i], ctx)?;
            self.mark_move(&args[i])?; // passing an argument gives it away
            i = i + 1;
        }
        Ok(())
    }

    fn infer_each(&mut self, args: &Vec<Expr>) -> (r: Result<(), String>)
        ensures
            match pure_types(tenv_of(old(self).scopes@), args@) {
                Some(Ok(_)) => *final(self) == *old(self) && r is Ok,
                Some(Err(m)) => final(self).scopes@ == old(self).scopes@ && (r matches Err(x) && x@ == m),
                None => true,
            },
        decreases args, 0int,
    {
        let ghost sc0 = self.scopes@;
        let ghost t0 = tenv_of(sc0);
        let ghost pure = pure_types(t0, args@) is Some;
        proof {
            assert(args@.take(0) =~= Seq::<Expr>::empty());
        }
        let mut i: usize = 0;
        while i < args.len()
            invariant
                i <= args.len(),
                sc0 == old(self).scopes@,
                t0 == tenv_of(sc0),
                pure == pure_types(t0, args@) is Some,
                pure ==> *self == *old(self) && pure_types(t0, args@.take(i as int)) == Some(Ok::<(), Seq<char>>(())),
            decreases args.len() - i,
        {
            proof {
                if pure {
                    lemma_types_prefix(t0, args@, i + 1);
                    assert(args@.take(i + 1).drop_last() =~= args@.take(i as int));
                    assert(args@.take(i + 1).last() == args@[i as int]);
                }
            }
            self.infer(&args[i])?;
            i = i + 1;
        }
        proof {
            assert(args@.take(args@.len() as int) =~= args@);
        }
        Ok(())
    }

    fn infer_parts(&mut self, parts: &Vec<StrPart>) -> (r: Result<(), String>)
        ensures
            match pure_part_types(tenv_of(old(self).scopes@), parts@) {
                Some(Ok(_)) => *final(self) == *old(self) && r is Ok,
                Some(Err(m)) => final(self).scopes@ == old(self).scopes@ && (r matches Err(x) && x@ == m),
                None => true,
            },
        decreases parts, 0int,
    {
        let ghost t0 = tenv_of(self.scopes@);
        let ghost pure = pure_part_types(t0, parts@) is Some;
        proof {
            assert(parts@.take(0) =~= Seq::<StrPart>::empty());
        }
        let mut i: usize = 0;
        while i < parts.len()
            invariant
                i <= parts.len(),
                t0 == tenv_of(old(self).scopes@),
                pure == pure_part_types(t0, parts@) is Some,
                pure ==> *self == *old(self) && pure_part_types(t0, parts@.take(i as int)) == Some(Ok::<(), Seq<char>>(())),
            decreases parts.len() - i,
        {
            proof {
                if pure {
                    lemma_part_types_prefix(t0, parts@, i + 1);
                    assert(parts@.take(i + 1).drop_last() =~= parts@.take(i as int));
                    assert(parts@.take(i + 1).last() == parts@[i as int]);
                }
            }
            match &parts[i] {
                StrPart::Expr(e) => {
                    self.infer(e)?;
                }
                StrPart::Lit(_) => {}
            }
            i = i + 1;
        }
        proof {
            assert(parts@.take(parts@.len() as int) =~= parts@);
        }
        Ok(())
    }
}

fn duplicate_type(name: &str) -> (r: String)
    ensures
        r@ == "type `"@ + name@ + "` is declared more than once"@,
{
    let mut m = text("type `");
    m.append(name);
    m.append("` is declared more than once");
    m
}

fn no_field(sname: &str, field: &str) -> (r: String)
    ensures
        r@ == "struct `"@ + sname@ + "` has no field `"@ + field@ + "`"@,
{
    let mut m = text("struct `");
    m.append(sname);
    m.append("` has no field `");
    m.append(field);
    m.append("`");
    m
}


impl Checker {
    fn infer_kind(&mut self, e: &Expr) -> (r: Result<Ty, String>)
        ensures
            match pure_type_kind(tenv_of(old(self).scopes@), *e) {
                Some(Ok(t)) => *final(self) == *old(self) && (r matches Ok(x) && x@ == t),
                Some(Err(m)) => final(self).scopes@ == old(self).scopes@ && (r matches Err(x) && x@ == m),
                None => true,
            },
            match print_args(*e) {
                Some(args) => match pure_types(tenv_of(old(self).scopes@), args) {
                    Some(Ok(_)) => *final(self) == *old(self) && (r matches Ok(x) && x@ == SpecTy::Unit),
                    Some(Err(m)) => final(self).scopes@ == old(self).scopes@ && (r matches Err(x) && x@ == m),
                    None => true,
                },
                None => true,
            },
            !old(self).cur_self_borrowed ==> match pure_check_ctl_kind(tenv_of(old(self).scopes@), *e) {
                Some(Ok((t, en))) => (r matches Ok(x) && x@ == t) && tenv_of(final(self).scopes@) == en
                    && final(self).same_decls(old(self)),
                Some(Err(m)) => r matches Err(x) && x@ == m,
                None => true,
            },
            match e.kind {
                ExprKind::Call { callee, args } => !spec_is_print(callee@) && callee@ != "Ok"@ && callee@ != "Err"@
                    && get(old(self).variant_to_enum@, callee@) is None ==> match get(old(self).funcs@, callee@) {
                    None => r matches Err(m) && m@ == "cannot find function `"@ + callee@ + "`"@,
                    Some(sig) => if sig.params@.len() != args@.len() {
                        r matches Err(m) && m@ == "argument to `"@ + callee@ + "`"@ + " expects "@ + dec(
                            sig.params@.len(),
                        ) + " arg(s), got "@ + dec(args@.len())
                    } else if args@.len() == 0 {
                        *final(self) == *old(self) && (r matches Ok(x) && x@ == sig.ret@)
                    } else {
                        r matches Ok(x) ==> x@ == sig.ret@
                    },
                },
                _ => true,
            },
        decreases e, 1int,
    {
        match &e.kind {
            ExprKind::Int(_) => Ok(Ty::Int),
            ExprKind::Str(_) => Ok(Ty::Str),
            ExprKind::StrInterp(parts) => {
                // Each embedded expression must type-check; any displayable value
                // is allowed. The whole interpolation has type `str`.
                self.infer_parts(parts)?;
                Ok(Ty::Str)
            }
            ExprKind::Bool(_) => Ok(Ty::Bool),
            ExprKind::Ident(name) => {
                proof {
                    lemma_tenv_find(self.scopes@, name@);
                }
                match self.lookup_full(name.as_str()) {
                    Some(b) => {
                        match b.moved {
                            Some(line) => {
                                let mut m = text("use of moved value `");
                                m.append(name.as_str());
                                m.append("` (moved on line ");
                                push_dec(&mut m, line as u64);
                                m.append(") — use `.clone()` to keep a copy");
                                Err(m)
                            }
                            None => Ok(b.ty),
                        }
                    }
                    None => match self.unit_variant_enum(name.as_str()) {
                        Some(en) => Ok(Ty::Enum(en)),
                        None => {
                            let mut m = text("cannot find `");
                            m.append(name.as_str());
                            m.append("` in scope");
                            Err(m)
                        }
                    },
                }
            }
            ExprKind::Float(_) => Ok(Ty::Float),
            ExprKind::Cast { expr, ty } => {
                let from = self.infer(expr)?;
                let to = self.resolve(ty)?;
                cast_ty(&from, to)
            }
            ExprKind::Unary { op, rhs } => match op {
                UnOp::Neg => {
                    let t = self.infer(rhs)?;
                    neg_ty(t)
                }
                UnOp::Not => {
                    self.expect(rhs, &Ty::Bool, "logical not")?;
                    Ok(Ty::Bool)
                }
            },
            ExprKind::Binary { op, lhs, rhs } => {
                let lt = self.infer(lhs)?;
                let rt = self.infer(rhs)?;
                binary_ty(*op, lt, &rt)
            }
            ExprKind::Call { callee, args } => {
                if is_print_builtin(callee.as_str()) {
                    self.infer_each(args)?;
                    return Ok(Ty::Unit);
                }
                // Builtin `Result` constructors (canonicalized by the parser).
                // The other side stays `Unknown` until context resolves it.
                let is_ok = same_text(callee.as_str(), "Ok");
                if is_ok || same_text(callee.as_str(), "Err") {
                    if args.len() != 1 {
                        let mut m = text("`");
                        m.append(callee.as_str());
                        m.append("` takes exactly one value");
                        return Err(m);
                    }
                    let inner = self.infer(&args[0])?;
                    self.mark_move(&args[0])?;
                    return Ok(if is_ok {
                        Ty::Result(Box::new(inner), Box::new(Ty::Unknown))
                    } else {
                        Ty::Result(Box::new(Ty::Unknown), Box::new(inner))
                    });
                }
                // Bare tuple-variant construction (e.g. `Circle(r)`).
                match lookup(&self.variant_to_enum, callee.as_str()) {
                    Some(en) => {
                        let en = en.clone();
                        return self.check_variant_construction(en.as_str(), callee.as_str(), args);
                    }
                    None => {}
                }
                let (sig_params, sig_ret) = match lookup(&self.funcs, callee.as_str()) {
                    Some(sig) => (clone_tys(&sig.params), clone_ty(&sig.ret)),
                    None => {
                        let mut m = text("cannot find function `");
                        m.append(callee.as_str());
                        m.append("`");
                        return Err(m);
                    }
                };
                let mut ctx = text("argument to `");
                ctx.append(callee.as_str());
                ctx.append("`");
                self.check_args(args, &sig_params, ctx.as_str())?;
                Ok(sig_ret)
            }
            ExprKind::If { cond, then_b, els } => {
                self.expect(cond, &Ty::Bool, "if condition")?;
                // Each branch checks against the same starting move-state; a
                // value moved in EITHER branch is moved afterwards.
                let entry = self.snapshot();
                let then_ty = self.check_block(then_b)?;
                let after_then = self.snapshot();
                self.scopes = entry;
                match els {
                    Some(x) => {
                        let else_ty = self.infer(x)?;
                        let ghost before_merge = self.scopes@;
                        self.merge_moves(&after_then);
                        proof {
                            lemma_tmerge(before_merge, after_then@, self.scopes@);
                        }
                        if !types_match(&then_ty, &else_ty) {
                            let mut m = text("if branches have differing types: `");
                            push_ty(&mut m, &then_ty);
                            m.append("` vs `");
                            push_ty(&mut m, &else_ty);
                            m.append("`");
                            return Err(m);
                        }
                        Ok(join(then_ty, &else_ty))
                    }
                    // No else: used as a statement; its value is unit.
                    None => {
                        let ghost before_merge = self.scopes@;
                        self.merge_moves(&after_then);
                        proof {
                            lemma_tmerge(before_merge, after_then@, self.scopes@);
                        }
                        Ok(Ty::Unit)
                    }
                }
            }
            ExprKind::Block(b) => self.check_block(b),
            ExprKind::StructLit { name, fields } => {
                let decl = match lookup(&self.structs, name.as_str()) {
                    Some(d) => clone_fields(d),
                    None => {
                        let mut m = text("unknown struct `");
                        m.append(name.as_str());
                        m.append("`");
                        return Err(m);
                    }
                };
                if fields.len() != decl.len() {
                    let mut m = text("struct `");
                    m.append(name.as_str());
                    m.append("` expects ");
                    push_dec(&mut m, decl.len() as u64);
                    m.append(" field(s), got ");
                    push_dec(&mut m, fields.len() as u64);
                    return Err(m);
                }
                self.check_fields(name.as_str(), fields, &decl)?;
                Ok(Ty::Struct(name.clone()))
            }
            ExprKind::Field { base, field } => {
                let bt = self.infer(base)?;
                match bt {
                    Ty::Struct(sname) => {
                        let fty = match lookup(&self.structs, sname.as_str()) {
                            Some(fields) => field_ty(fields, field.as_str()),
                            None => None,
                        };
                        match fty {
                            Some(t) => Ok(t),
                            None => Err(no_field(sname.as_str(), field.as_str())),
                        }
                    }
                    other => {
                        let mut m = text("cannot access field `");
                        m.append(field.as_str());
                        m.append("` on `");
                        push_ty(&mut m, &other);
                        m.append("`");
                        Err(m)
                    }
                }
            }
            ExprKind::Path { ty, member, args } => {
                // Enum construction: `Shape::Circle(..)` / `Color::Red`.
                let is_variant = match lookup(&self.enums, ty.as_str()) {
                    Some(vs) => find(vs, member.as_str()).is_some(),
                    None => false,
                };
                if find(&self.enum_names, ty.as_str()).is_some() && is_variant {
                    return self.check_variant_construction(ty.as_str(), member.as_str(), args);
                }
                // Associated function: `Point::new(..)`.
                match self.method_sig(ty.as_str(), member.as_str()) {
                    Some((self_kind, params, ret)) => {
                        if self_kind != SelfKind::Assoc {
                            let mut m = text("`");
                            m.append(ty.as_str());
                            m.append("::");
                            m.append(member.as_str());
                            m.append("` is a method; call it on a value with `.`");
                            return Err(m);
                        }
                        let mut ctx = text("`");
                        ctx.append(ty.as_str());
                        ctx.append("::");
                        ctx.append(member.as_str());
                        ctx.append("`");
                        self.check_args(args, &params, ctx.as_str())?;
                        return Ok(ret);
                    }
                    None => {}
                }
                let mut m = text("no `");
                m.append(ty.as_str());
                m.append("::");
                m.append(member.as_str());
                m.append("`");
                Err(m)
            }
            ExprKind::ArrayLit(elems) => self.infer_array(e, elems),
            ExprKind::Index { base, index } => self.infer_index(e, base, index),
            ExprKind::MethodCall { receiver, method, args } => {
                let rt = self.infer(receiver)?;
                // Builtin array methods: len/طول/longueur, push/أضف/ajoute,
                // pop/اسحب/retire.
                match &rt {
                    Ty::Vec(elem) => {
                        match array_method(method.as_str()) {
                            Some(ArrayMethod::Len) => {
                                self.check_args(args, &Vec::new(), "len")?;
                                return Ok(Ty::Int);
                            }
                            Some(ArrayMethod::Push) => {
                                let mut ps: Vec<Ty> = Vec::new();
                                ps.push(clone_ty(elem));
                                self.check_args(args, &ps, "push")?;
                                self.require_mutable_receiver(receiver, "push")?;
                                return Ok(Ty::Unit);
                            }
                            Some(ArrayMethod::Pop) => {
                                self.check_args(args, &Vec::new(), "pop")?;
                                self.require_mutable_receiver(receiver, "pop")?;
                                return Ok(clone_ty(elem));
                            }
                            None => {}
                        }
                    }
                    _ => {}
                }
                // Builtin `.clone()` — works on any value, never moves the
                // receiver. A user-defined `clone` method takes priority.
                if is_clone_method(method.as_str()) && args.len() == 0 {
                    let has_user_clone = match &rt {
                        Ty::Struct(n) => self.method_sig(n.as_str(), method.as_str()).is_some(),
                        Ty::Enum(n) => self.method_sig(n.as_str(), method.as_str()).is_some(),
                        _ => false,
                    };
                    if !has_user_clone {
                        return Ok(rt);
                    }
                }
                let tyname = match &rt {
                    Ty::Struct(n) => n.clone(),
                    Ty::Enum(n) => n.clone(),
                    other => {
                        let mut m = text("type `");
                        push_ty(&mut m, other);
                        m.append("` has no methods");
                        return Err(m);
                    }
                };
                let (self_kind, params, ret) = match self.method_sig(tyname.as_str(), method.as_str()) {
                    Some(x) => x,
                    None => {
                        let mut m = text("`");
                        m.append(tyname.as_str());
                        m.append("` has no method `");
                        m.append(method.as_str());
                        m.append("`");
                        return Err(m);
                    }
                };
                if self_kind == SelfKind::Assoc {
                    let mut m = text("`");
                    m.append(tyname.as_str());
                    m.append("::");
                    m.append(method.as_str());
                    m.append("` is an associated function; call it as `");
                    m.append(tyname.as_str());
                    m.append("::");
                    m.append(method.as_str());
                    m.append("(..)`");
                    return Err(m);
                }
                if self_kind == SelfKind::MutRef {
                    let mut what = text("`&mut self` method `");
                    what.append(method.as_str());
                    what.append("`");
                    self.require_mutable_receiver(receiver, what.as_str())?;
                }
                if self_kind == SelfKind::Value {
                    // A by-value method consumes its receiver.
                    self.mark_move(receiver)?;
                }
                let mut ctx = text("method `");
                ctx.append(method.as_str());
                ctx.append("`");
                self.check_args(args, &params, ctx.as_str())?;
                Ok(ret)
            }
            ExprKind::Match { .. } => self.infer_match(e),
            ExprKind::Try(inner) => {
                let it = self.infer(inner)?;
                self.mark_move(inner)?;
                let (ok_ty, err_ty) = match it {
                    Ty::Result(t, x) => (*t, *x),
                    other => {
                        let mut m = text("`?` requires a `Result<_, _>`, found `");
                        push_ty(&mut m, &other);
                        m.append("`");
                        return Err(m);
                    }
                };
                match &self.cur_ret {
                    Ty::Result(_, ret_err) => {
                        if !types_match(&err_ty, ret_err) {
                            let mut m = text("`?` propagates `");
                            push_ty(&mut m, &err_ty);
                            m.append("` but the function returns `Result<_, ");
                            push_ty(&mut m, ret_err);
                            m.append(">`");
                            return Err(m);
                        }
                        Ok(ok_ty)
                    }
                    other => {
                        let mut m = text("`?` can only be used in a function returning `Result`, but this one returns `");
                        push_ty(&mut m, other);
                        m.append("`");
                        Err(m)
                    }
                }
            }
        }
    }

    fn check_fields(&mut self, name: &str, fields: &Vec<(String, Expr)>, decl: &Vec<(String, Ty)>) -> (r: Result<(), String>)
        ensures
            fields@.len() == 0 ==> r is Ok && *final(self) == *old(self),
            fields@.len() > 0 && get(decl@, fields@[0].0@) is None ==> *final(self) == *old(self) && (r matches Err(
                m,
            ) && m@ == "struct `"@ + name@ + "` has no field `"@ + fields@[0].0@ + "`"@),
        decreases fields, 0int,
    {
        let mut i: usize = 0;
        while i < fields.len()
            invariant
                i <= fields.len(),
                i == 0 ==> *self == *old(self),
                i > 0 ==> get(decl@, fields@[0].0@) is Some,
            decreases fields.len() - i,
        {
            let fname = &fields[i].0;
            let want = match field_ty(decl, fname.as_str()) {
                Some(t) => t,
                None => return Err(no_field(name, fname.as_str())),
            };
            let mut ctx = text("field `");
            ctx.append(fname.as_str());
            ctx.append("`");
            self.expect(&fields[i].1, &want, ctx.as_str())?;
            self.mark_move(&fields[i].1)?;
            i = i + 1;
        }
        Ok(())
    }

    /// An array literal: its elements take the type of the first.
    fn infer_array(&mut self, e: &Expr, elems: &Vec<Expr>) -> (r: Result<Ty, String>)
        requires
            e.kind == ExprKind::ArrayLit(*elems),
        ensures
            match pure_type_kind(tenv_of(old(self).scopes@), *e) {
                Some(Ok(t)) => *final(self) == *old(self) && (r matches Ok(x) && x@ == t),
                Some(Err(m)) => final(self).scopes@ == old(self).scopes@ && (r matches Err(x) && x@ == m),
                None => true,
            },
        decreases e, 0int,
    {
        if elems.len() == 0 {
            return Err(text("cannot infer the element type of an empty array — annotate the binding, e.g. `let v: [int] = []`"));
        }
        let first = self.infer(&elems[0])?;
        self.check_elems(elems, &first)?;
        Ok(Ty::Vec(Box::new(first)))
    }

    /// Indexing: an `int` index into an array.
    fn infer_index(&mut self, e: &Expr, base: &Box<Expr>, index: &Box<Expr>) -> (r: Result<Ty, String>)
        requires
            e.kind == (ExprKind::Index { base: *base, index: *index }),
        ensures
            match pure_type_kind(tenv_of(old(self).scopes@), *e) {
                Some(Ok(t)) => *final(self) == *old(self) && (r matches Ok(x) && x@ == t),
                Some(Err(m)) => final(self).scopes@ == old(self).scopes@ && (r matches Err(x) && x@ == m),
                None => true,
            },
        decreases e, 0int,
    {
        let bt = self.infer(base)?;
        self.expect(index, &Ty::Int, "array index")?;
        match bt {
            Ty::Vec(t) => Ok(*t),
            other => {
                let mut m = text("cannot index a value of type `");
                push_ty(&mut m, &other);
                m.append("`");
                Err(m)
            }
        }
    }

    fn check_elems(&mut self, elems: &Vec<Expr>, first: &Ty) -> (r: Result<(), String>)
        ensures
            match pure_elem_types(tenv_of(old(self).scopes@), elems@, first@) {
                Some(Ok(_)) => elems_stay(tenv_of(old(self).scopes@), elems@) ==> (*final(self) == *old(self) && r is Ok),
                Some(Err(m)) => final(self).scopes@ == old(self).scopes@ && (r matches Err(x) && x@ == m),
                None => true,
            },
        decreases elems, 0int,
    {
        let ghost sc = tenv_of(old(self).scopes@);
        let ghost target = pure_elem_types(sc, elems@, first@);
        let ghost s0 = *old(self);
        proof {
            if elems@.len() >= 1 {
                assert(elems@.take(1).len() == 1);
                assert(pure_elem_types(sc, elems@.take(1), first@) == Some(Ok::<(), Seq<char>>(())));
            } else {
                assert(target == Some(Ok::<(), Seq<char>>(())));
            }
        }
        let mut i: usize = 1;
        while i < elems.len()
            invariant
                1 <= i,
                i <= elems.len() || elems.len() == 0,
                sc == tenv_of(s0.scopes@),
                s0 == *old(self),
                target == pure_elem_types(sc, elems@, first@),
                target is Some ==> *self == s0,
                target is Some && elems.len() >= 1 ==> pure_elem_types(sc, elems@.take(i as int), first@) == Some(
                    Ok::<(), Seq<char>>(()),
                ),
                elems.len() == 0 ==> target == Some(Ok::<(), Seq<char>>(())),
            decreases elems.len() - i,
        {
            proof {
                if target is Some {
                    lemma_elem_types_prefix(sc, elems@, first@, i + 1);
                    assert(elems@.take(i + 1).drop_last() =~= elems@.take(i as int));
                    assert(elems@.take(i + 1).last() == elems@[i as int]);
                }
            }
            self.expect(&elems[i], first, "array element")?;
            i = i + 1;
        }
        proof {
            if target is Some {
                if elems@.len() > 0 {
                    assert(elems@.take(elems@.len() as int) =~= elems@);
                }
            }
        }
        let ghost stay = target is Some && target->0 is Ok && elems_stay(sc, elems@);
        let mut i: usize = 0;
        while i < elems.len()
            invariant
                sc == tenv_of(s0.scopes@),
                s0 == *old(self),
                target == pure_elem_types(sc, elems@, first@),
                stay == (target is Some && target->0 is Ok && elems_stay(sc, elems@)),
                target is Some ==> target->0 is Ok,
                stay ==> *self == s0,
            decreases elems.len() - i,
        {
            proof {
                if stay {
                    assert(elems_stay(sc, elems@));
                    let x = elems@[i as int];
                    match x.kind {
                        ExprKind::Ident(n) => {
                            lemma_tenv_find(self.scopes@, n@);
                        },
                        _ => {},
                    }
                }
            }
            self.mark_move(&elems[i])?;
            i = i + 1;
        }
        Ok(())
    }

    fn check_variant_construction(&mut self, enum_name: &str, variant: &str, args: &Vec<Expr>) -> (r: Result<Ty, String>)
        ensures
            r matches Ok(t) ==> t@ == SpecTy::Enum(enum_name@),
            match get(old(self).enums@, enum_name@) {
                None => *final(self) == *old(self) && (r matches Err(m) && m@ == "unknown enum `"@ + enum_name@
                    + "`"@),
                Some(vs) => match get(vs@, variant@) {
                    None => *final(self) == *old(self) && (r matches Err(m) && m@ == "enum `"@ + enum_name@
                        + "` has no variant `"@ + variant@ + "`"@),
                    Some(p) => if p@.len() != args@.len() {
                        *final(self) == *old(self) && (r matches Err(m) && m@ == "variant `"@ + variant@
                            + "` expects "@ + dec(p@.len()) + " value(s), got "@ + dec(args@.len()))
                    } else if args@.len() == 0 {
                        *final(self) == *old(self) && r is Ok
                    } else {
                        true
                    },
                },
            },
        decreases args, 1int,
    {
        let payloads = match lookup(&self.enums, enum_name) {
            Some(vs) => match lookup(vs, variant) {
                Some(p) => clone_tys(p),
                None => {
                    let mut m = text("enum `");
                    m.append(enum_name);
                    m.append("` has no variant `");
                    m.append(variant);
                    m.append("`");
                    return Err(m);
                }
            },
            None => {
                let mut m = text("unknown enum `");
                m.append(enum_name);
                m.append("`");
                return Err(m);
            }
        };
        if args.len() != payloads.len() {
            let mut m = text("variant `");
            m.append(variant);
            m.append("` expects ");
            push_dec(&mut m, payloads.len() as u64);
            m.append(" value(s), got ");
            push_dec(&mut m, args.len() as u64);
            return Err(m);
        }
        let mut ctx = text("payload of `");
        ctx.append(variant);
        ctx.append("`");
        let mut i: usize = 0;
        while i < args.len()
            invariant
                i <= args.len(),
                args.len() == payloads.len(),
                args.len() == 0 ==> *self == *old(self),
                get(old(self).enums@, enum_name@) matches Some(vs) && get(vs@, variant@) matches Some(p)
                    && p@.len() == args@.len(),
            decreases args.len() - i,
        {
            self.expect(&args[i], &payloads[i], ctx.as_str())?;
            self.mark_move(&args[i])?;
            i = i + 1;
        }
        Ok(Ty::Enum(string_of_str(enum_name)))
    }

    /// A mutating call needs its receiver to be a mutable place — a mutable
    /// variable or a field of one (value semantics: mutating a temporary
    /// would silently do nothing).
    fn require_mutable_receiver(&self, receiver: &Expr, what: &str) -> (r: Result<(), String>)
        ensures
            match mutable_receiver_name(*receiver) {
                Some(n) => match spec_require_mutable(tenv_of(self.scopes@), n) {
                    Ok(_) => r is Ok,
                    Err(m) => r matches Err(x) && x@ == m,
                },
                None => r matches Err(x) && x@ == what@ + " requires a mutable variable (or a field of one) as receiver"@,
            },
    {
        match &receiver.kind {
            ExprKind::Ident(name) => {
                self.require_mutable(name.as_str())?;
                Ok(())
            }
            ExprKind::Field { base, .. } if matches!(base.kind, ExprKind::Ident(_)) => {
                match &base.kind {
                    ExprKind::Ident(name) => {
                        self.require_mutable(name.as_str())?;
                    }
                    _ => {}
                }
                Ok(())
            }
            _ => {
                let mut m = text(what);
                m.append(" requires a mutable variable (or a field of one) as receiver");
                Err(m)
            }
        }
    }

    fn infer_match(&mut self, e: &Expr) -> (r: Result<Ty, String>)
        ensures
            !(e.kind is Match) ==> *final(self) == *old(self) && (r matches Err(m) && m@
                == "internal error: not a match"@),
            e.kind matches ExprKind::Match { arms, .. } && arms@.len() == 0 ==> *final(self) == *old(self) && (
            r matches Err(m) && m@ == "match must have at least one arm"@),
            match e.kind {
                ExprKind::Match { scrutinee, arms } => match pure_type(tenv_of(old(self).scopes@), *scrutinee) {
                    Some(Ok(t)) => forall|u: SpecTy| #[trigger]
                        simple_arms(
                            old(self).variant_to_enum@,
                            old(self).enums@,
                            tenv_after_move(tenv_of(old(self).scopes@), *scrutinee),
                            arms@,
                            t,
                            u,
                        ) && !old(self).cur_self_borrowed ==> {
                            let cs = arm_covs(old(self).variant_to_enum@, old(self).enums@, arms@, t);
                            match spec_exhaustive(
                                t,
                                any_wild(cs),
                                variants_of(old(self).enums@, t),
                                covered_names(cs),
                                covers_bool(cs, true),
                                covers_bool(cs, false),
                            ) {
                                Ok(()) => r matches Ok(x) && x@ == u,
                                Err(m) => r matches Err(x) && x@ == m,
                            }
                        },
                    _ => true,
                },
                _ => true,
            },
        decreases e, 0int,
    {
        let (scrutinee, arms) = match &e.kind {
            ExprKind::Match { scrutinee, arms } => (scrutinee, arms),
            _ => return Err(text("internal error: not a match")),
        };
        if arms.len() == 0 {
            return Err(text("match must have at least one arm"));
        }
        let scrut_ty = self.infer(scrutinee)?;
        let ghost before_move = self.scopes@;
        let ghost bself = *self;
        // Matching on a value consumes it (bindings may move pieces out).
        match self.mark_move(scrutinee) {
            Ok(()) => {}
            Err(m) => return Err(with_line(scrutinee.line, m)),
        }
        proof {
            lemma_move_tenv(before_move, self.scopes@, **scrutinee, bself.cur_self_borrowed);
        }
        let (arm_ty, has_wildcard, covered, covers_true, covers_false) = self.check_arms(arms, &scrut_ty)?;

        // Exhaustiveness.
        let variants: Vec<String> = match &scrut_ty {
            Ty::Enum(en) => match lookup(&self.enums, en.as_str()) {
                Some(vs) => variant_names(vs),
                None => Vec::new(),
            },
            _ => Vec::new(),
        };
        proof {
            match scrut_ty@ {
                SpecTy::Enum(_) => {},
                _ => {
                    assert(texts(variants@) =~= Seq::<Seq<char>>::empty());
                },
            }
            if scrut_ty@ is Enum && get(self.enums@, scrut_ty@->Enum_0) is None {
                assert(texts(variants@) =~= Seq::<Seq<char>>::empty());
            }
        }
        check_exhaustive(&scrut_ty, has_wildcard, &variants, &covered, covers_true, covers_false)?;
        Ok(arm_ty)
    }

    /// Checks each arm against the scrutinee type. Arms are alternative
    /// branches: each starts from the same move-state, and their moves are
    /// unioned afterwards.
    fn check_arms(&mut self, arms: &Vec<MatchArm>, scrut_ty: &Ty) -> (r: Result<(Ty, bool, Vec<String>, bool, bool), String>)
        ensures
            arms@.len() == 0 ==> (r matches Err(m) && m@ == "match must have at least one arm"@),
            forall|u: SpecTy| #[trigger]
                simple_arms(
                    old(self).variant_to_enum@,
                    old(self).enums@,
                    tenv_of(old(self).scopes@),
                    arms@,
                    scrut_ty@,
                    u,
                ) ==> {
                    let cs = arm_covs(old(self).variant_to_enum@, old(self).enums@, arms@, scrut_ty@);
                    &&& final(self).same_decls(old(self))
                    &&& r matches Ok((t, w, cov, ct, cf))
                    &&& t@ == u
                    &&& w == any_wild(cs)
                    &&& texts(cov@) == covered_names(cs)
                    &&& ct == covers_bool(cs, true)
                    &&& cf == covers_bool(cs, false)
                },
        decreases arms, 2int,
    {
        let ghost v2e = self.variant_to_enum@;
        let ghost enums = self.enums@;
        let ghost tenv0 = tenv_of(self.scopes@);
        let ghost t0 = scrut_ty@;
        let ghost simple = exists|u: SpecTy| simple_arms(v2e, enums, tenv0, arms@, t0, u);
        let ghost u0 = choose|u: SpecTy| simple_arms(v2e, enums, tenv0, arms@, t0, u);
        let ghost cs = arm_covs(v2e, enums, arms@, t0);
        let mut arm_ty: Option<Ty> = None;
        let mut has_wildcard = false;
        let mut covered: Vec<String> = Vec::new();
        let mut covers_true = false;
        let mut covers_false = false;
        let entry = self.snapshot();
        let mut arm_states: Vec<Vec<Scope>> = Vec::new();
        let mut i: usize = 0;
        proof {
            assert(cs.take(0) =~= Seq::<SCov>::empty());
            assert(texts(covered@) =~= Seq::<Seq<char>>::empty());
        }
        while i < arms.len()
            invariant
                i <= arms.len(),
                i > 0 ==> arm_ty is Some,
                i == 0 ==> arm_ty is None,
                v2e == old(self).variant_to_enum@,
                enums == old(self).enums@,
                tenv0 == tenv_of(old(self).scopes@),
                t0 == scrut_ty@,
                cs == arm_covs(v2e, enums, arms@, t0),
                simple == exists|u: SpecTy| simple_arms(v2e, enums, tenv0, arms@, t0, u),
                simple ==> simple_arms(v2e, enums, tenv0, arms@, t0, u0),
                simple ==> {
                    &&& self.same_decls(old(self))
                    &&& tenv_of(entry@) == tenv0
                    &&& (arm_ty matches Some(t) ==> t@ == u0)
                    &&& has_wildcard == any_wild(cs.take(i as int))
                    &&& texts(covered@) == covered_names(cs.take(i as int))
                    &&& covers_true == covers_bool(cs.take(i as int), true)
                    &&& covers_false == covers_bool(cs.take(i as int), false)
                },
            decreases arms.len() - i,
        {
            let arm = &arms[i];
            let ghost c0 = covered@;
            proof {
                if simple {
                    assert(closed_pattern(v2e, enums, arms@[i as int].pattern, t0) is Some);
                    assert(pure_type(tenv0.push(Seq::empty()), arms@[i as int].body) == Some(Ok::<SpecTy, Seq<char>>(u0)));
                    assert(cs.take(i + 1).drop_last() =~= cs.take(i as int));
                    assert(cs[i as int] == closed_pattern(v2e, enums, arms@[i as int].pattern, t0)->0);
                }
            }
            self.scopes = clone_scopes(&entry);
            let ghost pre_push = self.scopes@;
            self.push_scope();
            proof {
                if simple {
                    assert(tenv_of(self.scopes@) =~= tenv0.push(Seq::empty())) by {
                        assert(self.scopes@.drop_last() == pre_push);
                        assert forall|q: int| 0 <= q < pre_push.len() implies tenv_of(self.scopes@)[q] == tenv0[q] by {
                            assert(self.scopes@[q] == pre_push[q]);
                        }
                        assert(tscope_view(self.scopes@.last()@) =~= Seq::<TyView>::empty());
                    }
                }
            }
            let cov = match self.bind_pattern(&arm.pattern, scrut_ty) {
                Ok(c) => c,
                Err(m) => {
                    self.pop_scope();
                    return Err(m);
                }
            };
            match cov {
                Coverage::Wildcard => has_wildcard = true,
                Coverage::Variant(v) => covered.push(v),
                Coverage::Bool(b) => {
                    if b {
                        covers_true = true;
                    } else {
                        covers_false = true;
                    }
                }
                Coverage::Partial => {}
            }
            proof {
                if simple {
                    let ct = cs.take(i + 1);
                    assert(ct.last() == cs[i as int]);
                    assert(any_wild(ct) == (any_wild(cs.take(i as int)) || cs[i as int] is Wild)) by {
                        if cs[i as int] is Wild {
                            assert(ct[i as int] is Wild);
                        }
                        if any_wild(cs.take(i as int)) {
                            let k = choose|k: int| 0 <= k < cs.take(i as int).len() && #[trigger] cs.take(i as int)[k] is Wild;
                            assert(ct[k] is Wild);
                        }
                        if any_wild(ct) {
                            let k = choose|k: int| 0 <= k < ct.len() && #[trigger] ct[k] is Wild;
                            if k < i {
                                assert(cs.take(i as int)[k] is Wild);
                            }
                        }
                    }
                    assert forall|b: bool| covers_bool(ct, b) == (covers_bool(cs.take(i as int), b) || cs[i as int]
                        == SCov::Bool(b)) by {
                        if cs[i as int] == SCov::Bool(b) {
                            assert(ct[i as int] == SCov::Bool(b));
                        }
                        if covers_bool(cs.take(i as int), b) {
                            let k = choose|k: int| 0 <= k < cs.take(i as int).len() && #[trigger] cs.take(i as int)[k] == SCov::Bool(b);
                            assert(ct[k] == SCov::Bool(b));
                        }
                        if covers_bool(ct, b) {
                            let k = choose|k: int| 0 <= k < ct.len() && #[trigger] ct[k] == SCov::Bool(b);
                            if k < i {
                                assert(cs.take(i as int)[k] == SCov::Bool(b));
                            }
                        }
                    }
                    match cs[i as int] {
                        SCov::Variant(v) => {
                            assert(texts(covered@) =~= texts(c0).push(v));
                        },
                        _ => {
                            assert(covered@ == c0);
                        },
                    }
                }
            }
            let body_ty = self.infer(&arm.body);
            self.pop_scope();
            arm_states.push(self.snapshot());
            let body_ty = body_ty?;
            proof {
                if simple {
                    crate::laws::law_types_match(u0, u0);
                }
            }
            arm_ty = match arm_ty {
                None => Some(body_ty),
                Some(t) => {
                    if !types_match(&t, &body_ty) {
                        let mut m = text("match arms have differing types: `");
                        push_ty(&mut m, &t);
                        m.append("` vs `");
                        push_ty(&mut m, &body_ty);
                        m.append("`");
                        return Err(m);
                    }
                    Some(join(t, &body_ty))
                }
            };
            i = i + 1;
        }
        self.scopes = entry;
        let mut k: usize = 0;
        while k < arm_states.len()
            invariant
                simple ==> self.same_decls(old(self)),
            decreases arm_states.len() - k,
        {
            self.merge_moves(&arm_states[k]);
            k = k + 1;
        }
        proof {
            if simple {
                assert(cs.take(arms@.len() as int) =~= cs);
                assert forall|u: SpecTy| #[trigger] simple_arms(v2e, enums, tenv0, arms@, t0, u) implies u == u0 by {
                    assert(pure_type(tenv0.push(Seq::empty()), arms@[0].body) == Some(Ok::<SpecTy, Seq<char>>(u)));
                    assert(pure_type(tenv0.push(Seq::empty()), arms@[0].body) == Some(Ok::<SpecTy, Seq<char>>(u0)));
                }
            }
        }
        match arm_ty {
            Some(t) => Ok((t, has_wildcard, covered, covers_true, covers_false)),
            None => Err(text("match must have at least one arm")),
        }
    }

    /// Type-checks a pattern against `ty`, binding pattern variables into the
    /// current scope, and reports what the top-level pattern covers.
    fn bind_pattern(&mut self, pat: &Pattern, ty: &Ty) -> (r: Result<Coverage, String>)
        ensures
            match *pat {
                Pattern::Wildcard => *final(self) == *old(self) && r matches Ok(Coverage::Wildcard),
                Pattern::Int(_) => *final(self) == *old(self) && match spec_expect_ty(ty@, SpecTy::Int, "int pattern"@) {
                    Ok(()) => r matches Ok(Coverage::Partial),
                    Err(m) => r matches Err(x) && x@ == m,
                },
                Pattern::Str(_) => *final(self) == *old(self) && match spec_expect_ty(ty@, SpecTy::Str, "str pattern"@) {
                    Ok(()) => r matches Ok(Coverage::Partial),
                    Err(m) => r matches Err(x) && x@ == m,
                },
                Pattern::Bool(b) => *final(self) == *old(self) && match spec_expect_ty(ty@, SpecTy::Bool, "bool pattern"@) {
                    Ok(()) => r matches Ok(Coverage::Bool(c)) && c == b,
                    Err(m) => r matches Err(x) && x@ == m,
                },
                Pattern::Ident(n) => match spec_unit_variant_enum(old(self).variant_to_enum@, old(self).enums@, n@) {
                    Some(en) => *final(self) == *old(self) && match spec_expect_ty(ty@, SpecTy::Enum(en), "variant pattern"@) {
                        Ok(()) => r matches Ok(Coverage::Variant(v)) && v@ == n@,
                        Err(m) => r matches Err(x) && x@ == m,
                    },
                    None => final(self).same_decls(old(self)) && (r matches Ok(Coverage::Wildcard)) && (old(self).scopes@.len() > 0 ==> (get(final(self).scopes@.last()@, n@) matches Some(b) && b.ty@ == ty@
                        && !b.mutable)),
                },
                Pattern::Variant { name, .. } => match ty@ {
                    SpecTy::Result(_, _) => name@ != "Ok"@ && name@ != "Err"@ ==> (r matches Err(x) && x@
                        == "`Result` has no variant `"@ + name@ + "` (expected Ok/Err)"@),
                    SpecTy::Enum(_) => true,
                    t => r matches Err(x) && x@ == "variant pattern `"@ + name@ + "` used on non-enum `"@
                        + spec_ty_text(t) + "`"@,
                },
            },
            closed_pattern(old(self).variant_to_enum@, old(self).enums@, *pat, ty@) matches Some(c) ==> (*final(self)
                == *old(self) && (r matches Ok(x) && cov_view(x) == c)),
            match *pat {
                Pattern::Variant { name, subs, .. } => match ty@ {
                    SpecTy::Result(a, b) => name@ == "Ok"@ && subs@.len() == 1 && (subs@[0] matches Pattern::Ident(x)
                        && spec_unit_variant_enum(old(self).variant_to_enum@, old(self).enums@, x@) is None)
                        && old(self).scopes@.len() > 0 ==> (r matches Ok(Coverage::Variant(v)) && v@ == "Ok"@ && (get(
                        final(self).scopes@.last()@,
                        subs@[0]->Ident_0@,
                    ) matches Some(bd) && bd.ty@ == *a)),
                    _ => true,
                },
                _ => true,
            },
            match *pat {
                Pattern::Variant { name, subs, .. } => match ty@ {
                    SpecTy::Result(a, b) => name@ == "Err"@ && subs@.len() == 1 && (subs@[0] matches Pattern::Ident(x)
                        && spec_unit_variant_enum(old(self).variant_to_enum@, old(self).enums@, x@) is None)
                        && old(self).scopes@.len() > 0 ==> (r matches Ok(Coverage::Variant(v)) && v@ == "Err"@ && (get(
                        final(self).scopes@.last()@,
                        subs@[0]->Ident_0@,
                    ) matches Some(bd) && bd.ty@ == *b)),
                    _ => true,
                },
                _ => true,
            },
            match *pat {
                Pattern::Variant { enum_name, name, subs } => match ty@ {
                    SpecTy::Enum(en) => (enum_name matches Some(e) ==> e@ == en) && get2(old(self).enums@, en, name@)
                        is Some && get2(old(self).enums@, en, name@)->0@.len() == 1 && subs@.len() == 1 && (
                    subs@[0] matches Pattern::Ident(x) && spec_unit_variant_enum(
                        old(self).variant_to_enum@,
                        old(self).enums@,
                        x@,
                    ) is None) && old(self).scopes@.len() > 0 ==> (r matches Ok(Coverage::Variant(v)) && v@ == name@
                        && (get(final(self).scopes@.last()@, subs@[0]->Ident_0@) matches Some(bd) && bd.ty@ == get2(
                        old(self).enums@,
                        en,
                        name@,
                    )->0@[0]@)),
                    _ => true,
                },
                _ => true,
            },
        decreases pat,
    {
        match pat {
            Pattern::Wildcard => Ok(Coverage::Wildcard),
            Pattern::Int(_) => {
                expect_ty(ty, &Ty::Int, "int pattern")?;
                Ok(Coverage::Partial)
            }
            Pattern::Str(_) => {
                expect_ty(ty, &Ty::Str, "str pattern")?;
                Ok(Coverage::Partial)
            }
            Pattern::Bool(b) => {
                expect_ty(ty, &Ty::Bool, "bool pattern")?;
                Ok(Coverage::Bool(*b))
            }
            Pattern::Ident(name) => {
                // A bare name that is a unit variant matches that variant;
                // otherwise it binds the whole value.
                match self.unit_variant_enum(name.as_str()) {
                    Some(en) => {
                        expect_ty(ty, &Ty::Enum(en), "variant pattern")?;
                        Ok(Coverage::Variant(name.clone()))
                    }
                    None => {
                        let key = name.clone();
                        let bd = Binding::new(clone_ty(ty), false);
                        let ghost key_g = key;
                        let ghost bd_g = bd;
                        let ghost before = self.scopes@;
                        self.bind(key, bd);
                        proof {
                            if before.len() > 0 {
                                lemma_get_put(before.last()@, key_g, bd_g, name@);
                            }
                        }
                        Ok(Coverage::Wildcard)
                    }
                }
            }
            Pattern::Variant { enum_name, name, subs } => {
                // Builtin `Result` patterns: `Ok(x)` / `Err(e)`.
                match ty {
                    Ty::Result(ok_ty, err_ty) => {
                        proof {
                            reveal_strlit("Ok");
                            reveal_strlit("Err");
                            assert("Ok"@ != "Err"@) by {
                                assert("Ok"@.len() != "Err"@.len());
                            }
                        }
                        let payload: &Ty = if same_text(name.as_str(), "Ok") {
                            ok_ty
                        } else if same_text(name.as_str(), "Err") {
                            err_ty
                        } else {
                            let mut m = text("`Result` has no variant `");
                            m.append(name.as_str());
                            m.append("` (expected Ok/Err)");
                            return Err(m);
                        };
                        if subs.len() != 1 {
                            let mut m = text("`");
                            m.append(name.as_str());
                            m.append("` pattern binds exactly one value");
                            return Err(m);
                        }
                        self.bind_pattern(&subs[0], payload)?;
                        return Ok(Coverage::Variant(name.clone()));
                    }
                    _ => {}
                }
                let en = match ty {
                    Ty::Enum(x) => x.clone(),
                    other => {
                        let mut m = text("variant pattern `");
                        m.append(name.as_str());
                        m.append("` used on non-enum `");
                        push_ty(&mut m, other);
                        m.append("`");
                        return Err(m);
                    }
                };
                match enum_name {
                    Some(expected) => {
                        if !same_text(expected.as_str(), en.as_str()) {
                            let mut m = text("variant `");
                            m.append(expected.as_str());
                            m.append("::");
                            m.append(name.as_str());
                            m.append("` does not match enum `");
                            m.append(en.as_str());
                            m.append("`");
                            return Err(m);
                        }
                    }
                    None => {}
                }
                let payloads = match lookup(&self.enums, en.as_str()) {
                    Some(vs) => match lookup(vs, name.as_str()) {
                        Some(p) => clone_tys(p),
                        None => {
                            let mut m = text("enum `");
                            m.append(en.as_str());
                            m.append("` has no variant `");
                            m.append(name.as_str());
                            m.append("`");
                            return Err(m);
                        }
                    },
                    None => {
                        let mut m = text("enum `");
                        m.append(en.as_str());
                        m.append("` has no variant `");
                        m.append(name.as_str());
                        m.append("`");
                        return Err(m);
                    }
                };
                if subs.len() != payloads.len() {
                    let mut m = text("variant `");
                    m.append(name.as_str());
                    m.append("` binds ");
                    push_dec(&mut m, subs.len() as u64);
                    m.append(" value(s) but has ");
                    push_dec(&mut m, payloads.len() as u64);
                    return Err(m);
                }
                let mut i: usize = 0;
                while i < subs.len()
                    invariant
                        i <= subs.len(),
                        subs.len() == payloads.len(),
                        pat is Variant,
                        *subs == pat->Variant_subs,
                        ty is Enum,
                        i == 0 ==> *self == *old(self),
                        subs@.len() == 1 && i == 1 && (subs@[0] matches Pattern::Ident(x) && spec_unit_variant_enum(
                            old(self).variant_to_enum@,
                            old(self).enums@,
                            x@,
                        ) is None) && old(self).scopes@.len() > 0 ==> (get(self.scopes@.last()@, subs@[0]->Ident_0@)
                            matches Some(bd) && bd.ty@ == payloads@[0]@),
                    decreases subs.len() - i,
                {
                    self.bind_pattern(&subs[i], &payloads[i])?;
                    i = i + 1;
                }
                Ok(Coverage::Variant(name.clone()))
            }
        }
    }
}

fn clone_fields(d: &Vec<(String, Ty)>) -> (r: Vec<(String, Ty)>)
    ensures
        r@.len() == d@.len(),
        forall|i: int| 0 <= i < d@.len() ==> #[trigger] r@[i].0@ == d@[i].0@ && r@[i].1@ == d@[i].1@,
{
    let mut out: Vec<(String, Ty)> = Vec::new();
    let mut i: usize = 0;
    while i < d.len()
        invariant
            i <= d.len(),
            out@.len() == i,
            forall|j: int| 0 <= j < i ==> #[trigger] out@[j].0@ == d@[j].0@ && out@[j].1@ == d@[j].1@,
        decreases d.len() - i,
    {
        out.push((d[i].0.clone(), clone_ty(&d[i].1)));
        i = i + 1;
    }
    out
}

fn variant_names(vs: &Vec<(String, Vec<Ty>)>) -> (r: Vec<String>)
    ensures
        texts(r@) == vs@.map_values(|v: (String, Vec<Ty>)| v.0@),
{
    let mut out: Vec<String> = Vec::new();
    let mut i: usize = 0;
    while i < vs.len()
        invariant
            i <= vs.len(),
            out@.len() == i,
            forall|j: int| 0 <= j < i ==> #[trigger] out@[j]@ == vs@[j].0@,
        decreases vs.len() - i,
    {
        out.push(vs[i].0.clone());
        i = i + 1;
    }
    assert(texts(out@) =~= vs@.map_values(|v: (String, Vec<Ty>)| v.0@));
    out
}

} // verus!
