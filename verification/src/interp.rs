//! Tree-walking interpreter — the reference backend.
//!
//! It consumes the language-neutral AST and the checks of the type checker
//! have already run, but it re-checks at run time everything it relies on:
//! a program that reaches it unchecked gets a runtime error, never a crash.
//! Integer arithmetic is checked (overflow is an error), array indexing is
//! bounds-checked, and conditions must be booleans.
//!
//! What `print` writes is collected and handed back by [`Interp::run`].
//! Every evaluation step spends one unit of a step budget, so evaluation is
//! proved to terminate; the budget is [`STEP_BUDGET`] steps.

use vstd::prelude::*;
use crate::ast::{
    single_entry,    declares_fn, distinct_variant_names, distinct_variants_upto, has_entry, is_variant, item_name,
    variant_before, variant_name, AssignTarget, Block, Expr, ExprKind, FnDecl, Item, MethodDecl,
    Pattern, Program, SelfKind, Stmt, StrPart, StructDecl, TypeExpr,
};
use crate::table::{
    find, find_in_scopes, first_key, get, get2, has_key, insert, lemma_entry_key, lemma_first_key,
    lemma_get_put, lemma_get_update, lemma_has_key, lemma_put, lemma_put_keys, lemma_scope_find, lookup, put, same_text, scope_find,
};
use crate::text::{dec, push_dec, push_int, string_of_str};
use crate::token::{array_method, is_clone_method, is_print_builtin, spec_array_method, spec_is_print, ArrayMethod};
use crate::typeck::{has_line_prefix, spec_with_line, with_line};
use crate::value::{
    clone_list, clone_value, eval_binary, eval_unary, index_value, lemma_view_list, out_of_bounds,
    lemma_view_fields, push_value, spec_binary, spec_index, spec_unary, value_text, view_fields, view_list,
    SpecValue, Value,
};

verus! {

broadcast use vstd::std_specs::vec::axiom_vec_index_decreases;

/// How many evaluation steps one run may take.
pub const STEP_BUDGET: u64 = 0xffff_ffff_ffff_ffff;

/// A variable: its current value and whether it was declared `var`.
pub struct Slot {
    pub value: Value,
    pub mutable: bool,
}

/// Non-local control flow out of an evaluation.
pub enum Flow {
    /// `return`, or a `?` that met an `Err`: unwinds to the enclosing call.
    Return(Value),
    /// A runtime error: evaluation stops.
    Error(String),
}

/// The interpreter: the program's declarations by name, the variables of
/// the running call, and the output written so far.
pub struct Interp {
    /// Function name -> index of its item.
    funcs: Vec<(String, usize)>,
    /// Struct name -> index of its item.
    structs: Vec<(String, usize)>,
    /// Variant name -> (enum name, payload count). Lets a bare `Circle(..)` /
    /// `Red` construct the variant without an `Enum::` prefix.
    variants: Vec<(String, (String, usize))>,
    /// Type name -> method name -> (index of the impl item, index of the method).
    methods: Vec<(String, Vec<(String, (usize, usize))>)>,
    /// The scope stack of the running call.
    scopes: Vec<Vec<(String, Slot)>>,
    /// What `print` wrote.
    out: String,
    /// Steps left.
    fuel: u64,
}

// ---------------------------------------------------------------------------
// Declarations
// ---------------------------------------------------------------------------

pub open spec fn is_fn_item(prog: &Program, k: usize) -> bool {
    k < prog.items@.len() && prog.items@[k as int] is Fn
}

pub open spec fn is_struct_item(prog: &Program, k: usize) -> bool {
    k < prog.items@.len() && prog.items@[k as int] is Struct
}

pub open spec fn is_method_of(prog: &Program, k: usize, m: usize) -> bool {
    k < prog.items@.len() && match prog.items@[k as int] {
        Item::Impl(b) => m < b.methods@.len(),
        _ => false,
    }
}

fn fn_at(prog: &Program, k: usize) -> (r: &FnDecl)
    requires
        is_fn_item(prog, k),
    ensures
        prog.items@[k as int] == Item::Fn(*r),
{
    match &prog.items[k] {
        Item::Fn(f) => f,
        _ => vstd::pervasive::unreached(),
    }
}

fn struct_at(prog: &Program, k: usize) -> (r: &StructDecl)
    requires
        is_struct_item(prog, k),
    ensures
        prog.items@[k as int] == Item::Struct(*r),
{
    match &prog.items[k] {
        Item::Struct(s) => s,
        _ => vstd::pervasive::unreached(),
    }
}

fn method_at(prog: &Program, k: usize, m: usize) -> (r: &MethodDecl)
    requires
        is_method_of(prog, k, m),
    ensures
        prog.items@[k as int] matches Item::Impl(b) && b.methods@[m as int] == *r,
{
    match &prog.items[k] {
        Item::Impl(b) => &b.methods[m],
        _ => vstd::pervasive::unreached(),
    }
}

/// Every field named in a struct literal is declared.
pub open spec fn all_fields_known(decl: Seq<(String, TypeExpr)>, fields: Seq<(String, Expr)>) -> bool {
    forall|i: int| 0 <= i < fields.len() ==> #[trigger] has_key(decl, fields[i].0@)
}

/// Field `i` of a struct literal is the first one that is not declared.
pub open spec fn first_unknown_field(decl: Seq<(String, TypeExpr)>, fields: Seq<(String, Expr)>, i: int) -> bool {
    &&& 0 <= i < fields.len()
    &&& !has_key(decl, fields[i].0@)
    &&& forall|j: int| 0 <= j < i ==> #[trigger] has_key(decl, fields[j].0@)
}

/// `ty::member` names a variant of the enum `ty`.
pub open spec fn is_variant_path(variants: Seq<(String, (String, usize))>, ty: Seq<char>, member: Seq<char>) -> bool {
    match get(variants, member) {
        Some(e) => e.0@ == ty,
        None => false,
    }
}

/// Whether `v` is a unit variant `name` (no payload).
pub open spec fn is_unit_variant(v: SpecValue, name: Seq<char>) -> bool {
    v matches SpecValue::Enum { variant, data, .. } && variant == name && data.len() == 0
}

/// Whether the value `v` matches the pattern `pat`, given the variants that
/// the program declares (a bare name that is a unit variant matches only
/// that variant; any other bare name binds).
pub open spec fn spec_matches(variants: Seq<(String, (String, usize))>, pat: Pattern, v: SpecValue) -> bool
    decreases pat, 1int,
{
    match pat {
        Pattern::Wildcard => true,
        Pattern::Int(n) => v == SpecValue::Int(n),
        Pattern::Bool(b) => v == SpecValue::Bool(b),
        Pattern::Str(s) => v == SpecValue::Str(s@),
        Pattern::Ident(name) => match get(variants, name@) {
            Some(entry) => entry.1 != 0 || is_unit_variant(v, name@),
            None => true,
        },
        Pattern::Variant { enum_name, name, subs } => match v {
            SpecValue::Enum { enum_name: en, variant, data } => {
                &&& variant == name@
                &&& (enum_name matches Some(x) ==> x@ == en)
                &&& data.len() == subs@.len()
                &&& spec_matches_all(variants, subs@, data)
            },
            _ => false,
        },
    }
}

/// Each pattern of `ps` matches the value at the same place of `vs`.
pub open spec fn spec_matches_all(
    variants: Seq<(String, (String, usize))>,
    ps: Seq<Pattern>,
    vs: Seq<SpecValue>,
) -> bool
    decreases ps, 0int,
{
    if ps.len() == 0 || vs.len() == 0 {
        true
    } else {
        spec_matches_all(variants, ps.subrange(0, ps.len() - 1), vs.subrange(0, vs.len() - 1))
            && spec_matches(variants, ps[ps.len() - 1], vs[vs.len() - 1])
    }
}

pub proof fn lemma_matches_all(variants: Seq<(String, (String, usize))>, ps: Seq<Pattern>, vs: Seq<SpecValue>)
    requires
        ps.len() == vs.len(),
    ensures
        spec_matches_all(variants, ps, vs) == forall|k: int| 0 <= k < ps.len() ==> spec_matches(variants, ps[k], vs[k]),
    decreases ps.len(),
{
    if ps.len() > 0 {
        let p2 = ps.subrange(0, ps.len() - 1);
        let v2 = vs.subrange(0, vs.len() - 1);
        lemma_matches_all(variants, p2, v2);
        if spec_matches_all(variants, ps, vs) {
            assert forall|k: int| 0 <= k < ps.len() implies spec_matches(variants, ps[k], vs[k]) by {
                if k < ps.len() - 1 {
                    assert(p2[k] == ps[k]);
                    assert(v2[k] == vs[k]);
                }
            }
        }
        if forall|k: int| 0 <= k < ps.len() ==> spec_matches(variants, ps[k], vs[k]) {
            assert forall|k: int| 0 <= k < p2.len() implies spec_matches(variants, p2[k], v2[k]) by {
                assert(p2[k] == ps[k]);
                assert(v2[k] == vs[k]);
                assert(spec_matches(variants, ps[k], vs[k]));
            }
        }
    }
}

/// Values separated by single spaces: one line of `print`.
pub open spec fn line_text(s: Seq<SpecValue>) -> Seq<char>
    decreases s.len(),
{
    if s.len() == 0 {
        Seq::empty()
    } else if s.len() == 1 {
        value_text(s[0])
    } else {
        line_text(s.subrange(0, s.len() - 1)) + " "@ + value_text(s[s.len() - 1])
    }
}

// ---------------------------------------------------------------------------
// The meaning of operator expressions
// ---------------------------------------------------------------------------

/// A variable as evaluation sees it: its name, value and whether it was
/// declared `var`.
pub struct VarView {
    pub name: Seq<char>,
    pub value: SpecValue,
    pub mutable: bool,
}

/// The variables of a scope stack, innermost last.
pub open spec fn scope_view(sc: Seq<(String, Slot)>) -> Seq<VarView> {
    sc.map_values(|x: (String, Slot)| VarView { name: x.0@, value: x.1.value@, mutable: x.1.mutable })
}

pub open spec fn env_of(scopes: Seq<Vec<(String, Slot)>>) -> Seq<Seq<VarView>> {
    scopes.map_values(|sc: Vec<(String, Slot)>| scope_view(sc@))
}

/// The index of the first entry of `sc`, from `i` on, named `k`.
pub open spec fn first_in(sc: Seq<VarView>, k: Seq<char>, i: int) -> Option<int>
    decreases sc.len() - i,
{
    if i < 0 || i >= sc.len() {
        None
    } else if sc[i].name == k {
        Some(i)
    } else {
        first_in(sc, k, i + 1)
    }
}

/// The value of the innermost variable named `k`.
pub open spec fn env_lookup(env: Seq<Seq<VarView>>, k: Seq<char>) -> Option<SpecValue>
    decreases env.len(),
{
    if env.len() == 0 {
        None
    } else {
        match first_in(env.last(), k, 0) {
            Some(j) => Some(env.last()[j].value),
            None => env_lookup(env.drop_last(), k),
        }
    }
}

proof fn lemma_first_in(sc: Seq<(String, Slot)>, k: Seq<char>, i: int)
    requires
        0 <= i,
    ensures
        first_in(scope_view(sc), k, i) == first_key(sc, k, i),
    decreases sc.len() - i,
{
    if i < sc.len() {
        lemma_first_in(sc, k, i + 1);
    }
}

proof fn lemma_env_lookup(scopes: Seq<Vec<(String, Slot)>>, k: Seq<char>)
    ensures
        env_lookup(env_of(scopes), k) == match scope_find(scopes, k) {
            Some((i, j)) => Some(scopes[i]@[j].1.value@),
            None => None,
        },
    decreases scopes.len(),
{
    lemma_scope_find(scopes, k);
    if scopes.len() > 0 {
        lemma_first_in(scopes.last()@, k, 0);
        lemma_first_key(scopes.last()@, k, 0);
        assert(env_of(scopes).last() == scope_view(scopes.last()@));
        assert(env_of(scopes).drop_last() =~= env_of(scopes.drop_last()));
        lemma_env_lookup(scopes.drop_last(), k);
        if first_key(scopes.last()@, k, 0) is None {
            lemma_scope_find(scopes.drop_last(), k);
        }
    }
}

/// What evaluating `e` gives with the variables `env`, for the expressions
/// made of literals, variables, unary, binary and index operators, array
/// literals, array lengths and interpolated strings (`None` for any other expression). A runtime error carries the line of
/// the innermost expression that raised it.
pub open spec fn pure_eval(env: Seq<Seq<VarView>>, e: Expr) -> Option<Result<SpecValue, Seq<char>>>
    decreases e, 1int,
{
    match pure_kind(env, e) {
        Some(Ok(v)) => Some(Ok(v)),
        Some(Err(m)) => Some(Err(spec_with_line(e.line as nat, m))),
        None => None,
    }
}

/// [`pure_eval`] before the line of `e` is attached to an error `e` raises.
pub open spec fn pure_kind(env: Seq<Seq<VarView>>, e: Expr) -> Option<Result<SpecValue, Seq<char>>>
    decreases e, 0int,
{
    match e.kind {
        ExprKind::Int(n) => Some(Ok(SpecValue::Int(n))),
        ExprKind::Bool(b) => Some(Ok(SpecValue::Bool(b))),
        ExprKind::Str(t) => Some(Ok(SpecValue::Str(t@))),
        ExprKind::Ident(name) => match env_lookup(env, name@) {
            Some(v) => Some(Ok(v)),
            None => None,
        },
        ExprKind::Unary { op, rhs } => match pure_eval(env, *rhs) {
            Some(Ok(v)) => Some(spec_unary(op, v)),
            other => other,
        },
        ExprKind::Binary { op, lhs, rhs } => match pure_eval(env, *lhs) {
            Some(Ok(a)) => match pure_eval(env, *rhs) {
                Some(Ok(b)) => Some(spec_binary(op, a, b)),
                other => other,
            },
            other => other,
        },
        ExprKind::Index { base, index } => match pure_eval(env, *base) {
            Some(Ok(a)) => match pure_eval(env, *index) {
                Some(Ok(b)) => Some(spec_index(a, b)),
                other => other,
            },
            other => other,
        },
        ExprKind::StrInterp(parts) => match pure_parts(env, parts@) {
            Some(Ok(t)) => Some(Ok(SpecValue::Str(t))),
            Some(Err(m)) => Some(Err(m)),
            None => None,
        },
        ExprKind::ArrayLit(elems) => match pure_list(env, elems@) {
            Some(Ok(vs)) => Some(Ok(SpecValue::Array(vs))),
            Some(Err(m)) => Some(Err(m)),
            None => None,
        },
        ExprKind::MethodCall { receiver, method, args } => if is_len_call(method@, args@) {
            match pure_eval(env, *receiver) {
                Some(Ok(SpecValue::Array(xs))) => Some(Ok(SpecValue::Int(len_value(xs.len())))),
                Some(Ok(_)) => None,
                Some(Err(m)) => Some(Err(m)),
                None => None,
            }
        } else {
            None
        },
        _ => None,
    }
}

/// Whether a method call of `method` with `args` asks an array for its
/// length (`len`, in any spelling, without arguments).
pub open spec fn is_len_call(method: Seq<char>, args: Seq<Expr>) -> bool {
    spec_array_method(method) == Some(ArrayMethod::Len) && args.len() == 0
}

/// The length of an array as a runtime integer (the largest integer for an
/// array longer than that).
pub open spec fn len_value(n: nat) -> i64 {
    if n <= i64::MAX { n as i64 } else { i64::MAX }
}

/// The text of the pieces `ps` of an interpolated string: literal text as
/// it is, embedded expressions by the text of their values; or the first
/// error.
pub open spec fn pure_parts(env: Seq<Seq<VarView>>, ps: Seq<StrPart>) -> Option<Result<Seq<char>, Seq<char>>>
    decreases ps, 0int,
{
    if ps.len() == 0 {
        Some(Ok(Seq::empty()))
    } else {
        match pure_parts(env, ps.drop_last()) {
            Some(Ok(t)) => match ps.last() {
                StrPart::Lit(s) => Some(Ok(t + s@)),
                StrPart::Expr(x) => match pure_eval(env, *x) {
                    Some(Ok(v)) => Some(Ok(t + value_text(v))),
                    Some(Err(m)) => Some(Err(m)),
                    None => None,
                },
            },
            other => other,
        }
    }
}

proof fn lemma_parts_prefix(env: Seq<Seq<VarView>>, ps: Seq<StrPart>, k: int)
    requires
        0 <= k <= ps.len(),
        pure_parts(env, ps) is Some,
    ensures
        pure_parts(env, ps.take(k)) is Some,
        pure_parts(env, ps.take(k)) matches Some(Err(m)) ==> pure_parts(env, ps) == Some(Err::<Seq<char>, Seq<char>>(m)),
        parts_cost(ps.take(k)) <= parts_cost(ps),
    decreases ps.len() - k,
{
    if k < ps.len() {
        assert(ps.take(k + 1).drop_last() =~= ps.take(k));
        lemma_parts_prefix(env, ps, k + 1);
    } else {
        assert(ps.take(k) =~= ps);
    }
}

/// What evaluating the expressions `s` in turn gives: their values, or
/// the first error.
pub open spec fn pure_list(env: Seq<Seq<VarView>>, s: Seq<Expr>) -> Option<Result<Seq<SpecValue>, Seq<char>>>
    decreases s, 0int,
{
    if s.len() == 0 {
        Some(Ok(Seq::empty()))
    } else {
        match pure_list(env, s.drop_last()) {
            Some(Ok(vs)) => match pure_eval(env, s.last()) {
                Some(Ok(v)) => Some(Ok(vs.push(v))),
                Some(Err(m)) => Some(Err(m)),
                None => None,
            },
            other => other,
        }
    }
}

/// The evaluation steps of the expressions `s`.
pub open spec fn list_cost(s: Seq<Expr>) -> nat
    decreases s, 0int,
{
    if s.len() == 0 { 0 } else { list_cost(s.drop_last()) + pure_cost(s.last()) }
}

/// The arguments of a call of `print` (in any of its spellings).
pub open spec fn print_args(e: Expr) -> Option<Seq<Expr>> {
    match e.kind {
        ExprKind::Call { callee, args } => if spec_is_print(callee@) { Some(args@) } else { None },
        _ => None,
    }
}

proof fn lemma_list_prefix_some(sc: Seq<Seq<VarView>>, s: Seq<Expr>, k: int)
    requires
        0 <= k <= s.len(),
        pure_list(sc, s) is Some,
    ensures
        pure_list(sc, s.take(k)) is Some,
        pure_list(sc, s.take(k)) matches Some(Err(m)) ==> pure_list(sc, s) == Some(Err::<Seq<SpecValue>, Seq<char>>(m)),
        list_cost(s.take(k)) <= list_cost(s),
    decreases s.len() - k,
{
    if k < s.len() {
        let t = s.take(k + 1);
        assert(t.drop_last() =~= s.take(k));
        lemma_list_prefix_some(sc, s, k + 1);
    } else {
        assert(s.take(k) =~= s);
    }
}

proof fn lemma_list_step(sc: Seq<Seq<VarView>>, s: Seq<Expr>, i: int)
    requires
        0 <= i < s.len(),
        pure_list(sc, s) is Some,
    ensures
        pure_list(sc, s.take(i + 1)) == match pure_list(sc, s.take(i)) {
            Some(Ok(vs)) => match pure_eval(sc, s[i]) {
                Some(Ok(v)) => Some(Ok(vs.push(v))),
                Some(Err(m)) => Some(Err(m)),
                None => None,
            },
            other => other,
        },
        pure_list(sc, s.take(i + 1)) is Some,
        pure_list(sc, s.take(i + 1)) matches Some(Err(m)) ==> pure_list(sc, s) == Some(Err::<Seq<SpecValue>, Seq<char>>(m)),
        list_cost(s.take(i + 1)) == list_cost(s.take(i)) + pure_cost(s[i]),
        list_cost(s.take(i + 1)) <= list_cost(s),
{
    let t = s.take(i + 1);
    assert(t.drop_last() =~= s.take(i));
    assert(t.last() == s[i]);
    lemma_list_prefix_some(sc, s, i + 1);
}

proof fn lemma_tagged(l: nat, m: Seq<char>)
    ensures
        has_line_prefix(spec_with_line(l, m)),
{
    reveal_strlit("line ");
    if !has_line_prefix(m) {
        let t = "line "@ + dec(l) + ": "@ + m;
        assert(t.take(5) =~= "line "@);
    }
}

proof fn lemma_list_err_tagged(sc: Seq<Seq<VarView>>, s: Seq<Expr>)
    ensures
        pure_list(sc, s) matches Some(Err(m)) ==> has_line_prefix(m),
    decreases s.len(),
{
    if s.len() > 0 {
        lemma_list_err_tagged(sc, s.drop_last());
        match pure_kind(sc, s.last()) {
            Some(Err(m)) => lemma_tagged(s.last().line as nat, m),
            _ => {},
        }
        assert(pure_eval(sc, s.last()) matches Some(Err(m)) ==> has_line_prefix(m));
        assert(pure_list(sc, s) == match pure_list(sc, s.drop_last()) {
            Some(Ok(vs)) => match pure_eval(sc, s.last()) {
                Some(Ok(v)) => Some(Ok(vs.push(v))),
                Some(Err(m)) => Some(Err(m)),
                None => None,
            },
            other => other,
        });
    }
}

/// `sc` with the variable `k` set to `v`, as a scope binds it.
pub open spec fn env_put(sc: Seq<VarView>, k: Seq<char>, v: SpecValue, m: bool) -> Seq<VarView> {
    match first_in(sc, k, 0) {
        Some(i) => sc.update(i, VarView { name: k, value: v, mutable: m }),
        None => sc.push(VarView { name: k, value: v, mutable: m }),
    }
}

/// Where the innermost variable named `k` lives: (scope, position).
pub open spec fn env_find(env: Seq<Seq<VarView>>, k: Seq<char>) -> Option<(int, int)>
    decreases env.len(),
{
    if env.len() == 0 {
        None
    } else {
        match first_in(env.last(), k, 0) {
            Some(j) => Some(((env.len() - 1) as int, j)),
            None => env_find(env.drop_last(), k),
        }
    }
}

/// What assigning `v` to the variable `k` does to `env`: the innermost
/// variable of that name takes the value if it was declared `var`; else the
/// assignment fails with the message given.
pub open spec fn env_assign(env: Seq<Seq<VarView>>, k: Seq<char>, v: SpecValue) -> Result<Seq<Seq<VarView>>, Seq<char>> {
    match env_find(env, k) {
        Some((i, j)) => if env[i][j].mutable {
            Ok(env.update(i, env[i].update(j, VarView { name: k, value: v, mutable: true })))
        } else {
            Err("cannot assign to immutable binding `"@ + k + "` (use `var`/`متغير`)"@)
        },
        None => Err("cannot find `"@ + k + "` to assign"@),
    }
}

proof fn lemma_env_find(scopes: Seq<Vec<(String, Slot)>>, k: Seq<char>)
    ensures
        env_find(env_of(scopes), k) == scope_find(scopes, k),
    decreases scopes.len(),
{
    if scopes.len() > 0 {
        lemma_first_in(scopes.last()@, k, 0);
        assert(env_of(scopes).last() == scope_view(scopes.last()@));
        assert(env_of(scopes).drop_last() =~= env_of(scopes.drop_last()));
        lemma_env_find(scopes.drop_last(), k);
    }
}

/// Writing slot `j` of scope `i` writes the matching variable of the view.
proof fn lemma_write_env(before: Seq<Vec<(String, Slot)>>, after: Seq<Vec<(String, Slot)>>, i: int, j: int, v: Value)
    requires
        0 <= i < before.len(),
        0 <= j < before[i]@.len(),
        after == before.update(i, after[i]),
        after[i]@ == before[i]@.update(j, (before[i]@[j].0, Slot { value: v, mutable: true })),
    ensures
        env_of(after) == env_of(before).update(
            i,
            env_of(before)[i].update(j, VarView { name: before[i]@[j].0@, value: v@, mutable: true }),
        ),
{
    assert(scope_view(after[i]@) =~= scope_view(before[i]@).update(
        j,
        VarView { name: before[i]@[j].0@, value: v@, mutable: true },
    ));
    assert(env_of(after) =~= env_of(before).update(
        i,
        env_of(before)[i].update(j, VarView { name: before[i]@[j].0@, value: v@, mutable: true }),
    ));
}

/// `env` with the variable `k` bound to `v` in its innermost scope.
pub open spec fn env_bind(env: Seq<Seq<VarView>>, k: Seq<char>, v: SpecValue, m: bool) -> Seq<Seq<VarView>> {
    env.update(env.len() - 1, env_put(env.last(), k, v, m))
}

/// What running a piece of a program gives, with the steps it may take:
/// what it prints, the variables after it and the steps left, or the
/// runtime error that stops it; `None` where the contract does not follow
/// it (a construct outside the fragment, or too few steps).
pub type RunOutcome = Option<Result<(Seq<char>, Seq<Seq<VarView>>, nat), Seq<char>>>;

/// An outcome with a runtime error tagged with line `l` (unless it has one).
pub open spec fn tag_run(l: nat, o: RunOutcome) -> RunOutcome {
    match o {
        Some(Err(m)) => Some(Err(spec_with_line(l, m))),
        other => other,
    }
}

/// What running the statement `s` with the variables `env` and `fuel`
/// steps gives, for `let` bindings and assignments to variables of
/// operator expressions, `print` calls, operator expressions, `if`
/// statements, `while` loops and `for` loops over ranges and arrays.
pub open spec fn pure_stmt(env: Seq<Seq<VarView>>, s: Stmt, fuel: nat) -> RunOutcome
    decreases fuel, s, 0int,
{
    if fuel < 1 {
        None
    } else {
        let f = (fuel - 1) as nat;
        match s {
            Stmt::Let { name, mutable, init, .. } => if f < pure_cost(init) {
                None
            } else {
                match pure_eval(env, init) {
                    Some(Ok(v)) => Some(Ok((Seq::empty(), env_bind(env, name@, v, mutable), (f - pure_cost(init)) as nat))),
                    Some(Err(m)) => Some(Err(m)),
                    None => None,
                }
            },
            Stmt::Assign { target: AssignTarget::Var(name), value } => if f < 1 + pure_cost(value) {
                None
            } else {
                match pure_eval(env, value) {
                    Some(Ok(v)) => match env_assign(env, name@, v) {
                        Ok(env2) => Some(Ok((Seq::empty(), env2, (f - 1 - pure_cost(value)) as nat))),
                        Err(m) => Some(Err(m)),
                    },
                    Some(Err(m)) => Some(Err(m)),
                    None => None,
                }
            },
            Stmt::While { cond, body } => pure_while(env, cond, body, f),
            Stmt::For { var, start, end, body } => if f < 1 + pure_cost(start) {
                None
            } else {
                let f1 = (f - 1 - pure_cost(start)) as nat;
                match pure_eval(env, start) {
                    Some(Ok(SpecValue::Int(lo))) => if f1 < 1 + pure_cost(end) {
                        None
                    } else {
                        match pure_eval(env, end) {
                            Some(Ok(SpecValue::Int(hi))) => pure_for(env, var@, lo, hi, body, (f1 - 1 - pure_cost(end)) as nat),
                            Some(Ok(v)) => Some(Err(msg_not_int(end.line, v))),
                            Some(Err(m)) => Some(Err(m)),
                            None => None,
                        }
                    },
                    Some(Ok(v)) => Some(Err(msg_not_int(start.line, v))),
                    Some(Err(m)) => Some(Err(m)),
                    None => None,
                }
            },
            Stmt::ForEach { var, iter, body } => if f < pure_cost(iter) {
                None
            } else {
                match pure_eval(env, iter) {
                    Some(Ok(SpecValue::Array(vs))) => pure_foreach(env, var@, vs, 0, body, (f - pure_cost(iter)) as nat),
                    Some(Ok(v)) => Some(Err(msg_not_array(iter.line, v))),
                    Some(Err(m)) => Some(Err(m)),
                    None => None,
                }
            },
            Stmt::Expr(e) => match print_args(e) {
                Some(args) => if f < 4 + list_cost(args) {
                    None
                } else {
                    match pure_list(env, args) {
                        Some(Ok(vs)) => Some(Ok((line_text(vs) + "\n"@, env, (f - 4 - list_cost(args)) as nat))),
                        Some(Err(m)) => Some(Err(m)),
                        None => None,
                    }
                },
                None => if e.kind is If || e.kind is Block {
                    pure_ctl_expr(env, e, f)
                } else if f < pure_cost(e) {
                    None
                } else {
                    match pure_eval(env, e) {
                        Some(Ok(_)) => Some(Ok((Seq::empty(), env, (f - pure_cost(e)) as nat))),
                        Some(Err(m)) => Some(Err(m)),
                        None => None,
                    }
                },
            },
            _ => None,
        }
    }
}

/// What running the statements `ss` in turn gives.
pub open spec fn pure_stmts(env: Seq<Seq<VarView>>, ss: Seq<Stmt>, fuel: nat) -> RunOutcome
    decreases fuel, ss, 1int,
{
    if ss.len() == 0 {
        Some(Ok((Seq::empty(), env, fuel)))
    } else {
        match pure_stmts(env, ss.drop_last(), fuel) {
            Some(Ok((o, env2, f2))) => if f2 <= fuel {
                match pure_stmt(env2, ss.last(), f2) {
                    Some(Ok((o2, env3, f3))) => Some(Ok((o + o2, env3, f3))),
                    Some(Err(m)) => Some(Err(m)),
                    None => None,
                }
            } else {
                None
            },
            other => other,
        }
    }
}

/// What running the block `b` gives: its statements run in a scope of
/// their own.
pub open spec fn pure_block(env: Seq<Seq<VarView>>, b: Block, fuel: nat) -> RunOutcome
    decreases fuel, b, 2int,
{
    if fuel < 1 {
        None
    } else {
        match pure_stmts(env.push(Seq::empty()), b.stmts@, (fuel - 1) as nat) {
            Some(Ok((o, en, f))) => Some(Ok((o, en.drop_last(), f))),
            Some(Err(m)) => Some(Err(m)),
            None => None,
        }
    }
}

/// The runtime error of a condition that is not a bool.
pub open spec fn msg_condition(line: usize, v: SpecValue) -> Seq<char> {
    spec_with_line(line as nat, "condition must be a bool, found "@ + value_text(v))
}

/// The runtime error of a range bound that is not an integer.
pub open spec fn msg_not_int(line: usize, v: SpecValue) -> Seq<char> {
    spec_with_line(line as nat, "expected an integer, found "@ + value_text(v))
}

/// What running the turns `i`, `i + 1`, .., `hi - 1` of
/// `for var in .. { body }` gives: each runs `body` with `var` bound in a
/// scope of its own.
pub open spec fn pure_for(env: Seq<Seq<VarView>>, var: Seq<char>, i: i64, hi: i64, body: Block, fuel: nat) -> RunOutcome
    decreases fuel, body, 4int,
{
    if i >= hi {
        Some(Ok((Seq::empty(), env, fuel)))
    } else {
        match pure_block(env.push(seq![VarView { name: var, value: SpecValue::Int(i), mutable: false }]), body, fuel) {
            Some(Ok((o, en, f2))) => if f2 < fuel {
                match pure_for(en.drop_last(), var, (i + 1) as i64, hi, body, f2) {
                    Some(Ok((o2, e3, f3))) => Some(Ok((o + o2, e3, f3))),
                    other => other,
                }
            } else {
                None
            },
            other => other,
        }
    }
}

/// The runtime error of iterating over a value that is not an array.
pub open spec fn msg_not_array(line: usize, v: SpecValue) -> Seq<char> {
    spec_with_line(line as nat, "`for .. in` requires an array, found "@ + value_text(v))
}

/// What running the turns `k`, `k + 1`, .. of `for var in vs { body }`
/// gives: each runs `body` with `var` bound to the element in a scope of
/// its own.
pub open spec fn pure_foreach(env: Seq<Seq<VarView>>, var: Seq<char>, vs: Seq<SpecValue>, k: nat, body: Block, fuel: nat) -> RunOutcome
    decreases fuel, body, 4int, vs.len() - k,
{
    if k >= vs.len() {
        Some(Ok((Seq::empty(), env, fuel)))
    } else {
        match pure_block(env.push(seq![VarView { name: var, value: vs[k as int], mutable: false }]), body, fuel) {
            Some(Ok((o, en, f2))) => if f2 < fuel {
                match pure_foreach(en.drop_last(), var, vs, k + 1, body, f2) {
                    Some(Ok((o2, e3, f3))) => Some(Ok((o + o2, e3, f3))),
                    other => other,
                }
            } else {
                None
            },
            other => other,
        }
    }
}

/// What running `while cond { body }` gives, from the test of `cond` on.
pub open spec fn pure_while(env: Seq<Seq<VarView>>, cond: Expr, body: Block, fuel: nat) -> RunOutcome
    decreases fuel, body, 3int,
{
    if fuel < 1 + pure_cost(cond) {
        None
    } else {
        let g = (fuel - 1 - pure_cost(cond)) as nat;
        match pure_eval(env, cond) {
            Some(Ok(SpecValue::Bool(false))) => Some(Ok((Seq::empty(), env, g))),
            Some(Ok(SpecValue::Bool(true))) => match pure_block(env, body, g) {
                Some(Ok((o, env2, f2))) => if f2 < fuel {
                    match pure_while(env2, cond, body, f2) {
                        Some(Ok((o2, env3, f3))) => Some(Ok((o + o2, env3, f3))),
                        other => other,
                    }
                } else {
                    None
                },
                other => other,
            },
            Some(Ok(v)) => Some(Err(msg_condition(cond.line, v))),
            Some(Err(m)) => Some(Err(m)),
            None => None,
        }
    }
}

/// What evaluating the `if` or block expression `e` gives (for its
/// effects); a runtime error in it carries the line of `e`.
pub open spec fn pure_ctl_expr(env: Seq<Seq<VarView>>, e: Expr, fuel: nat) -> RunOutcome
    decreases fuel, e, 1int,
{
    if fuel < 1 {
        None
    } else {
        tag_run(e.line as nat, pure_ctl_kind(env, e, (fuel - 1) as nat))
    }
}

/// [`pure_ctl_expr`] before the line of `e` is attached to an error.
pub open spec fn pure_ctl_kind(env: Seq<Seq<VarView>>, e: Expr, fuel: nat) -> RunOutcome
    decreases fuel, e, 0int,
{
    if fuel < 1 {
        None
    } else {
        let f = (fuel - 1) as nat;
        match e.kind {
            ExprKind::Block(b) => pure_block(env, b, f),
            ExprKind::If { cond, then_b, els } => if f < 1 + pure_cost(*cond) {
                None
            } else {
                let g = (f - 1 - pure_cost(*cond)) as nat;
                match pure_eval(env, *cond) {
                    Some(Ok(SpecValue::Bool(true))) => pure_block(env, then_b, g),
                    Some(Ok(SpecValue::Bool(false))) => match els {
                        Some(x) => pure_ctl_expr(env, *x, g),
                        None => Some(Ok((Seq::empty(), env, g))),
                    },
                    Some(Ok(v)) => Some(Err(msg_condition(cond.line, v))),
                    Some(Err(m)) => Some(Err(m)),
                    None => None,
                }
            },
            _ => None,
        }
    }
}

proof fn lemma_env_put(sc: Seq<(String, Slot)>, name: String, slot: Slot)
    ensures
        scope_view(put(sc, name, slot)) == env_put(scope_view(sc), name@, slot.value@, slot.mutable),
{
    lemma_first_in(sc, name@, 0);
    lemma_first_key(sc, name@, 0);
    assert(scope_view(put(sc, name, slot)) =~= env_put(scope_view(sc), name@, slot.value@, slot.mutable));
}

proof fn lemma_bind_env(before: Seq<Vec<(String, Slot)>>, after: Seq<Vec<(String, Slot)>>, name: String, slot: Slot)
    requires
        before.len() >= 1,
        after.len() == before.len(),
        after.last()@ == put(before.last()@, name, slot),
        forall|i: int| 0 <= i < before.len() - 1 ==> after[i] == before[i],
    ensures
        env_of(after) == env_bind(env_of(before), name@, slot.value@, slot.mutable),
{
    lemma_env_put(before.last()@, name, slot);
    assert(env_of(after) =~= env_bind(env_of(before), name@, slot.value@, slot.mutable));
}

pub proof fn lemma_env_find_bounds(env: Seq<Seq<VarView>>, k: Seq<char>)
    ensures
        env_find(env, k) matches Some((i, j)) ==> 0 <= i < env.len() && 0 <= j < env[i].len() && env[i][j].name == k,
    decreases env.len(),
{
    if env.len() > 0 {
        lemma_first_in_bounds(env.last(), k, 0);
        if first_in(env.last(), k, 0) is None {
            lemma_env_find_bounds(env.drop_last(), k);
        }
    }
}

pub proof fn lemma_first_in_bounds(sc: Seq<VarView>, k: Seq<char>, i: int)
    ensures
        first_in(sc, k, i) matches Some(j) ==> i <= j < sc.len() && 0 <= j && sc[j].name == k,
    decreases sc.len() - i,
{
    if 0 <= i < sc.len() && sc[i].name != k {
        lemma_first_in_bounds(sc, k, i + 1);
    }
}

proof fn lemma_stmts_prefix(env: Seq<Seq<VarView>>, ss: Seq<Stmt>, fuel: nat, k: int)
    requires
        0 <= k <= ss.len(),
        pure_stmts(env, ss, fuel) is Some,
    ensures
        pure_stmts(env, ss.take(k), fuel) is Some,
        pure_stmts(env, ss.take(k), fuel) matches Some(Err(m)) ==> pure_stmts(env, ss, fuel) == Some(
            Err::<(Seq<char>, Seq<Seq<VarView>>, nat), Seq<char>>(m),
        ),
    decreases ss.len() - k,
{
    if k < ss.len() {
        assert(ss.take(k + 1).drop_last() =~= ss.take(k));
        lemma_stmts_prefix(env, ss, fuel, k + 1);
    } else {
        assert(ss.take(k) =~= ss);
    }
}

/// The evaluation steps that an expression of [`pure_eval`]'s fragment takes.
pub open spec fn pure_cost(e: Expr) -> nat
    decreases e, 1int,
{
    match e.kind {
        ExprKind::Unary { rhs, .. } => 2 + pure_cost(*rhs),
        ExprKind::Binary { lhs, rhs, .. } => 2 + pure_cost(*lhs) + pure_cost(*rhs),
        ExprKind::Index { base, index } => 2 + pure_cost(*base) + pure_cost(*index),
        ExprKind::StrInterp(parts) => 3 + parts_cost(parts@),
        ExprKind::ArrayLit(elems) => 3 + list_cost(elems@),
        ExprKind::MethodCall { receiver, .. } => 4 + pure_cost(*receiver),
        _ => 2,
    }
}

/// The evaluation steps of the embedded expressions of an interpolated
/// string.
pub open spec fn parts_cost(ps: Seq<StrPart>) -> nat
    decreases ps, 0int,
{
    if ps.len() == 0 {
        0
    } else {
        parts_cost(ps.drop_last()) + match ps.last() {
            StrPart::Lit(_) => 0,
            StrPart::Expr(x) => pure_cost(*x),
        }
    }
}

/// Some variant declared before variant `w` of item `i` is named `n`.
pub open spec fn names_variant(p: Program, i: int, w: int, n: Seq<char>) -> bool {
    exists|k: int, v: int| is_variant(p, k, v) && variant_before(k, v, i, w) && #[trigger] variant_name(p, k, v) == n
}

fn err(s: &str) -> (r: Flow)
    ensures
        r matches Flow::Error(m) && m@ == s@,
{
    Flow::Error(string_of_str(s))
}

fn out_of_steps() -> (r: Flow)
    ensures
        r matches Flow::Error(m) && m@ == "step limit exceeded"@,
{
    err("step limit exceeded")
}

impl Interp {
    /// The declaration tables point at items of `prog` of the right kind.
    pub closed spec fn wf(&self, prog: &Program) -> bool {
        &&& forall|i: int| 0 <= i < self.funcs@.len() ==> is_fn_item(prog, (#[trigger] self.funcs@[i]).1)
        &&& forall|i: int| 0 <= i < self.structs@.len() ==> is_struct_item(prog, (#[trigger] self.structs@[i]).1)
        &&& forall|i: int, j: int|
            0 <= i < self.methods@.len() && 0 <= j < self.methods@[i].1@.len() ==> is_method_of(
                prog,
                (#[trigger] self.methods@[i].1@[j]).1.0,
                self.methods@[i].1@[j].1.1,
            )
    }

    /// The number of scopes of the running call.
    pub closed spec fn depth(&self) -> nat {
        self.scopes@.len()
    }

    /// Steps left.
    pub closed spec fn steps(&self) -> nat {
        self.fuel as nat
    }

    /// What `print` has written so far.
    pub closed spec fn output(&self) -> Seq<char> {
        self.out@
    }

    pub fn new() -> (r: Self)
        ensures
            r.output() == Seq::<char>::empty(),
            r.steps() == STEP_BUDGET,
    {
        Interp {
            funcs: Vec::new(),
            structs: Vec::new(),
            variants: Vec::new(),
            methods: Vec::new(),
            scopes: Vec::new(),
            out: String::new(),
            fuel: STEP_BUDGET,
        }
    }

    // ---- variables ----

    /// Binds `name` in the innermost scope (replacing a binding of the same
    /// name there).
    fn bind(&mut self, name: String, value: Value, mutable: bool)
        requires
            old(self).scopes@.len() >= 1,
        ensures
            final(self).scopes@.len() == old(self).scopes@.len(),
            final(self).scopes@.last()@ == put(old(self).scopes@.last()@, name, Slot { value, mutable }),
            forall|i: int| 0 <= i < old(self).scopes@.len() - 1 ==> final(self).scopes@[i] == old(self).scopes@[i],
            final(self).funcs == old(self).funcs,
            final(self).structs == old(self).structs,
            final(self).variants == old(self).variants,
            final(self).methods == old(self).methods,
            final(self).out == old(self).out,
            final(self).fuel == old(self).fuel,
    {
        let last = self.scopes.len() - 1;
        let sc = &mut self.scopes[last];
        insert(sc, name, Slot { value, mutable });
    }

    /// A copy of the innermost binding of `name`, if any.
    fn read_var(&self, name: &str) -> (r: Option<Value>)
        ensures
            match scope_find(self.scopes@, name@) {
                Some((i, j)) => r matches Some(v) && v@ == self.scopes@[i]@[j].1.value@,
                None => r is None,
            },
    {
        proof {
            lemma_scope_find(self.scopes@, name@);
        }
        match find_in_scopes(&self.scopes, name) {
            Some((i, j)) => Some(clone_value(&self.scopes[i][j].1.value)),
            None => None,
        }
    }

    /// Gives the innermost binding of `name` the value `v`: it must exist and
    /// have been declared `var` (or be `self` in a `&mut self` method).
    fn write_var(&mut self, name: &str, v: Value) -> (r: Result<(), Flow>)
        ensures
            final(self).scopes@.len() == old(self).scopes@.len(),
            final(self).funcs == old(self).funcs,
            final(self).structs == old(self).structs,
            final(self).variants == old(self).variants,
            final(self).methods == old(self).methods,
            final(self).out == old(self).out,
            final(self).fuel == old(self).fuel,
            match scope_find(old(self).scopes@, name@) {
                Some((i, j)) => if old(self).scopes@[i]@[j].1.mutable {
                    &&& r is Ok
                    &&& final(self).scopes@ == old(self).scopes@.update(
                        i,
                        final(self).scopes@[i],
                    )
                    &&& final(self).scopes@[i]@ == old(self).scopes@[i]@.update(
                        j,
                        (old(self).scopes@[i]@[j].0, Slot { value: v, mutable: true }),
                    )
                } else {
                    r matches Err(Flow::Error(m)) && m@ == "cannot assign to immutable binding `"@ + name@
                        + "` (use `var`/`متغير`)"@
                },
                None => r matches Err(Flow::Error(m)) && m@ == "cannot find `"@ + name@ + "` to assign"@,
            },
    {
        proof {
            lemma_scope_find(self.scopes@, name@);
        }
        match find_in_scopes(&self.scopes, name) {
            Some((i, j)) => {
                if !self.scopes[i][j].1.mutable {
                    let mut m = string_of_str("cannot assign to immutable binding `");
                    m.append(name);
                    m.append("` (use `var`/`متغير`)");
                    return Err(Flow::Error(m));
                }
                let sc = &mut self.scopes[i];
                let key = sc[j].0.clone();
                sc.set(j, (key, Slot { value: v, mutable: true }));
                Ok(())
            }
            None => {
                let mut m = string_of_str("cannot find `");
                m.append(name);
                m.append("` to assign");
                Err(Flow::Error(m))
            }
        }
    }

    // ---- output ----

    /// Writes one line: the values separated by spaces.
    fn print_line(&mut self, vals: &Vec<Value>)
        ensures
            final(self).out@ == old(self).out@ + line_text(view_list(vals@)) + "\n"@,
            final(self).scopes == old(self).scopes,
            final(self).funcs == old(self).funcs,
            final(self).structs == old(self).structs,
            final(self).variants == old(self).variants,
            final(self).methods == old(self).methods,
            final(self).fuel == old(self).fuel,
    {
        proof {
            lemma_view_list(vals@);
        }
        let ghost vs = view_list(vals@);
        let mut i: usize = 0;
        assert(vs.subrange(0, 0) =~= Seq::<SpecValue>::empty());
        while i < vals.len()
            invariant
                i <= vals.len(),
                vs == view_list(vals@),
                vs.len() == vals.len(),
                forall|k: int| 0 <= k < vals.len() ==> #[trigger] vs[k] == vals@[k]@,
                self.out@ == old(self).out@ + line_text(vs.subrange(0, i as int)),
                self.scopes == old(self).scopes,
                self.funcs == old(self).funcs,
                self.structs == old(self).structs,
                self.variants == old(self).variants,
                self.methods == old(self).methods,
                self.fuel == old(self).fuel,
            decreases vals.len() - i,
        {
            if i > 0 {
                self.out.append(" ");
            }
            push_value(&mut self.out, &vals[i]);
            i = i + 1;
            assert(vs.subrange(0, i as int).subrange(0, i - 1) =~= vs.subrange(0, i - 1));
            assert(self.out@ =~= old(self).out@ + line_text(vs.subrange(0, i as int)));
        }
        assert(vs.subrange(0, vals.len() as int) =~= vs);
        self.out.append("\n");
    }

    // ---- patterns ----

    /// Whether `val` matches `pat`; the names the pattern binds are bound in
    /// the innermost scope.
    fn match_pattern(&mut self, pat: &Pattern, val: &Value) -> (r: bool)
        requires
            old(self).scopes@.len() >= 1,
        ensures
            r == spec_matches(old(self).variants@, *pat, val@),
            final(self).scopes@.len() == old(self).scopes@.len(),
            final(self).funcs == old(self).funcs,
            final(self).structs == old(self).structs,
            final(self).variants == old(self).variants,
            final(self).methods == old(self).methods,
            final(self).out == old(self).out,
            final(self).fuel == old(self).fuel,
        decreases pat,
    {
        match pat {
            Pattern::Wildcard => true,
            Pattern::Int(n) => match val {
                Value::Int(m) => *m == *n,
                _ => false,
            },
            Pattern::Bool(b) => match val {
                Value::Bool(m) => *m == *b,
                _ => false,
            },
            Pattern::Str(s) => match val {
                Value::Str(m) => same_text(m.as_str(), s.as_str()),
                _ => false,
            },
            Pattern::Ident(name) => {
                let unit = match lookup(&self.variants, name.as_str()) {
                    Some(entry) => entry.1 == 0,
                    None => false,
                };
                if unit {
                    match val {
                        Value::Enum { variant, data, .. } => {
                            proof {
                                lemma_view_list(data@);
                            }
                            same_text(variant.as_str(), name.as_str()) && data.len() == 0
                        }
                        _ => false,
                    }
                } else {
                    self.bind(name.clone(), clone_value(val), false);
                    true
                }
            }
            Pattern::Variant { enum_name, name, subs } => match val {
                Value::Enum { enum_name: en, variant, data } => {
                    proof {
                        lemma_view_list(data@);
                    }
                    if !same_text(variant.as_str(), name.as_str()) {
                        return false;
                    }
                    match enum_name {
                        Some(expected) => {
                            if !same_text(expected.as_str(), en.as_str()) {
                                return false;
                            }
                        }
                        None => {}
                    }
                    if data.len() != subs.len() {
                        return false;
                    }
                    let ghost vars = old(self).variants@;
                    let ghost vs = view_list(data@);
                    proof {
                        lemma_matches_all(vars, subs@, vs);
                    }
                    let mut i: usize = 0;
                    while i < subs.len()
                        invariant
                            i <= subs.len(),
                            subs.len() == data.len(),
                            vs == view_list(data@),
                            vs.len() == data.len(),
                            forall|k: int| 0 <= k < data.len() ==> #[trigger] vs[k] == data@[k]@,
                            pat is Variant,
                            *subs == pat->Variant_subs,
                            val is Enum,
                            *data == val->Enum_data,
                            forall|k: int| 0 <= k < i ==> spec_matches(vars, subs@[k], vs[k]),
                            self.scopes@.len() == old(self).scopes@.len(),
                            self.scopes@.len() >= 1,
                            self.funcs == old(self).funcs,
                            self.structs == old(self).structs,
                            self.variants == old(self).variants,
                            vars == self.variants@,
                            self.methods == old(self).methods,
                            self.out == old(self).out,
                            self.fuel == old(self).fuel,
                        decreases subs.len() - i,
                    {
                        if !self.match_pattern(&subs[i], &data[i]) {
                            proof {
                                lemma_matches_all(vars, subs@, vs);
                            }
                            assert(!spec_matches(vars, subs@[i as int], vs[i as int]));
                            return false;
                        }
                        i = i + 1;
                    }
                    true
                }
                _ => false,
            },
        }
    }
}


impl Interp {
    /// `after` is `before` after an evaluation: the same declarations, as
    /// many scopes, and no more steps left.
    pub closed spec fn settled(before: Interp, after: Interp) -> bool {
        &&& after.funcs == before.funcs
        &&& after.structs == before.structs
        &&& after.variants == before.variants
        &&& after.methods == before.methods
        &&& after.scopes@.len() == before.scopes@.len()
        &&& after.fuel <= before.fuel
    }

    // ---- declarations by name ----

    fn fn_decl<'a>(&self, prog: &'a Program, name: &str) -> (r: Option<&'a FnDecl>)
        requires
            self.wf(prog),
        ensures
            r is Some <==> has_key(self.funcs@, name@),
            r matches Some(f) ==> exists|k: int| 0 <= k < prog.items@.len() && prog.items@[k] == Item::Fn(*f),
    {
        match find(&self.funcs, name) {
            Some(i) => {
                proof {
                    lemma_first_key(self.funcs@, name@, 0);
                }
                assert(is_fn_item(prog, self.funcs@[i as int].1));
                Some(fn_at(prog, self.funcs[i].1))
            }
            None => None,
        }
    }

    fn struct_decl<'a>(&self, prog: &'a Program, name: &str) -> (r: Option<&'a StructDecl>)
        requires
            self.wf(prog),
        ensures
            match get(self.structs@, name@) {
                Some(k) => r matches Some(d) && prog.items@[k as int] == Item::Struct(*d),
                None => r is None,
            },
    {
        match find(&self.structs, name) {
            Some(i) => {
                assert(is_struct_item(prog, self.structs@[i as int].1));
                Some(struct_at(prog, self.structs[i].1))
            }
            None => None,
        }
    }

    fn method_decl<'a>(&self, prog: &'a Program, ty: &str, name: &str) -> (r: Option<&'a MethodDecl>)
        requires
            self.wf(prog),
        ensures
            match get2(self.methods@, ty@, name@) {
                Some((k, m)) => r matches Some(d) && prog.items@[k as int] matches Item::Impl(b)
                    && b.methods@[m as int] == *d,
                None => r is None,
            },
    {
        match find(&self.methods, ty) {
            Some(t) => {
                let inner = &self.methods[t].1;
                match find(inner, name) {
                    Some(j) => {
                        assert(is_method_of(prog, self.methods@[t as int].1@[j as int].1.0, self.methods@[t as int].1@[j as int].1.1));
                        let (k, m) = inner[j].1;
                        Some(method_at(prog, k, m))
                    }
                    None => None,
                }
            }
            None => None,
        }
    }

    /// The enum and payload count of the variant `name`, if declared.
    fn variant_of(&self, name: &str) -> (r: Option<(String, usize)>)
        ensures
            match get(self.variants@, name@) {
                Some(x) => r matches Some(y) && y.0@ == x.0@ && y.1 == x.1,
                None => r is None,
            },
    {
        match lookup(&self.variants, name) {
            Some(x) => Some((x.0.clone(), x.1)),
            None => None,
        }
    }

    fn add_method(&mut self, prog: &Program, ty: String, name: String, k: usize, m: usize)
        requires
            old(self).wf(prog),
            is_method_of(prog, k, m),
        ensures
            final(self).wf(prog),
            final(self).funcs == old(self).funcs,
            final(self).structs == old(self).structs,
            final(self).variants == old(self).variants,
            final(self).scopes == old(self).scopes,
            final(self).out == old(self).out,
            final(self).fuel == old(self).fuel,
            forall|t2: Seq<char>, n2: Seq<char>| #[trigger] get2(final(self).methods@, t2, n2)
                == if t2 == ty@ && n2 == name@ { Some((k, m)) } else { get2(old(self).methods@, t2, n2) },
    {
        let ghost tyv = ty@;
        let ghost namev = name@;
        match find(&self.methods, ty.as_str()) {
            Some(t) => {
                let ghost before = self.methods@;
                proof {
                    lemma_first_key(before, tyv, 0);
                }
                proof {
                    lemma_put(self.methods@[t as int].1@, name, (k, m));
                }
                let ghost name_g = name;
                let inner = &mut self.methods[t].1;
                insert(inner, name, (k, m));
                assert forall|i: int, j: int|
                    0 <= i < self.methods@.len() && 0 <= j < self.methods@[i].1@.len() implies is_method_of(
                    prog,
                    (#[trigger] self.methods@[i].1@[j]).1.0,
                    self.methods@[i].1@[j].1.1,
                ) by {
                    if i != t {
                        assert(self.methods@[i] == before[i]);
                    }
                }
                assert(self.methods@ =~= before.update(t as int, (before[t as int].0, self.methods@[t as int].1)));
                assert forall|t2: Seq<char>, n2: Seq<char>| #[trigger] get2(self.methods@, t2, n2)
                    == if t2 == tyv && n2 == namev { Some((k, m)) } else { get2(before, t2, n2) } by {
                    lemma_first_key(before, t2, 0);
                    lemma_get_update(before, t as int, self.methods@[t as int].1, t2);
                    lemma_get_put(before[t as int].1@, name_g, (k, m), n2);
                }
            }
            None => {
                let ghost before = self.methods@;
                let ghost name_g = name;
                let ghost ty_g = ty;
                let mut inner: Vec<(String, (usize, usize))> = Vec::new();
                inner.push((name, (k, m)));
                proof {
                    assert(inner@ =~= put(Seq::<(String, (usize, usize))>::empty(), name_g, (k, m)));
                }
                let ghost inner_g = inner;
                self.methods.push((ty, inner));
                assert(self.methods@ == put(before, ty_g, inner_g));
                assert forall|t2: Seq<char>, n2: Seq<char>| #[trigger] get2(self.methods@, t2, n2)
                    == if t2 == tyv && n2 == namev { Some((k, m)) } else { get2(before, t2, n2) } by {
                    lemma_get_put(before, ty_g, inner_g, t2);
                    lemma_get_put(Seq::<(String, (usize, usize))>::empty(), name_g, (k, m), n2);
                }
                assert forall|i: int, j: int|
                    0 <= i < self.methods@.len() && 0 <= j < self.methods@[i].1@.len() implies is_method_of(
                    prog,
                    (#[trigger] self.methods@[i].1@[j]).1.0,
                    self.methods@[i].1@[j].1.1,
                ) by {
                    if i < self.methods@.len() - 1 {
                        assert(self.methods@[i] == old(self).methods@[i]);
                    }
                }
            }
        }
    }

    /// Registers the declarations of `prog`. Fails when a variant name is
    /// declared twice.
    fn register(&mut self, prog: &Program) -> (r: Result<(), String>)
        ensures
            final(self).wf(prog),
            final(self).scopes == old(self).scopes,
            final(self).out == old(self).out,
            final(self).fuel == old(self).fuel,
            r is Ok <==> distinct_variant_names(*prog),
            r is Ok ==> forall|n: Seq<char>| has_key(final(self).funcs@, n) == declares_fn(*prog, n),
    {
        self.funcs = Vec::new();
        self.structs = Vec::new();
        self.variants = Vec::new();
        self.methods = Vec::new();
        let ghost p = *prog;
        let mut i: usize = 0;
        while i < prog.items.len()
            invariant
                i <= prog.items.len(),
                p == *prog,
                self.wf(prog),
                self.scopes == old(self).scopes,
                self.out == old(self).out,
                self.fuel == old(self).fuel,
                forall|j: int| 0 <= j < self.funcs@.len() ==> (#[trigger] self.funcs@[j]).1 < i
                    && self.funcs@[j].0@ == item_name(p.items@[self.funcs@[j].1 as int]),
                forall|k: int| 0 <= k < i && p.items@[k] is Fn ==> has_key(self.funcs@, #[trigger] item_name(p.items@[k])),
                distinct_variants_upto(p, i as int, 0),
                forall|k: int, v: int| is_variant(p, k, v) && variant_before(k, v, i as int, 0) ==> has_key(self.variants@, #[trigger] variant_name(p, k, v)),
                forall|j: int| 0 <= j < self.variants@.len() ==> names_variant(p, i as int, 0, (#[trigger] self.variants@[j]).0@),
            decreases prog.items.len() - i,
        {
            match &prog.items[i] {
                Item::Fn(f) => {
                    let key = f.name.clone();
                    let ghost kg = key;
                    let ghost before = self.funcs@;
                    proof {
                        lemma_put(self.funcs@, key, i);
                    }
                    insert(&mut self.funcs, key, i);
                    proof {
                        assert forall|k: int| 0 <= k < i + 1 && p.items@[k] is Fn implies has_key(self.funcs@, #[trigger] item_name(p.items@[k])) by {
                            lemma_put_keys(before, kg, i, item_name(p.items@[k]));
                        }
                    }
                }
                Item::Struct(s) => {
                    let key = s.name.clone();
                    proof {
                        lemma_put(self.structs@, key, i);
                    }
                    insert(&mut self.structs, key, i);
                }
                Item::Enum(e) => {
                    let mut w: usize = 0;
                    while w < e.variants.len()
                        invariant
                            w <= e.variants.len(),
                            self.scopes == old(self).scopes,
                            self.out == old(self).out,
                            self.fuel == old(self).fuel,
                            i < p.items@.len(),
                            p == *prog,
                            p.items@[i as int] == Item::Enum(*e),
                            self.wf(prog),
                            forall|j: int| 0 <= j < self.funcs@.len() ==> (#[trigger] self.funcs@[j]).1 < i
                                && self.funcs@[j].0@ == item_name(p.items@[self.funcs@[j].1 as int]),
                            forall|k: int| 0 <= k < i && p.items@[k] is Fn ==> has_key(self.funcs@, #[trigger] item_name(p.items@[k])),
                            distinct_variants_upto(p, i as int, w as int),
                            forall|k: int, v: int| is_variant(p, k, v) && variant_before(k, v, i as int, w as int) ==> has_key(self.variants@, #[trigger] variant_name(p, k, v)),
                            forall|j: int| 0 <= j < self.variants@.len() ==> names_variant(p, i as int, w as int, (#[trigger] self.variants@[j]).0@),
                        decreases e.variants.len() - w,
                    {
                        let v = &e.variants[w];
                        assert(variant_name(p, i as int, w as int) == v.name@);
                        match lookup(&self.variants, v.name.as_str()) {
                            Some(other) => {
                                proof {
                                    lemma_has_key(self.variants@, v.name@);
                                    let j = first_key(self.variants@, v.name@, 0)->0;
                                    assert(names_variant(p, i as int, w as int, self.variants@[j].0@));
                                    let (k, x) = choose|k: int, x: int| is_variant(p, k, x) && variant_before(k, x, i as int, w as int)
                                        && #[trigger] variant_name(p, k, x) == self.variants@[j].0@;
                                    assert(variant_name(p, k, x) == variant_name(p, i as int, w as int));
                                    assert(!distinct_variant_names(p));
                                }
                                let mut m = string_of_str("variant `");
                                m.append(v.name.as_str());
                                m.append("` is declared in both `");
                                m.append(other.0.as_str());
                                m.append("` and `");
                                m.append(e.name.as_str());
                                m.append("`");
                                return Err(m);
                            }
                            None => {}
                        }
                        let ghost before = self.variants@;
                        let key = v.name.clone();
                        let val = (e.name.clone(), v.payloads.len());
                        proof {
                            lemma_put(before, key, val);
                            assert forall|k1: int, v1: int, k2: int, v2: int|
                                is_variant(p, k1, v1) && is_variant(p, k2, v2) && variant_before(k1, v1, i as int, w + 1)
                                    && variant_before(k2, v2, i as int, w + 1) && (k1 != k2 || v1 != v2) implies
                                #[trigger] variant_name(p, k1, v1) != #[trigger] variant_name(p, k2, v2) by {
                                if k1 == i && v1 == w {
                                    assert(has_key(before, variant_name(p, k2, v2)));
                                } else if k2 == i && v2 == w {
                                    assert(has_key(before, variant_name(p, k1, v1)));
                                }
                            }
                        }
                        insert(&mut self.variants, key, val);
                        proof {
                            assert forall|k: int, x: int| is_variant(p, k, x) && variant_before(k, x, i as int, w + 1) implies has_key(self.variants@, #[trigger] variant_name(p, k, x)) by {
                                lemma_put_keys(before, key, val, variant_name(p, k, x));
                            }
                            assert forall|j: int| 0 <= j < self.variants@.len() implies names_variant(p, i as int, w + 1, (#[trigger] self.variants@[j]).0@) by {
                                if self.variants@[j] == (key, val) {
                                    assert(is_variant(p, i as int, w as int) && variant_before(i as int, w as int, i as int, w + 1)
                                        && variant_name(p, i as int, w as int) == self.variants@[j].0@);
                                } else {
                                    assert(self.variants@[j] == before[j]);
                                    assert(names_variant(p, i as int, w as int, before[j].0@));
                                    let (k, x) = choose|k: int, x: int| is_variant(p, k, x) && variant_before(k, x, i as int, w as int)
                                        && #[trigger] variant_name(p, k, x) == before[j].0@;
                                    assert(is_variant(p, k, x) && variant_before(k, x, i as int, w + 1)
                                        && variant_name(p, k, x) == self.variants@[j].0@);
                                }
                            }
                        }
                        w = w + 1;
                    }
                    proof {
                        assert forall|j: int| 0 <= j < self.variants@.len() implies names_variant(p, i + 1, 0, (#[trigger] self.variants@[j]).0@) by {
                            assert(names_variant(p, i as int, w as int, self.variants@[j].0@));
                            let (k, x) = choose|k: int, x: int| is_variant(p, k, x) && variant_before(k, x, i as int, w as int)
                                && #[trigger] variant_name(p, k, x) == self.variants@[j].0@;
                            assert(is_variant(p, k, x) && variant_before(k, x, i + 1, 0) && variant_name(p, k, x) == self.variants@[j].0@);
                        }
                    }
                }
                Item::Impl(b) => {
                    let mut k: usize = 0;
                    while k < b.methods.len()
                        invariant
                            k <= b.methods.len(),
                            self.scopes == old(self).scopes,
                            self.out == old(self).out,
                            self.fuel == old(self).fuel,
                            self.wf(prog),
                            i < prog.items@.len(),
                            prog.items@[i as int] == Item::Impl(*b),
                            p == *prog,
                            forall|j: int| 0 <= j < self.funcs@.len() ==> (#[trigger] self.funcs@[j]).1 < i
                                && self.funcs@[j].0@ == item_name(p.items@[self.funcs@[j].1 as int]),
                            forall|k: int| 0 <= k < i && p.items@[k] is Fn ==> has_key(self.funcs@, #[trigger] item_name(p.items@[k])),
                            forall|k: int, v: int| is_variant(p, k, v) && variant_before(k, v, i as int, 0) ==> has_key(self.variants@, #[trigger] variant_name(p, k, v)),
                            forall|j: int| 0 <= j < self.variants@.len() ==> names_variant(p, i as int, 0, (#[trigger] self.variants@[j]).0@),
                        decreases b.methods.len() - k,
                    {
                        self.add_method(prog, b.self_type.clone(), b.methods[k].func.name.clone(), i, k);
                        k = k + 1;
                    }
                }
            }
            i = i + 1;
        }
        proof {
            assert forall|n: Seq<char>| has_key(self.funcs@, n) == declares_fn(p, n) by {
                if has_key(self.funcs@, n) {
                    lemma_has_key(self.funcs@, n);
                    let j = first_key(self.funcs@, n, 0)->0;
                    let k = self.funcs@[j].1 as int;
                    assert(is_fn_item(prog, self.funcs@[j].1));
                    assert(0 <= k < p.items@.len() && p.items@[k] is Fn && item_name(p.items@[k]) == n);
                }
                if declares_fn(p, n) {
                    let k = choose|k: int| 0 <= k < p.items@.len() && p.items@[k] is Fn && #[trigger] item_name(p.items@[k]) == n;
                    assert(has_key(self.funcs@, item_name(p.items@[k])));
                }
            }
        }
        Ok(())
    }

    /// Executes `prog`: registers its declarations, then calls its entry
    /// point `main` / `رئيسي` / `principal` and hands back what it printed,
    /// or the runtime error that stopped it.
    #[verifier::rlimit(40)]
    pub fn run(&mut self, prog: &Program) -> (r: Result<String, String>)
        ensures
            r is Ok ==> distinct_variant_names(*prog) && has_entry(*prog),
            !distinct_variant_names(*prog) ==> r is Err,
            distinct_variant_names(*prog) && !has_entry(*prog) ==> (r matches Err(m) && m@
                == "no entry point: define `fn main()` or `دالة رئيسي()`"@),
            match single_entry(*prog) {
                Some(f) => match pure_block(seq![Seq::empty()], f.body, (STEP_BUDGET - 1) as nat) {
                    Some(Ok((o, _, _))) => r matches Ok(x) && x@ == o,
                    Some(Err(m)) => r matches Err(x) && x@ == m,
                    None => true,
                },
                None => true,
            },
    {
        self.scopes = Vec::new();
        self.out = String::new();
        self.fuel = STEP_BUDGET;
        self.register(prog)?;
        proof {
            match single_entry(*prog) {
                Some(f) => {
                    assert(item_name(prog.items@[0]) == f.name@);
                    assert(declares_fn(*prog, f.name@));
                },
                None => {},
            }
        }
        let entry = match self.fn_decl(prog, "main") {
            Some(f) => f,
            None => match self.fn_decl(prog, "رئيسي") {
                Some(f) => f,
                None => match self.fn_decl(prog, "principal") {
                    Some(f) => f,
                    None => {
                        return Err(string_of_str(
                            "no entry point: define `fn main()` or `دالة رئيسي()`",
                        ));
                    }
                },
            },
        };
        match self.call(prog, entry, None, Vec::new()) {
            Ok(_) => Ok(self.out.clone()),
            Err(Flow::Return(_)) => Ok(self.out.clone()),
            Err(Flow::Error(m)) => Err(m),
        }
    }

    // ---- calls ----

    /// Calls `f` with `args`, and `recv` as `self` (with whether the method
    /// may mutate it). Functions do not see the caller's variables. Gives back
    /// the result and, for a method, the final value of `self`.
    fn call(&mut self, prog: &Program, f: &FnDecl, recv: Option<(Value, bool)>, args: Vec<Value>) -> (r: Result<(Value, Option<Value>), Flow>)
        requires
            old(self).wf(prog),
        ensures
            final(self).wf(prog),
            Self::settled(*old(self), *final(self)),
            r is Ok ==> final(self).fuel < old(self).fuel,
            recv is None && args@.len() == 0 && f.params@.len() == 0 && old(self).fuel >= 1
                ==> match pure_block(seq![Seq::empty()], f.body, (old(self).fuel - 1) as nat) {
                Some(Ok((o, _, _))) => final(self).out@ == old(self).out@ + o && r is Ok,
                Some(Err(m)) => r matches Err(Flow::Error(x)) && x@ == m,
                None => true,
            },
        decreases old(self).fuel,
    {
        if self.fuel == 0 {
            return Err(out_of_steps());
        }
        self.fuel = self.fuel - 1;
        if args.len() != f.params.len() {
            let mut m = string_of_str("function `");
            m.append(f.name.as_str());
            m.append("` expects ");
            push_dec(&mut m, f.params.len() as u64);
            m.append(" args, got ");
            push_dec(&mut m, args.len() as u64);
            return Err(Flow::Error(m));
        }
        let mut frame: Vec<(String, Slot)> = Vec::new();
        let has_self = recv.is_some();
        match recv {
            Some((v, mutable)) => insert(&mut frame, string_of_str("self"), Slot { value: v, mutable }),
            None => {}
        }
        let ghost init_frame = frame@;
        assert(!has_self ==> init_frame.len() == 0);
        let mut k: usize = 0;
        while k < args.len()
            invariant
                k <= args.len(),
                args.len() == f.params.len(),
                k == 0 ==> frame@ == init_frame,
            decreases args.len() - k,
        {
            insert(&mut frame, f.params[k].name.clone(), Slot { value: clone_value(&args[k]), mutable: false });
            k = k + 1;
        }
        let mut saved: Vec<Vec<(String, Slot)>> = Vec::new();
        saved.push(frame);
        std::mem::swap(&mut self.scopes, &mut saved);
        proof {
            if !has_self && args@.len() == 0 {
                assert(self.scopes@[0]@ =~= Seq::<(String, Slot)>::empty());
                assert(scope_view(self.scopes@[0]@) =~= Seq::<VarView>::empty());
                assert(env_of(self.scopes@) =~= seq![Seq::<VarView>::empty()]);
            }
        }
        let res = self.eval_block(prog, &f.body);
        let final_self = if has_self && self.scopes.len() > 0 {
            match find(&self.scopes[0], "self") {
                Some(j) => Some(clone_value(&self.scopes[0][j].1.value)),
                None => None,
            }
        } else {
            None
        };
        std::mem::swap(&mut self.scopes, &mut saved);
        match res {
            Ok(v) => Ok((v, final_self)),
            Err(Flow::Return(v)) => Ok((v, final_self)),
            Err(e) => Err(e),
        }
    }

    // ---- blocks and statements ----

    fn eval_block(&mut self, prog: &Program, b: &Block) -> (r: Result<Value, Flow>)
        requires
            old(self).wf(prog),
        ensures
            final(self).wf(prog),
            Self::settled(*old(self), *final(self)),
            r is Ok ==> final(self).fuel < old(self).fuel,
            match pure_block(env_of(old(self).scopes@), *b, old(self).fuel as nat) {
                Some(Ok((o, en, f))) => {
                    &&& final(self).out@ == old(self).out@ + o
                    &&& env_of(final(self).scopes@) == en
                    &&& final(self).fuel == f
                    &&& r is Ok
                },
                Some(Err(m)) => r matches Err(Flow::Error(x)) && x@ == m,
                None => true,
            },
        decreases old(self).fuel,
    {
        if self.fuel == 0 {
            return Err(out_of_steps());
        }
        self.fuel = self.fuel - 1;
        let ghost f0 = old(self).fuel;
        let ghost ff = (f0 - 1) as nat;
        let ghost before = *old(self);
        let ghost e0 = env_of(old(self).scopes@).push(Seq::empty());
        let ghost pure = pure_stmts(e0, b.stmts@, ff) is Some;
        self.scopes.push(Vec::new());
        proof {
            assert(self.scopes@.last()@ =~= Seq::<(String, Slot)>::empty());
            assert(scope_view(self.scopes@.last()@) =~= Seq::<VarView>::empty());
            assert(self.scopes@.drop_last() =~= before.scopes@);
            assert(env_of(self.scopes@) =~= e0);
            assert(b.stmts@.take(0) =~= Seq::<Stmt>::empty());
            assert(self.out@ =~= before.out@ + Seq::<char>::empty());
        }
        let mut last = Value::Unit;
        let mut i: usize = 0;
        while i < b.stmts.len()
            invariant
                i <= b.stmts.len(),
                self.wf(prog),
                self.fuel < f0,
                f0 == before.fuel,
                ff == f0 - 1,
                before == *old(self),
                e0 == env_of(before.scopes@).push(Seq::empty()),
                pure == pure_stmts(e0, b.stmts@, ff) is Some,
                self.funcs == before.funcs,
                self.structs == before.structs,
                self.variants == before.variants,
                self.methods == before.methods,
                self.scopes@.len() == before.scopes@.len() + 1,
                pure ==> match pure_stmts(e0, b.stmts@.take(i as int), ff) {
                    Some(Ok((o, en, f))) => self.out@ == before.out@ + o && env_of(self.scopes@) == en && self.fuel == f,
                    _ => false,
                },
            decreases b.stmts.len() - i,
        {
            proof {
                if pure {
                    lemma_stmts_prefix(e0, b.stmts@, ff, i + 1);
                    assert(b.stmts@.take(i + 1).drop_last() =~= b.stmts@.take(i as int));
                    assert(b.stmts@.take(i + 1).last() == b.stmts@[i as int]);
                }
            }
            match self.eval_stmt(prog, &b.stmts[i]) {
                Ok(v) => {
                    last = v;
                }
                Err(e) => {
                    self.scopes.pop();
                    return Err(e);
                }
            }
            proof {
                if pure {
                    match pure_stmts(e0, b.stmts@.take(i as int), ff) {
                        Some(Ok((o, en, f))) => {
                            match pure_stmt(en, b.stmts@[i as int], f) {
                                Some(Ok((o2, en2, f2))) => {
                                    assert(self.out@ =~= before.out@ + (o + o2));
                                },
                                _ => {},
                            }
                        },
                        _ => {},
                    }
                }
            }
            i = i + 1;
        }
        proof {
            assert(b.stmts@.take(b.stmts@.len() as int) =~= b.stmts@);
        }
        let ghost inner = self.scopes@;
        self.scopes.pop();
        proof {
            assert(self.scopes@ =~= inner.drop_last());
            assert(env_of(self.scopes@) =~= env_of(inner).drop_last());
        }
        Ok(last)
    }

    #[verifier::rlimit(60)]
    fn eval_stmt(&mut self, prog: &Program, s: &Stmt) -> (r: Result<Value, Flow>)
        requires
            old(self).wf(prog),
            old(self).scopes@.len() >= 1,
        ensures
            final(self).wf(prog),
            Self::settled(*old(self), *final(self)),
            r is Ok ==> final(self).fuel < old(self).fuel,
            match pure_stmt(env_of(old(self).scopes@), *s, old(self).fuel as nat) {
                Some(Ok((o, env2, f))) => {
                    &&& final(self).out@ == old(self).out@ + o
                    &&& env_of(final(self).scopes@) == env2
                    &&& final(self).fuel == f
                    &&& r is Ok
                },
                Some(Err(m)) => r matches Err(Flow::Error(x)) && x@ == m,
                None => true,
            },
        decreases old(self).fuel,
    {
        if self.fuel == 0 {
            return Err(out_of_steps());
        }
        self.fuel = self.fuel - 1;
        let ghost f0 = old(self).fuel;
        let ghost before = *old(self);
        match s {
            Stmt::Let { name, mutable, init, .. } => {
                let v = self.eval_expr(prog, init)?;
                let ghost sc0 = self.scopes@;
                let key = name.clone();
                let ghost kg = key;
                let ghost slot = Slot { value: v, mutable: *mutable };
                self.bind(key, v, *mutable);
                proof {
                    lemma_bind_env(sc0, self.scopes@, kg, slot);
                }
                Ok(Value::Unit)
            }
            Stmt::Assign { target, value } => {
                let v = self.eval_expr(prog, value)?;
                self.assign(prog, target, v)?;
                Ok(Value::Unit)
            }
            Stmt::While { cond, body } => {
                let ghost w = pure_while(env_of(before.scopes@), *cond, *body, self.fuel as nat);
                assert(*s == Stmt::While { cond: *cond, body: *body });
                assert(pure_stmt(env_of(before.scopes@), *s, f0 as nat) == pure_while(env_of(before.scopes@), *cond, *body, (f0 - 1) as nat));
                let ghost mut acc: Seq<char> = Seq::empty();
                proof {
                    match pure_while(env_of(self.scopes@), *cond, *body, self.fuel as nat) {
                        Some(Ok((o2, e3, f3))) => assert(acc + o2 =~= o2),
                        _ => {},
                    }
                    assert(self.out@ =~= before.out@ + acc);
                }
                loop
                    invariant_except_break
                        w is Some ==> match pure_while(env_of(self.scopes@), *cond, *body, self.fuel as nat) {
                            Some(Ok((o2, e3, f3))) => w == Some(Ok::<(Seq<char>, Seq<Seq<VarView>>, nat), Seq<char>>((acc + o2, e3, f3))),
                            Some(Err(m)) => w == Some(Err::<(Seq<char>, Seq<Seq<VarView>>, nat), Seq<char>>(m)),
                            None => false,
                        },
                    invariant
                        s is While,
                        self.wf(prog),
                        self.fuel < f0,
                        f0 == before.fuel,
                        before == *old(self),
                        self.funcs == before.funcs,
                        self.structs == before.structs,
                        self.variants == before.variants,
                        self.methods == before.methods,
                        self.scopes@.len() == before.scopes@.len(),
                        w == pure_while(env_of(before.scopes@), *cond, *body, (f0 - 1) as nat),
                        w == pure_stmt(env_of(before.scopes@), *s, f0 as nat),
                        w is Some ==> self.out@ == before.out@ + acc,
                    ensures
                        self.wf(prog),
                        self.fuel < f0,
                        self.funcs == before.funcs,
                        self.structs == before.structs,
                        self.variants == before.variants,
                        self.methods == before.methods,
                        self.scopes@.len() == before.scopes@.len(),
                        w is Some ==> (w matches Some(Ok((o, e3, f3))) && self.out@ == before.out@ + o
                            && env_of(self.scopes@) == e3 && self.fuel == f3),
                    decreases self.fuel,
                {
                    let ghost fw = self.fuel as nat;
                    let ghost en = env_of(self.scopes@);
                    let ghost acc0 = acc;
                    let c = match self.truthy(prog, cond) {
                        Ok(c) => c,
                        Err(x) => {
                            return Err(x);
                        }
                    };
                    if !c {
                        proof {
                            assert(acc + Seq::<char>::empty() =~= acc);
                        }
                        break;
                    }
                    let ghost fg = self.fuel as nat;
                    let ghost out1 = self.out@;
                    self.eval_block(prog, body)?;
                    proof {
                        if w is Some {
                            match pure_block(en, *body, fg) {
                                Some(Ok((o, env2, f2))) => {
                                    acc = acc0 + o;
                                    match pure_while(env2, *cond, *body, f2) {
                                        Some(Ok((o2, e3, f3))) => {
                                            assert(acc0 + (o + o2) =~= acc + o2);
                                        },
                                        _ => {},
                                    }
                                    assert(self.out@ =~= before.out@ + acc);
                                },
                                _ => {},
                            }
                        }
                    }
                }
                Ok(Value::Unit)
            }
            Stmt::For { var, start, end, body } => {
                let lo = self.as_int(prog, start)?;
                let hi = self.as_int(prog, end)?;
                let ghost w = pure_stmt(env_of(before.scopes@), *s, f0 as nat);
                proof {
                    if w is Some {
                        assert(w == pure_for(env_of(self.scopes@), var@, lo, hi, *body, self.fuel as nat));
                    }
                }
                let ghost mut acc: Seq<char> = Seq::empty();
                proof {
                    match pure_for(env_of(self.scopes@), var@, lo, hi, *body, self.fuel as nat) {
                        Some(Ok((o2, e3, f3))) => assert(acc + o2 =~= o2),
                        _ => {},
                    }
                    if w is Some {
                        assert(self.out@ =~= before.out@ + acc);
                    }
                }
                let mut i: i64 = lo;
                while i < hi
                    invariant
                        s is For,
                        self.wf(prog),
                        self.fuel < f0,
                        f0 == before.fuel,
                        before == *old(self),
                        self.funcs == before.funcs,
                        self.structs == before.structs,
                        self.variants == before.variants,
                        self.methods == before.methods,
                        self.scopes@.len() == before.scopes@.len(),
                        lo <= i,
                        w == pure_stmt(env_of(before.scopes@), *s, f0 as nat),
                        w is Some ==> self.out@ == before.out@ + acc,
                        w is Some ==> match pure_for(env_of(self.scopes@), var@, i, hi, *body, self.fuel as nat) {
                            Some(Ok((o2, e3, f3))) => w == Some(Ok::<(Seq<char>, Seq<Seq<VarView>>, nat), Seq<char>>((acc + o2, e3, f3))),
                            Some(Err(m)) => w == Some(Err::<(Seq<char>, Seq<Seq<VarView>>, nat), Seq<char>>(m)),
                            None => false,
                        },
                    decreases hi - i,
                {
                    let ghost en0 = env_of(self.scopes@);
                    let ghost fw = self.fuel as nat;
                    let ghost acc0 = acc;
                    let ghost sc0 = self.scopes@;
                    self.scopes.push(Vec::new());
                    let ghost sc1 = self.scopes@;
                    let key = var.clone();
                    let ghost kg = key;
                    self.bind(key, Value::Int(i), false);
                    proof {
                        assert(sc1.last()@ =~= Seq::<(String, Slot)>::empty());
                        assert(scope_view(sc1.last()@) =~= Seq::<VarView>::empty());
                        assert(sc1.drop_last() =~= sc0);
                        assert(env_of(sc1) =~= en0.push(Seq::empty()));
                        lemma_bind_env(sc1, self.scopes@, kg, Slot { value: Value::Int(i), mutable: false });
                        assert(env_of(self.scopes@) =~= en0.push(seq![VarView { name: var@, value: SpecValue::Int(i), mutable: false }]));
                    }
                    let ghost out1 = self.out@;
                    let r = self.eval_block(prog, body);
                    let ghost inner = self.scopes@;
                    self.scopes.pop();
                    proof {
                        assert(self.scopes@ =~= inner.drop_last());
                        assert(env_of(self.scopes@) =~= env_of(inner).drop_last());
                    }
                    r?;
                    proof {
                        if w is Some {
                            match pure_block(en0.push(seq![VarView { name: var@, value: SpecValue::Int(i), mutable: false }]), *body, fw) {
                                Some(Ok((o, en, f2))) => {
                                    acc = acc0 + o;
                                    match pure_for(en.drop_last(), var@, (i + 1) as i64, hi, *body, f2) {
                                        Some(Ok((o2, e3, f3))) => {
                                            assert(acc0 + (o + o2) =~= acc + o2);
                                        },
                                        _ => {},
                                    }
                                    assert(self.out@ =~= before.out@ + acc);
                                },
                                _ => {},
                            }
                        }
                    }
                    i = i + 1;
                }
                proof {
                    if w is Some {
                        assert(acc + Seq::<char>::empty() =~= acc);
                    }
                }
                Ok(Value::Unit)
            }
            Stmt::ForEach { var, iter, body } => {
                let v = self.eval_expr(prog, iter)?;
                let ghost w = pure_stmt(env_of(before.scopes@), *s, f0 as nat);
                let xs = match v {
                    Value::Array(xs) => xs,
                    other => {
                        let mut m = string_of_str("`for .. in` requires an array, found ");
                        push_value(&mut m, &other);
                        return Err(Flow::Error(with_line(iter.line, m)));
                    }
                };
                let ghost vs = view_list(xs@);
                proof {
                    lemma_view_list(xs@);
                    if w is Some {
                        assert(w == pure_foreach(env_of(self.scopes@), var@, vs, 0, *body, self.fuel as nat));
                    }
                }
                let ghost mut acc: Seq<char> = Seq::empty();
                proof {
                    match pure_foreach(env_of(self.scopes@), var@, vs, 0, *body, self.fuel as nat) {
                        Some(Ok((o2, e3, f3))) => assert(acc + o2 =~= o2),
                        _ => {},
                    }
                    if w is Some {
                        assert(self.out@ =~= before.out@ + acc);
                    }
                }
                let mut k: usize = 0;
                while k < xs.len()
                    invariant
                        s is ForEach,
                        k <= xs.len(),
                        self.wf(prog),
                        self.fuel < f0,
                        f0 == before.fuel,
                        before == *old(self),
                        self.funcs == before.funcs,
                        self.structs == before.structs,
                        self.variants == before.variants,
                        self.methods == before.methods,
                        self.scopes@.len() == before.scopes@.len(),
                        vs == view_list(xs@),
                        vs.len() == xs@.len(),
                        forall|q: int| 0 <= q < xs@.len() ==> #[trigger] vs[q] == xs@[q]@,
                        w == pure_stmt(env_of(before.scopes@), *s, f0 as nat),
                        w is Some ==> self.out@ == before.out@ + acc,
                        w is Some ==> match pure_foreach(env_of(self.scopes@), var@, vs, k as nat, *body, self.fuel as nat) {
                            Some(Ok((o2, e3, f3))) => w == Some(Ok::<(Seq<char>, Seq<Seq<VarView>>, nat), Seq<char>>((acc + o2, e3, f3))),
                            Some(Err(m)) => w == Some(Err::<(Seq<char>, Seq<Seq<VarView>>, nat), Seq<char>>(m)),
                            None => false,
                        },
                    decreases xs.len() - k,
                {
                    let ghost en0 = env_of(self.scopes@);
                    let ghost fw = self.fuel as nat;
                    let ghost acc0 = acc;
                    let ghost sc0 = self.scopes@;
                    self.scopes.push(Vec::new());
                    let ghost sc1 = self.scopes@;
                    let key = var.clone();
                    let ghost kg = key;
                    let item = clone_value(&xs[k]);
                    let ghost ig = item;
                    self.bind(key, item, false);
                    proof {
                        assert(sc1.last()@ =~= Seq::<(String, Slot)>::empty());
                        assert(scope_view(sc1.last()@) =~= Seq::<VarView>::empty());
                        assert(sc1.drop_last() =~= sc0);
                        assert(env_of(sc1) =~= en0.push(Seq::empty()));
                        lemma_bind_env(sc1, self.scopes@, kg, Slot { value: ig, mutable: false });
                        assert(ig@ == vs[k as int]);
                        assert(env_of(self.scopes@) =~= en0.push(seq![VarView { name: var@, value: vs[k as int], mutable: false }]));
                    }
                    let r = self.eval_block(prog, body);
                    let ghost inner = self.scopes@;
                    self.scopes.pop();
                    proof {
                        assert(self.scopes@ =~= inner.drop_last());
                        assert(env_of(self.scopes@) =~= env_of(inner).drop_last());
                    }
                    r?;
                    proof {
                        if w is Some {
                            match pure_block(en0.push(seq![VarView { name: var@, value: vs[k as int], mutable: false }]), *body, fw) {
                                Some(Ok((o, en, f2))) => {
                                    acc = acc0 + o;
                                    match pure_foreach(en.drop_last(), var@, vs, (k + 1) as nat, *body, f2) {
                                        Some(Ok((o2, e3, f3))) => {
                                            assert(acc0 + (o + o2) =~= acc + o2);
                                        },
                                        _ => {},
                                    }
                                    assert(self.out@ =~= before.out@ + acc);
                                },
                                _ => {},
                            }
                        }
                    }
                    k = k + 1;
                }
                proof {
                    if w is Some {
                        assert(acc + Seq::<char>::empty() =~= acc);
                    }
                }
                Ok(Value::Unit)
            }
            Stmt::Return(opt) => {
                let v = match opt {
                    Some(e) => self.eval_expr(prog, e)?,
                    None => Value::Unit,
                };
                Err(Flow::Return(v))
            }
            Stmt::Expr(e) => self.eval_expr(prog, e),
        }
    }

    /// Stores `v` into an assignment target.
    fn assign(&mut self, prog: &Program, target: &AssignTarget, v: Value) -> (r: Result<(), Flow>)
        requires
            old(self).wf(prog),
        ensures
            final(self).wf(prog),
            Self::settled(*old(self), *final(self)),
            r is Ok ==> final(self).fuel < old(self).fuel,
            old(self).fuel >= 1 ==> (target matches AssignTarget::Var(name) ==> match env_assign(
                env_of(old(self).scopes@),
                name@,
                v@,
            ) {
                Ok(env2) => {
                    &&& r is Ok
                    &&& env_of(final(self).scopes@) == env2
                    &&& final(self).out == old(self).out
                    &&& final(self).fuel == old(self).fuel - 1
                },
                Err(m) => r matches Err(Flow::Error(x)) && x@ == m,
            }),
        decreases old(self).fuel,
    {
        if self.fuel == 0 {
            return Err(out_of_steps());
        }
        self.fuel = self.fuel - 1;
        match target {
            AssignTarget::Var(name) => {
                let ghost sc0 = self.scopes@;
                let ghost vv = v@;
                let ghost vg = v;
                proof {
                    lemma_env_find(sc0, name@);
                    lemma_scope_find(sc0, name@);
                }
                let r = self.write_var(name.as_str(), v);
                proof {
                    match scope_find(sc0, name@) {
                        Some((i, j)) => if sc0[i]@[j].1.mutable {
                            lemma_write_env(sc0, self.scopes@, i, j, vg);
                        },
                        None => {},
                    }
                }
                r
            }
            AssignTarget::Index { name, index } => {
                let k = self.as_int(prog, index)?;
                let cur = match self.read_var(name.as_str()) {
                    Some(c) => c,
                    None => {
                        let mut m = string_of_str("cannot find `");
                        m.append(name.as_str());
                        m.append("` to assign");
                        return Err(Flow::Error(m));
                    }
                };
                match cur {
                    Value::Array(mut xs) => {
                        if k < 0 || (k as u64) >= (xs.len() as u64) {
                            return Err(Flow::Error(out_of_bounds(k, xs.len())));
                        }
                        xs.set(k as usize, v);
                        self.write_var(name.as_str(), Value::Array(xs))
                    }
                    other => {
                        let mut m = string_of_str("cannot index ");
                        push_value(&mut m, &other);
                        Err(Flow::Error(m))
                    }
                }
            }
            AssignTarget::Field { name, field } => {
                let cur = match self.read_var(name.as_str()) {
                    Some(c) => c,
                    None => {
                        let mut m = string_of_str("cannot find `");
                        m.append(name.as_str());
                        m.append("` to assign");
                        return Err(Flow::Error(m));
                    }
                };
                let updated = set_field(cur, field.as_str(), v)?;
                self.write_var(name.as_str(), updated)
            }
        }
    }

    /// Writes a method's receiver back after an in-place update: a variable,
    /// or a field of one. Any other receiver is a temporary, and the update
    /// has no place to go.
    fn write_place(&mut self, receiver: &Expr, v: Value) -> (r: Result<(), Flow>)
        ensures
            final(self).funcs == old(self).funcs,
            final(self).structs == old(self).structs,
            final(self).variants == old(self).variants,
            final(self).methods == old(self).methods,
            final(self).scopes@.len() == old(self).scopes@.len(),
            final(self).fuel == old(self).fuel,
            final(self).out == old(self).out,
            match receiver.kind {
                ExprKind::Ident(n) => match scope_find(old(self).scopes@, n@) {
                    Some((i, j)) => if old(self).scopes@[i]@[j].1.mutable {
                        &&& r is Ok
                        &&& final(self).scopes@ == old(self).scopes@.update(i, final(self).scopes@[i])
                        &&& final(self).scopes@[i]@ == old(self).scopes@[i]@.update(
                            j,
                            (old(self).scopes@[i]@[j].0, Slot { value: v, mutable: true }),
                        )
                    } else {
                        r matches Err(Flow::Error(m)) && m@ == "cannot assign to immutable binding `"@ + n@
                            + "` (use `var`/`متغير`)"@
                    },
                    None => r matches Err(Flow::Error(m)) && m@ == "cannot find `"@ + n@ + "` to assign"@,
                },
                ExprKind::Field { base, field } => match base.kind {
                    ExprKind::Ident(n) => match scope_find(old(self).scopes@, n@) {
                        None => r matches Err(Flow::Error(m)) && m@ == "cannot find `"@ + n@ + "` to assign"@,
                        Some((i, j)) => match spec_set_field(old(self).scopes@[i]@[j].1.value@, field@, v@) {
                            Err(m) => r matches Err(Flow::Error(y)) && y@ == m,
                            Ok(w) => if old(self).scopes@[i]@[j].1.mutable {
                                &&& r is Ok
                                &&& final(self).scopes@ == old(self).scopes@.update(i, final(self).scopes@[i])
                                &&& final(self).scopes@[i]@.len() == old(self).scopes@[i]@.len()
                                &&& forall|b: int| 0 <= b < old(self).scopes@[i]@.len() && b != j ==> #[trigger] final(self).scopes@[i]@[b]
                                    == old(self).scopes@[i]@[b]
                                &&& final(self).scopes@[i]@[j].0 == old(self).scopes@[i]@[j].0
                                &&& final(self).scopes@[i]@[j].1.mutable
                                &&& final(self).scopes@[i]@[j].1.value@ == w
                            } else {
                                r matches Err(Flow::Error(m)) && m@ == "cannot assign to immutable binding `"@ + n@
                                    + "` (use `var`/`متغير`)"@
                            },
                        },
                    },
                    _ => r is Ok && *final(self) == *old(self),
                },
                _ => r is Ok && *final(self) == *old(self),
            },
    {
        proof {
            let rk = receiver.kind;
            match rk {
                ExprKind::Field { base, .. } => match base.kind {
                    ExprKind::Ident(n) => {
                        lemma_scope_find(self.scopes@, n@);
                    },
                    _ => {},
                },
                _ => {},
            }
        }
        match &receiver.kind {
            ExprKind::Ident(name) => self.write_var(name.as_str(), v),
            ExprKind::Field { base, field } => match &base.kind {
                ExprKind::Ident(name) => {
                    let cur = match self.read_var(name.as_str()) {
                        Some(c) => c,
                        None => {
                            let mut m = string_of_str("cannot find `");
                            m.append(name.as_str());
                            m.append("` to assign");
                            return Err(Flow::Error(m));
                        }
                    };
                    let updated = set_field(cur, field.as_str(), v)?;
                    self.write_var(name.as_str(), updated)
                }
                _ => Ok(()),
            },
            _ => Ok(()),
        }
    }

    // ---- expressions ----

    /// Evaluates `e`; a runtime error is tagged with the line of the
    /// innermost expression that raised it.
    fn eval_expr(&mut self, prog: &Program, e: &Expr) -> (r: Result<Value, Flow>)
        requires
            old(self).wf(prog),
        ensures
            final(self).wf(prog),
            Self::settled(*old(self), *final(self)),
            r is Ok ==> final(self).fuel < old(self).fuel,
            old(self).fuel >= pure_cost(*e) ==> match pure_eval(env_of(old(self).scopes@), *e) {
                Some(Ok(v)) => {
                    &&& final(self).scopes == old(self).scopes
                    &&& final(self).out == old(self).out
                    &&& final(self).fuel == old(self).fuel - pure_cost(*e)
                    &&& (r matches Ok(x) && x@ == v)
                },
                Some(Err(m)) => {
                    &&& final(self).scopes == old(self).scopes
                    &&& final(self).out == old(self).out
                    &&& (r matches Err(Flow::Error(x)) && x@ == m)
                },
                None => true,
            },
            match print_args(*e) {
                Some(args) => old(self).fuel >= 4 + list_cost(args) ==> match pure_list(env_of(old(self).scopes@), args) {
                    Some(Ok(vs)) => {
                        &&& final(self).scopes == old(self).scopes
                        &&& final(self).fuel == old(self).fuel - 4 - list_cost(args)
                        &&& final(self).out@ == old(self).out@ + line_text(vs) + "\n"@
                        &&& (r matches Ok(x) && x@ == SpecValue::Unit)
                    },
                    Some(Err(m)) => {
                        &&& final(self).scopes == old(self).scopes
                        &&& final(self).out == old(self).out
                        &&& (r matches Err(Flow::Error(x)) && x@ == m)
                    },
                    None => true,
                },
                None => true,
            },
            match pure_ctl_expr(env_of(old(self).scopes@), *e, old(self).fuel as nat) {
                Some(Ok((o, en, f))) => {
                    &&& final(self).out@ == old(self).out@ + o
                    &&& env_of(final(self).scopes@) == en
                    &&& final(self).fuel == f
                    &&& r is Ok
                },
                Some(Err(m)) => r matches Err(Flow::Error(x)) && x@ == m,
                None => true,
            },
        decreases old(self).fuel,
    {
        if self.fuel == 0 {
            return Err(out_of_steps());
        }
        self.fuel = self.fuel - 1;
        proof {
            match print_args(*e) {
                Some(args) => lemma_list_err_tagged(env_of(old(self).scopes@), args),
                None => {},
            }
        }
        match self.eval_kind(prog, e) {
            Ok(v) => Ok(v),
            Err(Flow::Error(m)) => Err(Flow::Error(with_line(e.line, m))),
            Err(Flow::Return(v)) => Err(Flow::Return(v)),
        }
    }

    fn eval_args(&mut self, prog: &Program, args: &Vec<Expr>) -> (r: Result<Vec<Value>, Flow>)
        requires
            old(self).wf(prog),
        ensures
            final(self).wf(prog),
            Self::settled(*old(self), *final(self)),
            r is Ok ==> final(self).fuel < old(self).fuel,
            r matches Ok(vs) ==> vs@.len() == args@.len(),
            old(self).fuel >= 1 + list_cost(args@) ==> match pure_list(env_of(old(self).scopes@), args@) {
                Some(Ok(vs)) => {
                    &&& final(self).scopes == old(self).scopes
                    &&& final(self).out == old(self).out
                    &&& final(self).fuel == old(self).fuel - 1 - list_cost(args@)
                    &&& (r matches Ok(xs) && view_list(xs@) == vs)
                },
                Some(Err(m)) => {
                    &&& final(self).scopes == old(self).scopes
                    &&& final(self).out == old(self).out
                    &&& (r matches Err(Flow::Error(x)) && x@ == m)
                },
                None => true,
            },
        decreases old(self).fuel,
    {
        if self.fuel == 0 {
            return Err(out_of_steps());
        }
        self.fuel = self.fuel - 1;
        let ghost f0 = old(self).fuel;
        let ghost before = *old(self);
        let ghost sc = env_of(old(self).scopes@);
        let ghost pure = old(self).fuel >= 1 + list_cost(args@) && pure_list(sc, args@) is Some;
        let mut vals: Vec<Value> = Vec::new();
        let mut i: usize = 0;
        proof {
            assert(args@.take(0) =~= Seq::<Expr>::empty());
            assert(view_list(vals@) =~= Seq::<SpecValue>::empty());
        }
        while i < args.len()
            invariant
                i <= args.len(),
                vals@.len() == i,
                self.wf(prog),
                self.fuel < f0,
                f0 == before.fuel,
                before == *old(self),
                sc == env_of(before.scopes@),
                pure == (before.fuel >= 1 + list_cost(args@) && pure_list(sc, args@) is Some),
                self.funcs == before.funcs,
                self.structs == before.structs,
                self.variants == before.variants,
                self.methods == before.methods,
                self.scopes@.len() == before.scopes@.len(),
                pure ==> self.scopes == before.scopes && self.out == before.out,
                pure ==> pure_list(sc, args@.take(i as int)) == Some(Ok::<Seq<SpecValue>, Seq<char>>(view_list(vals@))),
                pure ==> self.fuel == f0 - 1 - list_cost(args@.take(i as int)),
            decreases args.len() - i,
        {
            proof {
                if pure {
                    lemma_list_step(sc, args@, i as int);
                }
            }
            let v = self.eval_expr(prog, &args[i])?;
            let ghost old_vals = vals@;
            vals.push(v);
            proof {
                assert(vals@.drop_last() =~= old_vals);
            }
            i = i + 1;
        }
        proof {
            assert(args@.take(args@.len() as int) =~= args@);
        }
        Ok(vals)
    }

    /// Evaluates a condition, which must be a boolean.
    fn truthy(&mut self, prog: &Program, e: &Expr) -> (r: Result<bool, Flow>)
        requires
            old(self).wf(prog),
        ensures
            final(self).wf(prog),
            Self::settled(*old(self), *final(self)),
            r is Ok ==> final(self).fuel < old(self).fuel,
            old(self).fuel >= 1 + pure_cost(*e) ==> match pure_eval(env_of(old(self).scopes@), *e) {
                Some(Ok(SpecValue::Bool(b))) => {
                    &&& r == Ok::<bool, Flow>(b)
                    &&& final(self).scopes == old(self).scopes
                    &&& final(self).out == old(self).out
                    &&& final(self).fuel == old(self).fuel - 1 - pure_cost(*e)
                },
                Some(Ok(v)) => r matches Err(Flow::Error(x)) && x@ == msg_condition(e.line, v),
                Some(Err(m)) => r matches Err(Flow::Error(x)) && x@ == m,
                None => true,
            },
        decreases old(self).fuel,
    {
        if self.fuel == 0 {
            return Err(out_of_steps());
        }
        self.fuel = self.fuel - 1;
        match self.eval_expr(prog, e)? {
            Value::Bool(b) => Ok(b),
            v => {
                let mut m = string_of_str("condition must be a bool, found ");
                push_value(&mut m, &v);
                Err(Flow::Error(with_line(e.line, m)))
            }
        }
    }

    /// Evaluates an expression that must be an integer.
    fn as_int(&mut self, prog: &Program, e: &Expr) -> (r: Result<i64, Flow>)
        requires
            old(self).wf(prog),
        ensures
            final(self).wf(prog),
            Self::settled(*old(self), *final(self)),
            r is Ok ==> final(self).fuel < old(self).fuel,
            old(self).fuel >= 1 + pure_cost(*e) ==> match pure_eval(env_of(old(self).scopes@), *e) {
                Some(Ok(SpecValue::Int(n))) => {
                    &&& r == Ok::<i64, Flow>(n)
                    &&& final(self).scopes == old(self).scopes
                    &&& final(self).out == old(self).out
                    &&& final(self).fuel == old(self).fuel - 1 - pure_cost(*e)
                },
                Some(Ok(v)) => r matches Err(Flow::Error(x)) && x@ == msg_not_int(e.line, v),
                Some(Err(m)) => r matches Err(Flow::Error(x)) && x@ == m,
                None => true,
            },
        decreases old(self).fuel,
    {
        if self.fuel == 0 {
            return Err(out_of_steps());
        }
        self.fuel = self.fuel - 1;
        match self.eval_expr(prog, e)? {
            Value::Int(n) => Ok(n),
            v => {
                let mut m = string_of_str("expected an integer, found ");
                push_value(&mut m, &v);
                Err(Flow::Error(with_line(e.line, m)))
            }
        }
    }
}


/// `v` with its field `field` set to `x`.
/// The index of the first field of `fs`, from `i` on, named `f`.
pub open spec fn vfield_index(fs: Seq<(Seq<char>, SpecValue)>, f: Seq<char>, i: int) -> Option<int>
    decreases fs.len() - i,
{
    if i < 0 || i >= fs.len() {
        None
    } else if fs[i].0 == f {
        Some(i)
    } else {
        vfield_index(fs, f, i + 1)
    }
}

/// The value `v` with its field `f` set to `x`, or the error of assigning
/// to that field.
pub open spec fn spec_set_field(v: SpecValue, f: Seq<char>, x: SpecValue) -> Result<SpecValue, Seq<char>> {
    match v {
        SpecValue::Struct { name, fields } => match vfield_index(fields, f, 0) {
            Some(j) => Ok(SpecValue::Struct { name, fields: fields.update(j, (f, x)) }),
            None => Err("struct `"@ + name + "` has no field `"@ + f + "`"@),
        },
        _ => Err("cannot assign to field `"@ + f + "` on "@ + value_text(v)),
    }
}

/// Looking a field up in a struct's fields and in their view agree.
proof fn lemma_field_index(fs: Seq<(String, Value)>, f: Seq<char>, i: int)
    requires
        0 <= i,
    ensures
        first_key(fs, f, i) == vfield_index(view_fields(fs), f, i),
    decreases fs.len() - i,
{
    lemma_view_fields(fs);
    if i < fs.len() {
        lemma_field_index(fs, f, i + 1);
    }
}

fn set_field(v: Value, field: &str, x: Value) -> (r: Result<Value, Flow>)
    ensures
        match spec_set_field(v@, field@, x@) {
            Ok(w) => r matches Ok(y) && y@ == w,
            Err(m) => r matches Err(Flow::Error(y)) && y@ == m,
        },
{
    proof {
        let vg = v;
        match vg {
            Value::Struct { fields, .. } => {
                lemma_field_index(fields@, field@, 0);
                lemma_first_key(fields@, field@, 0);
            },
            _ => {},
        }
    }
    match v {
        Value::Struct { name, mut fields } => match find(&fields, field) {
            Some(j) => {
                let key = fields[j].0.clone();
                let ghost f0 = fields@;
                let ghost xg = x;
                fields.set(j, (key, x));
                proof {
                    lemma_view_fields(f0);
                    lemma_view_fields(fields@);
                    assert(view_fields(fields@) =~= view_fields(f0).update(j as int, (field@, xg@)));
                }
                Ok(Value::Struct { name, fields })
            }
            None => {
                let mut m = string_of_str("struct `");
                m.append(name.as_str());
                m.append("` has no field `");
                m.append(field);
                m.append("`");
                Err(Flow::Error(m))
            }
        },
        other => {
            let mut m = string_of_str("cannot assign to field `");
            m.append(field);
            m.append("` on ");
            push_value(&mut m, &other);
            Err(Flow::Error(m))
        }
    }
}


impl Interp {
    fn eval_kind(&mut self, prog: &Program, e: &Expr) -> (r: Result<Value, Flow>)
        requires
            old(self).wf(prog),
        ensures
            final(self).wf(prog),
            Self::settled(*old(self), *final(self)),
            r is Ok ==> final(self).fuel < old(self).fuel,
            old(self).fuel + 1 >= pure_cost(*e) ==> match pure_kind(env_of(old(self).scopes@), *e) {
                Some(Ok(v)) => {
                    &&& final(self).scopes == old(self).scopes
                    &&& final(self).out == old(self).out
                    &&& final(self).fuel + 1 == old(self).fuel + 2 - pure_cost(*e)
                    &&& (r matches Ok(x) && x@ == v)
                },
                Some(Err(m)) => {
                    &&& final(self).scopes == old(self).scopes
                    &&& final(self).out == old(self).out
                    &&& (r matches Err(Flow::Error(x)) && x@ == m)
                },
                None => true,
            },
            match print_args(*e) {
                Some(args) => old(self).fuel >= 3 + list_cost(args) ==> match pure_list(env_of(old(self).scopes@), args) {
                    Some(Ok(vs)) => {
                        &&& final(self).scopes == old(self).scopes
                        &&& final(self).fuel == old(self).fuel - 3 - list_cost(args)
                        &&& final(self).out@ == old(self).out@ + line_text(vs) + "\n"@
                        &&& (r matches Ok(x) && x@ == SpecValue::Unit)
                    },
                    Some(Err(m)) => {
                        &&& final(self).scopes == old(self).scopes
                        &&& final(self).out == old(self).out
                        &&& (r matches Err(Flow::Error(x)) && x@ == m)
                    },
                    None => true,
                },
                None => true,
            },
            match pure_ctl_kind(env_of(old(self).scopes@), *e, old(self).fuel as nat) {
                Some(Ok((o, en, f))) => {
                    &&& final(self).out@ == old(self).out@ + o
                    &&& env_of(final(self).scopes@) == en
                    &&& final(self).fuel == f
                    &&& r is Ok
                },
                Some(Err(m)) => r matches Err(Flow::Error(x)) && x@ == m,
                None => true,
            },
        decreases old(self).fuel,
    {
        if self.fuel == 0 {
            return Err(out_of_steps());
        }
        self.fuel = self.fuel - 1;
        match &e.kind {
            ExprKind::Int(n) => Ok(Value::Int(*n)),
            ExprKind::Float(_) => Err(err("floating-point values are not supported by the interpreter")),
            ExprKind::Cast { expr, ty } => {
                let v = self.eval_expr(prog, expr)?;
                let to_int = match ty {
                    TypeExpr::Name(n) => match crate::typeck::prim(n.as_str()) {
                        Some(crate::types::Ty::Int) => true,
                        _ => false,
                    },
                    _ => false,
                };
                match v {
                    Value::Int(n) => {
                        if to_int {
                            Ok(Value::Int(n))
                        } else {
                            Err(err("floating-point values are not supported by the interpreter"))
                        }
                    }
                    other => {
                        let mut m = string_of_str("cannot cast ");
                        push_value(&mut m, &other);
                        m.append(" (numeric casts only)");
                        Err(Flow::Error(m))
                    }
                }
            }
            ExprKind::Str(s) => Ok(Value::Str(s.clone())),
            ExprKind::StrInterp(parts) => self.eval_interp(prog, parts),
            ExprKind::Bool(b) => Ok(Value::Bool(*b)),
            ExprKind::Ident(name) => {
                proof {
                    lemma_env_lookup(self.scopes@, name@);
                }
                match self.read_var(name.as_str()) {
                    Some(v) => Ok(v),
                    None => match self.variant_of(name.as_str()) {
                        Some((en, 0)) => Ok(Value::Enum { enum_name: en, variant: name.clone(), data: Vec::new() }),
                        _ => {
                            let mut m = string_of_str("cannot find `");
                            m.append(name.as_str());
                            m.append("` in scope");
                            Err(Flow::Error(m))
                        }
                    },
                }
            }
            ExprKind::Unary { op, rhs } => {
                let v = self.eval_expr(prog, rhs)?;
                match eval_unary(*op, &v) {
                    Ok(x) => Ok(x),
                    Err(m) => Err(Flow::Error(m)),
                }
            }
            ExprKind::Binary { op, lhs, rhs } => {
                let l = self.eval_expr(prog, lhs)?;
                let r = self.eval_expr(prog, rhs)?;
                match eval_binary(*op, &l, &r) {
                    Ok(x) => Ok(x),
                    Err(m) => Err(Flow::Error(m)),
                }
            }
            ExprKind::Call { callee, args } => self.eval_call(prog, callee.as_str(), args),
            ExprKind::If { cond, then_b, els } => {
                if self.truthy(prog, cond)? {
                    self.eval_block(prog, then_b)
                } else {
                    match els {
                        Some(x) => self.eval_expr(prog, x),
                        None => Ok(Value::Unit),
                    }
                }
            }
            ExprKind::Block(b) => self.eval_block(prog, b),
            ExprKind::StructLit { name, fields } => self.eval_struct_lit(prog, name.as_str(), fields),
            ExprKind::Field { base, field } => {
                let b = self.eval_expr(prog, base)?;
                match b {
                    Value::Struct { name, fields } => match find(&fields, field.as_str()) {
                        Some(j) => Ok(clone_value(&fields[j].1)),
                        None => {
                            let mut m = string_of_str("struct `");
                            m.append(name.as_str());
                            m.append("` has no field `");
                            m.append(field.as_str());
                            m.append("`");
                            Err(Flow::Error(m))
                        }
                    },
                    other => {
                        let mut m = string_of_str("cannot access field `");
                        m.append(field.as_str());
                        m.append("` on ");
                        push_value(&mut m, &other);
                        Err(Flow::Error(m))
                    }
                }
            }
            ExprKind::Path { ty, member, args } => self.eval_path(prog, ty.as_str(), member.as_str(), args),
            ExprKind::MethodCall { receiver, method, args } => self.eval_method(prog, receiver, method.as_str(), args),
            ExprKind::Match { scrutinee, arms } => {
                let val = self.eval_expr(prog, scrutinee)?;
                let ghost f0 = old(self).fuel;
                let ghost before = *old(self);
                let mut i: usize = 0;
                while i < arms.len()
                    invariant
                        i <= arms.len(),
                        e.kind is Match,
                        self.wf(prog),
                        self.fuel < f0,
                        f0 == before.fuel,
                        before == *old(self),
                before == *old(self),
                        self.funcs == before.funcs,
                        self.structs == before.structs,
                        self.variants == before.variants,
                        self.methods == before.methods,
                        self.scopes@.len() == before.scopes@.len(),
                    decreases arms.len() - i,
                {
                    self.scopes.push(Vec::new());
                    if self.match_pattern(&arms[i].pattern, &val) {
                        let r = self.eval_expr(prog, &arms[i].body);
                        self.scopes.pop();
                        return r;
                    }
                    self.scopes.pop();
                    i = i + 1;
                }
                let mut m = string_of_str("no match arm matched value: ");
                push_value(&mut m, &val);
                Err(Flow::Error(m))
            }
            ExprKind::ArrayLit(elems) => {
                let vals = self.eval_args(prog, elems)?;
                Ok(Value::Array(vals))
            }
            ExprKind::Index { base, index } => {
                let b = self.eval_expr(prog, base)?;
                let i = self.eval_expr(prog, index)?;
                match index_value(&b, &i) {
                    Ok(x) => Ok(x),
                    Err(m) => Err(Flow::Error(m)),
                }
            }
            ExprKind::Try(inner) => {
                let v = self.eval_expr(prog, inner)?;
                match try_step(v) {
                    Ok(x) => Ok(x),
                    Err(f) => Err(f),
                }
            }
        }
    }

    /// An interpolated string: the literal pieces and the printed values of
    /// the embedded expressions, in order.
    fn eval_interp(&mut self, prog: &Program, parts: &Vec<StrPart>) -> (r: Result<Value, Flow>)
        requires
            old(self).wf(prog),
        ensures
            final(self).wf(prog),
            Self::settled(*old(self), *final(self)),
            r is Ok ==> final(self).fuel < old(self).fuel,
            old(self).fuel >= 1 + parts_cost(parts@) ==> match pure_parts(env_of(old(self).scopes@), parts@) {
                Some(Ok(t)) => {
                    &&& final(self).scopes == old(self).scopes
                    &&& final(self).out == old(self).out
                    &&& final(self).fuel == old(self).fuel - 1 - parts_cost(parts@)
                    &&& (r matches Ok(x) && x@ == SpecValue::Str(t))
                },
                Some(Err(m)) => {
                    &&& final(self).scopes == old(self).scopes
                    &&& final(self).out == old(self).out
                    &&& (r matches Err(Flow::Error(x)) && x@ == m)
                },
                None => true,
            },
        decreases old(self).fuel,
    {
        if self.fuel == 0 {
            return Err(out_of_steps());
        }
        self.fuel = self.fuel - 1;
        let ghost f0 = old(self).fuel;
        let ghost before = *old(self);
        let ghost env0 = env_of(old(self).scopes@);
        let ghost pure = old(self).fuel >= 1 + parts_cost(parts@) && pure_parts(env0, parts@) is Some;
        let mut out = String::new();
        proof {
            assert(parts@.take(0) =~= Seq::<StrPart>::empty());
        }
        let mut i: usize = 0;
        while i < parts.len()
            invariant
                i <= parts.len(),
                self.wf(prog),
                self.fuel < f0,
                f0 == before.fuel,
                before == *old(self),
                self.funcs == before.funcs,
                self.structs == before.structs,
                self.variants == before.variants,
                self.methods == before.methods,
                self.scopes@.len() == before.scopes@.len(),
                env0 == env_of(before.scopes@),
                pure == (before.fuel >= 1 + parts_cost(parts@) && pure_parts(env0, parts@) is Some),
                pure ==> {
                    &&& self.scopes == before.scopes
                    &&& self.out == before.out
                    &&& self.fuel == f0 - 1 - parts_cost(parts@.take(i as int))
                    &&& pure_parts(env0, parts@.take(i as int)) == Some(Ok::<Seq<char>, Seq<char>>(out@))
                },
            decreases parts.len() - i,
        {
            proof {
                if pure {
                    lemma_parts_prefix(env0, parts@, i + 1);
                    assert(parts@.take(i + 1).drop_last() =~= parts@.take(i as int));
                    assert(parts@.take(i + 1).last() == parts@[i as int]);
                }
            }
            match &parts[i] {
                StrPart::Lit(s) => out.append(s.as_str()),
                StrPart::Expr(x) => {
                    let v = self.eval_expr(prog, x)?;
                    push_value(&mut out, &v);
                }
            }
            i = i + 1;
        }
        proof {
            assert(parts@.take(parts@.len() as int) =~= parts@);
        }
        Ok(Value::Str(out))
    }

    /// `callee(args)`: `print`, a `Result` constructor, a bare variant
    /// constructor, or a function.
    fn eval_call(&mut self, prog: &Program, callee: &str, args: &Vec<Expr>) -> (r: Result<Value, Flow>)
        requires
            old(self).wf(prog),
        ensures
            final(self).wf(prog),
            Self::settled(*old(self), *final(self)),
            r is Ok ==> final(self).fuel < old(self).fuel,
            spec_is_print(callee@) && old(self).fuel >= 2 + list_cost(args@) ==> match pure_list(env_of(old(self).scopes@), args@) {
                Some(Ok(vs)) => {
                    &&& final(self).scopes == old(self).scopes
                    &&& final(self).fuel == old(self).fuel - 2 - list_cost(args@)
                    &&& final(self).out@ == old(self).out@ + line_text(vs) + "\n"@
                    &&& (r matches Ok(x) && x@ == SpecValue::Unit)
                },
                Some(Err(m)) => {
                    &&& final(self).scopes == old(self).scopes
                    &&& final(self).out == old(self).out
                    &&& (r matches Err(Flow::Error(x)) && x@ == m)
                },
                None => true,
            },
        decreases old(self).fuel,
    {
        if self.fuel == 0 {
            return Err(out_of_steps());
        }
        self.fuel = self.fuel - 1;
        let vals = self.eval_args(prog, args)?;
        if is_print_builtin(callee) {
            self.print_line(&vals);
            return Ok(Value::Unit);
        }
        if same_text(callee, "Ok") || same_text(callee, "Err") {
            if vals.len() != 1 {
                let mut m = string_of_str("`");
                m.append(callee);
                m.append("` takes exactly one value");
                return Err(Flow::Error(m));
            }
            return Ok(Value::Enum { enum_name: string_of_str("Result"), variant: string_of_str(callee), data: vals });
        }
        match self.variant_of(callee) {
            Some((enum_name, arity)) => {
                if vals.len() != arity {
                    let mut m = string_of_str("variant `");
                    m.append(callee);
                    m.append("` expects ");
                    push_dec(&mut m, arity as u64);
                    m.append(" value(s), got ");
                    push_dec(&mut m, vals.len() as u64);
                    return Err(Flow::Error(m));
                }
                return Ok(Value::Enum { enum_name, variant: string_of_str(callee), data: vals });
            }
            None => {}
        }
        match self.fn_decl(prog, callee) {
            Some(f) => {
                let (v, _) = self.call(prog, f, None, vals)?;
                Ok(v)
            }
            None => {
                let mut m = string_of_str("cannot find function `");
                m.append(callee);
                m.append("`");
                Err(Flow::Error(m))
            }
        }
    }

    /// `Name { field: value, .. }`: every declared field exactly once.
    fn eval_struct_lit(&mut self, prog: &Program, name: &str, fields: &Vec<(String, Expr)>) -> (r: Result<Value, Flow>)
        requires
            old(self).wf(prog),
        ensures
            final(self).wf(prog),
            Self::settled(*old(self), *final(self)),
            r is Ok ==> final(self).fuel < old(self).fuel,
            old(self).fuel == 0 ==> (r matches Err(Flow::Error(m)) && m@ == "step limit exceeded"@),
            old(self).fuel > 0 ==> match get(old(self).structs@, name@) {
                None => r matches Err(Flow::Error(m)) && m@ == "unknown struct `"@ + name@ + "`"@,
                Some(k) => match prog.items@[k as int] {
                    Item::Struct(d) => if !all_fields_known(d.fields@, fields@) {
                        r matches Err(Flow::Error(m)) && exists|i: int| #[trigger] first_unknown_field(d.fields@, fields@, i)
                            && m@ == "struct `"@ + name@ + "` has no field `"@ + fields@[i].0@ + "`"@
                    } else if fields@.len() != d.fields@.len() {
                        r matches Err(Flow::Error(m)) && m@ == "struct `"@ + name@ + "` expects "@ + dec(d.fields@.len())
                            + " field(s), got "@ + dec(fields@.len())
                    } else if fields@.len() == 0 {
                        r matches Ok(v) && v@ == SpecValue::Struct { name: name@, fields: Seq::empty() }
                    } else {
                        true
                    },
                    _ => true,
                },
            },
        decreases old(self).fuel,
    {
        if self.fuel == 0 {
            return Err(out_of_steps());
        }
        self.fuel = self.fuel - 1;
        let decl = match self.struct_decl(prog, name) {
            Some(d) => d,
            None => {
                let mut m = string_of_str("unknown struct `");
                m.append(name);
                m.append("`");
                return Err(Flow::Error(m));
            }
        };
        let mut i: usize = 0;
        while i < fields.len()
            invariant
                i <= fields.len(),
                self.wf(prog),
                self.fuel < old(self).fuel,
                self.funcs == old(self).funcs,
                self.structs == old(self).structs,
                self.variants == old(self).variants,
                self.methods == old(self).methods,
                self.scopes@.len() == old(self).scopes@.len(),
                old(self).fuel > 0,
                get(old(self).structs@, name@) matches Some(k) && prog.items@[k as int] == Item::Struct(*decl),
                forall|j: int| 0 <= j < i ==> #[trigger] has_key(decl.fields@, fields@[j].0@),
            decreases fields.len() - i,
        {
            if find(&decl.fields, fields[i].0.as_str()).is_none() {
                assert(first_unknown_field(decl.fields@, fields@, i as int));
                let mut m = string_of_str("struct `");
                m.append(name);
                m.append("` has no field `");
                m.append(fields[i].0.as_str());
                m.append("`");
                return Err(Flow::Error(m));
            }
            i = i + 1;
        }
        if fields.len() != decl.fields.len() {
            let mut m = string_of_str("struct `");
            m.append(name);
            m.append("` expects ");
            push_dec(&mut m, decl.fields.len() as u64);
            m.append(" field(s), got ");
            push_dec(&mut m, fields.len() as u64);
            return Err(Flow::Error(m));
        }
        let ghost f0 = old(self).fuel;
        let ghost before = *old(self);
        let mut out: Vec<(String, Value)> = Vec::new();
        let mut i: usize = 0;
        while i < fields.len()
            invariant
                i <= fields.len(),
                self.wf(prog),
                self.fuel < f0,
                f0 == before.fuel,
                before == *old(self),
                self.funcs == before.funcs,
                self.structs == before.structs,
                self.variants == before.variants,
                self.methods == before.methods,
                self.scopes@.len() == before.scopes@.len(),
                old(self).fuel > 0,
                get(old(self).structs@, name@) matches Some(k) && prog.items@[k as int] == Item::Struct(*decl),
                all_fields_known(decl.fields@, fields@),
                fields@.len() == decl.fields@.len(),
                out@.len() == i,
            decreases fields.len() - i,
        {
            let v = self.eval_expr(prog, &fields[i].1)?;
            out.push((fields[i].0.clone(), v));
            i = i + 1;
        }
        Ok(Value::Struct { name: string_of_str(name), fields: out })
    }

    /// `Type::member(args)`: enum construction, or an associated function.
    fn eval_path(&mut self, prog: &Program, ty: &str, member: &str, args: &Vec<Expr>) -> (r: Result<Value, Flow>)
        requires
            old(self).wf(prog),
        ensures
            final(self).wf(prog),
            Self::settled(*old(self), *final(self)),
            r is Ok ==> final(self).fuel < old(self).fuel,
            old(self).fuel == 0 ==> (r matches Err(Flow::Error(m)) && m@ == "step limit exceeded"@),
            old(self).fuel >= 2 + list_cost(args@) && is_variant_path(old(self).variants@, ty@, member@) ==> match pure_list(
                env_of(old(self).scopes@),
                args@,
            ) {
                Some(Ok(vs)) => r matches Ok(v) && v@ == SpecValue::Enum { enum_name: ty@, variant: member@, data: vs },
                Some(Err(m)) => r matches Err(Flow::Error(x)) && x@ == m,
                None => true,
            },
            old(self).fuel > 0 && !is_variant_path(old(self).variants@, ty@, member@) ==> match get2(
                old(self).methods@,
                ty@,
                member@,
            ) {
                None => r matches Err(Flow::Error(x)) && x@ == "no `"@ + ty@ + "::"@ + member@ + "`"@,
                Some((k, mi)) => prog.items@[k as int] matches Item::Impl(b) && !(b.methods@[mi as int].self_kind is Assoc)
                    ==> (r matches Err(Flow::Error(x)) && x@ == "`"@ + ty@ + "::"@ + member@
                    + "` is a method; call it on a value with `.`"@),
            },
        decreases old(self).fuel,
    {
        if self.fuel == 0 {
            return Err(out_of_steps());
        }
        self.fuel = self.fuel - 1;
        match self.variant_of(member) {
            Some((en, _)) => {
                if same_text(en.as_str(), ty) {
                    let data = self.eval_args(prog, args)?;
                    return Ok(Value::Enum { enum_name: en, variant: string_of_str(member), data });
                }
            }
            None => {}
        }
        match self.method_decl(prog, ty, member) {
            Some(m) => {
                if m.self_kind != SelfKind::Assoc {
                    let mut msg = string_of_str("`");
                    msg.append(ty);
                    msg.append("::");
                    msg.append(member);
                    msg.append("` is a method; call it on a value with `.`");
                    return Err(Flow::Error(msg));
                }
                let vals = self.eval_args(prog, args)?;
                let (v, _) = self.call(prog, &m.func, None, vals)?;
                Ok(v)
            }
            None => {
                let mut msg = string_of_str("no `");
                msg.append(ty);
                msg.append("::");
                msg.append(member);
                msg.append("`");
                Err(Flow::Error(msg))
            }
        }
    }

    /// `receiver.method(args)`: a builtin array method, the builtin
    /// `.clone()`, or a method of the receiver's type. A `&mut self` method
    /// writes the updated receiver back.
    fn eval_method(&mut self, prog: &Program, receiver: &Expr, method: &str, args: &Vec<Expr>) -> (r: Result<Value, Flow>)
        requires
            old(self).wf(prog),
        ensures
            final(self).wf(prog),
            Self::settled(*old(self), *final(self)),
            r is Ok ==> final(self).fuel < old(self).fuel,
            old(self).fuel >= 2 + pure_cost(*receiver) && is_len_call(method@, args@) ==> match pure_eval(
                env_of(old(self).scopes@),
                *receiver,
            ) {
                Some(Ok(SpecValue::Array(xs))) => {
                    &&& final(self).scopes == old(self).scopes
                    &&& final(self).out == old(self).out
                    &&& final(self).fuel == old(self).fuel - 2 - pure_cost(*receiver)
                    &&& (r matches Ok(x) && x@ == SpecValue::Int(len_value(xs.len())))
                },
                Some(Err(m)) => {
                    &&& final(self).scopes == old(self).scopes
                    &&& final(self).out == old(self).out
                    &&& (r matches Err(Flow::Error(x)) && x@ == m)
                },
                _ => true,
            },
        decreases old(self).fuel,
    {
        if self.fuel == 0 {
            return Err(out_of_steps());
        }
        self.fuel = self.fuel - 1;
        let recv = self.eval_expr(prog, receiver)?;
        match &recv {
            Value::Array(xs) => match array_method(method) {
                Some(op) => {
                    proof {
                        if args@.len() == 0 {
                            assert(pure_list(env_of(self.scopes@), args@) == Some(
                                Ok::<Seq<SpecValue>, Seq<char>>(Seq::empty()),
                            ));
                            assert(list_cost(args@) == 0);
                        }
                        lemma_view_list(xs@);
                    }
                    let vals = self.eval_args(prog, args)?;
                    return self.array_op(receiver, op, method, xs, vals);
                }
                None => {}
            },
            _ => {}
        }
        let tyname: Option<String> = match &recv {
            Value::Struct { name, .. } => Some(name.clone()),
            Value::Enum { enum_name, .. } => Some(enum_name.clone()),
            _ => None,
        };
        let user = match &tyname {
            Some(t) => self.method_decl(prog, t.as_str(), method),
            None => None,
        };
        if is_clone_method(method) && args.len() == 0 && user.is_none() {
            return Ok(recv);
        }
        let tyname = match tyname {
            Some(t) => t,
            None => {
                let mut m = string_of_str("type `");
                push_value(&mut m, &recv);
                m.append("` has no methods");
                return Err(Flow::Error(m));
            }
        };
        let m = match user {
            Some(m) => m,
            None => {
                let mut msg = string_of_str("`");
                msg.append(tyname.as_str());
                msg.append("` has no method `");
                msg.append(method);
                msg.append("`");
                return Err(Flow::Error(msg));
            }
        };
        if m.self_kind == SelfKind::Assoc {
            let mut msg = string_of_str("`");
            msg.append(tyname.as_str());
            msg.append("::");
            msg.append(method);
            msg.append("` is an associated function; call it as `");
            msg.append(tyname.as_str());
            msg.append("::");
            msg.append(method);
            msg.append("(..)`");
            return Err(Flow::Error(msg));
        }
        let vals = self.eval_args(prog, args)?;
        let mutable = m.self_kind == SelfKind::MutRef;
        let (v, final_self) = self.call(prog, &m.func, Some((recv, mutable)), vals)?;
        if mutable {
            match final_self {
                Some(updated) => self.write_place(receiver, updated)?,
                None => {}
            }
        }
        Ok(v)
    }

    /// `len` / `push` / `pop` on an array value; `push` and `pop` write the
    /// updated array back to the receiver.
    fn array_op(&mut self, receiver: &Expr, op: ArrayMethod, method: &str, xs: &Vec<Value>, vals: Vec<Value>) -> (r: Result<Value, Flow>)
        ensures
            final(self).funcs == old(self).funcs,
            final(self).structs == old(self).structs,
            final(self).variants == old(self).variants,
            final(self).methods == old(self).methods,
            final(self).scopes@.len() == old(self).scopes@.len(),
            final(self).fuel == old(self).fuel,
            op == ArrayMethod::Len && vals@.len() == 0 ==> *final(self) == *old(self) && (r matches Ok(x) && x@
                == SpecValue::Int(len_value(xs@.len() as nat))),
            op == ArrayMethod::Push && vals@.len() == 1 ==> match receiver.kind {
                ExprKind::Ident(n) => match scope_find(old(self).scopes@, n@) {
                    Some((i, j)) => old(self).scopes@[i]@[j].1.mutable ==> (r matches Ok(Value::Unit)
                        && final(self).scopes@[i]@[j].1.value@ == SpecValue::Array(view_list(xs@).push(vals@[0]@))),
                    None => r is Err,
                },
                _ => true,
            },
            op == ArrayMethod::Pop && vals@.len() == 0 ==> if xs@.len() == 0 {
                r matches Err(Flow::Error(m)) && m@ == "pop from an empty array"@
            } else {
                match receiver.kind {
                    ExprKind::Ident(n) => match scope_find(old(self).scopes@, n@) {
                        Some((i, j)) => old(self).scopes@[i]@[j].1.mutable ==> (r matches Ok(x) && x@ == view_list(
                            xs@,
                        ).last() && final(self).scopes@[i]@[j].1.value@ == SpecValue::Array(
                            view_list(xs@).drop_last(),
                        )),
                        None => r is Err,
                    },
                    _ => true,
                }
            },
    {
        proof {
            let rk = receiver.kind;
            match rk {
                ExprKind::Ident(n) => {
                    lemma_scope_find(self.scopes@, n@);
                },
                _ => {},
            }
        }
        match op {
            ArrayMethod::Len => {
                if vals.len() != 0 {
                    return Err(Flow::Error(arity_msg(method, 0)));
                }
                Ok(Value::Int(len_i64(xs.len())))
            }
            ArrayMethod::Push => {
                if vals.len() != 1 {
                    return Err(Flow::Error(arity_msg(method, 1)));
                }
                let mut ys = clone_list(xs);
                let ghost y0 = ys@;
                let c = clone_value(&vals[0]);
                let ghost cg = c;
                ys.push(c);
                proof {
                    assert(ys@.subrange(0, ys@.len() - 1) =~= y0);
                    assert(view_list(ys@) == view_list(y0).push(cg@));
                }
                let nv = Value::Array(ys);
                assert(nv@ == SpecValue::Array(view_list(xs@).push(vals@[0]@)));
                self.write_place(receiver, nv)?;
                Ok(Value::Unit)
            }
            ArrayMethod::Pop => {
                if vals.len() != 0 {
                    return Err(Flow::Error(arity_msg(method, 0)));
                }
                let mut ys = clone_list(xs);
                let ghost y0 = ys@;
                proof {
                    lemma_view_list(y0);
                    lemma_view_list(xs@);
                }
                match ys.pop() {
                    Some(last) => {
                        proof {
                            assert(y0.subrange(0, y0.len() - 1) =~= ys@);
                            assert(view_list(y0) == view_list(ys@).push(last@));
                            assert(view_list(xs@).drop_last() =~= view_list(ys@));
                            assert(view_list(xs@).last() == last@);
                        }
                        self.write_place(receiver, Value::Array(ys))?;
                        Ok(last)
                    }
                    None => Err(err("pop from an empty array")),
                }
            }
        }
    }
}

/// The length of an array as a runtime integer.
fn len_i64(n: usize) -> (r: i64)
    ensures
        r == len_value(n as nat),
{
    if n as u64 > i64::MAX as u64 {
        i64::MAX
    } else {
        n as i64
    }
}

fn arity_msg(method: &str, n: u64) -> (r: String)
    ensures
        r@ == "`"@ + method@ + "` takes "@ + dec(n as nat) + " argument(s)"@,
{
    let mut m = string_of_str("`");
    m.append(method);
    m.append("` takes ");
    push_dec(&mut m, n);
    m.append(" argument(s)");
    m
}

/// `v` is a `Result` value with one payload whose variant is `tag`.
pub open spec fn is_result_variant(v: Value, tag: Seq<char>) -> bool {
    v matches Value::Enum { enum_name, variant, data } && enum_name@ == "Result"@ && data@.len() == 1
        && variant@ == tag
}

/// The `?` operator on a value: the payload of `Ok`, or an early return of
/// the whole `Err`.
fn try_step(v: Value) -> (r: Result<Value, Flow>)
    ensures
        is_result_variant(v, "Ok"@) ==> r == Ok::<Value, Flow>(v->data@[0]),
        is_result_variant(v, "Err"@) ==> r == Err::<Value, Flow>(Flow::Return(v)),
        !is_result_variant(v, "Ok"@) && !is_result_variant(v, "Err"@) ==> (r matches Err(
            Flow::Error(m),
        ) && m@ == "`?` requires a `Result`, found "@ + value_text(v@)),
{
    proof {
        reveal_strlit("Ok");
        reveal_strlit("Err");
        assert("Ok"@.len() == 2 && "Err"@.len() == 3);
        assert("Ok"@ != "Err"@);
    }
    let kind: u8 = match &v {
        Value::Enum { enum_name, variant, data } => {
            if same_text(enum_name.as_str(), "Result") && data.len() == 1 {
                if same_text(variant.as_str(), "Ok") {
                    1
                } else if same_text(variant.as_str(), "Err") {
                    2
                } else {
                    0
                }
            } else {
                0
            }
        }
        _ => 0,
    };
    if kind == 1 {
        assert(is_result_variant(v, "Ok"@));
        assert(!is_result_variant(v, "Err"@));
        match v {
            Value::Enum { mut data, .. } => match data.pop() {
                Some(x) => Ok(x),
                None => Err(err("`?` requires a `Result`")),
            },
            _ => Err(err("`?` requires a `Result`")),
        }
    } else if kind == 2 {
        assert(is_result_variant(v, "Err"@));
        Err(Flow::Return(v))
    } else {
        let mut m = string_of_str("`?` requires a `Result`, found ");
        push_value(&mut m, &v);
        Err(Flow::Error(m))
    }
}

} // verus!
