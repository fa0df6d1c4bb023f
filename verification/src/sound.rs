//! How the type checker and the interpreter agree: programs the checker
//! accepts do not fail on a value of the wrong type.

use vstd::prelude::*;
use crate::ast::{single_entry, AssignTarget, Block, Expr, ExprKind, Program, Stmt, StrPart, UnOp};
use crate::interp::{
    pure_foreach,
    pure_kind,
    env_assign, env_bind, env_find, env_lookup, env_put, first_in, lemma_env_find_bounds, lemma_first_in_bounds,
    print_args, pure_block, pure_cost, pure_ctl_expr, pure_ctl_kind, pure_eval, pure_for, pure_list, pure_parts, pure_stmt,
    pure_stmts, pure_while, VarView, STEP_BUDGET,
};
use crate::typeck::{
    elem_scope,
    elems_stay, pure_elem_types, pure_type_kind, takes_empty,
    ann_prim, for_scope, lemma_check_block_shape, lemma_shape_drop_last_pub, lemma_shape_sym, lemma_shape_trans, pure_check_block, pure_check_ctl, spec_expect_ty, tmerge,
    tsame_shape, has_line_prefix, pure_part_types, lemma_tenv_find_bounds, lemma_tfirst_in_bounds, pure_check_entry, pure_check_stmt, pure_check_stmts, pure_type,
    pure_types, spec_require_mutable, spec_with_line, tenv_bind, tenv_find, tenv_mark, tenv_move, tenv_unmove,
    tfirst_in, tput, TyView,
};
use crate::types::{spec_has_unknown, spec_types_match, SpecTy};
use crate::text::{dec, int_text};
use crate::value::{spec_arith, spec_index, value_text, SpecValue};

verus! {

/// A runtime value matches the type `t`: an `int` is an integer, a struct
/// type holds structs of that name, an array type holds arrays whose
/// elements match its element type, and so on. No value has a `float` type
/// (the interpreter has none) or the unknown type.
pub open spec fn has_type(v: SpecValue, t: SpecTy) -> bool
    decreases v, 1int,
{
    match (v, t) {
        (SpecValue::Int(_), SpecTy::Int) => true,
        (SpecValue::Bool(_), SpecTy::Bool) => true,
        (SpecValue::Str(_), SpecTy::Str) => true,
        (SpecValue::Unit, SpecTy::Unit) => true,
        (SpecValue::Struct { name, .. }, SpecTy::Struct(n)) => name == n,
        (SpecValue::Enum { enum_name, .. }, SpecTy::Enum(n)) => enum_name == n,
        (SpecValue::Enum { .. }, SpecTy::Result(_, _)) => true,
        (SpecValue::Array(xs), SpecTy::Vec(et)) => all_have_type(xs, *et),
        _ => false,
    }
}

/// Every value of `xs` matches the type `t`.
pub open spec fn all_have_type(xs: Seq<SpecValue>, t: SpecTy) -> bool
    decreases xs, 0int,
{
    if xs.len() == 0 {
        true
    } else {
        all_have_type(xs.drop_last(), t) && has_type(xs.last(), t)
    }
}

proof fn lemma_all_have_type(xs: Seq<SpecValue>, t: SpecTy)
    ensures
        all_have_type(xs, t) == forall|k: int| 0 <= k < xs.len() ==> has_type(#[trigger] xs[k], t),
    decreases xs.len(),
{
    if xs.len() > 0 {
        let init = xs.drop_last();
        lemma_all_have_type(init, t);
        if forall|k: int| 0 <= k < xs.len() ==> has_type(#[trigger] xs[k], t) {
            assert forall|k: int| 0 <= k < init.len() implies has_type(#[trigger] init[k], t) by {
                assert(init[k] == xs[k]);
            }
            assert(has_type(xs[xs.len() - 1], t));
        }
        if all_have_type(xs, t) {
            assert forall|k: int| 0 <= k < xs.len() implies has_type(#[trigger] xs[k], t) by {
                if k < xs.len() - 1 {
                    assert(init[k] == xs[k]);
                }
            }
        }
    }
}

/// No binding's type holds the unknown type anywhere.
pub open spec fn known_types(scopes: Seq<Seq<TyView>>) -> bool {
    forall|i: int, j: int| 0 <= i < scopes.len() && 0 <= j < scopes[i].len() ==> !spec_has_unknown(#[trigger] scopes[i][j].ty)
}

/// The runtime variables agree with the checker's bindings: the checked
/// types are fully known, and every variable the checker can still read has
/// a value of its checked type.
pub open spec fn env_conforms(scopes: Seq<Seq<TyView>>, env: Seq<Seq<VarView>>) -> bool {
    &&& known_types(scopes)
    &&& forall|k: Seq<char>|
        match #[trigger] tenv_find(scopes, k) {
            Some((i, j)) => scopes[i][j].moved is None ==> (env_lookup(env, k) matches Some(v) && has_type(
                v,
                scopes[i][j].ty,
            )),
            None => true,
        }
}

/// The faults of checked integer arithmetic.
pub open spec fn arith_fault(b: Seq<char>) -> bool {
    b == "division by zero"@ || b == "remainder by zero"@ || b == "integer overflow"@
}

/// The fault of indexing outside an array.
pub open spec fn bounds_fault(b: Seq<char>) -> bool {
    exists|k: int, n: nat| b == "index "@ + int_text(k) + " out of bounds for array of length "@ + dec(n)
}

/// The fault of `==` or `!=` on two values that are not both ints, both
/// strings or both booleans (the checker accepts equality on any two values
/// of one type).
pub open spec fn compare_fault(b: Seq<char>) -> bool {
    exists|l: SpecValue, r: SpecValue| b == "cannot compare "@ + value_text(l) + " and "@ + value_text(r)
}

/// The faults that the interpreter checks for at run time: checked
/// arithmetic, bounds-checked indexing, and equality on values that cannot
/// be compared.
pub open spec fn checked_fault(b: Seq<char>) -> bool {
    arith_fault(b) || bounds_fault(b) || compare_fault(b)
}

/// A runtime error raised by checked arithmetic or indexing, tagged with
/// its line.
pub open spec fn checked_error(m: Seq<char>) -> bool {
    exists|l: nat, b: Seq<char>| checked_fault(b) && m == spec_with_line(l, b)
}

/// Whether a float literal occurs in the operator expression `e`.
pub open spec fn mentions_float(e: Expr) -> bool
    decreases e, 1int,
{
    match e.kind {
        ExprKind::Float(_) => true,
        ExprKind::Unary { rhs, .. } => mentions_float(*rhs),
        ExprKind::Binary { lhs, rhs, .. } => mentions_float(*lhs) || mentions_float(*rhs),
        ExprKind::StrInterp(parts) => parts_mention_float(parts@),
        ExprKind::ArrayLit(elems) => list_mentions_float(elems@),
        ExprKind::Index { base, index } => mentions_float(*base) || mentions_float(*index),
        ExprKind::MethodCall { receiver, .. } => mentions_float(*receiver),
        _ => false,
    }
}

/// Whether a float literal occurs in one of the expressions `s`.
pub open spec fn list_mentions_float(s: Seq<Expr>) -> bool
    decreases s, 0int,
{
    if s.len() == 0 {
        false
    } else {
        list_mentions_float(s.drop_last()) || mentions_float(s.last())
    }
}

/// Whether a float literal occurs in the embedded expressions `ps`.
pub open spec fn parts_mention_float(ps: Seq<StrPart>) -> bool
    decreases ps, 0int,
{
    if ps.len() == 0 {
        false
    } else {
        parts_mention_float(ps.drop_last()) || match ps.last() {
            StrPart::Lit(_) => false,
            StrPart::Expr(x) => mentions_float(*x),
        }
    }
}

/// The embedded expressions of an interpolated string the checker accepts
/// evaluate without a type error.
proof fn lemma_parts_sound(scopes: Seq<Seq<TyView>>, env: Seq<Seq<VarView>>, ps: Seq<StrPart>)
    requires
        pure_part_types(scopes, ps) == Some(Ok::<(), Seq<char>>(())),
        env_conforms(scopes, env),
    ensures
        match pure_parts(env, ps) {
            Some(Ok(_)) => true,
            Some(Err(m)) => checked_error(m),
            None => parts_mention_float(ps),
        },
    decreases ps, 0int,
{
    if ps.len() > 0 {
        lemma_parts_sound(scopes, env, ps.drop_last());
        match ps.last() {
            StrPart::Expr(x) => {
                let t = pure_type(scopes, *x)->0->Ok_0;
                law_operators_sound(scopes, env, *x, t);
            },
            _ => {},
        }
    }
}

proof fn lemma_tag_twice(l: nat, b: Seq<char>, l2: nat)
    requires
        checked_fault(b),
    ensures
        has_line_prefix(spec_with_line(l, b)),
        spec_with_line(l2, spec_with_line(l, b)) == spec_with_line(l, b),
        checked_error(spec_with_line(l, b)),
{
    reveal_strlit("line ");
    reveal_strlit("division by zero");
    reveal_strlit("remainder by zero");
    reveal_strlit("integer overflow");
    reveal_strlit("index ");
    if bounds_fault(b) {
        let (k, n) = choose|k: int, n: nat| b == "index "@ + int_text(k) + " out of bounds for array of length "@ + dec(n);
        assert(b[0] == "index "@[0]);
    }
    if compare_fault(b) {
        reveal_strlit("cannot compare ");
        let (x, y) = choose|x: SpecValue, y: SpecValue| b == "cannot compare "@ + value_text(x) + " and "@ + value_text(y);
        assert(b[0] == "cannot compare "@[0]);
    }
    assert(!has_line_prefix(b)) by {
        assert(b[0] != 'l');
        if b.len() >= 5 {
            assert(b.take(5)[0] == b[0]);
            assert("line "@[0] == 'l');
        }
    }
    let m = spec_with_line(l, b);
    assert(m.take(5) =~= "line "@);
}

proof fn lemma_retag(m: Seq<char>, l2: nat)
    requires
        checked_error(m),
    ensures
        spec_with_line(l2, m) == m,
{
    let (l, b) = choose|l: nat, b: Seq<char>| checked_fault(b) && m == spec_with_line(l, b);
    lemma_tag_twice(l, b, l2);
}

/// The checker gives an expression a fully known type, where its bindings'
/// types are fully known.
proof fn lemma_type_known(scopes: Seq<Seq<TyView>>, e: Expr)
    requires
        known_types(scopes),
    ensures
        pure_type(scopes, e) matches Some(Ok(t)) ==> !spec_has_unknown(t),
    decreases e,
{
    match e.kind {
        ExprKind::Ident(name) => {
            lemma_tenv_find_bounds(scopes, name@);
        },
        ExprKind::Unary { rhs, .. } => lemma_type_known(scopes, *rhs),
        ExprKind::Binary { lhs, rhs, .. } => {
            lemma_type_known(scopes, *lhs);
            lemma_type_known(scopes, *rhs);
        },
        ExprKind::ArrayLit(elems) => {
            if elems@.len() > 0 {
                lemma_type_known(scopes, elems@[0]);
            }
        },
        ExprKind::Index { base, .. } => lemma_type_known(scopes, *base),
        _ => {},
    }
}

/// The elements of an array literal the checker accepts, with the type
/// `t0` of the first, evaluate to values of that type, or fail on a checked
/// fault.
proof fn lemma_elems_sound(scopes: Seq<Seq<TyView>>, env: Seq<Seq<VarView>>, s: Seq<Expr>, t0: SpecTy)
    requires
        env_conforms(scopes, env),
        s.len() > 0,
        pure_type(scopes, s[0]) == Some(Ok::<SpecTy, Seq<char>>(t0)),
        pure_elem_types(scopes, s, t0) == Some(Ok::<(), Seq<char>>(())),
    ensures
        match pure_list(env, s) {
            Some(Ok(vs)) => all_have_type(vs, t0),
            Some(Err(m)) => checked_error(m),
            None => list_mentions_float(s),
        },
    decreases s, 0int,
{
    let init = s.drop_last();
    let x = s.last();
    assert(pure_list(env, s) == match pure_list(env, init) {
        Some(Ok(vs)) => match pure_eval(env, x) {
            Some(Ok(v)) => Some(Ok(vs.push(v))),
            Some(Err(m)) => Some(Err(m)),
            None => None,
        },
        other => other,
    });
    assert(list_mentions_float(s) == (list_mentions_float(init) || mentions_float(x)));
    if s.len() == 1 {
        assert(init =~= Seq::<Expr>::empty());
        assert(x == s[0]);
        assert(pure_list(env, init) == Some(Ok::<Seq<SpecValue>, Seq<char>>(Seq::empty())));
        assert(!list_mentions_float(init));
        law_operators_sound(scopes, env, x, t0);
        match pure_eval(env, x) {
            Some(Ok(v)) => {
                assert(Seq::<SpecValue>::empty().push(v).drop_last() =~= Seq::<SpecValue>::empty());
                assert(all_have_type(Seq::<SpecValue>::empty(), t0));
                assert(all_have_type(Seq::<SpecValue>::empty().push(v), t0));
            },
            _ => {},
        }
    } else {
        assert(init[0] == s[0]);
        assert(pure_elem_types(scopes, init, t0) == Some(Ok::<(), Seq<char>>(())));
        lemma_elems_sound(scopes, env, init, t0);
        lemma_type_known(scopes, s[0]);
        let v_opt = pure_eval(env, x);
        if takes_empty(x, t0) {
            match x.kind {
                ExprKind::ArrayLit(es) => {
                    assert(es@ =~= Seq::<Expr>::empty());
                    assert(pure_list(env, es@) == Some(Ok::<Seq<SpecValue>, Seq<char>>(Seq::empty())));
                    assert(has_type(SpecValue::Array(Seq::empty()), t0));
                    assert(pure_kind(env, x) == Some(Ok::<SpecValue, Seq<char>>(SpecValue::Array(Seq::empty()))));
                    assert(v_opt == Some(Ok::<SpecValue, Seq<char>>(SpecValue::Array(Seq::empty()))));
                },
                _ => {},
            }
        } else {
            assert(pure_type(scopes, x) is Some && pure_type(scopes, x)->0 is Ok);
            let t = pure_type(scopes, x)->0->Ok_0;
            assert(spec_types_match(t, t0));
            law_operators_sound(scopes, env, x, t);
            lemma_match_sym(t, t0);
            match v_opt {
                Some(Ok(v)) => lemma_has_matching_type(v, t0, t),
                _ => {},
            }
        }
        match (pure_list(env, init), v_opt) {
            (Some(Ok(vs)), Some(Ok(v))) => {
                assert(vs.push(v).drop_last() =~= vs);
                assert(has_type(v, t0));
                assert(all_have_type(vs, t0));
                assert(all_have_type(vs.push(v), t0));
            },
            (Some(Ok(vs)), Some(Err(m))) => {
                assert(checked_error(m));
            },
            _ => {},
        }
    }
}

/// Well-typed operator expressions do not go wrong. Where the checker gives
/// an operator expression a type, and each variable it can read holds a
/// value of its checked type, evaluating the expression gives a value of
/// that type or fails only on a checked fault (overflow, division or
/// remainder by zero, an index outside an array); it never fails on a type
/// mismatch. Only a float literal, which the interpreter does not run,
/// leaves it unevaluated.
pub proof fn law_operators_sound(scopes: Seq<Seq<TyView>>, env: Seq<Seq<VarView>>, e: Expr, t: SpecTy)
    requires
        pure_type(scopes, e) == Some(Ok::<SpecTy, Seq<char>>(t)),
        env_conforms(scopes, env),
    ensures
        match pure_eval(env, e) {
            Some(Ok(v)) => has_type(v, t),
            Some(Err(m)) => checked_error(m),
            None => mentions_float(e),
        },
    decreases e, 1int,
{
    match e.kind {
        ExprKind::Ident(name) => {
            assert(tenv_find(scopes, name@) is Some);
        },
        ExprKind::Unary { op, rhs } => {
            let tr = pure_type(scopes, *rhs)->0->Ok_0;
            law_operators_sound(scopes, env, *rhs, tr);
            match pure_eval(env, *rhs) {
                Some(Ok(v)) => {
                    match op {
                        UnOp::Neg => {
                            match v {
                                SpecValue::Int(n) => if n == i64::MIN {
                                    lemma_tag_twice(e.line as nat, "integer overflow"@, e.line as nat);
                                },
                                _ => {},
                            }
                        },
                        UnOp::Not => {},
                    }
                },
                Some(Err(m)) => lemma_retag(m, e.line as nat),
                None => {},
            }
        },
        ExprKind::Binary { op, lhs, rhs } => {
            let ta = pure_type(scopes, *lhs)->0->Ok_0;
            let tb = pure_type(scopes, *rhs)->0->Ok_0;
            law_operators_sound(scopes, env, *lhs, ta);
            law_operators_sound(scopes, env, *rhs, tb);
            match pure_eval(env, *lhs) {
                Some(Ok(a)) => match pure_eval(env, *rhs) {
                    Some(Ok(b)) => {
                        match (a, b) {
                            (SpecValue::Int(x), SpecValue::Int(y)) => {
                                match spec_arith(op, x, y) {
                                    Err(f) => {
                                        if op is Add || op is Sub || op is Mul || op is Div || op is Rem {
                                            lemma_tag_twice(e.line as nat, f, e.line as nat);
                                        }
                                    },
                                    _ => {},
                                }
                            },
                            _ => {},
                        }
                    },
                    Some(Err(m)) => lemma_retag(m, e.line as nat),
                    None => {},
                },
                Some(Err(m)) => lemma_retag(m, e.line as nat),
                None => {},
            }
        },
        ExprKind::StrInterp(parts) => {
            lemma_parts_sound(scopes, env, parts@);
            match pure_parts(env, parts@) {
                Some(Err(m)) => lemma_retag(m, e.line as nat),
                _ => {},
            }
        },
        ExprKind::ArrayLit(elems) => {
            let t0 = pure_type(scopes, elems@[0])->0->Ok_0;
            lemma_elems_sound(scopes, env, elems@, t0);
            match pure_list(env, elems@) {
                Some(Err(m)) => lemma_retag(m, e.line as nat),
                _ => {},
            }
        },
        ExprKind::MethodCall { receiver, .. } => {
            let rt = pure_type(scopes, *receiver)->0->Ok_0;
            law_operators_sound(scopes, env, *receiver, rt);
            match pure_eval(env, *receiver) {
                Some(Err(m)) => lemma_retag(m, e.line as nat),
                _ => {},
            }
        },
        ExprKind::Index { base, index } => {
            let bt = pure_type(scopes, *base)->0->Ok_0;
            let it = pure_type(scopes, *index)->0->Ok_0;
            law_operators_sound(scopes, env, *base, bt);
            law_operators_sound(scopes, env, *index, it);
            match pure_eval(env, *base) {
                Some(Ok(a)) => match pure_eval(env, *index) {
                    Some(Ok(b)) => {
                        lemma_match_sym(it, SpecTy::Int);
                        lemma_has_matching_type(b, SpecTy::Int, it);
                        match (a, b, bt) {
                            (SpecValue::Array(xs), SpecValue::Int(k), SpecTy::Vec(et)) => {
                                lemma_all_have_type(xs, *et);
                                if 0 <= k < xs.len() {
                                    assert(has_type(xs[k as int], *et));
                                } else {
                                    let b0 = "index "@ + int_text(k as int) + " out of bounds for array of length "@
                                        + dec(xs.len());
                                    assert(bounds_fault(b0));
                                    lemma_tag_twice(e.line as nat, b0, e.line as nat);
                                }
                            },
                            _ => {},
                        }
                    },
                    Some(Err(m)) => lemma_retag(m, e.line as nat),
                    None => {},
                },
                Some(Err(m)) => lemma_retag(m, e.line as nat),
                None => {},
            }
        },
        _ => {},
    }
}


/// The checker's bindings and the running program's variables line up:
/// the same scopes, the same names in the same places, the same
/// mutability, and each variable holds a value of its checked type (a
/// moved value is still there at run time). No binding has the unknown
/// type.
pub open spec fn aligned(tenv: Seq<Seq<TyView>>, env: Seq<Seq<VarView>>) -> bool {
    &&& tenv.len() == env.len()
    &&& forall|i: int| 0 <= i < tenv.len() ==> (#[trigger] tenv[i]).len() == env[i].len()
    &&& forall|i: int, j: int|
        0 <= i < tenv.len() && 0 <= j < tenv[i].len() ==> {
            &&& (#[trigger] tenv[i][j]).name == env[i][j].name
            &&& tenv[i][j].mutable == env[i][j].mutable
            &&& !spec_has_unknown(tenv[i][j].ty)
            &&& has_type(env[i][j].value, tenv[i][j].ty)
        }
}

proof fn lemma_first_aligned(tsc: Seq<TyView>, sc: Seq<VarView>, k: Seq<char>, i: int)
    requires
        tsc.len() == sc.len(),
        forall|j: int| 0 <= j < tsc.len() ==> (#[trigger] tsc[j]).name == sc[j].name,
    ensures
        tfirst_in(tsc, k, i) == first_in(sc, k, i),
    decreases tsc.len() - i,
{
    if 0 <= i < tsc.len() {
        lemma_first_aligned(tsc, sc, k, i + 1);
    }
}

proof fn lemma_find_aligned(tenv: Seq<Seq<TyView>>, env: Seq<Seq<VarView>>, k: Seq<char>)
    requires
        aligned(tenv, env),
    ensures
        tenv_find(tenv, k) == env_find(env, k),
        env_lookup(env, k) == match env_find(env, k) {
            Some((i, j)) => Some(env[i][j].value),
            None => None,
        },
    decreases tenv.len(),
{
    if tenv.len() > 0 {
        let l = tenv.len() - 1;
        assert forall|j: int| 0 <= j < tenv.last().len() implies (#[trigger] tenv.last()[j]).name == env.last()[j].name by {
            assert(tenv[l][j] == tenv.last()[j]);
        }
        lemma_first_aligned(tenv.last(), env.last(), k, 0);
        let td = tenv.drop_last();
        let ed = env.drop_last();
        assert forall|i: int| 0 <= i < td.len() implies (#[trigger] td[i]).len() == ed[i].len() by {
            assert(td[i] == tenv[i]);
        }
        assert forall|i: int, j: int| 0 <= i < td.len() && 0 <= j < td[i].len() implies {
            &&& (#[trigger] td[i][j]).name == ed[i][j].name
            &&& td[i][j].mutable == ed[i][j].mutable
            &&& !spec_has_unknown(td[i][j].ty)
            &&& has_type(ed[i][j].value, td[i][j].ty)
        } by {
            assert(td[i][j] == tenv[i][j]);
        }
        lemma_find_aligned(td, ed, k);
        lemma_first_in_bounds(env.last(), k, 0);
        lemma_env_find_bounds(ed, k);
        match env_find(ed, k) {
            Some((i, j)) => {
                assert(ed[i] == env[i]);
            },
            None => {},
        }
    }
}

/// Moving only sets a `moved` mark: names, types and mutability stay.
proof fn lemma_move_shape(tenv: Seq<Seq<TyView>>, e: Expr)
    ensures
        tenv_move(tenv, e).len() == tenv.len(),
        forall|a: int| 0 <= a < tenv.len() ==> (#[trigger] tenv_move(tenv, e)[a]).len() == tenv[a].len(),
        forall|a: int, c: int| 0 <= a < tenv.len() && 0 <= c < tenv[a].len() ==> {
            &&& (#[trigger] tenv_move(tenv, e)[a][c]).name == tenv[a][c].name
            &&& tenv_move(tenv, e)[a][c].ty == tenv[a][c].ty
            &&& tenv_move(tenv, e)[a][c].mutable == tenv[a][c].mutable
        },
{
    match e.kind {
        ExprKind::Ident(n) => lemma_tenv_find_bounds(tenv, n@),
        _ => {},
    }
}

/// Aligned bindings and variables conform.
proof fn lemma_aligned_conforms(tenv: Seq<Seq<TyView>>, env: Seq<Seq<VarView>>)
    requires
        aligned(tenv, env),
    ensures
        env_conforms(tenv, env),
{
    assert forall|k: Seq<char>| match #[trigger] tenv_find(tenv, k) {
        Some((i, j)) => tenv[i][j].moved is None ==> (env_lookup(env, k) matches Some(v) && has_type(v, tenv[i][j].ty)),
        None => true,
    } by {
        lemma_find_aligned(tenv, env, k);
        lemma_tenv_find_bounds(tenv, k);
    }
    assert(known_types(tenv));
}

/// Marking a binding moved keeps the alignment.
proof fn lemma_mark_aligned(tenv: Seq<Seq<TyView>>, env: Seq<Seq<VarView>>, i: int, j: int, line: usize)
    requires
        aligned(tenv, env),
        0 <= i < tenv.len(),
        0 <= j < tenv[i].len(),
    ensures
        aligned(tenv_mark(tenv, i, j, line), env),
{
    let t2 = tenv_mark(tenv, i, j, line);
    assert forall|a: int| 0 <= a < t2.len() implies (#[trigger] t2[a]).len() == env[a].len() by {
        assert(tenv[a].len() == env[a].len());
    }
    assert forall|a: int, b: int| 0 <= a < t2.len() && 0 <= b < t2[a].len() implies {
        &&& (#[trigger] t2[a][b]).name == env[a][b].name
        &&& t2[a][b].mutable == env[a][b].mutable
        &&& !spec_has_unknown(t2[a][b].ty)
        &&& has_type(env[a][b].value, t2[a][b].ty)
    } by {
        assert(tenv[a][b].name == env[a][b].name);
    }
}

proof fn lemma_move_aligned(tenv: Seq<Seq<TyView>>, env: Seq<Seq<VarView>>, e: Expr)
    requires
        aligned(tenv, env),
    ensures
        aligned(tenv_move(tenv, e), env),
{
    match e.kind {
        ExprKind::Ident(n) => {
            lemma_tenv_find_bounds(tenv, n@);
            match tenv_find(tenv, n@) {
                Some((i, j)) => if !crate::types::spec_is_copy(tenv[i][j].ty) {
                    lemma_mark_aligned(tenv, env, i, j, e.line);
                },
                None => {},
            }
        },
        _ => {},
    }
}

/// A value of a type compatible with a known type has that type.
proof fn lemma_has_matching_type(v: SpecValue, a: SpecTy, b: SpecTy)
    requires
        has_type(v, b),
        spec_types_match(a, b),
        !spec_has_unknown(a),
    ensures
        has_type(v, a),
    decreases v,
{
    match (v, a, b) {
        (SpecValue::Array(xs), SpecTy::Vec(ea), SpecTy::Vec(eb)) => {
            lemma_all_have_type(xs, *eb);
            lemma_all_have_type(xs, *ea);
            assert forall|k: int| 0 <= k < xs.len() implies has_type(#[trigger] xs[k], *ea) by {
                lemma_has_matching_type(xs[k], *ea, *eb);
            }
        },
        _ => {},
    }
}

proof fn lemma_match_sym(a: SpecTy, b: SpecTy)
    ensures
        spec_types_match(a, b) == spec_types_match(b, a),
    decreases a,
{
    match (a, b) {
        (SpecTy::Vec(x), SpecTy::Vec(y)) => lemma_match_sym(*x, *y),
        (SpecTy::Result(t1, e1), SpecTy::Result(t2, e2)) => {
            lemma_match_sym(*t1, *t2);
            lemma_match_sym(*e1, *e2);
        },
        _ => {},
    }
}

/// Binding a value of the checked type keeps the alignment.
proof fn lemma_bind_aligned(tenv: Seq<Seq<TyView>>, env: Seq<Seq<VarView>>, b: TyView, v: SpecValue)
    requires
        aligned(tenv, env),
        tenv.len() >= 1,
        b.moved is None,
        !spec_has_unknown(b.ty),
        has_type(v, b.ty),
    ensures
        aligned(tenv_bind(tenv, b), env_bind(env, b.name, v, b.mutable)),
{
    let l = tenv.len() - 1;
    assert forall|j: int| 0 <= j < tenv.last().len() implies (#[trigger] tenv.last()[j]).name == env.last()[j].name by {
        assert(tenv[l][j] == tenv.last()[j]);
    }
    lemma_first_aligned(tenv.last(), env.last(), b.name, 0);
    lemma_tfirst_in_bounds(tenv.last(), b.name, 0);
    let t2 = tenv_bind(tenv, b);
    let e2 = env_bind(env, b.name, v, b.mutable);
    assert(t2[l] == tput(tenv.last(), b));
    assert(e2[l] == env_put(env.last(), b.name, v, b.mutable));
    assert(tenv.last().len() == env.last().len()) by {
        assert(tenv[l].len() == env[l].len());
    }
    assert forall|a: int| 0 <= a < t2.len() implies (#[trigger] t2[a]).len() == e2[a].len() by {
        assert(tenv[a].len() == env[a].len());
        if a != l {
            assert(t2[a] == tenv[a]);
            assert(e2[a] == env[a]);
        }
    }
    assert forall|a: int, c: int| 0 <= a < t2.len() && 0 <= c < t2[a].len() implies {
        &&& (#[trigger] t2[a][c]).name == e2[a][c].name
        &&& t2[a][c].mutable == e2[a][c].mutable
        &&& !spec_has_unknown(t2[a][c].ty)
        &&& has_type(e2[a][c].value, t2[a][c].ty)
    } by {
        if a == l {
            match tfirst_in(tenv.last(), b.name, 0) {
                Some(x) => {
                    if c != x {
                        assert(tenv[l][c] == tenv.last()[c]);
                        assert(tenv[l][c].name == env[l][c].name);
                    }
                },
                None => {
                    if c < tenv.last().len() {
                        assert(tenv[l][c] == tenv.last()[c]);
                        assert(tenv[l][c].name == env[l][c].name);
                    }
                },
            }
        } else {
            assert(t2[a] == tenv[a]);
            assert(e2[a] == env[a]);
            assert(tenv[a][c].name == env[a][c].name);
        }
    }
}

/// Assigning a value of a compatible type to a mutable binding succeeds at
/// run time and keeps the alignment.
proof fn lemma_assign_aligned(tenv: Seq<Seq<TyView>>, env: Seq<Seq<VarView>>, name: Seq<char>, slot: SpecTy, value: Expr, v: SpecValue, vt: SpecTy)
    requires
        aligned(tenv, env),
        spec_require_mutable(tenv, name) == Ok::<SpecTy, Seq<char>>(slot),
        has_type(v, vt),
        spec_types_match(slot, vt),
    ensures
        env_assign(env, name, v) matches Ok(env2) && aligned(tenv_unmove(tenv_move(tenv, value), name), env2),
{
    lemma_find_aligned(tenv, env, name);
    lemma_tenv_find_bounds(tenv, name);
    let (i, j) = tenv_find(tenv, name)->0;
    lemma_has_matching_type(v, slot, vt);
    lemma_move_aligned(tenv, env, value);
    let t1 = tenv_move(tenv, value);
    lemma_find_aligned(t1, env, name);
    lemma_move_shape(tenv, value);
    let e2 = env.update(i, env[i].update(j, VarView { name: name, value: v, mutable: true }));
    let t2 = tenv_unmove(t1, name);
    assert(t1[i][j].ty == tenv[i][j].ty);
    assert(env[i][j].mutable == tenv[i][j].mutable);
    assert(env_assign(env, name, v) == Ok::<Seq<Seq<VarView>>, Seq<char>>(e2));
    assert forall|a: int| 0 <= a < t2.len() implies (#[trigger] t2[a]).len() == e2[a].len() by {
        assert(t1[a].len() == env[a].len());
    }
    assert forall|a: int, c: int| 0 <= a < t2.len() && 0 <= c < t2[a].len() implies {
        &&& (#[trigger] t2[a][c]).name == e2[a][c].name
        &&& t2[a][c].mutable == e2[a][c].mutable
        &&& !spec_has_unknown(t2[a][c].ty)
        &&& has_type(e2[a][c].value, t2[a][c].ty)
    } by {
        assert(t1[a][c].name == env[a][c].name);
    }
}

proof fn lemma_types_sound(tenv: Seq<Seq<TyView>>, env: Seq<Seq<VarView>>, args: Seq<Expr>)
    requires
        aligned(tenv, env),
        pure_types(tenv, args) == Some(Ok::<(), Seq<char>>(())),
    ensures
        match pure_list(env, args) {
            Some(Ok(_)) => true,
            Some(Err(m)) => checked_error(m),
            None => exists|i: int| 0 <= i < args.len() && mentions_float(#[trigger] args[i]),
        },
    decreases args.len(),
{
    if args.len() > 0 {
        let init = args.drop_last();
        lemma_types_sound(tenv, env, init);
        lemma_aligned_conforms(tenv, env);
        let t = pure_type(tenv, args.last())->0->Ok_0;
        law_operators_sound(tenv, env, args.last(), t);
        match pure_list(env, init) {
            None => {
                let i = choose|i: int| 0 <= i < init.len() && mentions_float(#[trigger] init[i]);
                assert(args[i] == init[i]);
            },
            _ => {},
        }
        assert(args[args.len() - 1] == args.last());
    }
}

/// Alignment only looks at names, types and mutability, not `moved` marks.
proof fn lemma_aligned_shape(a: Seq<Seq<TyView>>, b: Seq<Seq<TyView>>, env: Seq<Seq<VarView>>)
    requires
        aligned(a, env),
        tsame_shape(b, a),
    ensures
        aligned(b, env),
{
    assert forall|i: int| 0 <= i < b.len() implies (#[trigger] b[i]).len() == env[i].len() by {
        assert(a[i].len() == env[i].len());
    }
    assert forall|i: int, j: int| 0 <= i < b.len() && 0 <= j < b[i].len() implies {
        &&& (#[trigger] b[i][j]).name == env[i][j].name
        &&& b[i][j].mutable == env[i][j].mutable
        &&& !spec_has_unknown(b[i][j].ty)
        &&& has_type(env[i][j].value, b[i][j].ty)
    } by {
        assert(a[i][j].name == env[i][j].name);
    }
}

proof fn lemma_aligned_push(tenv: Seq<Seq<TyView>>, env: Seq<Seq<VarView>>)
    requires
        aligned(tenv, env),
    ensures
        aligned(tenv.push(Seq::empty()), env.push(Seq::empty())),
{
    let t2 = tenv.push(Seq::<TyView>::empty());
    let e2 = env.push(Seq::<VarView>::empty());
    assert forall|i: int| 0 <= i < t2.len() implies (#[trigger] t2[i]).len() == e2[i].len() by {
        if i < tenv.len() {
            assert(tenv[i].len() == env[i].len());
        }
    }
    assert forall|i: int, j: int| 0 <= i < t2.len() && 0 <= j < t2[i].len() implies {
        &&& (#[trigger] t2[i][j]).name == e2[i][j].name
        &&& t2[i][j].mutable == e2[i][j].mutable
        &&& !spec_has_unknown(t2[i][j].ty)
        &&& has_type(e2[i][j].value, t2[i][j].ty)
    } by {
        assert(tenv[i][j].name == env[i][j].name);
    }
}

proof fn lemma_aligned_drop_last(tenv: Seq<Seq<TyView>>, env: Seq<Seq<VarView>>)
    requires
        aligned(tenv, env),
        tenv.len() >= 1,
    ensures
        aligned(tenv.drop_last(), env.drop_last()),
{
    let t2 = tenv.drop_last();
    let e2 = env.drop_last();
    assert forall|i: int| 0 <= i < t2.len() implies (#[trigger] t2[i]).len() == e2[i].len() by {
        assert(tenv[i].len() == env[i].len());
    }
    assert forall|i: int, j: int| 0 <= i < t2.len() && 0 <= j < t2[i].len() implies {
        &&& (#[trigger] t2[i][j]).name == e2[i][j].name
        &&& t2[i][j].mutable == e2[i][j].mutable
        &&& !spec_has_unknown(t2[i][j].ty)
        &&& has_type(e2[i][j].value, t2[i][j].ty)
    } by {
        assert(tenv[i][j].name == env[i][j].name);
    }
}

/// A condition the checker types as `bool` evaluates to a bool or fails
/// on a checked fault.
proof fn lemma_condition(tenv: Seq<Seq<TyView>>, env: Seq<Seq<VarView>>, cond: Expr, t: SpecTy, ctx: Seq<char>)
    requires
        aligned(tenv, env),
        pure_type(tenv, cond) == Some(Ok::<SpecTy, Seq<char>>(t)),
        spec_expect_ty(t, SpecTy::Bool, ctx) is Ok,
    ensures
        match pure_eval(env, cond) {
            Some(Ok(v)) => v is Bool,
            Some(Err(m)) => checked_error(m),
            None => true,
        },
{
    lemma_aligned_conforms(tenv, env);
    law_operators_sound(tenv, env, cond, t);
}

/// A range bound the checker types as `int` evaluates to an integer or
/// fails on a checked fault.
proof fn lemma_int_bound(tenv: Seq<Seq<TyView>>, env: Seq<Seq<VarView>>, e: Expr, t: SpecTy, ctx: Seq<char>)
    requires
        aligned(tenv, env),
        pure_type(tenv, e) == Some(Ok::<SpecTy, Seq<char>>(t)),
        spec_expect_ty(t, SpecTy::Int, ctx) is Ok,
    ensures
        match pure_eval(env, e) {
            Some(Ok(v)) => v is Int,
            Some(Err(m)) => checked_error(m),
            None => true,
        },
{
    lemma_aligned_conforms(tenv, env);
    law_operators_sound(tenv, env, e, t);
}

proof fn lemma_aligned_for_scope(tenv: Seq<Seq<TyView>>, env: Seq<Seq<VarView>>, var: Seq<char>, i: i64)
    requires
        aligned(tenv, env),
    ensures
        aligned(for_scope(tenv, var), env.push(seq![VarView { name: var, value: SpecValue::Int(i), mutable: false }])),
{
    let t2 = for_scope(tenv, var);
    let e2 = env.push(seq![VarView { name: var, value: SpecValue::Int(i), mutable: false }]);
    assert forall|a: int| 0 <= a < t2.len() implies (#[trigger] t2[a]).len() == e2[a].len() by {
        if a < tenv.len() {
            assert(tenv[a].len() == env[a].len());
        }
    }
    assert forall|a: int, c: int| 0 <= a < t2.len() && 0 <= c < t2[a].len() implies {
        &&& (#[trigger] t2[a][c]).name == e2[a][c].name
        &&& t2[a][c].mutable == e2[a][c].mutable
        &&& !spec_has_unknown(t2[a][c].ty)
        &&& has_type(e2[a][c].value, t2[a][c].ty)
    } by {
        if a < tenv.len() {
            assert(tenv[a][c].name == env[a][c].name);
        }
    }
}

/// The turns of a `for` loop the checker accepts run without a type error:
/// each starts with the variables aligned with the bindings before the loop.
proof fn lemma_for_sound(
    tenv: Seq<Seq<TyView>>,
    env: Seq<Seq<VarView>>,
    var: Seq<char>,
    i: i64,
    hi: i64,
    body: Block,
    t1: Seq<Seq<TyView>>,
    fuel: nat,
)
    requires
        aligned(tenv, env),
        pure_check_block(for_scope(tenv, var), body) is Some,
        pure_check_block(for_scope(tenv, var), body)->0 is Ok,
        pure_check_block(for_scope(tenv, var), body)->0->Ok_0.1 == t1,
        tsame_shape(t1, for_scope(tenv, var)),
    ensures
        match pure_for(env, var, i, hi, body, fuel) {
            Some(Ok((_, env2, _))) => aligned(tenv, env2),
            Some(Err(m)) => checked_error(m),
            None => true,
        },
    decreases fuel, body, 4int,
{
    if i < hi {
        let el = for_scope(tenv, var);
        let envl = env.push(seq![VarView { name: var, value: SpecValue::Int(i), mutable: false }]);
        lemma_aligned_for_scope(tenv, env, var, i);
        lemma_block_sound(el, envl, body, fuel);
        match pure_block(envl, body, fuel) {
            Some(Ok((_, en, f2))) => {
                lemma_shape_sym(t1, el);
                lemma_aligned_shape(t1, el, en);
                lemma_aligned_drop_last(el, en);
                assert(el.drop_last() =~= tenv);
                if f2 < fuel {
                    lemma_for_sound(tenv, en.drop_last(), var, (i + 1) as i64, hi, body, t1, f2);
                }
            },
            _ => {},
        }
    }
}

proof fn lemma_aligned_elem_scope(tenv: Seq<Seq<TyView>>, env: Seq<Seq<VarView>>, var: Seq<char>, t: SpecTy, v: SpecValue)
    requires
        aligned(tenv, env),
        has_type(v, t),
        !spec_has_unknown(t),
    ensures
        aligned(elem_scope(tenv, var, t), env.push(seq![VarView { name: var, value: v, mutable: false }])),
{
    let t2 = elem_scope(tenv, var, t);
    let e2 = env.push(seq![VarView { name: var, value: v, mutable: false }]);
    assert forall|a: int| 0 <= a < t2.len() implies (#[trigger] t2[a]).len() == e2[a].len() by {
        if a < tenv.len() {
            assert(tenv[a].len() == env[a].len());
        }
    }
    assert forall|a: int, c: int| 0 <= a < t2.len() && 0 <= c < t2[a].len() implies {
        &&& (#[trigger] t2[a][c]).name == e2[a][c].name
        &&& t2[a][c].mutable == e2[a][c].mutable
        &&& !spec_has_unknown(t2[a][c].ty)
        &&& has_type(e2[a][c].value, t2[a][c].ty)
    } by {
        if a < tenv.len() {
            assert(tenv[a][c].name == env[a][c].name);
        }
    }
}

/// The turns of a `for` loop over an array the checker accepts run without
/// a type error: each starts with the variables aligned with the bindings
/// before the loop, the loop variable holding an element.
proof fn lemma_foreach_sound(
    tenv: Seq<Seq<TyView>>,
    env: Seq<Seq<VarView>>,
    var: Seq<char>,
    vs: Seq<SpecValue>,
    k: nat,
    body: Block,
    t: SpecTy,
    t1: Seq<Seq<TyView>>,
    fuel: nat,
)
    requires
        aligned(tenv, env),
        all_have_type(vs, t),
        !spec_has_unknown(t),
        pure_check_block(elem_scope(tenv, var, t), body) is Some,
        pure_check_block(elem_scope(tenv, var, t), body)->0 is Ok,
        pure_check_block(elem_scope(tenv, var, t), body)->0->Ok_0.1 == t1,
        tsame_shape(t1, elem_scope(tenv, var, t)),
    ensures
        match pure_foreach(env, var, vs, k, body, fuel) {
            Some(Ok((_, env2, _))) => aligned(tenv, env2),
            Some(Err(m)) => checked_error(m),
            None => true,
        },
    decreases fuel, body, 4int,
{
    if k < vs.len() {
        let el = elem_scope(tenv, var, t);
        let envl = env.push(seq![VarView { name: var, value: vs[k as int], mutable: false }]);
        lemma_all_have_type(vs, t);
        lemma_aligned_elem_scope(tenv, env, var, t, vs[k as int]);
        lemma_block_sound(el, envl, body, fuel);
        match pure_block(envl, body, fuel) {
            Some(Ok((_, en, f2))) => {
                lemma_shape_sym(t1, el);
                lemma_aligned_shape(t1, el, en);
                lemma_aligned_drop_last(el, en);
                assert(el.drop_last() =~= tenv);
                if f2 < fuel {
                    lemma_foreach_sound(tenv, en.drop_last(), var, vs, k + 1, body, t, t1, f2);
                }
            },
            _ => {},
        }
    }
}

/// One statement the checker accepts runs without a type error: it
/// completes with the bindings and variables still aligned, or stops on a
/// checked fault.
pub proof fn law_statement_sound(tenv: Seq<Seq<TyView>>, env: Seq<Seq<VarView>>, s: Stmt, fuel: nat)
    requires
        aligned(tenv, env),
        tenv.len() >= 1,
        pure_check_stmt(tenv, s) is Some,
        pure_check_stmt(tenv, s)->0 is Ok,
    ensures
        match pure_stmt(env, s, fuel) {
            Some(Ok((_, env2, _))) => aligned(pure_check_stmt(tenv, s)->0->Ok_0.1, env2),
            Some(Err(m)) => checked_error(m),
            None => true,
        },
    decreases fuel, s, 0int,
{
    lemma_aligned_conforms(tenv, env);
    if fuel >= 1 {
        let f = (fuel - 1) as nat;
        match s {
            Stmt::Let { name, mutable, ty_ann, init } => {
                let t = pure_type(tenv, init)->0->Ok_0;
                let bt = match ann_prim(ty_ann)->0 {
                    Some(p) => p,
                    None => t,
                };
                law_operators_sound(tenv, env, init, t);
                lemma_type_known(tenv, init);
                match pure_eval(env, init) {
                    Some(Ok(v)) => {
                        if ann_prim(ty_ann)->0 is Some {
                            lemma_has_matching_type(v, bt, t);
                        }
                        lemma_move_aligned(tenv, env, init);
                        lemma_bind_aligned(tenv_move(tenv, init), env, TyView { name: name@, ty: bt, mutable, moved: None }, v);
                    },
                    _ => {},
                }
            },
            Stmt::Assign { target, value } => {
                match target {
                    AssignTarget::Var(name) => {
                        let slot = spec_require_mutable(tenv, name@)->Ok_0;
                        let vt = pure_type(tenv, value)->0->Ok_0;
                        law_operators_sound(tenv, env, value, vt);
                        match pure_eval(env, value) {
                            Some(Ok(v)) => lemma_assign_aligned(tenv, env, name@, slot, value, v, vt),
                            _ => {},
                        }
                    },
                    _ => {},
                }
            },
            Stmt::While { cond, body } => {
                let t = pure_type(tenv, cond)->0->Ok_0;
                let t1 = pure_check_block(tenv, body)->0->Ok_0.1;
                lemma_check_block_shape(tenv, body);
                lemma_while_sound(tenv, env, cond, body, t, t1, f);
                match pure_while(env, cond, body, f) {
                    Some(Ok((_, env2, _))) => lemma_aligned_shape(tenv, t1, env2),
                    _ => {},
                }
            },
            Stmt::For { var, start, end, body } => {
                let t1 = pure_type(tenv, start)->0->Ok_0;
                let t2 = pure_type(tenv, end)->0->Ok_0;
                lemma_int_bound(tenv, env, start, t1, "for range start"@);
                lemma_int_bound(tenv, env, end, t2, "for range end"@);
                let el = for_scope(tenv, var@);
                lemma_check_block_shape(el, body);
                let tb = pure_check_block(el, body)->0->Ok_0.1;
                if f >= 1 + pure_cost(start) {
                    let f1 = (f - 1 - pure_cost(start)) as nat;
                    if f1 >= 1 + pure_cost(end) {
                        match (pure_eval(env, start), pure_eval(env, end)) {
                            (Some(Ok(SpecValue::Int(lo))), Some(Ok(SpecValue::Int(hi)))) => {
                                let g = (f1 - 1 - pure_cost(end)) as nat;
                                lemma_for_sound(tenv, env, var@, lo, hi, body, tb, g);
                                match pure_for(env, var@, lo, hi, body, g) {
                                    Some(Ok((_, env2, _))) => {
                                        lemma_shape_drop_last_pub(tb, el);
                                        assert(el.drop_last() =~= tenv);
                                        lemma_aligned_shape(tenv, tb.drop_last(), env2);
                                    },
                                    _ => {},
                                }
                            },
                            _ => {},
                        }
                    }
                }
            },
            Stmt::ForEach { var, iter, body } => {
                let ti = pure_type(tenv, iter)->0->Ok_0;
                law_operators_sound(tenv, env, iter, ti);
                lemma_type_known(tenv, iter);
                match ti {
                    SpecTy::Vec(et) => {
                        let m = tenv_move(tenv, iter);
                        lemma_move_aligned(tenv, env, iter);
                        let el = elem_scope(m, var@, *et);
                        lemma_check_block_shape(el, body);
                        let t1 = pure_check_block(el, body)->0->Ok_0.1;
                        if f >= pure_cost(iter) {
                            let g = (f - pure_cost(iter)) as nat;
                            match pure_eval(env, iter) {
                                Some(Ok(SpecValue::Array(vs))) => {
                                    lemma_foreach_sound(m, env, var@, vs, 0, body, *et, t1, g);
                                    match pure_foreach(env, var@, vs, 0, body, g) {
                                        Some(Ok((_, env2, _))) => {
                                            lemma_shape_drop_last_pub(t1, el);
                                            assert(el.drop_last() =~= m);
                                            lemma_aligned_shape(m, t1.drop_last(), env2);
                                        },
                                        _ => {},
                                    }
                                },
                                _ => {},
                            }
                        }
                    },
                    _ => {},
                }
            },
            Stmt::Expr(e) => {
                match print_args(e) {
                    Some(args) => lemma_types_sound(tenv, env, args),
                    None => {
                        if e.kind is If || e.kind is Block {
                            lemma_ctl_sound(tenv, env, e, f);
                        } else {
                            let t = pure_type(tenv, e)->0->Ok_0;
                            law_operators_sound(tenv, env, e, t);
                        }
                    },
                }
            },
            _ => {},
        }
    }
}

/// Statements the checker accepts run without a type error: they complete
/// with the bindings and variables still aligned, or stop on a checked
/// fault.
pub proof fn law_statements_sound(tenv: Seq<Seq<TyView>>, env: Seq<Seq<VarView>>, ss: Seq<Stmt>, fuel: nat)
    requires
        aligned(tenv, env),
        tenv.len() >= 1,
        pure_check_stmts(tenv, ss) is Some,
        pure_check_stmts(tenv, ss)->0 is Ok,
    ensures
        match pure_stmts(env, ss, fuel) {
            Some(Ok((_, env2, _))) => aligned(pure_check_stmts(tenv, ss)->0->Ok_0.1, env2),
            Some(Err(m)) => checked_error(m),
            None => true,
        },
    decreases fuel, ss, 1int,
{
    if ss.len() > 0 {
        let init = ss.drop_last();
        law_statements_sound(tenv, env, init, fuel);
        crate::typeck::lemma_check_stmts_shape(tenv, init);
        match pure_stmts(env, init, fuel) {
            Some(Ok((_, env2, f2))) => {
                if f2 <= fuel {
                    let tenv2 = pure_check_stmts(tenv, init)->0->Ok_0.1;
                    law_statement_sound(tenv2, env2, ss.last(), f2);
                }
            },
            _ => {},
        }
    }
}

/// A block the checker accepts runs without a type error.
proof fn lemma_block_sound(tenv: Seq<Seq<TyView>>, env: Seq<Seq<VarView>>, b: Block, fuel: nat)
    requires
        aligned(tenv, env),
        pure_check_block(tenv, b) is Some,
        pure_check_block(tenv, b)->0 is Ok,
    ensures
        match pure_block(env, b, fuel) {
            Some(Ok((_, env2, _))) => aligned(pure_check_block(tenv, b)->0->Ok_0.1, env2),
            Some(Err(m)) => checked_error(m),
            None => true,
        },
    decreases fuel, b, 2int,
{
    if fuel >= 1 {
        lemma_aligned_push(tenv, env);
        law_statements_sound(tenv.push(Seq::empty()), env.push(Seq::empty()), b.stmts@, (fuel - 1) as nat);
        crate::typeck::lemma_check_stmts_shape(tenv.push(Seq::empty()), b.stmts@);
        match pure_stmts(env.push(Seq::empty()), b.stmts@, (fuel - 1) as nat) {
            Some(Ok((_, en, _))) => {
                let tn = pure_check_stmts(tenv.push(Seq::empty()), b.stmts@)->0->Ok_0.1;
                lemma_aligned_drop_last(tn, en);
            },
            _ => {},
        }
    }
}

/// An `if` or block the checker accepts runs without a type error.
proof fn lemma_ctl_sound(tenv: Seq<Seq<TyView>>, env: Seq<Seq<VarView>>, e: Expr, fuel: nat)
    requires
        aligned(tenv, env),
        pure_check_ctl(tenv, e) is Some,
        pure_check_ctl(tenv, e)->0 is Ok,
    ensures
        match pure_ctl_expr(env, e, fuel) {
            Some(Ok((_, env2, _))) => aligned(pure_check_ctl(tenv, e)->0->Ok_0.1, env2),
            Some(Err(m)) => checked_error(m),
            None => true,
        },
    decreases fuel, e, 1int,
{
    if fuel >= 2 {
        let f = (fuel - 2) as nat;
        lemma_ctl_kind_sound(tenv, env, e, f);
        match pure_ctl_kind(env, e, (fuel - 1) as nat) {
            Some(Err(m)) => lemma_retag(m, e.line as nat),
            _ => {},
        }
    }
}

/// [`lemma_ctl_sound`] before the line of `e` is attached.
proof fn lemma_ctl_kind_sound(tenv: Seq<Seq<TyView>>, env: Seq<Seq<VarView>>, e: Expr, f: nat)
    requires
        aligned(tenv, env),
        pure_check_ctl(tenv, e) is Some,
        pure_check_ctl(tenv, e)->0 is Ok,
    ensures
        match pure_ctl_kind(env, e, f + 1) {
            Some(Ok((_, env2, _))) => aligned(pure_check_ctl(tenv, e)->0->Ok_0.1, env2),
            Some(Err(m)) => checked_error(m),
            None => true,
        },
    decreases f + 1, e, 0int,
{
    match e.kind {
        ExprKind::Block(b) => {
            lemma_block_sound(tenv, env, b, f);
        },
        ExprKind::If { cond, then_b, els } => {
            let t = pure_type(tenv, *cond)->0->Ok_0;
            lemma_condition(tenv, env, *cond, t, "if condition"@);
            lemma_check_block_shape(tenv, then_b);
            let e_then = pure_check_block(tenv, then_b)->0->Ok_0.1;
            if f >= 1 + pure_cost(*cond) {
                let g = (f - 1 - pure_cost(*cond)) as nat;
                lemma_block_sound(tenv, env, then_b, g);
                match els {
                    Some(x) => {
                        crate::typeck::lemma_check_ctl_shape(tenv, *x);
                        let e_else = pure_check_ctl(tenv, *x)->0->Ok_0.1;
                        crate::typeck::lemma_merge_shape(e_else, e_then);
                        lemma_shape_trans(tmerge(e_else, e_then), e_else, tenv);
                        lemma_shape_sym(e_then, tenv);
                        lemma_shape_trans(tmerge(e_else, e_then), tenv, e_then);
                        lemma_ctl_sound(tenv, env, *x, g);
                        match pure_eval(env, *cond) {
                            Some(Ok(SpecValue::Bool(true))) => match pure_block(env, then_b, g) {
                                Some(Ok((_, env2, _))) => lemma_aligned_shape(e_then, tmerge(e_else, e_then), env2),
                                _ => {},
                            },
                            Some(Ok(SpecValue::Bool(false))) => match pure_ctl_expr(env, *x, g) {
                                Some(Ok((_, env2, _))) => lemma_aligned_shape(e_else, tmerge(e_else, e_then), env2),
                                _ => {},
                            },
                            _ => {},
                        }
                    },
                    None => {
                        crate::typeck::lemma_merge_shape(tenv, e_then);
                        lemma_shape_sym(e_then, tenv);
                        lemma_shape_trans(tmerge(tenv, e_then), tenv, e_then);
                        match pure_eval(env, *cond) {
                            Some(Ok(SpecValue::Bool(true))) => match pure_block(env, then_b, g) {
                                Some(Ok((_, env2, _))) => lemma_aligned_shape(e_then, tmerge(tenv, e_then), env2),
                                _ => {},
                            },
                            Some(Ok(SpecValue::Bool(false))) => lemma_aligned_shape(tenv, tmerge(tenv, e_then), env),
                            _ => {},
                        }
                    },
                }
            }
        },
        _ => {},
    }
}

/// A `while` loop the checker accepts runs without a type error: each turn
/// starts with the variables aligned with the bindings before the loop.
proof fn lemma_while_sound(
    tenv: Seq<Seq<TyView>>,
    env: Seq<Seq<VarView>>,
    cond: Expr,
    body: Block,
    t: SpecTy,
    t1: Seq<Seq<TyView>>,
    fuel: nat,
)
    requires
        aligned(tenv, env),
        pure_type(tenv, cond) == Some(Ok::<SpecTy, Seq<char>>(t)),
        spec_expect_ty(t, SpecTy::Bool, "while condition"@) is Ok,
        pure_check_block(tenv, body) is Some,
        pure_check_block(tenv, body)->0 is Ok,
        pure_check_block(tenv, body)->0->Ok_0.1 == t1,
        tsame_shape(t1, tenv),
    ensures
        match pure_while(env, cond, body, fuel) {
            Some(Ok((_, env2, _))) => aligned(tenv, env2),
            Some(Err(m)) => checked_error(m),
            None => true,
        },
    decreases fuel, body, 3int,
{
    lemma_condition(tenv, env, cond, t, "while condition"@);
    if fuel >= 1 + pure_cost(cond) {
        let g = (fuel - 1 - pure_cost(cond)) as nat;
        match pure_eval(env, cond) {
            Some(Ok(SpecValue::Bool(true))) => {
                lemma_block_sound(tenv, env, body, g);
                match pure_block(env, body, g) {
                    Some(Ok((_, env2, f2))) => {
                        lemma_shape_sym(t1, tenv);
                        lemma_aligned_shape(t1, tenv, env2);
                        if f2 < fuel {
                            lemma_while_sound(tenv, env2, cond, body, t, t1, f2);
                        }
                    },
                    _ => {},
                }
            },
            _ => {},
        }
    }
}

/// A program the checker accepts runs without a type error. For a program
/// made of one entry point whose body is let bindings, assignments, `print`
/// calls, operator expressions (array literals, indexing and lengths among them),
/// `if`, `while`, and `for` over ranges and arrays: if the checker accepts it, running
/// it completes, runs out of steps, or stops on a checked fault (overflow,
/// division or remainder by zero, an index outside an array, `==` on values
/// that cannot be compared) — never on a value of the wrong type, such as a
/// condition that is not a bool.
pub proof fn law_checked_programs_run(p: Program)
    requires
        single_entry(p) is Some,
        pure_check_entry(single_entry(p)->0) == Some(Ok::<(), Seq<char>>(())),
    ensures
        pure_block(seq![Seq::empty()], single_entry(p)->0.body, (STEP_BUDGET - 1) as nat) matches Some(Err(m))
            ==> checked_error(m),
{
    let tenv = seq![Seq::<TyView>::empty(), Seq::<TyView>::empty()];
    let env = seq![Seq::<VarView>::empty(), Seq::<VarView>::empty()];
    assert(aligned(tenv, env));
    assert(seq![Seq::<VarView>::empty()].push(Seq::empty()) =~= env);
    law_statements_sound(tenv, env, single_entry(p)->0.body.stmts@, (STEP_BUDGET - 2) as nat);
}

} // verus!
