//! Native backend planning — `tnc jit <file.tn>`.
//!
//! The native backend compiles the **int/bool subset** of TN619 to machine
//! code: functions over `int`/`bool`/unit, arithmetic, comparisons,
//! `let`/`var`, assignment, `if`/`else` (statement and expression), `while`,
//! `for i in a..b`, recursion, and `print` of integers/bools. Anything outside
//! the subset reports a clean "not supported" error — `tnc run` (the
//! interpreter) remains the reference backend for the full language.
//!
//! This module makes every decision of that compilation: which programs are
//! in the subset, how each construct is lowered, and in which order blocks
//! are created, filled and sealed. It produces a [`JitPlan`]: for each
//! function, the exact sequence of code-builder operations, over numbered
//! SSA values, variables and blocks. A code builder replays the plan one
//! operation at a time; the plan is proved well-formed (every operand is
//! defined before it is used).

use vstd::prelude::*;
use crate::ast::{AssignTarget, BinOp, Block, Expr, ExprKind, Item, Program, Stmt, TypeExpr, UnOp};
use crate::table::{find, find_in_scopes, get, has_key, insert, lemma_first_key, lemma_scope_find, lookup, put, scope_find};
use crate::text::string_of_str;
use crate::token::{is_print_builtin, spec_is_print};

verus! {

broadcast use vstd::std_specs::vec::axiom_vec_index_decreases;

/// One code-builder operation. Values, variables and blocks are numbered in
/// the order in which operations create them, from 0 in each function.
pub enum Op {
    /// Creates block `block` with the function's parameters, switches to it
    /// and seals it: the function's entry.
    Entry { block: usize },
    /// Value `dst` is parameter `index` of block `block`.
    Param { dst: usize, block: usize, index: usize },
    /// Declares variable `var`, a 64-bit integer.
    DeclareVar { var: usize },
    /// Variable `var` now holds value `value`.
    DefVar { var: usize, value: usize },
    /// Value `dst` is the current value of variable `var`.
    UseVar { dst: usize, var: usize },
    /// Value `dst` is the 64-bit constant `value`.
    Const { dst: usize, value: i64 },
    /// Value `dst` is `lhs op rhs` in two's-complement machine arithmetic
    /// (`op` is one of `+ - * / %`, signed).
    Arith { dst: usize, op: BinOp, lhs: usize, rhs: usize },
    /// Value `dst` is the signed comparison `lhs op rhs`, as a flag.
    Compare { dst: usize, op: BinOp, lhs: usize, rhs: usize },
    /// Value `dst` is the flag `arg` widened to 64 bits (0 or 1).
    Uextend { dst: usize, arg: usize },
    /// Value `dst` is `-arg`.
    Neg { dst: usize, arg: usize },
    /// Value `dst` is `lhs xor rhs`.
    Bxor { dst: usize, lhs: usize, rhs: usize },
    /// Creates block `block`.
    CreateBlock { block: usize },
    /// Gives block `block` one 64-bit parameter.
    AppendBlockParam { block: usize },
    /// Value `dst` is the first parameter of block `block`.
    BlockParam { dst: usize, block: usize },
    /// Jumps to `block`, passing `arg` as its parameter if present.
    Jump { block: usize, arg: Option<usize> },
    /// Branches to `then_block` when `cond` is nonzero, else to `else_block`.
    Branch { cond: usize, then_block: usize, else_block: usize },
    /// Continues emitting into `block`.
    SwitchTo { block: usize },
    /// Declares that every predecessor of `block` is known.
    Seal { block: usize },
    /// Calls function `func` of the plan with `args`; `dst` receives its
    /// result when it returns one.
    Call { func: usize, args: Vec<usize>, dst: Option<usize> },
    /// Prints a 64-bit integer.
    PrintInt { value: usize },
    /// Prints a space.
    PrintSpace,
    /// Ends a line of output.
    PrintNewline,
    /// Returns from the function, with `value` if present.
    Return { value: Option<usize> },
}

/// The code of one function.
pub struct FnPlan {
    pub name: String,
    pub params: usize,
    pub has_ret: bool,
    pub ops: Vec<Op>,
}

/// The code of a whole program, and which function is its entry point.
pub struct JitPlan {
    pub funcs: Vec<FnPlan>,
    pub entry: usize,
}

// ---------------------------------------------------------------------------
// Well-formed plans
// ---------------------------------------------------------------------------

/// How many values, variables and blocks exist.
pub struct Counts {
    pub values: nat,
    pub vars: nat,
    pub blocks: nat,
}

/// Whether every operand of `op` exists, and every number it creates is the
/// next one. `sigs` holds each function's parameter count and whether it
/// returns a value.
pub open spec fn op_ok(op: Op, c: Counts, sigs: Seq<(usize, bool)>) -> bool {
    match op {
        Op::Entry { block } => block == c.blocks,
        Op::Param { dst, block, .. } => dst == c.values && block < c.blocks,
        Op::DeclareVar { var } => var == c.vars,
        Op::DefVar { var, value } => var < c.vars && value < c.values,
        Op::UseVar { dst, var } => dst == c.values && var < c.vars,
        Op::Const { dst, .. } => dst == c.values,
        Op::Arith { dst, lhs, rhs, .. } => dst == c.values && lhs < c.values && rhs < c.values,
        Op::Compare { dst, lhs, rhs, .. } => dst == c.values && lhs < c.values && rhs < c.values,
        Op::Uextend { dst, arg } => dst == c.values && arg < c.values,
        Op::Neg { dst, arg } => dst == c.values && arg < c.values,
        Op::Bxor { dst, lhs, rhs } => dst == c.values && lhs < c.values && rhs < c.values,
        Op::CreateBlock { block } => block == c.blocks,
        Op::AppendBlockParam { block } => block < c.blocks,
        Op::BlockParam { dst, block } => dst == c.values && block < c.blocks,
        Op::Jump { block, arg } => block < c.blocks && (arg matches Some(a) ==> a < c.values),
        Op::Branch { cond, then_block, else_block } => cond < c.values && then_block < c.blocks && else_block
            < c.blocks,
        Op::SwitchTo { block } => block < c.blocks,
        Op::Seal { block } => block < c.blocks,
        Op::Call { func, args, dst } => {
            &&& func < sigs.len()
            &&& args@.len() == sigs[func as int].0
            &&& forall|k: int| 0 <= k < args@.len() ==> #[trigger] args@[k] < c.values
            &&& (dst is Some <==> sigs[func as int].1)
            &&& (dst matches Some(d) ==> d == c.values)
        },
        Op::PrintInt { value } => value < c.values,
        Op::PrintSpace => true,
        Op::PrintNewline => true,
        Op::Return { value } => value matches Some(v) ==> v < c.values,
    }
}

/// The counts after `op`.
pub open spec fn op_next(op: Op, c: Counts) -> Counts {
    match op {
        Op::Entry { .. } => Counts { blocks: c.blocks + 1, ..c },
        Op::CreateBlock { .. } => Counts { blocks: c.blocks + 1, ..c },
        Op::DeclareVar { .. } => Counts { vars: c.vars + 1, ..c },
        Op::Param { .. } => Counts { values: c.values + 1, ..c },
        Op::UseVar { .. } => Counts { values: c.values + 1, ..c },
        Op::Const { .. } => Counts { values: c.values + 1, ..c },
        Op::Arith { .. } => Counts { values: c.values + 1, ..c },
        Op::Compare { .. } => Counts { values: c.values + 1, ..c },
        Op::Uextend { .. } => Counts { values: c.values + 1, ..c },
        Op::Neg { .. } => Counts { values: c.values + 1, ..c },
        Op::Bxor { .. } => Counts { values: c.values + 1, ..c },
        Op::BlockParam { .. } => Counts { values: c.values + 1, ..c },
        Op::Call { dst, .. } => if dst is Some {
            Counts { values: c.values + 1, ..c }
        } else {
            c
        },
        _ => c,
    }
}

/// The counts after the operations `ops`.
pub open spec fn counts_after(ops: Seq<Op>) -> Counts
    decreases ops.len(),
{
    if ops.len() == 0 {
        Counts { values: 0, vars: 0, blocks: 0 }
    } else {
        op_next(ops.last(), counts_after(ops.drop_last()))
    }
}

/// Every operation of `ops` is well-formed where it stands.
pub open spec fn ops_ok(ops: Seq<Op>, sigs: Seq<(usize, bool)>) -> bool
    decreases ops.len(),
{
    if ops.len() == 0 {
        true
    } else {
        ops_ok(ops.drop_last(), sigs) && op_ok(ops.last(), counts_after(ops.drop_last()), sigs)
    }
}

/// The parameter count and result of each function of a plan.
pub open spec fn plan_sigs(funcs: Seq<FnPlan>) -> Seq<(usize, bool)> {
    funcs.map_values(|f: FnPlan| (f.params, f.has_ret))
}

impl JitPlan {
    /// Every function's code is well-formed, and the entry point exists and
    /// takes no parameters.
    pub open spec fn wf(&self) -> bool {
        &&& self.entry < self.funcs@.len()
        &&& self.funcs@[self.entry as int].params == 0
        &&& forall|k: int| 0 <= k < self.funcs@.len() ==> ops_ok((#[trigger] self.funcs@[k]).ops@, plan_sigs(self.funcs@))
    }
}

// ---------------------------------------------------------------------------
// The subset
// ---------------------------------------------------------------------------

/// `int` and `bool` (any spelling) are the types of the subset; both are
/// 64-bit integers in native code.
pub open spec fn jit_type_ok(t: TypeExpr) -> bool {
    match t {
        TypeExpr::Name(n) => n@ == "int"@ || n@ == "عدد"@ || n@ == "entier"@ || n@ == "bool"@ || n@ == "منطقي"@
            || n@ == "booléen"@ || n@ == "booleen"@,
        _ => false,
    }
}

pub open spec fn jit_expr_ok(e: Expr) -> bool
    decreases e, 3int,
{
    match e.kind {
        ExprKind::Int(_) => true,
        ExprKind::Bool(_) => true,
        ExprKind::Ident(_) => true,
        ExprKind::Unary { rhs, .. } => jit_expr_ok(*rhs),
        ExprKind::Binary { lhs, rhs, .. } => jit_expr_ok(*lhs) && jit_expr_ok(*rhs),
        ExprKind::Call { args, .. } => jit_exprs_ok(args@),
        ExprKind::If { cond, then_b, els } => jit_expr_ok(*cond) && jit_stmts_ok(then_b.stmts@) && match els {
            Some(x) => jit_expr_ok(*x),
            None => true,
        },
        ExprKind::Block(b) => jit_stmts_ok(b.stmts@),
        _ => false,
    }
}

pub open spec fn jit_exprs_ok(s: Seq<Expr>) -> bool
    decreases s, 0int,
{
    if s.len() == 0 {
        true
    } else {
        jit_exprs_ok(s.subrange(0, s.len() - 1)) && jit_expr_ok(s[s.len() - 1])
    }
}

pub open spec fn jit_stmt_ok(s: Stmt) -> bool
    decreases s, 2int,
{
    match s {
        Stmt::Let { init, .. } => jit_expr_ok(init),
        Stmt::Assign { target, value } => target is Var && jit_expr_ok(value),
        Stmt::While { cond, body } => jit_expr_ok(cond) && jit_stmts_ok(body.stmts@),
        Stmt::For { start, end, body, .. } => jit_expr_ok(start) && jit_expr_ok(end) && jit_stmts_ok(body.stmts@),
        Stmt::ForEach { .. } => false,
        Stmt::Return(opt) => match opt {
            Some(x) => jit_expr_ok(x),
            None => true,
        },
        Stmt::Expr(x) => jit_expr_ok(x),
    }
}

pub open spec fn jit_stmts_ok(s: Seq<Stmt>) -> bool
    decreases s, 1int,
{
    if s.len() == 0 {
        true
    } else {
        jit_stmts_ok(s.subrange(0, s.len() - 1)) && jit_stmt_ok(s[s.len() - 1])
    }
}

/// Whether a program is in the native backend's subset: functions only,
/// over `int`/`bool`, whose bodies use only the supported constructs.
pub open spec fn jit_subset(p: Program) -> bool {
    forall|k: int| 0 <= k < p.items@.len() ==> match #[trigger] p.items@[k] {
        Item::Fn(f) => {
            &&& forall|j: int| 0 <= j < f.params@.len() ==> jit_type_ok(#[trigger] f.params@[j].ty)
            &&& (f.ret matches Some(t) ==> jit_type_ok(t))
            &&& jit_stmts_ok(f.body.stmts@)
        },
        _ => false,
    }
}

pub proof fn lemma_exprs_ok(s: Seq<Expr>)
    ensures
        jit_exprs_ok(s) == forall|k: int| 0 <= k < s.len() ==> jit_expr_ok(#[trigger] s[k]),
    decreases s.len(),
{
    if s.len() > 0 {
        let t = s.subrange(0, s.len() - 1);
        lemma_exprs_ok(t);
        assert forall|k: int| 0 <= k < t.len() implies t[k] == s[k] by {}
    }
}

pub proof fn lemma_stmts_ok(s: Seq<Stmt>)
    ensures
        jit_stmts_ok(s) == forall|k: int| 0 <= k < s.len() ==> jit_stmt_ok(#[trigger] s[k]),
    decreases s.len(),
{
    if s.len() > 0 {
        let t = s.subrange(0, s.len() - 1);
        lemma_stmts_ok(t);
        assert forall|k: int| 0 <= k < t.len() implies t[k] == s[k] by {}
    }
}

/// The error for a construct outside the subset.
pub open spec fn msg_unsupported(what: Seq<char>) -> Seq<char> {
    "the native backend does not support "@ + what + " yet — run this program with `tnc run` instead"@
}

fn unsupported(what: &str) -> (r: String)
    ensures
        r@ == msg_unsupported(what@),
{
    let mut m = string_of_str("the native backend does not support ");
    m.append(what);
    m.append(" yet — run this program with `tnc run` instead");
    m
}

/// Checks that a declared type is in the subset.
fn check_subset_type(t: &TypeExpr) -> (r: Result<(), String>)
    ensures
        r is Ok <==> jit_type_ok(*t),
{
    match t {
        TypeExpr::Name(n) => {
            let w = crate::text::str_chars(n.as_str());
            let w = w.as_slice();
            if crate::text::chars_eq_str(w, "int") || crate::text::chars_eq_str(w, "عدد")
                || crate::text::chars_eq_str(w, "entier") || crate::text::chars_eq_str(w, "bool")
                || crate::text::chars_eq_str(w, "منطقي") || crate::text::chars_eq_str(w, "booléen")
                || crate::text::chars_eq_str(w, "booleen") {
                Ok(())
            } else {
                let mut what = string_of_str("the type `");
                what.append(n.as_str());
                what.append("`");
                Err(unsupported(what.as_str()))
            }
        }
        _ => Err(unsupported("arrays or Result types")),
    }
}


// ---------------------------------------------------------------------------
// Lowering
// ---------------------------------------------------------------------------

/// The lowering state of one function body.
struct Gen {
    ops: Vec<Op>,
    nvals: usize,
    nvars: usize,
    nblocks: usize,
    /// Scopes of variable name -> variable number.
    vars: Vec<Vec<(String, usize)>>,
    /// Function name -> function number.
    ids: Vec<(String, usize)>,
    /// Each function's parameter count and whether it returns a value.
    sigs: Vec<(usize, bool)>,
}

fn too_large() -> (r: String)
    ensures
        r@ == too_large_text(),
{
    string_of_str("the function is too large for the native backend")
}

/// The comparison by which the header of a `for` loop over a range decides
/// to run another turn: the loop variable against the range's end.
pub open spec fn for_loop_test() -> BinOp {
    BinOp::Lt
}

/// A `for` loop's header at `k` in `ops`: the loop variable is read, compared
/// with the range's end by [`for_loop_test`], and the comparison's result
/// branches into the block that code continues in (the body) or out.
pub open spec fn for_header(ops: Seq<Op>, k: int) -> bool {
    &&& 1 <= k && k + 2 < ops.len()
    &&& match (ops[k - 1], ops[k], ops[k + 1], ops[k + 2]) {
        (
            Op::UseVar { dst: i, .. },
            Op::Compare { dst: c, op, lhs, .. },
            Op::Branch { cond, then_block, .. },
            Op::SwitchTo { block },
        ) => op == for_loop_test() && lhs == i && cond == c && block == then_block,
        _ => false,
    }
}

/// The step of a `for` loop at `k2` in `ops`, for the loop whose header is
/// at `k`: the loop variable read in the header is read again, increased by
/// one and stored back, and control jumps back to the header's block.
pub open spec fn for_step(ops: Seq<Op>, k: int, k2: int) -> bool {
    &&& 2 <= k && k + 2 < k2 && k2 + 4 < ops.len()
    &&& match (ops[k - 2], ops[k - 1], ops[k2], ops[k2 + 1], ops[k2 + 2], ops[k2 + 3], ops[k2 + 4]) {
        (
            Op::SwitchTo { block: hb },
            Op::UseVar { var: v, .. },
            Op::UseVar { dst: a, var: v2 },
            Op::Const { dst: one, value },
            Op::Arith { dst: nx, op, lhs, rhs },
            Op::DefVar { var: v3, value: stored },
            Op::Jump { block: jb, .. },
        ) => v2 == v && value == 1 && op == BinOp::Add && lhs == a && rhs == one && v3 == v && stored == nx
            && jb == hb,
        _ => false,
    }
}

/// The last operations of `ops` compute value `v` as `a op b` from two
/// earlier values, the left operand's before the right one's: an
/// arithmetic operation, or a comparison whose flag is widened.
pub open spec fn binary_ops(ops: Seq<Op>, op: BinOp, v: usize) -> bool {
    if is_arith_op(op) {
        ops.len() >= 1 && match ops.last() {
            Op::Arith { dst, op: o, lhs, rhs } => dst == v && o == op && lhs < rhs,
            _ => false,
        }
    } else {
        ops.len() >= 2 && match (ops[ops.len() - 2], ops.last()) {
            (Op::Compare { dst: f, op: o, lhs, rhs }, Op::Uextend { dst, arg }) => dst == v && arg == f && o == op
                && lhs < rhs,
            _ => false,
        }
    }
}

/// `+ - * / %`.
pub open spec fn is_arith_op(op: BinOp) -> bool {
    op is Add || op is Sub || op is Mul || op is Div || op is Rem
}

/// `after` holds the operations of `before`, in place, and maybe more.
pub open spec fn ops_extend(before: Seq<Op>, after: Seq<Op>) -> bool {
    &&& before.len() <= after.len()
    &&& forall|j: int| 0 <= j < before.len() ==> #[trigger] after[j] == before[j]
}

/// The message of a function whose values, variables or blocks outgrow the
/// counters.
pub open spec fn too_large_text() -> Seq<char> {
    "the function is too large for the native backend"@
}

impl Gen {
    spec fn counts(&self) -> Counts {
        Counts { values: self.nvals as nat, vars: self.nvars as nat, blocks: self.nblocks as nat }
    }

    spec fn inv(&self) -> bool {
        &&& ops_ok(self.ops@, self.sigs@)
        &&& counts_after(self.ops@) == self.counts()
        &&& forall|i: int, j: int|
            0 <= i < self.vars@.len() && 0 <= j < self.vars@[i]@.len() ==> (#[trigger] self.vars@[i]@[j]).1 < self.nvars
        &&& forall|j: int| 0 <= j < self.ids@.len() ==> (#[trigger] self.ids@[j]).1 < self.sigs@.len()
    }

    /// `after` continues `before`: the same tables, and no fewer values,
    /// variables or blocks.
    spec fn grows(before: Gen, after: Gen) -> bool {
        &&& ops_extend(before.ops@, after.ops@)
        &&& after.ids == before.ids
        &&& after.sigs == before.sigs
        &&& after.nvals >= before.nvals
        &&& after.nvars >= before.nvars
        &&& after.nblocks >= before.nblocks
    }

    fn emit(&mut self, op: Op)
        requires
            old(self).inv(),
            op_ok(op, old(self).counts(), old(self).sigs@),
            op_next(op, old(self).counts()).values <= usize::MAX,
            op_next(op, old(self).counts()).vars <= usize::MAX,
            op_next(op, old(self).counts()).blocks <= usize::MAX,
        ensures
            final(self).inv(),
            final(self).counts() == op_next(op, old(self).counts()),
            final(self).vars == old(self).vars,
            final(self).ids == old(self).ids,
            final(self).sigs == old(self).sigs,
            final(self).ops@ == old(self).ops@.push(op),
    {
        let ghost before = self.ops@;
        match &op {
            Op::Entry { .. } => self.nblocks = self.nblocks + 1,
            Op::CreateBlock { .. } => self.nblocks = self.nblocks + 1,
            Op::DeclareVar { .. } => self.nvars = self.nvars + 1,
            Op::Param { .. } => self.nvals = self.nvals + 1,
            Op::UseVar { .. } => self.nvals = self.nvals + 1,
            Op::Const { .. } => self.nvals = self.nvals + 1,
            Op::Arith { .. } => self.nvals = self.nvals + 1,
            Op::Compare { .. } => self.nvals = self.nvals + 1,
            Op::Uextend { .. } => self.nvals = self.nvals + 1,
            Op::Neg { .. } => self.nvals = self.nvals + 1,
            Op::Bxor { .. } => self.nvals = self.nvals + 1,
            Op::BlockParam { .. } => self.nvals = self.nvals + 1,
            Op::Call { dst, .. } => {
                if dst.is_some() {
                    self.nvals = self.nvals + 1;
                }
            }
            _ => {}
        }
        self.ops.push(op);
        proof {
            assert(self.ops@.drop_last() =~= before);
        }
    }

    /// Emits an operation that defines the next value, built by `make`.
    fn value_op(&mut self, op: Op) -> (r: Result<usize, String>)
        requires
            old(self).inv(),
            op_ok(op, old(self).counts(), old(self).sigs@),
            op_next(op, old(self).counts()) == (Counts { values: (old(self).nvals + 1) as nat, ..old(self).counts() }),
        ensures
            final(self).inv(),
            Gen::grows(*old(self), *final(self)),
            final(self).vars == old(self).vars,
            (r is Ok) == (old(self).nvals < usize::MAX),
            r matches Ok(v) ==> v == old(self).nvals && v < final(self).nvals && final(self).ops@ == old(
                self,
            ).ops@.push(op),
            r matches Err(m) ==> m@ == too_large_text() && *final(self) == *old(self),
    {
        if self.nvals == usize::MAX {
            return Err(too_large());
        }
        self.emit(op);
        Ok(self.nvals - 1)
    }

    fn konst(&mut self, value: i64) -> (r: Result<usize, String>)
        requires
            old(self).inv(),
        ensures
            final(self).inv(),
            Gen::grows(*old(self), *final(self)),
            final(self).vars == old(self).vars,
            (r is Ok) == (old(self).nvals < usize::MAX),
            r matches Ok(v) ==> v == old(self).nvals && v < final(self).nvals && final(self).ops@ == old(
                self,
            ).ops@.push(Op::Const { dst: v, value }),
            r matches Err(m) ==> m@ == too_large_text() && *final(self) == *old(self),
    {
        let dst = self.nvals;
        self.value_op(Op::Const { dst, value })
    }

    fn create_block(&mut self) -> (r: Result<usize, String>)
        requires
            old(self).inv(),
        ensures
            final(self).inv(),
            Gen::grows(*old(self), *final(self)),
            final(self).vars == old(self).vars,
            (r is Ok) == (old(self).nblocks < usize::MAX),
            r matches Ok(b) ==> b == old(self).nblocks && b < final(self).nblocks && final(self).ops@
                == old(self).ops@.push(Op::CreateBlock { block: b }),
            r matches Err(m) ==> m@ == too_large_text() && *final(self) == *old(self),
    {
        if self.nblocks == usize::MAX {
            return Err(too_large());
        }
        let block = self.nblocks;
        self.emit(Op::CreateBlock { block });
        Ok(block)
    }

    /// Declares a variable for `name` in the innermost scope.
    fn new_var(&mut self, name: &String) -> (r: Result<usize, String>)
        requires
            old(self).inv(),
            old(self).vars@.len() >= 1,
        ensures
            final(self).inv(),
            Gen::grows(*old(self), *final(self)),
            final(self).vars@.len() == old(self).vars@.len(),
            (r is Ok) == (old(self).nvars < usize::MAX),
            r matches Ok(v) ==> {
                &&& v == old(self).nvars
                &&& v < final(self).nvars
                &&& final(self).ops@ == old(self).ops@.push(Op::DeclareVar { var: v })
                &&& final(self).vars@.last()@ == put(old(self).vars@.last()@, *name, v)
                &&& forall|i: int| 0 <= i < old(self).vars@.len() - 1 ==> #[trigger] final(self).vars@[i]
                    == old(self).vars@[i]
            },
            r matches Err(m) ==> m@ == too_large_text() && *final(self) == *old(self),
    {
        if self.nvars == usize::MAX {
            return Err(too_large());
        }
        let var = self.nvars;
        self.emit(Op::DeclareVar { var });
        let last = self.vars.len() - 1;
        let ghost before = self.vars@;
        let sc = &mut self.vars[last];
        insert(sc, name.clone(), var);
        proof {
            assert forall|i: int, j: int|
                0 <= i < self.vars@.len() && 0 <= j < self.vars@[i]@.len() implies (#[trigger] self.vars@[i]@[j]).1 < self.nvars by {
                if i < last {
                    assert(self.vars@[i] == before[i]);
                } else {
                    crate::table::lemma_put(before[i]@, *name, var);
                }
            }
            assert forall|i: int| 0 <= i < before.len() - 1 implies #[trigger] self.vars@[i] == before[i] by {}
        }
        Ok(var)
    }

    /// The variable that `name` refers to.
    fn lookup_var(&self, name: &str) -> (r: Result<usize, String>)
        requires
            self.inv(),
        ensures
            r matches Ok(v) ==> v < self.nvars,
            match scope_find(self.vars@, name@) {
                Some((i, j)) => r == Ok::<usize, String>(self.vars@[i]@[j].1),
                None => r matches Err(m) && m@ == "unknown variable `"@ + name@ + "`"@,
            },
    {
        proof {
            lemma_scope_find(self.vars@, name@);
        }
        match find_in_scopes(&self.vars, name) {
            Some((i, j)) => Ok(self.vars[i][j].1),
            None => {
                let mut m = string_of_str("unknown variable `");
                m.append(name);
                m.append("`");
                Err(m)
            }
        }
    }

    fn push_scope(&mut self)
        requires
            old(self).inv(),
        ensures
            final(self).inv(),
            Gen::grows(*old(self), *final(self)),
            final(self).vars@.len() == old(self).vars@.len() + 1,
            final(self).vars@.drop_last() == old(self).vars@,
            final(self).ops == old(self).ops,
            final(self).counts() == old(self).counts(),
    {
        let ghost before = self.vars@;
        self.vars.push(Vec::new());
        proof {
            assert forall|i: int, j: int|
                0 <= i < self.vars@.len() && 0 <= j < self.vars@[i]@.len() implies (#[trigger] self.vars@[i]@[j]).1 < self.nvars by {
                assert(self.vars@[i] == before[i]);
            }
        }
    }

    fn pop_scope(&mut self)
        requires
            old(self).inv(),
            old(self).vars@.len() >= 1,
        ensures
            final(self).inv(),
            Gen::grows(*old(self), *final(self)),
            final(self).vars@.len() == old(self).vars@.len() - 1,
            final(self).vars@ == old(self).vars@.drop_last(),
            final(self).ops == old(self).ops,
            final(self).counts() == old(self).counts(),
    {
        let ghost before = self.vars@;
        self.vars.pop();
        proof {
            assert forall|i: int, j: int|
                0 <= i < self.vars@.len() && 0 <= j < self.vars@[i]@.len() implies (#[trigger] self.vars@[i]@[j]).1 < self.nvars by {
                assert(self.vars@[i] == before[i]);
            }
        }
    }

    /// Lowers a block; its tail value is the value of a final expression
    /// statement, used for implicit returns and `if` expressions.
    fn gen_block(&mut self, b: &Block) -> (r: Result<Option<usize>, String>)
        requires
            old(self).inv(),
        ensures
            final(self).inv(),
            Gen::grows(*old(self), *final(self)),
            r is Ok ==> final(self).vars@.len() == old(self).vars@.len(),
            r is Ok ==> jit_stmts_ok(b.stmts@),
            r matches Ok(Some(v)) ==> old(self).nvals <= v < final(self).nvals,
            b.stmts@.len() == 0 ==> (r matches Ok(None) && final(self).ops == old(self).ops && final(self).counts()
                == old(self).counts() && final(self).vars@ == old(self).vars@),
        decreases b, 1int,
    {
        self.push_scope();
        let ghost entry = *old(self);
        let mut tail: Option<usize> = None;
        let mut i: usize = 0;
        while i < b.stmts.len()
            invariant
                i <= b.stmts.len(),
                self.inv(),
                Gen::grows(entry, *self),
                entry == *old(self),
                self.vars@.len() == entry.vars@.len() + 1,
                forall|k: int| 0 <= k < i ==> jit_stmt_ok(#[trigger] b.stmts@[k]),
                tail matches Some(v) ==> entry.nvals <= v < self.nvals,
                i == 0 ==> tail is None && self.ops == old(self).ops && self.counts() == old(self).counts()
                    && self.vars@ == old(self).vars@.push(self.vars@.last()),
            decreases b.stmts.len() - i,
        {
            tail = self.gen_stmt(&b.stmts[i])?;
            i = i + 1;
        }
        self.pop_scope();
        proof {
            lemma_stmts_ok(b.stmts@);
        }
        Ok(tail)
    }

    #[verifier::rlimit(100)]
    fn gen_stmt(&mut self, s: &Stmt) -> (r: Result<Option<usize>, String>)
        requires
            old(self).inv(),
            old(self).vars@.len() >= 1,
        ensures
            final(self).inv(),
            Gen::grows(*old(self), *final(self)),
            r is Ok ==> final(self).vars@.len() == old(self).vars@.len(),
            r is Ok ==> jit_stmt_ok(*s),
            r matches Ok(Some(v)) ==> old(self).nvals <= v < final(self).nvals,
            match *s {
                Stmt::ForEach { .. } => r matches Err(m) && m@ == msg_unsupported("array iteration"@) && *final(self)
                    == *old(self),
                Stmt::Assign { target, .. } => !(target is Var) ==> r is Err,
                Stmt::Return(None) => (r is Ok) == (old(self).nblocks < usize::MAX) && (r is Ok ==> r == Ok::<
                    Option<usize>,
                    String,
                >(None) && final(self).ops@ == old(self).ops@ + seq![
                    Op::Return { value: None },
                    Op::CreateBlock { block: old(self).nblocks },
                    Op::SwitchTo { block: old(self).nblocks },
                    Op::Seal { block: old(self).nblocks },
                ]),
                Stmt::Expr(e) => match e.kind {
                    ExprKind::Int(n) => (r is Ok) == (old(self).nvals < usize::MAX) && (r matches Ok(Some(v)) ==> v
                        == old(self).nvals && final(self).ops@ == old(self).ops@.push(Op::Const { dst: v, value: n })),
                    _ => true,
                },
                Stmt::For { .. } => r is Ok ==> (exists|k: int| old(self).ops@.len() < k && #[trigger] for_header(
                    final(self).ops@,
                    k,
                )) && (exists|k: int, k2: int|
                    old(self).ops@.len() + 1 < k && #[trigger] for_header(final(self).ops@, k) && #[trigger] for_step(
                        final(self).ops@,
                        k,
                        k2,
                    )),
                _ => true,
            },
        decreases s, 1int,
    {
        match s {
            Stmt::Let { name, init, .. } => {
                let v = self.gen_expr(init)?;
                let var = self.new_var(name)?;
                self.emit(Op::DefVar { var, value: v });
                Ok(None)
            }
            Stmt::Assign { target, value } => {
                let v = self.gen_expr(value)?;
                match target {
                    AssignTarget::Var(name) => {
                        let var = self.lookup_var(name.as_str())?;
                        self.emit(Op::DefVar { var, value: v });
                        Ok(None)
                    }
                    _ => Err(unsupported("indexed or field assignment")),
                }
            }
            Stmt::While { cond, body } => {
                let header = self.create_block()?;
                let body_b = self.create_block()?;
                let exit = self.create_block()?;
                self.emit(Op::Jump { block: header, arg: None });
                self.emit(Op::SwitchTo { block: header });
                let c = self.gen_expr(cond)?;
                self.emit(Op::Branch { cond: c, then_block: body_b, else_block: exit });
                self.emit(Op::SwitchTo { block: body_b });
                self.emit(Op::Seal { block: body_b });
                self.gen_block(body)?;
                self.emit(Op::Jump { block: header, arg: None });
                self.emit(Op::Seal { block: header });
                self.emit(Op::SwitchTo { block: exit });
                self.emit(Op::Seal { block: exit });
                Ok(None)
            }
            Stmt::For { .. } => self.gen_for(s),
            Stmt::ForEach { .. } => Err(unsupported("array iteration")),
            Stmt::Return(opt) => {
                match opt {
                    Some(e) => {
                        let v = self.gen_expr(e)?;
                        self.emit(Op::Return { value: Some(v) });
                    }
                    None => {
                        self.emit(Op::Return { value: None });
                    }
                }
                // Anything after an explicit return is unreachable; it goes
                // into a fresh sealed block.
                let dead = self.create_block()?;
                self.emit(Op::SwitchTo { block: dead });
                self.emit(Op::Seal { block: dead });
                Ok(None)
            }
            Stmt::Expr(e) => {
                let v = self.gen_expr(e)?;
                Ok(Some(v))
            }
        }
    }

    /// Lowers `for var in start..end { body }`: a header block that reads the
    /// loop variable, compares it with the end and branches into the body or
    /// out of the loop.
    #[verifier::rlimit(100)]
    fn gen_for(&mut self, s: &Stmt) -> (r: Result<Option<usize>, String>)
        requires
            old(self).inv(),
            old(self).vars@.len() >= 1,
            *s is For,
        ensures
            final(self).inv(),
            Gen::grows(*old(self), *final(self)),
            r is Ok ==> final(self).vars@.len() == old(self).vars@.len(),
            r is Ok ==> jit_stmt_ok(*s),
            r matches Ok(Some(v)) ==> v < final(self).nvals,
            r matches Ok(x) ==> x is None,
            r is Ok ==> exists|k: int| old(self).ops@.len() < k && #[trigger] for_header(final(self).ops@, k),
            r is Ok ==> exists|k: int, k2: int|
                old(self).ops@.len() + 1 < k && #[trigger] for_header(final(self).ops@, k) && #[trigger] for_step(
                    final(self).ops@,
                    k,
                    k2,
                ),
        decreases s, 0int,
    {
        let (var, start, end, body) = match s {
            Stmt::For { var, start, end, body } => (var, start, end, body),
            _ => return Err(unsupported("array iteration")),
        };
        let s0 = self.gen_expr(start)?;
        let e0 = self.gen_expr(end)?;
        self.push_scope();
        let ivar = self.new_var(var)?;
        self.emit(Op::DefVar { var: ivar, value: s0 });
        let header = self.create_block()?;
        let body_b = self.create_block()?;
        let exit = self.create_block()?;
        self.emit(Op::Jump { block: header, arg: None });
        self.emit(Op::SwitchTo { block: header });
        let ghost k: int = self.ops@.len() as int + 1;
        assert(self.ops@[k - 2] == Op::SwitchTo { block: header });
        let dst = self.nvals;
        let i = self.value_op(Op::UseVar { dst, var: ivar })?;
        let dst = self.nvals;
        let c = self.value_op(Op::Compare { dst, op: BinOp::Lt, lhs: i, rhs: e0 })?;
        self.emit(Op::Branch { cond: c, then_block: body_b, else_block: exit });
        self.emit(Op::SwitchTo { block: body_b });
        let ghost hdr = self.ops@;
        assert(for_header(hdr, k));
        self.emit(Op::Seal { block: body_b });
        self.gen_block(body)?;
        let ghost k2: int = self.ops@.len() as int;
        let dst = self.nvals;
        let i2 = self.value_op(Op::UseVar { dst, var: ivar })?;
        let one = self.konst(1)?;
        let dst = self.nvals;
        let next = self.value_op(Op::Arith { dst, op: BinOp::Add, lhs: i2, rhs: one })?;
        self.emit(Op::DefVar { var: ivar, value: next });
        self.emit(Op::Jump { block: header, arg: None });
        let ghost stp = self.ops@;
        assert(ops_extend(hdr, stp));
        assert(for_step(stp, k, k2));
        self.emit(Op::Seal { block: header });
        self.emit(Op::SwitchTo { block: exit });
        self.emit(Op::Seal { block: exit });
        self.pop_scope();
        assert(ops_extend(hdr, self.ops@));
        assert(for_header(self.ops@, k));
        assert(ops_extend(stp, self.ops@));
        assert(for_step(self.ops@, k, k2));
        Ok(None)
    }

    #[verifier::rlimit(100)]
    fn gen_expr(&mut self, e: &Expr) -> (r: Result<usize, String>)
        requires
            old(self).inv(),
        ensures
            final(self).inv(),
            Gen::grows(*old(self), *final(self)),
            r is Ok ==> final(self).vars@.len() == old(self).vars@.len(),
            r is Ok ==> jit_expr_ok(*e),
            r matches Ok(v) ==> old(self).nvals <= v < final(self).nvals,
            match e.kind {
                ExprKind::Binary { op, .. } => r matches Ok(v) ==> binary_ops(final(self).ops@, op, v),
                _ => true,
            },
            e.kind matches ExprKind::Int(n) ==> ((r is Ok) == (old(self).nvals < usize::MAX) && (r matches Ok(v)
                ==> v == old(self).nvals && final(self).ops@ == old(self).ops@.push(Op::Const { dst: v, value: n }))),
            e.kind matches ExprKind::Bool(b) ==> ((r is Ok) == (old(self).nvals < usize::MAX) && (r matches Ok(v)
                ==> v == old(self).nvals && final(self).ops@ == old(self).ops@.push(
                Op::Const { dst: v, value: if b { 1 } else { 0 } },
            ))),
            e.kind matches ExprKind::Ident(x) ==> match scope_find(old(self).vars@, x@) {
                Some((i, j)) => (r is Ok) == (old(self).nvals < usize::MAX) && (r matches Ok(v) ==> v == old(
                    self,
                ).nvals && final(self).ops@ == old(self).ops@.push(
                    Op::UseVar { dst: v, var: old(self).vars@[i]@[j].1 },
                )),
                None => r matches Err(m) && m@ == "unknown variable `"@ + x@ + "`"@,
            },
            jit_unsupported_kind(e.kind) matches Some(w) ==> (r matches Err(m) && m@ == msg_unsupported(w)
                && *final(self) == *old(self)),
        decreases e, 3int,
    {
        match &e.kind {
            ExprKind::Int(n) => self.konst(*n),
            ExprKind::Bool(b) => self.konst(if *b { 1 } else { 0 }),
            ExprKind::Ident(name) => {
                let var = self.lookup_var(name.as_str())?;
                let dst = self.nvals;
                self.value_op(Op::UseVar { dst, var })
            }
            ExprKind::Unary { op, rhs } => {
                let v = self.gen_expr(rhs)?;
                match op {
                    UnOp::Neg => {
                        let dst = self.nvals;
                        self.value_op(Op::Neg { dst, arg: v })
                    }
                    UnOp::Not => {
                        let one = self.konst(1)?;
                        let dst = self.nvals;
                        self.value_op(Op::Bxor { dst, lhs: v, rhs: one })
                    }
                }
            }
            ExprKind::Binary { op, lhs, rhs } => {
                let l = self.gen_expr(lhs)?;
                let r = self.gen_expr(rhs)?;
                match op {
                    BinOp::Add | BinOp::Sub | BinOp::Mul | BinOp::Div | BinOp::Rem => {
                        let dst = self.nvals;
                        self.value_op(Op::Arith { dst, op: *op, lhs: l, rhs: r })
                    }
                    _ => {
                        // Comparisons produce a flag; widen it to 64 bits.
                        let dst = self.nvals;
                        let flag = self.value_op(Op::Compare { dst, op: *op, lhs: l, rhs: r })?;
                        let dst = self.nvals;
                        self.value_op(Op::Uextend { dst, arg: flag })
                    }
                }
            }
            ExprKind::Call { callee, args } => self.gen_call(callee.as_str(), args),
            ExprKind::If { cond, then_b, els } => {
                let c = self.gen_expr(cond)?;
                let then_block = self.create_block()?;
                let else_block = self.create_block()?;
                let merge = self.create_block()?;
                self.emit(Op::AppendBlockParam { block: merge });
                self.emit(Op::Branch { cond: c, then_block, else_block });
                self.emit(Op::SwitchTo { block: then_block });
                self.emit(Op::Seal { block: then_block });
                let tv = match self.gen_block(then_b)? {
                    Some(v) => v,
                    None => self.konst(0)?,
                };
                self.emit(Op::Jump { block: merge, arg: Some(tv) });
                self.emit(Op::SwitchTo { block: else_block });
                self.emit(Op::Seal { block: else_block });
                let ev = match els {
                    Some(x) => self.gen_expr(x)?,
                    None => self.konst(0)?,
                };
                self.emit(Op::Jump { block: merge, arg: Some(ev) });
                self.emit(Op::SwitchTo { block: merge });
                self.emit(Op::Seal { block: merge });
                let dst = self.nvals;
                self.value_op(Op::BlockParam { dst, block: merge })
            }
            ExprKind::Block(b) => {
                match self.gen_block(b)? {
                    Some(v) => Ok(v),
                    None => self.konst(0),
                }
            }
            ExprKind::Str(_) => Err(unsupported("strings")),
            ExprKind::StrInterp(_) => Err(unsupported("strings")),
            ExprKind::Float(_) => Err(unsupported("floats")),
            ExprKind::Cast { .. } => Err(unsupported("casts")),
            ExprKind::ArrayLit(_) => Err(unsupported("arrays")),
            ExprKind::Index { .. } => Err(unsupported("arrays")),
            ExprKind::Try(_) => Err(unsupported("`?` / Result")),
            _ => Err(unsupported("structs, enums, or match")),
        }
    }

    /// `print(args)` prints integers separated by spaces and ends the line;
    /// any other callee is a function of the program.
    fn gen_call(&mut self, callee: &str, args: &Vec<Expr>) -> (r: Result<usize, String>)
        requires
            old(self).inv(),
        ensures
            final(self).inv(),
            Gen::grows(*old(self), *final(self)),
            r is Ok ==> final(self).vars@.len() == old(self).vars@.len(),
            r is Ok ==> jit_exprs_ok(args@),
            r matches Ok(v) ==> old(self).nvals <= v < final(self).nvals,
            spec_is_print(callee@) && args@.len() == 0 ==> ((r is Ok) == (old(self).nvals < usize::MAX) && (
            r matches Ok(v) ==> v == old(self).nvals && final(self).ops@ == old(self).ops@.push(
                Op::PrintNewline,
            ).push(Op::Const { dst: v, value: 0 }))),
            !spec_is_print(callee@) ==> match get(old(self).ids@, callee@) {
                None => r matches Err(m) && m@ == msg_unsupported("the callee `"@ + callee@ + "`"@) && *final(self)
                    == *old(self),
                Some(f) => if old(self).sigs@[f as int].0 != args@.len() {
                    r matches Err(m) && m@ == "function `"@ + callee@ + "`: wrong arity"@ && *final(self) == *old(self)
                } else if args@.len() == 0 {
                    (r is Ok) == (old(self).nvals < usize::MAX)
                } else {
                    true
                },
            },
        decreases args, 0int,
    {
        let ghost entry = *old(self);
        if is_print_builtin(callee) {
            let mut i: usize = 0;
            while i < args.len()
                invariant
                    i <= args.len(),
                    self.inv(),
                    Gen::grows(entry, *self),
                    entry == *old(self),
                    self.vars@.len() == entry.vars@.len(),
                    forall|k: int| 0 <= k < i ==> jit_expr_ok(#[trigger] args@[k]),
                    i == 0 ==> *self == entry,
                    spec_is_print(callee@),
                decreases args.len() - i,
            {
                if i > 0 {
                    self.emit(Op::PrintSpace);
                }
                let v = self.gen_expr(&args[i])?;
                self.emit(Op::PrintInt { value: v });
                i = i + 1;
            }
            self.emit(Op::PrintNewline);
            proof {
                lemma_exprs_ok(args@);
            }
            // `print` evaluates to unit; callers get a zero.
            return self.konst(0);
        }
        let func = match find(&self.ids, callee) {
            Some(j) => {
                proof {
                    lemma_first_key(self.ids@, callee@, 0);
                }
                self.ids[j].1
            },
            None => {
                let mut what = string_of_str("the callee `");
                what.append(callee);
                what.append("`");
                return Err(unsupported(what.as_str()));
            }
        };
        let (arity, has_ret) = self.sigs[func];
        if args.len() != arity {
            let mut m = string_of_str("function `");
            m.append(callee);
            m.append("`: wrong arity");
            return Err(m);
        }
        let mut vals: Vec<usize> = Vec::new();
        let mut i: usize = 0;
        while i < args.len()
            invariant
                i <= args.len(),
                vals@.len() == i,
                self.inv(),
                Gen::grows(entry, *self),
                entry == *old(self),
                self.vars@.len() == entry.vars@.len(),
                forall|k: int| 0 <= k < i ==> jit_expr_ok(#[trigger] args@[k]),
                forall|k: int| 0 <= k < i ==> #[trigger] vals@[k] < self.nvals,
                i == 0 ==> *self == entry,
                !spec_is_print(callee@),
                get(entry.ids@, callee@) == Some(func),
                entry.sigs@[func as int].0 == args@.len(),
            decreases args.len() - i,
        {
            let v = self.gen_expr(&args[i])?;
            vals.push(v);
            i = i + 1;
        }
        proof {
            lemma_exprs_ok(args@);
        }
        if has_ret {
            if self.nvals == usize::MAX {
                return Err(too_large());
            }
            let dst = self.nvals;
            self.emit(Op::Call { func, args: vals, dst: Some(dst) });
            Ok(dst)
        } else {
            self.emit(Op::Call { func, args: vals, dst: None });
            self.konst(0)
        }
    }
}


/// The construct that the native backend refuses in an expression of kind
/// `k`, if it refuses the kind itself.
pub open spec fn jit_unsupported_kind(k: ExprKind) -> Option<Seq<char>> {
    match k {
        ExprKind::Int(_) => None,
        ExprKind::Bool(_) => None,
        ExprKind::Ident(_) => None,
        ExprKind::Unary { .. } => None,
        ExprKind::Binary { .. } => None,
        ExprKind::Call { .. } => None,
        ExprKind::If { .. } => None,
        ExprKind::Block(_) => None,
        ExprKind::Str(_) => Some("strings"@),
        ExprKind::StrInterp(_) => Some("strings"@),
        ExprKind::Float(_) => Some("floats"@),
        ExprKind::Cast { .. } => Some("casts"@),
        ExprKind::ArrayLit(_) => Some("arrays"@),
        ExprKind::Index { .. } => Some("arrays"@),
        ExprKind::Try(_) => Some("`?` / Result"@),
        _ => Some("structs, enums, or match"@),
    }
}

/// The declaration of item `k`, a function.
fn fn_item(prog: &Program, k: usize) -> (r: &crate::ast::FnDecl)
    requires
        k < prog.items@.len(),
        prog.items@[k as int] is Fn,
    ensures
        prog.items@[k as int] == Item::Fn(*r),
{
    match &prog.items[k] {
        Item::Fn(f) => f,
        _ => vstd::pervasive::unreached(),
    }
}

/// The name of a function item (empty for other items).
pub open spec fn fn_key(it: Item) -> Seq<char> {
    match it {
        Item::Fn(f) => f.name@,
        _ => Seq::empty(),
    }
}

/// Some item of `p` is a function named `n`.
pub open spec fn names_fn(p: Program, n: Seq<char>) -> bool {
    exists|q: int| 0 <= q < p.items@.len() && p.items@[q] is Fn && #[trigger] fn_key(p.items@[q]) == n
}

/// Every item of `p` is a function with no parameters, no return type and
/// an empty body, and one of them is an entry point.
pub open spec fn only_empty_fns(p: Program) -> bool {
    &&& forall|q: int| 0 <= q < p.items@.len() ==> match #[trigger] p.items@[q] {
        Item::Fn(f) => f.params@.len() == 0 && f.ret is None && f.body.stmts@.len() == 0,
        _ => false,
    }
    &&& names_fn(p, "main"@) || names_fn(p, "رئيسي"@) || names_fn(p, "principal"@)
}

/// The signature facts of item `k` that pass 1 establishes.
pub open spec fn sig_ok(p: Program, k: int, sig: (usize, bool)) -> bool {
    match p.items@[k] {
        Item::Fn(f) => {
            &&& forall|j: int| 0 <= j < f.params@.len() ==> jit_type_ok(#[trigger] f.params@[j].ty)
            &&& (f.ret matches Some(t) ==> jit_type_ok(t))
            &&& sig == (f.params@.len() as usize, f.ret is Some)
        },
        _ => false,
    }
}

/// Plans the native code of `prog`: every function's code, and its entry
/// point `main` / `رئيسي` / `principal`, which must take no parameters.
/// Only programs in the int/bool subset are planned.
pub fn plan_program(prog: &Program) -> (r: Result<JitPlan, String>)
    ensures
        r matches Ok(plan) ==> plan.wf() && jit_subset(*prog) && plan.funcs@.len() == prog.items@.len(),
        (exists|q: int| 0 <= q < prog.items@.len() && !(#[trigger] prog.items@[q] is Fn)) ==> (r matches Err(m) && m@
            == msg_unsupported("structs, enums, or impl blocks"@)),
        only_empty_fns(*prog) ==> r is Ok,
{
    let ghost simple = only_empty_fns(*prog);
    // Only plain functions are in the subset (no structs, enums or impls).
    let mut i: usize = 0;
    while i < prog.items.len()
        invariant
            i <= prog.items.len(),
            forall|k: int| 0 <= k < i ==> #[trigger] prog.items@[k] is Fn,
            simple == only_empty_fns(*prog),
        decreases prog.items.len() - i,
    {
        match &prog.items[i] {
            Item::Fn(_) => {}
            _ => return Err(unsupported("structs, enums, or impl blocks")),
        }
        i = i + 1;
    }

    // Pass 1: every function's signature, so calls and recursion resolve.
    let mut sigs: Vec<(usize, bool)> = Vec::new();
    let mut ids: Vec<(String, usize)> = Vec::new();
    let mut k: usize = 0;
    while k < prog.items.len()
        invariant
            k <= prog.items.len(),
            forall|q: int| 0 <= q < prog.items@.len() ==> #[trigger] prog.items@[q] is Fn,
            sigs@.len() == k,
            forall|j: int| 0 <= j < ids@.len() ==> (#[trigger] ids@[j]).1 < k,
            forall|j: int| 0 <= j < k ==> sig_ok(*prog, j, #[trigger] sigs@[j]),
            simple == only_empty_fns(*prog),
            forall|q: int| 0 <= q < k ==> has_key(ids@, #[trigger] fn_key(prog.items@[q])),
        decreases prog.items.len() - k,
    {
        let f = fn_item(prog, k);
        let mut q: usize = 0;
        while q < f.params.len()
            invariant
                q <= f.params.len(),
                simple == only_empty_fns(*prog),
                prog.items@[k as int] == Item::Fn(*f),
                k < prog.items@.len(),
                forall|q: int| 0 <= q < prog.items@.len() ==> #[trigger] prog.items@[q] is Fn,
                forall|j: int| 0 <= j < q ==> jit_type_ok(#[trigger] f.params@[j].ty),
            decreases f.params.len() - q,
        {
            check_subset_type(&f.params[q].ty)?;
            q = q + 1;
        }
        let has_ret = match &f.ret {
            None => false,
            Some(t) => {
                check_subset_type(t)?;
                true
            }
        };
        sigs.push((f.params.len(), has_ret));
        let ghost before = ids@;
        let key = f.name.clone();
        proof {
            crate::table::lemma_put(before, key, k);
        }
        let ghost key_g = key;
        insert(&mut ids, key, k);
        assert forall|q: int| 0 <= q < k + 1 implies has_key(ids@, #[trigger] fn_key(prog.items@[q])) by {
            crate::table::lemma_put_keys(before, key_g, k, fn_key(prog.items@[q]));
        }
        assert(sig_ok(*prog, k as int, sigs@[k as int]));
        k = k + 1;
    }

    // Pass 2: every function's body.
    let mut funcs: Vec<FnPlan> = Vec::new();
    let mut k: usize = 0;
    while k < prog.items.len()
        invariant
            k <= prog.items.len(),
            forall|q: int| 0 <= q < prog.items@.len() ==> #[trigger] prog.items@[q] is Fn,
            sigs@.len() == prog.items@.len(),
            forall|j: int| 0 <= j < ids@.len() ==> (#[trigger] ids@[j]).1 < sigs@.len(),
            forall|j: int| 0 <= j < prog.items@.len() ==> sig_ok(*prog, j, #[trigger] sigs@[j]),
            funcs@.len() == k,
            forall|j: int| 0 <= j < k ==> (#[trigger] funcs@[j]).params == sigs@[j].0 && funcs@[j].has_ret == sigs@[j].1
                && ops_ok(funcs@[j].ops@, sigs@),
            forall|j: int| 0 <= j < k ==> match #[trigger] prog.items@[j] {
                Item::Fn(f) => jit_stmts_ok(f.body.stmts@),
                _ => false,
            },
            simple == only_empty_fns(*prog),
            forall|q: int| 0 <= q < prog.items@.len() ==> has_key(ids@, #[trigger] fn_key(prog.items@[q])),
        decreases prog.items.len() - k,
    {
        let f = fn_item(prog, k);
        assert(sig_ok(*prog, k as int, sigs@[k as int]));
        let has_ret = sigs[k].1;
        let first: Vec<(String, usize)> = Vec::new();
        let mut scopes: Vec<Vec<(String, usize)>> = Vec::new();
        scopes.push(first);
        let ghost ids_g = ids@;
        let mut g = Gen { ops: Vec::new(), nvals: 0, nvars: 0, nblocks: 0, vars: scopes, ids, sigs };
        assert(g.ops@ =~= Seq::<Op>::empty());
        g.emit(Op::Entry { block: 0 });
        let mut q: usize = 0;
        while q < f.params.len()
            invariant
                q <= f.params.len(),
                g.inv(),
                g.vars@.len() == 1,
                g.nblocks >= 1,
                forall|j: int| 0 <= j < g.ids@.len() ==> (#[trigger] g.ids@[j]).1 < g.sigs@.len(),
                g.sigs@.len() == prog.items@.len(),
                forall|j: int| 0 <= j < prog.items@.len() ==> sig_ok(*prog, j, #[trigger] g.sigs@[j]),
                forall|j: int| 0 <= j < k ==> (#[trigger] funcs@[j]).params == g.sigs@[j].0 && funcs@[j].has_ret == g.sigs@[j].1
                    && ops_ok(funcs@[j].ops@, g.sigs@),
                g.ids@ == ids_g,
                simple == only_empty_fns(*prog),
                prog.items@[k as int] == Item::Fn(*f),
                k < prog.items@.len(),
                forall|q: int| 0 <= q < prog.items@.len() ==> #[trigger] prog.items@[q] is Fn,
            decreases f.params.len() - q,
        {
            let dst = g.nvals;
            let v = g.value_op(Op::Param { dst, block: 0, index: q })?;
            let var = g.new_var(&f.params[q].name)?;
            g.emit(Op::DefVar { var, value: v });
            q = q + 1;
        }
        let tail = g.gen_block(&f.body)?;
        if has_ret {
            match tail {
                Some(v) => g.emit(Op::Return { value: Some(v) }),
                None => {
                    let mut m = string_of_str("function `");
                    m.append(f.name.as_str());
                    m.append("`: missing a tail value for the JIT");
                    return Err(m);
                }
            }
        } else {
            g.emit(Op::Return { value: None });
        }
        let Gen { ops, ids: ids2, sigs: sigs2, .. } = g;
        ids = ids2;
        sigs = sigs2;
        funcs.push(FnPlan { name: f.name.clone(), params: f.params.len(), has_ret, ops });
        k = k + 1;
    }

    // The entry point, in any of the three surface spellings.
    let entry = match find(&ids, "main") {
        Some(j) => ids[j].1,
        None => match find(&ids, "رئيسي") {
            Some(j) => ids[j].1,
            None => match find(&ids, "principal") {
                Some(j) => ids[j].1,
                None => return Err(string_of_str("no entry point: define `fn main()`")),
            },
        },
    };
    if sigs[entry].0 != 0 {
        return Err(string_of_str("the entry point must take no parameters"));
    }
    let plan = JitPlan { funcs, entry };
    proof {
        assert(plan_sigs(plan.funcs@) =~= sigs@);
        assert forall|q: int| 0 <= q < prog.items@.len() implies match #[trigger] prog.items@[q] {
            Item::Fn(f) => {
                &&& forall|j: int| 0 <= j < f.params@.len() ==> jit_type_ok(#[trigger] f.params@[j].ty)
                &&& (f.ret matches Some(t) ==> jit_type_ok(t))
                &&& jit_stmts_ok(f.body.stmts@)
            },
            _ => false,
        } by {
            assert(sig_ok(*prog, q, sigs@[q]));
        }
    }
    Ok(plan)
}

} // verus!
