//! The Abstract Syntax Tree — language-neutral (no trace of EN/AR/FR remains).

use vstd::prelude::*;

verus! {

#[derive(Debug)]
pub struct Program {
    pub items: Vec<Item>,
}

/// A type as written in source. Structured (not a bare string) so composite
/// types like `[int]` and `Result<int, str>` nest.
#[derive(Debug)]
pub enum TypeExpr {
    /// A named type: primitive (`int`/`عدد`/`entier`) or user-defined.
    Name(String),
    /// `[T]` — a growable array of `T`.
    Array(Box<TypeExpr>),
    /// `Result<T, E>` (any surface spelling of `Result`).
    Result(Box<TypeExpr>, Box<TypeExpr>),
}

#[derive(Debug)]
pub enum Item {
    Fn(FnDecl),
    Struct(StructDecl),
    Enum(EnumDecl),
    Impl(ImplBlock),
}

#[derive(Debug)]
pub struct ImplBlock {
    pub self_type: String,
    pub methods: Vec<MethodDecl>,
}

#[derive(Debug)]
pub struct MethodDecl {
    pub self_kind: SelfKind,
    pub func: FnDecl,
}

#[derive(Debug, Clone, Copy, PartialEq, Eq, Structural)]
pub enum SelfKind {
    /// No `self` parameter — an associated function, called `Type::name(..)`.
    Assoc,
    /// `self` by value (consuming).
    Value,
    /// `&self` shared/read-only borrow.
    Ref,
    /// `&mut self` — the method mutates the receiver in place; callable only
    /// on a mutable binding.
    MutRef,
}

#[derive(Debug)]
pub struct StructDecl {
    pub name: String,
    /// (field name, field type) pairs.
    pub fields: Vec<(String, TypeExpr)>,
}

#[derive(Debug)]
pub struct EnumDecl {
    pub name: String,
    pub variants: Vec<VariantDecl>,
}

#[derive(Debug)]
pub struct VariantDecl {
    pub name: String,
    /// Payload types (empty = unit variant `Red`; `[int]` = `Circle(int)`).
    pub payloads: Vec<TypeExpr>,
}

#[derive(Debug)]
pub struct FnDecl {
    pub name: String,
    pub params: Vec<Param>,
    /// Declared return type; `None` means unit `()`.
    pub ret: Option<TypeExpr>,
    pub body: Block,
}

#[derive(Debug)]
pub struct Param {
    pub name: String,
    pub ty: TypeExpr,
}

#[derive(Debug)]
pub struct Block {
    pub stmts: Vec<Stmt>,
}

#[derive(Debug)]
pub enum Stmt {
    /// `let`/`var` binding. `mutable` distinguishes var from let.
    /// `ty_ann` is an optional explicit type annotation (`let x: int = ...`).
    Let { name: String, mutable: bool, ty_ann: Option<TypeExpr>, init: Expr },
    Assign { target: AssignTarget, value: Expr },
    While { cond: Expr, body: Block },
    /// `for i in a..b` — integer range iteration.
    For { var: String, start: Expr, end: Expr, body: Block },
    /// `for x in arr` — array element iteration.
    ForEach { var: String, iter: Expr, body: Block },
    Return(Option<Expr>),
    Expr(Expr),
}

/// The left side of an assignment: a variable, an indexed element, or a field.
#[derive(Debug)]
pub enum AssignTarget {
    /// `x = v`
    Var(String),
    /// `a[i] = v`
    Index { name: String, index: Expr },
    /// `p.field = v` (incl. `self.field` inside `&mut self` methods)
    Field { name: String, field: String },
}

/// An expression plus its source line, so diagnostics can point at it.
#[derive(Debug)]
pub struct Expr {
    pub kind: ExprKind,
    pub line: usize,
}

#[derive(Debug)]
pub enum ExprKind {
    Int(i64),
    /// A float literal, held as its IEEE-754 bit pattern.
    Float(u64),
    /// `expr as Type` numeric cast.
    Cast { expr: Box<Expr>, ty: TypeExpr },
    Str(String),
    /// Interpolated string: `"hi {name}"` → [Lit("hi "), Expr(name)].
    StrInterp(Vec<StrPart>),
    Bool(bool),
    Ident(String),
    Unary { op: UnOp, rhs: Box<Expr> },
    Binary { op: BinOp, lhs: Box<Expr>, rhs: Box<Expr> },
    Call { callee: String, args: Vec<Expr> },
    /// `if` is an EXPRESSION (yields a value). `els` is another Expr
    /// (either Expr::Block or a nested Expr::If) to support else-if chains.
    If { cond: Box<Expr>, then_b: Block, els: Option<Box<Expr>> },
    Block(Block),
    /// `User { name: ..., age: ... }`
    StructLit { name: String, fields: Vec<(String, Expr)> },
    /// `base.field`
    Field { base: Box<Expr>, field: String },
    /// A `Type::member(args)` / `Type::member` path: enum construction
    /// (`Shape::Circle(2)`, `Color::Red`) or an associated-function call
    /// (`Point::new(3, 4)`).
    Path { ty: String, member: String, args: Vec<Expr> },
    /// `receiver.method(args)`
    MethodCall { receiver: Box<Expr>, method: String, args: Vec<Expr> },
    /// `match scrutinee { pat => expr, ... }` — an expression.
    Match { scrutinee: Box<Expr>, arms: Vec<MatchArm> },
    /// `[a, b, c]` — array literal.
    ArrayLit(Vec<Expr>),
    /// `base[index]` — array element access.
    Index { base: Box<Expr>, index: Box<Expr> },
    /// `expr?` — unwrap `Ok`, or propagate `Err` to the caller.
    Try(Box<Expr>),
}

#[derive(Debug)]
pub struct MatchArm {
    pub pattern: Pattern,
    pub body: Expr,
}

#[derive(Debug)]
pub enum Pattern {
    /// `_`
    Wildcard,
    /// A bare name: either a binding OR a unit variant — resolved at match time
    /// against the variant registry.
    Ident(String),
    Int(i64),
    Bool(bool),
    Str(String),
    /// `Circle(r)` or `Shape::Circle(r)` or `Shape::Red` — has `::` or `(...)`.
    Variant { enum_name: Option<String>, name: String, subs: Vec<Pattern> },
}

#[derive(Debug)]
pub enum StrPart {
    Lit(String),
    Expr(Box<Expr>),
}

#[derive(Debug, Clone, Copy, PartialEq, Eq, Structural)]
pub enum UnOp {
    Neg,
    Not,
}

#[derive(Debug, Clone, Copy, PartialEq, Eq, Structural)]
pub enum BinOp {
    Add,
    Sub,
    Mul,
    Div,
    Rem,
    Eq,
    Ne,
    Lt,
    Le,
    Gt,
    Ge,
}

} // verus!

verus! {

// ---------------------------------------------------------------------------
// Declarations of a program
// ---------------------------------------------------------------------------

/// The name an item declares (for an `impl` block, the type it extends).
pub open spec fn item_name(it: Item) -> Seq<char> {
    match it {
        Item::Fn(f) => f.name@,
        Item::Struct(s) => s.name@,
        Item::Enum(e) => e.name@,
        Item::Impl(b) => b.self_type@,
    }
}

/// Whether `p` declares a function named `name`.
pub open spec fn declares_fn(p: Program, name: Seq<char>) -> bool {
    exists|k: int| 0 <= k < p.items@.len() && p.items@[k] is Fn && #[trigger] item_name(p.items@[k]) == name
}

/// Whether `p` declares a struct or an enum named `name`.
pub open spec fn declares_type(p: Program, name: Seq<char>) -> bool {
    exists|k: int|
        0 <= k < p.items@.len() && (p.items@[k] is Struct || p.items@[k] is Enum) && #[trigger] item_name(p.items@[k])
            == name
}

/// Whether `p` has an entry point: `main` / `رئيسي` / `principal`.
pub open spec fn has_entry(p: Program) -> bool {
    declares_fn(p, "main"@) || declares_fn(p, "رئيسي"@) || declares_fn(p, "principal"@)
}

/// No two structs or enums share a name.
pub open spec fn distinct_type_names(p: Program) -> bool {
    forall|j: int, k: int|
        0 <= j < k < p.items@.len() && (p.items@[j] is Struct || p.items@[j] is Enum) && (p.items@[k] is Struct
            || p.items@[k] is Enum) ==> #[trigger] item_name(p.items@[j]) != #[trigger] item_name(p.items@[k])
}

/// Every `impl` block extends a declared struct or enum.
pub open spec fn impls_declared(p: Program) -> bool {
    forall|k: int| 0 <= k < p.items@.len() && p.items@[k] is Impl ==> declares_type(p, #[trigger] item_name(p.items@[k]))
}

/// Variant `v` of item `k`, which is an enum.
pub open spec fn is_variant(p: Program, k: int, v: int) -> bool {
    0 <= k < p.items@.len() && match p.items@[k] {
        Item::Enum(e) => 0 <= v < e.variants@.len(),
        _ => false,
    }
}

pub open spec fn variant_name(p: Program, k: int, v: int) -> Seq<char> {
    match p.items@[k] {
        Item::Enum(e) => e.variants@[v].name@,
        _ => Seq::empty(),
    }
}

/// Variant `v` of item `k` comes before variant `w` of item `i`.
pub open spec fn variant_before(k: int, v: int, i: int, w: int) -> bool {
    k < i || (k == i && v < w)
}

/// The variants declared before variant `w` of item `i` have distinct names.
pub open spec fn distinct_variants_upto(p: Program, i: int, w: int) -> bool {
    forall|k1: int, v1: int, k2: int, v2: int|
        is_variant(p, k1, v1) && is_variant(p, k2, v2) && variant_before(k1, v1, i, w) && variant_before(k2, v2, i, w)
            && (k1 != k2 || v1 != v2) ==> #[trigger] variant_name(p, k1, v1) != #[trigger] variant_name(p, k2, v2)
}

/// No variant name is declared twice, in one enum or in two.
pub open spec fn distinct_variant_names(p: Program) -> bool {
    distinct_variants_upto(p, p.items@.len() as int, 0)
}

/// The only item of a program, when it is a parameterless entry point
/// `main` / `رئيسي` / `principal`.
pub open spec fn single_entry(p: Program) -> Option<FnDecl> {
    if p.items@.len() == 1 {
        match p.items@[0] {
            Item::Fn(f) => if f.params@.len() == 0 && (f.name@ == "main"@ || f.name@ == "رئيسي"@ || f.name@ == "principal"@) {
                Some(f)
            } else {
                None
            },
            _ => None,
        }
    } else {
        None
    }
}

/// The operator-expression fragment of the tree, as the parser's contract
/// speaks of it: literals, variables, unary and binary operators, calls,
/// `if` and block expressions, interpolated strings, array literals,
/// indexing and method calls; any other expression is `Other`.
pub enum SKind {
    Int(i64),
    Float(u64),
    Str(Seq<char>),
    Bool(bool),
    Ident(Seq<char>),
    Unary(UnOp, Box<SExpr>),
    Binary(BinOp, Box<SExpr>, Box<SExpr>),
    Call(Seq<char>, Seq<SExpr>),
    If(Box<SExpr>, Seq<SStmt>, Option<Box<SExpr>>),
    Block(Seq<SStmt>),
    Interp(Seq<SPart>),
    Array(Seq<SExpr>),
    Index(Box<SExpr>, Box<SExpr>),
    Method(Box<SExpr>, Seq<char>, Seq<SExpr>),
    Other,
}

/// A piece of an interpolated string of the fragment.
pub enum SPart {
    Lit(Seq<char>),
    Expr(SExpr),
}

/// An expression of the fragment with its line.
pub struct SExpr {
    pub kind: SKind,
    pub line: nat,
}

/// The fragment view of an expression.
pub open spec fn sview(e: Expr) -> SExpr
    decreases e, 1int,
{
    SExpr {
        kind: match e.kind {
            ExprKind::Int(n) => SKind::Int(n),
            ExprKind::Float(b) => SKind::Float(b),
            ExprKind::Str(s) => SKind::Str(s@),
            ExprKind::Bool(b) => SKind::Bool(b),
            ExprKind::Ident(s) => SKind::Ident(s@),
            ExprKind::Unary { op, rhs } => SKind::Unary(op, Box::new(sview(*rhs))),
            ExprKind::Binary { op, lhs, rhs } => SKind::Binary(op, Box::new(sview(*lhs)), Box::new(sview(*rhs))),
            ExprKind::Call { callee, args } => SKind::Call(callee@, sview_list(args@)),
            ExprKind::If { cond, then_b, els } => SKind::If(
                Box::new(sview(*cond)),
                stmts_sview(then_b.stmts@),
                match els {
                    Some(x) => Some(Box::new(sview(*x))),
                    None => None,
                },
            ),
            ExprKind::Block(b) => SKind::Block(stmts_sview(b.stmts@)),
            ExprKind::StrInterp(parts) => SKind::Interp(parts_sview(parts@)),
            ExprKind::ArrayLit(elems) => SKind::Array(sview_list(elems@)),
            ExprKind::Index { base, index } => SKind::Index(Box::new(sview(*base)), Box::new(sview(*index))),
            ExprKind::MethodCall { receiver, method, args } => SKind::Method(
                Box::new(sview(*receiver)),
                method@,
                sview_list(args@),
            ),
            _ => SKind::Other,
        },
        line: e.line as nat,
    }
}

/// The fragment view of the pieces of an interpolated string.
pub open spec fn parts_sview(ps: Seq<StrPart>) -> Seq<SPart>
    decreases ps, 0int,
{
    if ps.len() == 0 {
        Seq::empty()
    } else {
        parts_sview(ps.drop_last()).push(match ps.last() {
            StrPart::Lit(t) => SPart::Lit(t@),
            StrPart::Expr(x) => SPart::Expr(sview(*x)),
        })
    }
}

pub open spec fn sview_list(s: Seq<Expr>) -> Seq<SExpr>
    decreases s, 0int,
{
    if s.len() == 0 {
        Seq::empty()
    } else {
        sview_list(s.subrange(0, s.len() - 1)).push(sview(s[s.len() - 1]))
    }
}

/// The statement fragment of the tree, as the parser's contract speaks of
/// it: `let`/`var` bindings without a type annotation or annotated with a
/// type name, assignments to a
/// variable, `while` loops, `for` loops over ranges and arrays, and
/// expression statements; any other statement is `Other`.
pub enum SStmt {
    Let { name: Seq<char>, mutable: bool, ann: Option<Seq<char>>, init: SExpr },
    Assign { name: Seq<char>, value: SExpr },
    While { cond: SExpr, body: Seq<SStmt> },
    For { var: Seq<char>, start: SExpr, end: SExpr, body: Seq<SStmt> },
    ForEach { var: Seq<char>, iter: SExpr, body: Seq<SStmt> },
    Expr(SExpr),
    Other,
}

pub open spec fn stmt_sview(s: Stmt) -> SStmt
    decreases s, 1int,
{
    match s {
        Stmt::Let { name, mutable, ty_ann: None, init } => SStmt::Let { name: name@, mutable, ann: None, init: sview(init) },
        Stmt::Let { name, mutable, ty_ann: Some(TypeExpr::Name(t)), init } => SStmt::Let {
            name: name@,
            mutable,
            ann: Some(t@),
            init: sview(init),
        },
        Stmt::Assign { target: AssignTarget::Var(name), value } => SStmt::Assign { name: name@, value: sview(value) },
        Stmt::While { cond, body } => SStmt::While { cond: sview(cond), body: stmts_sview(body.stmts@) },
        Stmt::For { var, start, end, body } => SStmt::For {
            var: var@,
            start: sview(start),
            end: sview(end),
            body: stmts_sview(body.stmts@),
        },
        Stmt::ForEach { var, iter, body } => SStmt::ForEach {
            var: var@,
            iter: sview(iter),
            body: stmts_sview(body.stmts@),
        },
        Stmt::Expr(e) => SStmt::Expr(sview(e)),
        _ => SStmt::Other,
    }
}

pub open spec fn stmts_sview(s: Seq<Stmt>) -> Seq<SStmt>
    decreases s, 0int,
{
    if s.len() == 0 {
        Seq::empty()
    } else {
        stmts_sview(s.subrange(0, s.len() - 1)).push(stmt_sview(s[s.len() - 1]))
    }
}

/// An item of the fragment: a function without parameters or return type,
/// with its name and body; any other item is `Other`.
pub enum SItem {
    Fn { name: Seq<char>, body: Seq<SStmt> },
    Other,
}

pub open spec fn item_sview(i: Item) -> SItem {
    match i {
        Item::Fn(f) => if f.params@.len() == 0 && f.ret is None {
            SItem::Fn { name: f.name@, body: stmts_sview(f.body.stmts@) }
        } else {
            SItem::Other
        },
        _ => SItem::Other,
    }
}

pub open spec fn prog_sview(p: Program) -> Seq<SItem> {
    p.items@.map_values(|i: Item| item_sview(i))
}

} // verus!
