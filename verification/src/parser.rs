//! Recursive-descent parser (statements/items) + Pratt parser (expressions).
//!
//! Statement boundaries are structural: expression parsing stops at any
//! non-operator token, so newlines need no explicit terminator token.

use vstd::prelude::*;
use crate::ast::{
    parts_sview, prog_sview, stmt_sview, stmts_sview, item_sview, sview, sview_list, SExpr, SItem, SKind, SPart, SStmt, AssignTarget, BinOp, Block, EnumDecl, Expr, ExprKind, FnDecl, ImplBlock, Item, MatchArm,
    MethodDecl, Param, Pattern, Program, SelfKind, Stmt, StrPart, StructDecl, TypeExpr, UnOp,
    VariantDecl,
};
use crate::lexer::{bom_len, spec_tokenize, Lexer};
use crate::text::{chars_eq_str, push_dec, str_chars, string_of_str};
use crate::token::{clone_kind, kind_debug, kind_eq, result_ctor, spec_result_ctor, SpecStrPiece, SpecToken, SpecTokenKind, StrPiece, Token, TokenKind};

verus! {

pub type PResult<T> = Result<T, String>;

/// How deeply interpolated strings may nest inside one another.
pub const MAX_INTERP_DEPTH: usize = 16;

pub struct Parser {
    toks: Vec<Token>,
    pos: usize,
    /// Whether `Ident {` should be read as a struct literal. Disabled while
    /// parsing if/while/for conditions and match scrutinees, where `{` opens a
    /// block (same disambiguation Rust uses).
    allow_struct_lit: bool,
    /// Remaining nesting allowance for interpolated strings.
    depth: usize,
}

/// `"line N: "` followed by `msg`.
fn at_line(line: usize, msg: &str) -> (r: String)
    ensures
        r@ == "line "@ + crate::text::dec(line as nat) + ": "@ + msg@,
{
    let mut m = String::new();
    m.append("line ");
    push_dec(&mut m, line as u64);
    m.append(": ");
    m.append(msg);
    m
}

/// The binding power of an infix operator: (left, right).
pub open spec fn spec_infix_bp(op: BinOp) -> (u8, u8) {
    match op {
        BinOp::Eq | BinOp::Ne | BinOp::Lt | BinOp::Le | BinOp::Gt | BinOp::Ge => (3, 4),
        BinOp::Add | BinOp::Sub => (5, 6),
        BinOp::Mul | BinOp::Div | BinOp::Rem => (7, 8),
    }
}

fn infix_bp(op: BinOp) -> (r: (u8, u8))
    ensures
        r == spec_infix_bp(op),
{
    match op {
        BinOp::Eq | BinOp::Ne | BinOp::Lt | BinOp::Le | BinOp::Gt | BinOp::Ge => (3, 4),
        BinOp::Add | BinOp::Sub => (5, 6),
        BinOp::Mul | BinOp::Div | BinOp::Rem => (7, 8),
    }
}

/// The infix operator a token stands for, if any.
pub open spec fn spec_binop(k: SpecTokenKind) -> Option<BinOp> {
    match k {
        SpecTokenKind::Plus => Some(BinOp::Add),
        SpecTokenKind::Minus => Some(BinOp::Sub),
        SpecTokenKind::Star => Some(BinOp::Mul),
        SpecTokenKind::Slash => Some(BinOp::Div),
        SpecTokenKind::Percent => Some(BinOp::Rem),
        SpecTokenKind::EqEq => Some(BinOp::Eq),
        SpecTokenKind::Ne => Some(BinOp::Ne),
        SpecTokenKind::Lt => Some(BinOp::Lt),
        SpecTokenKind::Le => Some(BinOp::Le),
        SpecTokenKind::Gt => Some(BinOp::Gt),
        SpecTokenKind::Ge => Some(BinOp::Ge),
        _ => None,
    }
}

fn binop_of(k: &TokenKind) -> (r: Option<BinOp>)
    ensures
        r == spec_binop(k@),
{
    match k {
        TokenKind::Plus => Some(BinOp::Add),
        TokenKind::Minus => Some(BinOp::Sub),
        TokenKind::Star => Some(BinOp::Mul),
        TokenKind::Slash => Some(BinOp::Div),
        TokenKind::Percent => Some(BinOp::Rem),
        TokenKind::EqEq => Some(BinOp::Eq),
        TokenKind::Ne => Some(BinOp::Ne),
        TokenKind::Lt => Some(BinOp::Lt),
        TokenKind::Le => Some(BinOp::Le),
        TokenKind::Gt => Some(BinOp::Gt),
        TokenKind::Ge => Some(BinOp::Ge),
        _ => None,
    }
}

/// All surface spellings of the builtin `Result` type name.
pub open spec fn spec_is_result_name(name: Seq<char>) -> bool {
    name == "Result"@ || name == "نتيجة"@ || name == "Résultat"@ || name == "Resultat"@
}

/// All surface spellings of the builtin `Result` type name.
pub fn is_result_name(name: &str) -> (r: bool)
    ensures
        r == spec_is_result_name(name@),
{
    let w = str_chars(name);
    let w = w.as_slice();
    chars_eq_str(w, "Result") || chars_eq_str(w, "نتيجة") || chars_eq_str(w, "Résultat")
        || chars_eq_str(w, "Resultat")
}

/// All surface spellings of `self` (reserved inside method bodies).
pub open spec fn spec_is_self_name(name: Seq<char>) -> bool {
    name == "self"@ || name == "الذات"@ || name == "soi"@
}

fn is_self_name(name: &str) -> (r: bool)
    ensures
        r == spec_is_self_name(name@),
{
    let w = str_chars(name);
    let w = w.as_slice();
    chars_eq_str(w, "self") || chars_eq_str(w, "الذات") || chars_eq_str(w, "soi")
}

/// `s` with `Ok`/`Err` spellings canonicalized.
fn canonical_ctor(s: String) -> (r: String)
    ensures
        r@ == (match spec_result_ctor(s@) {
            Some(c) => c,
            None => s@,
        }),
{
    match result_ctor(s.as_str()) {
        Some(c) => string_of_str(c),
        None => s,
    }
}

proof fn lemma_pieces_prefix(ps: Seq<SpecStrPiece>, d: nat, k: int)
    requires
        0 <= k <= ps.len(),
        spec_pieces(ps, d) is Some,
    ensures
        spec_pieces(ps.take(k), d) is Some,
    decreases ps.len() - k,
{
    if k < ps.len() {
        assert(ps.take(k + 1).drop_last() =~= ps.take(k));
        lemma_pieces_prefix(ps, d, k + 1);
    } else {
        assert(ps.take(k) =~= ps);
    }
}

/// Convert lexer interpolation pieces into AST string parts, re-lexing and
/// parsing each `{expr}` piece as a standalone expression.
fn parse_interp_pieces(pieces: &Vec<StrPiece>, depth: usize) -> (r: PResult<Vec<StrPart>>)
    ensures
        spec_pieces(pieces@.map_values(|x: StrPiece| x@), depth as nat) matches Some(ps) ==> (r matches Ok(parts)
            && parts_sview(parts@) == ps),
    decreases depth, 0int, 0int,
{
    if depth == 0 {
        return Err(string_of_str("interpolated strings are nested too deeply"));
    }
    let ghost sp = pieces@.map_values(|x: StrPiece| x@);
    let ghost target = spec_pieces(sp, depth as nat);
    let mut parts: Vec<StrPart> = Vec::new();
    let mut i: usize = 0;
    proof {
        assert(sp.take(0) =~= Seq::<SpecStrPiece>::empty());
        assert(parts_sview(parts@) =~= Seq::<SPart>::empty());
    }
    while i < pieces.len()
        invariant
            i <= pieces.len(),
            depth > 0,
            sp == pieces@.map_values(|x: StrPiece| x@),
            target == spec_pieces(sp, depth as nat),
            target is Some ==> spec_pieces(sp.take(i as int), depth as nat) == Some(parts_sview(parts@)),
        decreases pieces.len() - i,
    {
        let ghost before = parts@;
        let ghost t1 = sp.take(i + 1);
        proof {
            assert(t1.drop_last() =~= sp.take(i as int));
            assert(t1.last() == pieces@[i as int]@);
            if target is Some {
                lemma_pieces_prefix(sp, depth as nat, i + 1);
            }
        }
        match &pieces[i] {
            StrPiece::Lit(s) => {
                parts.push(StrPart::Lit(s.clone()));
                proof {
                    assert(parts@.drop_last() =~= before);
                }
            },
            StrPiece::Expr(raw) => {
                let n = raw.as_str().unicode_len();
                if n == usize::MAX {
                    return Err(string_of_str("interpolation expression is too long"));
                }
                let mut lx = Lexer::new(raw.as_str());
                let toks = lx.tokenize()?;
                let ghost sub_ts = token_views(toks@);
                proof {
                    assert(toks@.map_values(|t: Token| t@) =~= sub_ts);
                }
                let mut sub = Parser::with_depth(toks, depth - 1);
                let e = sub.parse_expr(0)?;
                if !sub.at_eof() {
                    let mut m = string_of_str("invalid interpolation expression: `");
                    m.append(raw.as_str());
                    m.append("`");
                    return Err(m);
                }
                parts.push(StrPart::Expr(Box::new(e)));
                proof {
                    assert(parts@.drop_last() =~= before);
                }
            },
        }
        i = i + 1;
    }
    proof {
        assert(sp.take(pieces@.len() as int) =~= sp);
    }
    Ok(parts)
}

/// A callee name with the `Ok`/`Err` spellings canonicalized.
pub open spec fn spec_canonical(n: Seq<char>) -> Seq<char> {
    match spec_result_ctor(n) {
        Some(c) => c,
        None => n,
    }
}

/// Whether the token `k` continues an expression as a postfix form
/// (field access or method call, cast, indexing, `?`).
pub open spec fn is_postfix_start(k: SpecTokenKind) -> bool {
    k is Dot || k is As || k is LBracket || k is Question
}

/// What the prefix parser reads at `pos`, for the operator fragment: the
/// expression's kind and the position after it (`None` outside the
/// fragment or on a syntax error). `sl` says whether `Name {` opens a
/// struct literal; `d` is how deeply interpolated strings may still nest.
pub open spec fn spec_prefix(ts: Seq<SpecToken>, pos: int, sl: bool, d: nat) -> Option<(SKind, int)>
    decreases d, ts.len() - pos, 1int,
{
    if !(0 <= pos < ts.len() - 1) {
        None
    } else {
        match ts[pos].kind {
            SpecTokenKind::Minus => match spec_expr(ts, pos + 1, 7, sl, d) {
                Some((e, p)) => Some((SKind::Unary(UnOp::Neg, Box::new(e)), p)),
                None => None,
            },
            SpecTokenKind::Bang => match spec_expr(ts, pos + 1, 7, sl, d) {
                Some((e, p)) => Some((SKind::Unary(UnOp::Not, Box::new(e)), p)),
                None => None,
            },
            SpecTokenKind::Int(n) => Some((SKind::Int(n), pos + 1)),
            SpecTokenKind::Float(b) => Some((SKind::Float(b), pos + 1)),
            SpecTokenKind::Str(t) => Some((SKind::Str(t), pos + 1)),
            SpecTokenKind::InterpStr(ps) => match spec_pieces(ps, d) {
                Some(parts) => Some((SKind::Interp(parts), pos + 1)),
                None => None,
            },
            SpecTokenKind::True => Some((SKind::Bool(true), pos + 1)),
            SpecTokenKind::False => Some((SKind::Bool(false), pos + 1)),
            SpecTokenKind::If => match spec_if(ts, pos, sl, d) {
                Some((e, p)) => Some((e.kind, p)),
                None => None,
            },
            SpecTokenKind::LBracket => if ts[pos + 1].kind is RBracket {
                Some((SKind::Array(Seq::empty()), pos + 2))
            } else {
                match spec_elems(ts, pos + 1, Seq::empty(), d) {
                    Some((es, q)) => Some((SKind::Array(es), q)),
                    None => None,
                }
            },
            SpecTokenKind::LParen => match spec_expr(ts, pos + 1, 0, true, d) {
                Some((e, p)) => if 0 <= p < ts.len() && ts[p].kind is RParen {
                    Some((e.kind, p + 1))
                } else {
                    None
                },
                None => None,
            },
            SpecTokenKind::Ident(t) => {
                let nm = if spec_is_self_name(t) { "self"@ } else { t };
                let nk = ts[pos + 1].kind;
                if nk is PathSep {
                    None
                } else if nk is LParen {
                    match spec_args(ts, pos + 1, d) {
                        Some((args, q)) => Some((SKind::Call(spec_canonical(nm), args), q)),
                        None => None,
                    }
                } else if sl && nk is LBrace {
                    None
                } else {
                    Some((SKind::Ident(nm), pos + 1))
                }
            },
            _ => None,
        }
    }
}

/// The pieces of an interpolated string: literal text as it is, and the
/// source text of each embedded expression lexed and read as one whole
/// expression, nested interpolated strings allowed `d` levels deep (`None`
/// where an expression does not read so, or the nesting is too deep).
pub open spec fn spec_pieces(ps: Seq<SpecStrPiece>, d: nat) -> Option<Seq<SPart>>
    decreases d, 0int, ps.len(),
{
    if d == 0 {
        None
    } else if ps.len() == 0 {
        Some(Seq::empty())
    } else {
        match spec_pieces(ps.drop_last(), d) {
            Some(acc) => match ps.last() {
                SpecStrPiece::Lit(t) => Some(acc.push(SPart::Lit(t))),
                SpecStrPiece::Expr(raw) => if raw.len() >= usize::MAX {
                    None
                } else {
                    match spec_tokenize(raw, bom_len(raw)) {
                        Ok(sub) => match spec_expr(sub, 0, 0, true, (d - 1) as nat) {
                            Some((e, q)) => if 0 <= q < sub.len() && sub[q].kind is Eof {
                                Some(acc.push(SPart::Expr(e)))
                            } else {
                                None
                            },
                            None => None,
                        },
                        Err(_) => None,
                    }
                },
            },
            None => None,
        }
    }
}

/// What the `if` parser reads at `pos`: the condition (read with struct
/// literals off), the block, and an `else` block or `else if`.
pub open spec fn spec_if(ts: Seq<SpecToken>, pos: int, sl: bool, d: nat) -> Option<(SExpr, int)>
    decreases d, ts.len() - pos, 0int,
{
    if !(0 <= pos < ts.len() - 1) || !(ts[pos].kind is If) {
        None
    } else {
        match spec_expr(ts, pos + 1, 0, false, d) {
            Some((c, q)) => if pos < q < ts.len() {
                match spec_block(ts, q, sl, d) {
                    Some((tb, q2)) => if q < q2 < ts.len() {
                        if !(ts[q2].kind is Else) {
                            Some((SExpr { kind: SKind::If(Box::new(c), tb, None), line: ts[pos].line }, q2))
                        } else if q2 + 1 < ts.len() && ts[q2 + 1].kind is If {
                            match spec_if(ts, q2 + 1, sl, d) {
                                Some((x, q3)) => Some((
                                    SExpr { kind: SKind::If(Box::new(c), tb, Some(Box::new(x))), line: ts[pos].line },
                                    q3,
                                )),
                                None => None,
                            }
                        } else {
                            match spec_block(ts, q2 + 1, sl, d) {
                                Some((eb, q3)) => Some((
                                    SExpr {
                                        kind: SKind::If(
                                            Box::new(c),
                                            tb,
                                            Some(Box::new(SExpr { kind: SKind::Block(eb), line: ts[q2 + 1].line })),
                                        ),
                                        line: ts[pos].line,
                                    },
                                    q3,
                                )),
                                None => None,
                            }
                        }
                    } else {
                        None
                    },
                    None => None,
                }
            } else {
                None
            },
            None => None,
        }
    }
}

/// The elements of an array literal from `p` on, after the elements `acc`,
/// and the position after the closing `]`.
pub open spec fn spec_elems(ts: Seq<SpecToken>, p: int, acc: Seq<SExpr>, d: nat) -> Option<(Seq<SExpr>, int)>
    decreases d, ts.len() - p, 4int,
{
    match spec_expr(ts, p, 0, true, d) {
        Some((e, q)) => if p < q < ts.len() {
            if ts[q].kind is Comma {
                spec_elems(ts, q + 1, acc.push(e), d)
            } else if ts[q].kind is RBracket {
                Some((acc.push(e), q + 1))
            } else {
                None
            }
        } else {
            None
        },
        None => None,
    }
}

/// What the postfix parser reads at `pos`: a prefix expression with the
/// line of its first token, with the indexing and method-call forms that
/// follow it (`None` when another postfix form follows).
pub open spec fn spec_postfix(ts: Seq<SpecToken>, pos: int, sl: bool, d: nat) -> Option<(SExpr, int)>
    decreases d, ts.len() - pos, 2int,
{
    if !(0 <= pos < ts.len()) {
        None
    } else {
        match spec_prefix(ts, pos, sl, d) {
            Some((k, p)) => if pos < p < ts.len() {
                spec_postfix_rest(ts, p, SExpr { kind: k, line: ts[pos].line }, d)
            } else {
                None
            },
            None => None,
        }
    }
}

/// The postfix forms from `p` on, applied to `lhs`: each `[index]`
/// indexes it and each `.name(args)` calls a method on it, on its line.
pub open spec fn spec_postfix_rest(ts: Seq<SpecToken>, p: int, lhs: SExpr, d: nat) -> Option<(SExpr, int)>
    decreases d, ts.len() - p, 0int,
{
    if !(0 <= p < ts.len()) {
        None
    } else if ts[p].kind is LBracket {
        match spec_expr(ts, p + 1, 0, true, d) {
            Some((ix, q)) => if p + 1 < q < ts.len() && ts[q].kind is RBracket {
                spec_postfix_rest(
                    ts,
                    q + 1,
                    SExpr { kind: SKind::Index(Box::new(lhs), Box::new(ix)), line: lhs.line },
                    d,
                )
            } else {
                None
            },
            None => None,
        }
    } else if ts[p].kind is Dot {
        if p + 2 < ts.len() && ts[p + 1].kind is Ident && ts[p + 2].kind is LParen {
            match spec_args(ts, p + 2, d) {
                Some((args, q)) => if p + 2 < q <= ts.len() {
                    spec_postfix_rest(
                        ts,
                        q,
                        SExpr { kind: SKind::Method(Box::new(lhs), ts[p + 1].kind->Ident_0, args), line: lhs.line },
                        d,
                    )
                } else {
                    None
                },
                None => None,
            }
        } else {
            None
        }
    } else if is_postfix_start(ts[p].kind) {
        None
    } else {
        Some((lhs, p))
    }
}

proof fn lemma_postfix_rest_end(ts: Seq<SpecToken>, p: int, lhs: SExpr, d: nat)
    ensures
        spec_postfix_rest(ts, p, lhs, d) matches Some((_, q)) ==> p <= q < ts.len(),
    decreases ts.len() - p,
{
    if 0 <= p < ts.len() && ts[p].kind is LBracket {
        match spec_expr(ts, p + 1, 0, true, d) {
            Some((ix, q)) => if p + 1 < q < ts.len() && ts[q].kind is RBracket {
                lemma_postfix_rest_end(
                    ts,
                    q + 1,
                    SExpr { kind: SKind::Index(Box::new(lhs), Box::new(ix)), line: lhs.line },
                    d,
                );
            },
            None => {},
        }
    } else if 0 <= p < ts.len() && ts[p].kind is Dot && p + 2 < ts.len() && ts[p + 1].kind is Ident
        && ts[p + 2].kind is LParen {
        match spec_args(ts, p + 2, d) {
            Some((args, q)) => if p + 2 < q <= ts.len() {
                lemma_postfix_rest_end(
                    ts,
                    q,
                    SExpr { kind: SKind::Method(Box::new(lhs), ts[p + 1].kind->Ident_0, args), line: lhs.line },
                    d,
                );
            },
            None => {},
        }
    }
}

/// A postfix expression ends past its start, inside the tokens.
pub proof fn lemma_postfix_end(ts: Seq<SpecToken>, pos: int, sl: bool, d: nat)
    ensures
        spec_postfix(ts, pos, sl, d) matches Some((_, p)) ==> pos < p < ts.len(),
{
    if 0 <= pos < ts.len() {
        match spec_prefix(ts, pos, sl, d) {
            Some((k, p)) => if pos < p < ts.len() {
                lemma_postfix_rest_end(ts, p, SExpr { kind: k, line: ts[pos].line }, d);
            },
            None => {},
        }
    }
}

/// What the Pratt parser reads at `pos` with minimum binding power
/// `min_bp`: the expression and the position after it.
pub open spec fn spec_expr(ts: Seq<SpecToken>, pos: int, min_bp: u8, sl: bool, d: nat) -> Option<(SExpr, int)>
    decreases d, ts.len() - pos, 3int,
{
    match spec_postfix(ts, pos, sl, d) {
        // A prefix expression always ends past its start.
        Some((lhs, p)) => if pos < p <= ts.len() {
            spec_infix(ts, p, min_bp, sl, lhs, d)
        } else {
            None
        },
        None => None,
    }
}

/// The infix loop of the Pratt parser at `p`, with the left operand `lhs`
/// read so far: operators binding at least `min_bp` extend it to the left.
pub open spec fn spec_infix(ts: Seq<SpecToken>, p: int, min_bp: u8, sl: bool, lhs: SExpr, d: nat) -> Option<(SExpr, int)>
    decreases d, ts.len() - p, 0int,
{
    if !(0 <= p < ts.len()) {
        None
    } else {
        match spec_binop(ts[p].kind) {
            None => Some((lhs, p)),
            Some(op) => if spec_infix_bp(op).0 < min_bp {
                Some((lhs, p))
            } else {
                match spec_expr(ts, p + 1, spec_infix_bp(op).1, sl, d) {
                    Some((rhs, q)) => if p < q <= ts.len() {
                        spec_infix(
                            ts,
                            q,
                            min_bp,
                            sl,
                            SExpr { kind: SKind::Binary(op, Box::new(lhs), Box::new(rhs)), line: lhs.line },
                            d,
                        )
                    } else {
                        None
                    },
                    None => None,
                }
            },
        }
    }
}

/// The arguments of a call whose `(` is at `pos`, and the position after
/// the closing `)`.
pub open spec fn spec_args(ts: Seq<SpecToken>, pos: int, d: nat) -> Option<(Seq<SExpr>, int)>
    decreases d, ts.len() - pos, 5int,
{
    if !(0 <= pos < ts.len() - 1) || !(ts[pos].kind is LParen) {
        None
    } else if ts[pos + 1].kind is RParen {
        Some((Seq::empty(), pos + 2))
    } else {
        spec_arg_list(ts, pos + 1, Seq::empty(), d)
    }
}

/// The rest of an argument list from `p`, after the arguments `acc`.
pub open spec fn spec_arg_list(ts: Seq<SpecToken>, p: int, acc: Seq<SExpr>, d: nat) -> Option<(Seq<SExpr>, int)>
    decreases d, ts.len() - p, 4int,
{
    match spec_expr(ts, p, 0, true, d) {
        Some((e, q)) => if p < q < ts.len() {
            if ts[q].kind is Comma {
                spec_arg_list(ts, q + 1, acc.push(e), d)
            } else if ts[q].kind is RParen {
                Some((acc.push(e), q + 1))
            } else {
                None
            }
        } else {
            None
        },
        None => None,
    }
}

/// What the statement parser reads at `pos`, for the statement fragment:
/// the statement and the position after it.
pub open spec fn spec_stmt(ts: Seq<SpecToken>, pos: int, sl: bool, d: nat) -> Option<(SStmt, int)>
    decreases d, ts.len() - pos, 6int,
{
    if !(0 <= pos < ts.len() - 1) {
        None
    } else {
        match ts[pos].kind {
            SpecTokenKind::Let | SpecTokenKind::Var => match ts[pos + 1].kind {
                SpecTokenKind::Ident(n) => if pos + 2 < ts.len() && ts[pos + 2].kind is Assign {
                    match spec_expr(ts, pos + 3, 0, sl, d) {
                        Some((e, q)) => Some((SStmt::Let { name: n, mutable: ts[pos].kind is Var, ann: None, init: e }, q)),
                        None => None,
                    }
                } else if pos + 4 < ts.len() && ts[pos + 2].kind is Colon && ts[pos + 4].kind is Assign {
                    match ts[pos + 3].kind {
                        SpecTokenKind::Ident(t) => match spec_expr(ts, pos + 5, 0, sl, d) {
                            Some((e, q)) => Some((
                                SStmt::Let { name: n, mutable: ts[pos].kind is Var, ann: Some(t), init: e },
                                q,
                            )),
                            None => None,
                        },
                        _ => None,
                    }
                } else {
                    None
                },
                _ => None,
            },
            SpecTokenKind::While => match spec_expr(ts, pos + 1, 0, false, d) {
                Some((c, q)) => if pos < q < ts.len() {
                    match spec_block(ts, q, sl, d) {
                        Some((b, q2)) => Some((SStmt::While { cond: c, body: b }, q2)),
                        None => None,
                    }
                } else {
                    None
                },
                None => None,
            },
            SpecTokenKind::For => match (ts[pos + 1].kind, pos + 3 < ts.len() && ts[pos + 2].kind is In) {
                (SpecTokenKind::Ident(v), true) => match spec_expr(ts, pos + 3, 0, false, d) {
                    Some((st, q)) => if pos < q < ts.len() && ts[q].kind is DotDot {
                        match spec_expr(ts, q + 1, 0, false, d) {
                            Some((en, q2)) => if q < q2 < ts.len() {
                                match spec_block(ts, q2, sl, d) {
                                    Some((b, q3)) => Some((SStmt::For { var: v, start: st, end: en, body: b }, q3)),
                                    None => None,
                                }
                            } else {
                                None
                            },
                            None => None,
                        }
                    } else if pos < q < ts.len() {
                        match spec_block(ts, q, sl, d) {
                            Some((b, q3)) => Some((SStmt::ForEach { var: v, iter: st, body: b }, q3)),
                            None => None,
                        }
                    } else {
                        None
                    },
                    None => None,
                },
                _ => None,
            },
            SpecTokenKind::Return => None,
            _ => match spec_expr(ts, pos, 0, sl, d) {
                Some((e, q)) => if !(pos < q < ts.len()) {
                    None
                } else if !(ts[q].kind is Assign) {
                    Some((SStmt::Expr(e), q))
                } else {
                    match e.kind {
                        SKind::Ident(n) => match spec_expr(ts, q + 1, 0, sl, d) {
                            Some((v, q2)) => Some((SStmt::Assign { name: n, value: v }, q2)),
                            None => None,
                        },
                        _ => None,
                    }
                },
                None => None,
            },
        }
    }
}

/// The statements of a block from `p` up to its `}`, after the statements
/// `acc`, and the position after the `}`.
pub open spec fn spec_stmt_list(ts: Seq<SpecToken>, p: int, sl: bool, acc: Seq<SStmt>, d: nat) -> Option<(Seq<SStmt>, int)>
    decreases d, ts.len() - p, 7int,
{
    if !(0 <= p < ts.len()) {
        None
    } else if ts[p].kind is RBrace {
        Some((acc, p + 1))
    } else if ts[p].kind is Eof {
        None
    } else {
        match spec_stmt(ts, p, sl, d) {
            Some((st, q)) => if p < q <= ts.len() {
                spec_stmt_list(ts, q, sl, acc.push(st), d)
            } else {
                None
            },
            None => None,
        }
    }
}

/// A block whose `{` is at `pos`.
pub open spec fn spec_block(ts: Seq<SpecToken>, pos: int, sl: bool, d: nat) -> Option<(Seq<SStmt>, int)>
    decreases d, ts.len() - pos, 8int,
{
    if 0 <= pos < ts.len() && ts[pos].kind is LBrace {
        spec_stmt_list(ts, pos + 1, sl, Seq::empty(), d)
    } else {
        None
    }
}

/// A function without parameters or return type whose `fn` is at `pos`.
pub open spec fn spec_fn(ts: Seq<SpecToken>, pos: int, sl: bool, d: nat) -> Option<(SItem, int)> {
    if 0 <= pos && pos + 4 < ts.len() && ts[pos].kind is Fn && ts[pos + 2].kind is LParen
        && ts[pos + 3].kind is RParen && !(ts[pos + 4].kind is Arrow) {
        match ts[pos + 1].kind {
            SpecTokenKind::Ident(n) => match spec_block(ts, pos + 4, sl, d) {
                Some((body, q)) => Some((SItem::Fn { name: n, body }, q)),
                None => None,
            },
            _ => None,
        }
    } else {
        None
    }
}

/// The items from `p` to the end of the tokens, after the items `acc`.
pub open spec fn spec_items(ts: Seq<SpecToken>, p: int, sl: bool, acc: Seq<SItem>, d: nat) -> Option<Seq<SItem>>
    decreases ts.len() - p,
{
    if !(0 <= p < ts.len()) {
        None
    } else if ts[p].kind is Eof {
        Some(acc)
    } else {
        match spec_fn(ts, p, sl, d) {
            Some((it, q)) => if p < q <= ts.len() {
                spec_items(ts, q, sl, acc.push(it), d)
            } else {
                None
            },
            None => None,
        }
    }
}

/// The models of the tokens `ts`.
pub open spec fn token_views(ts: Seq<Token>) -> Seq<SpecToken> {
    ts.map_values(|t: Token| t@)
}

/// The name of a plainly named type, or `None` for an array or `Result` type.
pub open spec fn type_name_of(t: TypeExpr) -> Option<Seq<char>> {
    match t {
        TypeExpr::Name(x) => Some(x@),
        _ => None,
    }
}

/// A struct's fields as (name, type name) pairs.
pub open spec fn fields_view(fs: Seq<(String, TypeExpr)>) -> Seq<(Seq<char>, Option<Seq<char>>)> {
    fs.map_values(|f: (String, TypeExpr)| (f.0@, type_name_of(f.1)))
}

/// An enum's variants as (name, payload count) pairs.
pub open spec fn variants_view(vs: Seq<VariantDecl>) -> Seq<(Seq<char>, nat)> {
    vs.map_values(|v: VariantDecl| (v.name@, v.payloads@.len()))
}

/// Whether the token at `i` names a plain type: a name that is not the start
/// of `Result<..>`.
pub open spec fn plain_type_at(ts: Seq<SpecToken>, i: int) -> bool {
    0 <= i && i + 1 < ts.len() && match ts[i].kind {
        SpecTokenKind::Ident(t) => !(spec_is_result_name(t) && ts[i + 1].kind is Lt),
        _ => false,
    }
}

/// The fields `name: Type,` of a struct body from `i` on, each of a plain
/// type, after `acc`, and the position of the closing brace.
pub open spec fn spec_plain_fields(
    ts: Seq<SpecToken>,
    i: int,
    acc: Seq<(Seq<char>, Option<Seq<char>>)>,
) -> Option<(Seq<(Seq<char>, Option<Seq<char>>)>, int)>
    decreases ts.len() - i,
{
    if i < 0 || i >= ts.len() {
        None
    } else if ts[i].kind is RBrace {
        Some((acc, i))
    } else if i + 3 < ts.len() && ts[i + 1].kind is Colon && plain_type_at(ts, i + 2) {
        match (ts[i].kind, ts[i + 2].kind) {
            (SpecTokenKind::Ident(n), SpecTokenKind::Ident(t)) => {
                let acc2 = acc.push((n, Some(t)));
                if ts[i + 3].kind is Comma {
                    spec_plain_fields(ts, i + 4, acc2)
                } else if ts[i + 3].kind is RBrace {
                    Some((acc2, i + 3))
                } else {
                    None
                }
            },
            _ => None,
        }
    } else {
        None
    }
}

/// The unit variants `Name,` of an enum body from `i` on, after `acc`, and
/// the position of the closing brace.
pub open spec fn spec_unit_variants(ts: Seq<SpecToken>, i: int, acc: Seq<(Seq<char>, nat)>) -> Option<(Seq<(Seq<char>, nat)>, int)>
    decreases ts.len() - i,
{
    if i < 0 || i >= ts.len() {
        None
    } else if ts[i].kind is RBrace {
        Some((acc, i))
    } else if i + 1 < ts.len() {
        match ts[i].kind {
            SpecTokenKind::Ident(n) => if ts[i + 1].kind is Comma {
                spec_unit_variants(ts, i + 2, acc.push((n, 0nat)))
            } else if ts[i + 1].kind is RBrace {
                Some((acc.push((n, 0nat)), i + 1))
            } else {
                None
            },
            _ => None,
        }
    } else {
        None
    }
}

/// A pattern, as the parser's contract speaks of it.
pub enum SPat {
    Wildcard,
    Ident(Seq<char>),
    Int(int),
    Bool(bool),
    Str(Seq<char>),
    /// A variant pattern: the enum named before `::` (if any), the variant
    /// (with `Ok`/`Err` spellings canonicalized), and the payload patterns.
    Variant(Option<Seq<char>>, Seq<char>, Seq<Option<SPat>>),
}

/// The view of a pattern.
pub open spec fn pat_view(p: Pattern) -> Option<SPat>
    decreases p, 1int,
{
    match p {
        Pattern::Wildcard => Some(SPat::Wildcard),
        Pattern::Ident(s) => Some(SPat::Ident(s@)),
        Pattern::Int(n) => Some(SPat::Int(n as int)),
        Pattern::Bool(b) => Some(SPat::Bool(b)),
        Pattern::Str(s) => Some(SPat::Str(s@)),
        Pattern::Variant { enum_name, name, subs } => Some(
            SPat::Variant(
                match enum_name {
                    Some(e) => Some(e@),
                    None => None,
                },
                name@,
                pats_view(subs@),
            ),
        ),
    }
}

/// Patterns as views.
pub open spec fn pats_view(ps: Seq<Pattern>) -> Seq<Option<SPat>>
    decreases ps, 0int,
{
    if ps.len() == 0 {
        Seq::empty()
    } else {
        pats_view(ps.drop_last()).push(pat_view(ps.last()))
    }
}

/// A constructor name with its `Ok`/`Err` spellings canonicalized.
pub open spec fn canonical_name(t: Seq<char>) -> Seq<char> {
    match spec_result_ctor(t) {
        Some(c) => c,
        None => t,
    }
}

/// The payload patterns that follow a variant name at `i`: `(p, ...)`,
/// `()`, or nothing; and where they end.
pub open spec fn spec_subs(ts: Seq<SpecToken>, i: int) -> Option<(Seq<Option<SPat>>, int)>
    decreases ts.len() - i, 2int,
{
    if i < 0 || i + 1 >= ts.len() {
        None
    } else if ts[i].kind is LParen {
        if ts[i + 1].kind is RParen {
            Some((Seq::empty(), i + 2))
        } else {
            match spec_pattern_list(ts, i + 1, Seq::empty()) {
                Some((ps, q)) => Some((ps, q + 1)),
                None => None,
            }
        }
    } else {
        Some((Seq::empty(), i))
    }
}

/// The pattern that the tokens spell at `i` (a literal, a name, or a variant
/// pattern whose payloads are patterns of the same kinds), and where it
/// ends.
pub open spec fn spec_simple_pattern(ts: Seq<SpecToken>, i: int) -> Option<(SPat, int)>
    decreases ts.len() - i, 0int,
{
    if i < 0 || i + 1 >= ts.len() {
        None
    } else {
        match ts[i].kind {
            SpecTokenKind::Int(n) => Some((SPat::Int(n as int), i + 1)),
            SpecTokenKind::Minus => match ts[i + 1].kind {
                SpecTokenKind::Int(n) => if n != i64::MIN { Some((SPat::Int(-n), i + 2)) } else { None },
                _ => None,
            },
            SpecTokenKind::Str(t) => Some((SPat::Str(t), i + 1)),
            SpecTokenKind::True => Some((SPat::Bool(true), i + 1)),
            SpecTokenKind::False => Some((SPat::Bool(false), i + 1)),
            SpecTokenKind::Ident(t) => if t == "_"@ {
                Some((SPat::Wildcard, i + 1))
            } else if ts[i + 1].kind is PathSep {
                if i + 2 < ts.len() {
                    match ts[i + 2].kind {
                        SpecTokenKind::Ident(v) => match spec_subs(ts, i + 3) {
                            Some((ps, q)) => Some((SPat::Variant(Some(t), v, ps), q)),
                            None => None,
                        },
                        _ => None,
                    }
                } else {
                    None
                }
            } else if ts[i + 1].kind is LParen {
                match spec_subs(ts, i + 1) {
                    Some((ps, q)) => Some((SPat::Variant(None, canonical_name(t), ps), q)),
                    None => None,
                }
            } else {
                Some((SPat::Ident(t), i + 1))
            },
            _ => None,
        }
    }
}

/// The arms `pattern => expression,` of a match body from `i` on, each with
/// a literal or name pattern, after `acc`, and the position of the closing
/// brace.
pub open spec fn spec_arms(ts: Seq<SpecToken>, i: int, d: nat, acc: Seq<(Option<SPat>, SExpr)>) -> Option<(Seq<(Option<SPat>, SExpr)>, int)>
    decreases ts.len() - i,
{
    if i < 0 || i >= ts.len() {
        None
    } else if ts[i].kind is RBrace {
        Some((acc, i))
    } else {
        match spec_simple_pattern(ts, i) {
            Some((sp, j)) => if 0 <= j < ts.len() && ts[j].kind is FatArrow {
                match spec_expr(ts, j + 1, 0, true, d) {
                    Some((se, k)) => {
                        let k2 = if 0 <= k < ts.len() && ts[k].kind is Comma { k + 1 } else { k };
                        if i < k2 <= ts.len() {
                            spec_arms(ts, k2, d, acc.push((Some(sp), se)))
                        } else {
                            None
                        }
                    },
                    None => None,
                }
            } else {
                None
            },
            None => None,
        }
    }
}

/// The fields `name: expression,` or `name,` of a struct literal from `i`
/// on, after `acc`, and the position of the closing brace.
pub open spec fn spec_lit_fields(ts: Seq<SpecToken>, i: int, d: nat, acc: Seq<(Seq<char>, SExpr)>) -> Option<(Seq<(Seq<char>, SExpr)>, int)>
    decreases ts.len() - i,
{
    if i < 0 || i + 1 >= ts.len() {
        None
    } else if ts[i].kind is RBrace {
        Some((acc, i))
    } else {
        match ts[i].kind {
            SpecTokenKind::Ident(n) => match (if ts[i + 1].kind is Colon {
                spec_expr(ts, i + 2, 0, true, d)
            } else {
                Some((SExpr { kind: SKind::Ident(n), line: ts[i + 1].line }, i + 1))
            }) {
                Some((v, k)) => if i < k < ts.len() {
                    if ts[k].kind is Comma {
                        spec_lit_fields(ts, k + 1, d, acc.push((n, v)))
                    } else if ts[k].kind is RBrace {
                        Some((acc.push((n, v)), k))
                    } else {
                        None
                    }
                } else {
                    None
                },
                None => None,
            },
            _ => None,
        }
    }
}

/// A struct literal's fields as (name, value) views.
pub open spec fn lit_fields_view(fs: Seq<(String, Expr)>) -> Seq<(Seq<char>, SExpr)> {
    fs.map_values(|f: (String, Expr)| (f.0@, sview(f.1)))
}

/// A struct literal read by [`spec_lit_fields`] ends at a closing brace.
proof fn lemma_lit_fields_end(ts: Seq<SpecToken>, i: int, d: nat, acc: Seq<(Seq<char>, SExpr)>)
    ensures
        spec_lit_fields(ts, i, d, acc) matches Some((a, q)) ==> i <= q < ts.len() && ts[q].kind is RBrace,
    decreases ts.len() - i,
{
    if 0 <= i && i + 1 < ts.len() && !(ts[i].kind is RBrace) {
        match ts[i].kind {
            SpecTokenKind::Ident(n) => {
                match (if ts[i + 1].kind is Colon {
                    spec_expr(ts, i + 2, 0, true, d)
                } else {
                    Some((SExpr { kind: SKind::Ident(n), line: ts[i + 1].line }, i + 1))
                }) {
                    Some((v, k)) => {
                        if i < k < ts.len() && ts[k].kind is Comma {
                            lemma_lit_fields_end(ts, k + 1, d, acc.push((n, v)));
                        }
                    },
                    None => {},
                }
            },
            _ => {},
        }
    }
}

/// The patterns `p, p, ...` of a payload list from `i` on, each a literal or
/// a name, after `acc`, and the position of the closing parenthesis.
pub open spec fn spec_pattern_list(ts: Seq<SpecToken>, i: int, acc: Seq<Option<SPat>>) -> Option<(Seq<Option<SPat>>, int)>
    decreases ts.len() - i, 1int,
{
    match spec_simple_pattern(ts, i) {
        Some((sp, j)) => if i < j < ts.len() {
            if ts[j].kind is Comma {
                spec_pattern_list(ts, j + 1, acc.push(Some(sp)))
            } else if ts[j].kind is RParen {
                Some((acc.push(Some(sp)), j))
            } else {
                None
            }
        } else {
            None
        },
        None => None,
    }
}


/// A payload list read by [`spec_pattern_list`] ends at a closing
/// parenthesis.
proof fn lemma_pattern_list_end(ts: Seq<SpecToken>, i: int, acc: Seq<Option<SPat>>)
    ensures
        spec_pattern_list(ts, i, acc) matches Some((a, q)) ==> i <= q < ts.len() && ts[q].kind is RParen,
    decreases ts.len() - i,
{
    match spec_simple_pattern(ts, i) {
        Some((sp, j)) => {
            if i < j < ts.len() && ts[j].kind is Comma {
                lemma_pattern_list_end(ts, j + 1, acc.push(Some(sp)));
            }
        },
        None => {},
    }
}

/// The methods of an impl body from `i` on, each an associated function
/// without parameters or return type, after `acc`, and the position of the
/// closing brace.
pub open spec fn spec_methods(ts: Seq<SpecToken>, i: int, sl: bool, d: nat, acc: Seq<(SelfKind, SItem)>) -> Option<(Seq<(SelfKind, SItem)>, int)>
    decreases ts.len() - i,
{
    if i < 0 || i >= ts.len() {
        None
    } else if ts[i].kind is RBrace {
        Some((acc, i))
    } else {
        match spec_fn(ts, i, sl, d) {
            Some((it, p)) => if i < p <= ts.len() {
                spec_methods(ts, p, sl, d, acc.push((SelfKind::Assoc, it)))
            } else {
                None
            },
            None => None,
        }
    }
}

/// An impl's methods as (receiver kind, function) views.
pub open spec fn methods_view(ms: Seq<MethodDecl>) -> Seq<(SelfKind, SItem)> {
    ms.map_values(|m: MethodDecl| (m.self_kind, item_sview(Item::Fn(m.func))))
}

/// An impl body read by [`spec_methods`] ends at a closing brace.
proof fn lemma_methods_end(ts: Seq<SpecToken>, i: int, sl: bool, d: nat, acc: Seq<(SelfKind, SItem)>)
    ensures
        spec_methods(ts, i, sl, d, acc) matches Some((a, q)) ==> i <= q < ts.len() && ts[q].kind is RBrace,
    decreases ts.len() - i,
{
    if 0 <= i < ts.len() && !(ts[i].kind is RBrace) {
        match spec_fn(ts, i, sl, d) {
            Some((it, p)) => {
                if i < p <= ts.len() {
                    lemma_methods_end(ts, p, sl, d, acc.push((SelfKind::Assoc, it)));
                }
            },
            None => {},
        }
    }
}

/// The receiver a method's parameter list declares from `i` on (just after
/// its `(`), and where the rest of the list starts: `&self` and
/// `&mut self` (or `&var self`, in any spelling of `self`), `self`, or none.
/// `None` when `&` is not followed by `self`.
pub open spec fn spec_self_kind(ts: Seq<SpecToken>, i: int) -> Option<(SelfKind, int)> {
    if i < 0 || i + 1 >= ts.len() {
        None
    } else {
        match ts[i].kind {
            SpecTokenKind::Amp => {
                let mutm = ts[i + 1].kind is Var || ts[i + 1].kind == SpecTokenKind::Ident("mut"@);
                let k = if mutm { i + 2 } else { i + 1 };
                if k < ts.len() {
                    match ts[k].kind {
                        SpecTokenKind::Ident(s) => if spec_is_self_name(s) {
                            Some((if mutm { SelfKind::MutRef } else { SelfKind::Ref }, k + 1))
                        } else {
                            None
                        },
                        _ => None,
                    }
                } else {
                    None
                }
            },
            SpecTokenKind::Ident(s) => if spec_is_self_name(s) {
                Some((SelfKind::Value, i + 1))
            } else {
                Some((SelfKind::Assoc, i))
            },
            _ => Some((SelfKind::Assoc, i)),
        }
    }
}

/// A match's arms as (pattern, body) views.
pub open spec fn arms_view(arms: Seq<MatchArm>) -> Seq<(Option<SPat>, SExpr)> {
    arms.map_values(|a: MatchArm| (pat_view(a.pattern), sview(a.body)))
}

/// A match body read by [`spec_arms`] ends at a closing brace.
proof fn lemma_arms_end(ts: Seq<SpecToken>, i: int, d: nat, acc: Seq<(Option<SPat>, SExpr)>)
    ensures
        spec_arms(ts, i, d, acc) matches Some((a, q)) ==> i <= q < ts.len() && ts[q].kind is RBrace,
    decreases ts.len() - i,
{
    if 0 <= i < ts.len() && !(ts[i].kind is RBrace) {
        match spec_simple_pattern(ts, i) {
            Some((sp, j)) => {
                if 0 <= j < ts.len() && ts[j].kind is FatArrow {
                    match spec_expr(ts, j + 1, 0, true, d) {
                        Some((se, k)) => {
                            let k2 = if 0 <= k < ts.len() && ts[k].kind is Comma { k + 1 } else { k };
                            if i < k2 <= ts.len() {
                                lemma_arms_end(ts, k2, d, acc.push((Some(sp), se)));
                            }
                        },
                        None => {},
                    }
                }
            },
            None => {},
        }
    }
}

/// A struct body read by [`spec_plain_fields`] ends at a closing brace.
proof fn lemma_plain_fields_end(ts: Seq<SpecToken>, i: int, acc: Seq<(Seq<char>, Option<Seq<char>>)>)
    ensures
        spec_plain_fields(ts, i, acc) matches Some((fs, j)) ==> i <= j < ts.len() && ts[j].kind is RBrace,
    decreases ts.len() - i,
{
    if 0 <= i < ts.len() && !(ts[i].kind is RBrace) && i + 3 < ts.len() {
        match (ts[i].kind, ts[i + 2].kind) {
            (SpecTokenKind::Ident(n), SpecTokenKind::Ident(t)) => {
                lemma_plain_fields_end(ts, i + 4, acc.push((n, Some(t))));
            },
            _ => {},
        }
    }
}

/// An enum body read by [`spec_unit_variants`] ends at a closing brace.
proof fn lemma_unit_variants_end(ts: Seq<SpecToken>, i: int, acc: Seq<(Seq<char>, nat)>)
    ensures
        spec_unit_variants(ts, i, acc) matches Some((vs, j)) ==> i <= j < ts.len() && ts[j].kind is RBrace,
    decreases ts.len() - i,
{
    if 0 <= i < ts.len() && !(ts[i].kind is RBrace) && i + 1 < ts.len() {
        match ts[i].kind {
            SpecTokenKind::Ident(n) => {
                lemma_unit_variants_end(ts, i + 2, acc.push((n, 0nat)));
            },
            _ => {},
        }
    }
}

/// A token list that a parser can walk: it is not empty and ends with `Eof`.
pub open spec fn well_ended(toks: Seq<Token>) -> bool {
    toks.len() > 0 && toks.last().kind@ is Eof
}

impl Parser {
    /// The parser's invariant.
    pub closed spec fn wf(&self) -> bool {
        &&& well_ended(self.toks@)
        &&& self.pos < self.toks@.len()
    }

    /// The tokens being parsed.
    pub closed spec fn tokens(&self) -> Seq<Token> {
        self.toks@
    }

    /// The index of the current token.
    pub closed spec fn position(&self) -> int {
        self.pos as int
    }

    /// Tokens left to read.
    pub closed spec fn rem(&self) -> int {
        self.toks@.len() - self.pos
    }

    /// The current token's kind.
    pub closed spec fn cur(&self) -> SpecTokenKind {
        self.toks@[self.pos as int].kind@
    }

    /// The kind of the token `k` places after the current one.
    spec fn ahead(&self, k: int) -> SpecTokenKind {
        token_views(self.toks@)[self.pos + k].kind
    }

    /// `next` continues `self`: same tokens and settings, never going back.
    pub closed spec fn leads_to(&self, next: &Parser) -> bool {
        &&& next.wf()
        &&& next.toks@ == self.toks@
        &&& self.pos <= next.pos
        &&& next.depth == self.depth
        &&& next.allow_struct_lit == self.allow_struct_lit
    }

    pub fn new(toks: Vec<Token>) -> (r: Self)
        requires
            well_ended(toks@),
        ensures
            r.wf(),
            r.tokens() == toks@,
            r.position() == 0,
            r.parses_to() == spec_items(token_views(toks@), 0, true, Seq::empty(), MAX_INTERP_DEPTH as nat),
    {
        Parser { toks, pos: 0, allow_struct_lit: true, depth: MAX_INTERP_DEPTH }
    }

    fn with_depth(toks: Vec<Token>, depth: usize) -> (r: Self)
        requires
            well_ended(toks@),
        ensures
            r.wf(),
            r.depth == depth,
            r.pos == 0,
            r.toks@ == toks@,
            r.allow_struct_lit,
    {
        Parser { toks, pos: 0, allow_struct_lit: true, depth }
    }

    fn at_eof(&self) -> (r: bool)
        requires
            self.wf(),
        ensures
            r == self.cur() is Eof,
    {
        match self.peek() {
            TokenKind::Eof => true,
            _ => false,
        }
    }

    fn peek(&self) -> (r: &TokenKind)
        requires
            self.wf(),
        ensures
            r@ == self.cur(),
    {
        &self.toks[self.pos].kind
    }

    fn peek_is(&self, k: &TokenKind) -> (r: bool)
        requires
            self.wf(),
        ensures
            r == (self.cur() == k@),
    {
        kind_eq(self.peek(), k)
    }

    fn line(&self) -> (r: usize)
        requires
            self.wf(),
        ensures
            r == self.toks@[self.pos as int].line,
    {
        self.toks[self.pos].line
    }

    /// Consumes the current token (the final `Eof` is never passed).
    fn advance(&mut self) -> (r: TokenKind)
        requires
            old(self).wf(),
        ensures
            old(self).leads_to(final(self)),
            r@ == old(self).cur(),
            !(old(self).cur() is Eof) ==> final(self).pos == old(self).pos + 1,
    {
        let k = clone_kind(&self.toks[self.pos].kind);
        if self.pos < self.toks.len() - 1 {
            self.pos = self.pos + 1;
        }
        k
    }

    fn eat(&mut self, k: &TokenKind) -> (r: bool)
        requires
            old(self).wf(),
        ensures
            old(self).leads_to(final(self)),
            r == (old(self).cur() == k@),
            r && !(k@ is Eof) ==> final(self).pos == old(self).pos + 1,
            !r ==> final(self).pos == old(self).pos,
    {
        if self.peek_is(k) {
            self.advance();
            true
        } else {
            false
        }
    }

    fn expect(&mut self, k: TokenKind) -> (r: PResult<()>)
        requires
            old(self).wf(),
            !(k@ is Eof),
        ensures
            old(self).leads_to(final(self)),
            r is Ok <==> old(self).cur() == k@,
            r is Ok ==> final(self).pos == old(self).pos + 1,
    {
        if self.peek_is(&k) {
            self.advance();
            Ok(())
        } else {
            let mut m = at_line(self.line(), "expected ");
            m.append(kind_debug(&k).as_str());
            m.append(", found ");
            m.append(kind_debug(self.peek()).as_str());
            Err(m)
        }
    }

    pub fn parse_program(&mut self) -> (r: PResult<Program>)
        requires
            old(self).wf(),
        ensures
            old(self).leads_to(final(self)),
            r is Ok ==> final(self).cur() is Eof,
            old(self).parses_to() matches Some(its) ==> (r matches Ok(p) && prog_sview(p) == its),
    {
        let ghost ts = token_views(self.toks@);
        let ghost sl = self.allow_struct_lit;
        let ghost target = spec_items(ts, self.pos as int, sl, Seq::empty(), self.depth as nat);
        let mut items: Vec<Item> = Vec::new();
        proof {
            assert(items@.map_values(|i: Item| item_sview(i)) =~= Seq::<SItem>::empty());
        }
        loop
            invariant
                old(self).leads_to(self),
                ts == token_views(old(self).toks@),
                sl == old(self).allow_struct_lit,
                target == spec_items(ts, old(self).pos as int, sl, Seq::empty(), old(self).depth as nat),
                target is Some ==> spec_items(ts, self.pos as int, sl, items@.map_values(|i: Item| item_sview(i)), self.depth as nat)
                    == target,
            ensures
                old(self).leads_to(self),
                self.cur() is Eof,
                target is Some ==> spec_items(ts, self.pos as int, sl, items@.map_values(|i: Item| item_sview(i)), self.depth as nat)
                    == target,
            decreases self.rem(),
        {
            if self.at_eof() {
                break;
            }
            let ghost i0 = items@;
            let item = self.parse_item()?;
            let ghost ig = item;
            items.push(item);
            proof {
                assert(items@.map_values(|i: Item| item_sview(i)) =~= i0.map_values(|i: Item| item_sview(i)).push(
                    item_sview(ig),
                ));
            }
        }
        Ok(Program { items })
    }

    /// The program the tokens spell from the current position, when it is
    /// made of functions without parameters or return type whose bodies
    /// are bindings, assignments to variables, `while` loops, `for` loops
    /// over ranges and expression statements built of literals, variables,
    /// operators, calls and `if`.
    pub closed spec fn parses_to(&self) -> Option<Seq<SItem>> {
        spec_items(token_views(self.toks@), self.pos as int, self.allow_struct_lit, Seq::empty(), self.depth as nat)
    }

    fn parse_item(&mut self) -> (r: PResult<Item>)
        requires
            old(self).wf(),
        ensures
            old(self).leads_to(final(self)),
            r is Ok ==> old(self).pos < final(self).pos,
            spec_fn(token_views(old(self).toks@), old(self).pos as int, old(self).allow_struct_lit, old(self).depth as nat) matches Some((it, p))
                ==> (r matches Ok(x) && item_sview(x) == it && final(self).pos == p),
    {
        match self.peek() {
            TokenKind::Fn => Ok(Item::Fn(self.parse_fn()?)),
            TokenKind::Struct => Ok(Item::Struct(self.parse_struct()?)),
            TokenKind::Enum => Ok(Item::Enum(self.parse_enum()?)),
            TokenKind::Impl => Ok(Item::Impl(self.parse_impl()?)),
            other => {
                let mut m = at_line(self.line(), "expected fn / struct / enum / impl, found ");
                m.append(kind_debug(other).as_str());
                Err(m)
            }
        }
    }

    fn parse_struct(&mut self) -> (r: PResult<StructDecl>)
        requires
            old(self).wf(),
        ensures
            old(self).leads_to(final(self)),
            r is Ok ==> old(self).pos < final(self).pos,
            !(old(self).cur() is Struct) ==> r is Err,
            old(self).cur() is Struct ==> match old(self).ahead(1) {
                SpecTokenKind::Ident(n) => old(self).ahead(2) is LBrace && spec_plain_fields(
                    token_views(old(self).toks@),
                    old(self).pos + 3,
                    Seq::empty(),
                ) is Some ==> (r matches Ok(d) && d.name@ == n && spec_plain_fields(
                    token_views(old(self).toks@),
                    old(self).pos + 3,
                    Seq::empty(),
                ) == Some((fields_view(d.fields@), final(self).pos - 1))),
                _ => true,
            },
    {
        let ghost ts = token_views(self.toks@);
        let ghost target = spec_plain_fields(ts, self.pos + 3, Seq::empty());
        let ghost go = self.cur() is Struct && self.ahead(2) is LBrace && self.ahead(1) is Ident;
        self.expect(TokenKind::Struct)?;
        let name = self.parse_ident()?;
        self.expect(TokenKind::LBrace)?;
        let mut fields: Vec<(String, TypeExpr)> = Vec::new();
        proof {
            assert(fields_view(fields@) =~= Seq::<(Seq<char>, Option<Seq<char>>)>::empty());
        }
        loop
            invariant
                old(self).leads_to(self),
                old(self).pos < self.pos,
                ts == token_views(old(self).toks@),
                target == spec_plain_fields(ts, old(self).pos + 3, Seq::empty()),
                go == (old(self).cur() is Struct && old(self).ahead(2) is LBrace && old(self).ahead(1) is Ident),
                go && target is Some ==> spec_plain_fields(ts, self.pos as int, fields_view(fields@)) == target,
            ensures
                old(self).leads_to(self),
                old(self).pos < self.pos,
                go && target is Some ==> target == Some((fields_view(fields@), self.pos as int)),
            decreases self.rem(),
        {
            if self.peek_is(&TokenKind::RBrace) || self.at_eof() {
                break;
            }
            let ghost f0 = fields@;
            let ghost p0 = self.pos as int;
            proof {
                assert(ts[p0] == self.toks@[p0]@);
                if p0 + 3 < ts.len() {
                    assert(ts[p0 + 1] == self.toks@[p0 + 1]@);
                    assert(ts[p0 + 2] == self.toks@[p0 + 2]@);
                    assert(ts[p0 + 3] == self.toks@[p0 + 3]@);
                }
            }
            let fname = self.parse_ident()?;
            self.expect(TokenKind::Colon)?;
            let fty = self.parse_type()?;
            let ghost entry = (fname, fty);
            fields.push((fname, fty));
            proof {
                assert(fields_view(fields@) =~= fields_view(f0).push((entry.0@, type_name_of(entry.1))));
            }
            if !self.eat(&TokenKind::Comma) {
                break;
            }
        }
        proof {
            lemma_plain_fields_end(ts, old(self).pos + 3, Seq::empty());
            assert(ts[self.pos as int] == self.toks@[self.pos as int]@);
        }
        self.expect(TokenKind::RBrace)?;
        Ok(StructDecl { name, fields })
    }

    fn parse_enum(&mut self) -> (r: PResult<EnumDecl>)
        requires
            old(self).wf(),
        ensures
            old(self).leads_to(final(self)),
            r is Ok ==> old(self).pos < final(self).pos,
            !(old(self).cur() is Enum) ==> r is Err,
            old(self).cur() is Enum ==> match old(self).ahead(1) {
                SpecTokenKind::Ident(n) => old(self).ahead(2) is LBrace && spec_unit_variants(
                    token_views(old(self).toks@),
                    old(self).pos + 3,
                    Seq::empty(),
                ) is Some ==> (r matches Ok(d) && d.name@ == n && spec_unit_variants(
                    token_views(old(self).toks@),
                    old(self).pos + 3,
                    Seq::empty(),
                ) == Some((variants_view(d.variants@), final(self).pos - 1))),
                _ => true,
            },
    {
        let ghost ts = token_views(self.toks@);
        let ghost target = spec_unit_variants(ts, self.pos + 3, Seq::empty());
        let ghost go = self.cur() is Enum && self.ahead(2) is LBrace && self.ahead(1) is Ident;
        self.expect(TokenKind::Enum)?;
        let name = self.parse_ident()?;
        self.expect(TokenKind::LBrace)?;
        let mut variants: Vec<VariantDecl> = Vec::new();
        proof {
            assert(variants_view(variants@) =~= Seq::<(Seq<char>, nat)>::empty());
        }
        loop
            invariant
                old(self).leads_to(self),
                old(self).pos < self.pos,
                ts == token_views(old(self).toks@),
                target == spec_unit_variants(ts, old(self).pos + 3, Seq::empty()),
                go == (old(self).cur() is Enum && old(self).ahead(2) is LBrace && old(self).ahead(1) is Ident),
                go && target is Some ==> spec_unit_variants(ts, self.pos as int, variants_view(variants@)) == target,
            ensures
                old(self).leads_to(self),
                old(self).pos < self.pos,
                go && target is Some ==> target == Some((variants_view(variants@), self.pos as int)),
            decreases self.rem(),
        {
            if self.peek_is(&TokenKind::RBrace) || self.at_eof() {
                break;
            }
            let ghost v0 = variants@;
            let ghost iter_start = self.pos;
            proof {
                let p0 = self.pos as int;
                assert(ts[p0] == self.toks@[p0]@);
                if p0 + 1 < ts.len() {
                    assert(ts[p0 + 1] == self.toks@[p0 + 1]@);
                }
            }
            let vname = self.parse_ident()?;
            let mut payloads: Vec<TypeExpr> = Vec::new();
            if self.eat(&TokenKind::LParen) {
                assert(!(go && target is Some));
                if !self.peek_is(&TokenKind::RParen) {
                    loop
                        invariant
                            old(self).leads_to(self),
                            old(self).pos < self.pos,
                            iter_start < self.pos,
                            ts == token_views(old(self).toks@),
                            target == spec_unit_variants(ts, old(self).pos + 3, Seq::empty()),
                            go == (old(self).cur() is Enum && old(self).ahead(2) is LBrace && old(self).ahead(1) is Ident),
                            !(go && target is Some),
                        decreases self.rem(),
                    {
                        payloads.push(self.parse_type()?);
                        if !self.eat(&TokenKind::Comma) {
                            break;
                        }
                    }
                }
                self.expect(TokenKind::RParen)?;
            }
            let ghost vd = VariantDecl { name: vname, payloads };
            variants.push(VariantDecl { name: vname, payloads });
            proof {
                assert(variants_view(variants@) =~= variants_view(v0).push((vd.name@, vd.payloads@.len())));
            }
            if !self.eat(&TokenKind::Comma) {
                break;
            }
        }
        proof {
            lemma_unit_variants_end(ts, old(self).pos + 3, Seq::empty());
            assert(ts[self.pos as int] == self.toks@[self.pos as int]@);
        }
        self.expect(TokenKind::RBrace)?;
        Ok(EnumDecl { name, variants })
    }

    fn parse_fn(&mut self) -> (r: PResult<FnDecl>)
        requires
            old(self).wf(),
        ensures
            old(self).leads_to(final(self)),
            r is Ok ==> old(self).pos < final(self).pos,
            spec_fn(token_views(old(self).toks@), old(self).pos as int, old(self).allow_struct_lit, old(self).depth as nat) matches Some((it, p))
                ==> (r matches Ok(f) && item_sview(Item::Fn(f)) == it && final(self).pos == p),
    {
        let ghost target = spec_fn(token_views(self.toks@), self.pos as int, self.allow_struct_lit, self.depth as nat);
        self.expect(TokenKind::Fn)?;
        let name = self.parse_ident()?;
        self.expect(TokenKind::LParen)?;
        let mut params: Vec<Param> = Vec::new();
        if !self.peek_is(&TokenKind::RParen) {
            loop
                invariant
                    old(self).leads_to(self),
                    old(self).pos < self.pos,
                    target == spec_fn(token_views(old(self).toks@), old(self).pos as int, old(self).allow_struct_lit, old(self).depth as nat),
                    target is None,
                decreases self.rem(),
            {
                let pname = self.parse_ident()?;
                self.expect(TokenKind::Colon)?;
                let ty = self.parse_type()?;
                params.push(Param { name: pname, ty });
                if !self.eat(&TokenKind::Comma) {
                    break;
                }
            }
        }
        self.expect(TokenKind::RParen)?;
        let ret = if self.eat(&TokenKind::Arrow) {
            Some(self.parse_type()?)
        } else {
            None
        };
        let body = self.parse_block()?;
        Ok(FnDecl { name, params, ret, body })
    }

    /// A type: a named type, an array `[T]`, or `Result<T, E>`.
    fn parse_type(&mut self) -> (r: PResult<TypeExpr>)
        requires
            old(self).wf(),
        ensures
            old(self).leads_to(final(self)),
            r is Ok ==> old(self).pos < final(self).pos,
            old(self).cur() matches SpecTokenKind::Ident(t) ==> (!(spec_is_result_name(t)
                && token_views(old(self).toks@)[old(self).pos + 1].kind is Lt) ==> (r matches Ok(TypeExpr::Name(x))
                && x@ == t && final(self).pos == old(self).pos + 1)),
        decreases old(self).rem(),
    {
        if self.eat(&TokenKind::LBracket) {
            let inner = self.parse_type()?;
            self.expect(TokenKind::RBracket)?;
            return Ok(TypeExpr::Array(Box::new(inner)));
        }
        let name = self.parse_ident()?;
        // `Result<T, E>` in any surface spelling.
        if is_result_name(name.as_str()) && self.peek_is(&TokenKind::Lt) {
            self.advance();
            let ok = self.parse_type()?;
            self.expect(TokenKind::Comma)?;
            let err = self.parse_type()?;
            self.expect(TokenKind::Gt)?;
            return Ok(TypeExpr::Result(Box::new(ok), Box::new(err)));
        }
        Ok(TypeExpr::Name(name))
    }

    fn parse_one_param(&mut self) -> (r: PResult<Param>)
        requires
            old(self).wf(),
        ensures
            old(self).leads_to(final(self)),
            r is Ok ==> old(self).pos < final(self).pos,
            match old(self).cur() {
                SpecTokenKind::Ident(n) => old(self).ahead(1) is Colon && plain_type_at(
                    token_views(old(self).toks@),
                    old(self).pos + 2,
                ) ==> (r matches Ok(p) && p.name@ == n && type_name_of(p.ty) == Some(old(self).ahead(2)->Ident_0)
                    && final(self).pos == old(self).pos + 3),
                _ => r is Err,
            },
    {
        let name = self.parse_ident()?;
        self.expect(TokenKind::Colon)?;
        let ty = self.parse_type()?;
        Ok(Param { name, ty })
    }

    /// Consumes a `self` / `الذات` / `soi` identifier if present.
    fn eat_self(&mut self) -> (r: bool)
        requires
            old(self).wf(),
        ensures
            old(self).leads_to(final(self)),
            r ==> final(self).pos == old(self).pos + 1,
            !r ==> final(self).pos == old(self).pos,
            r == (old(self).cur() matches SpecTokenKind::Ident(s) && spec_is_self_name(s)),
    {
        let yes = match self.peek() {
            TokenKind::Ident(s) => is_self_name(s.as_str()),
            _ => false,
        };
        if yes {
            self.advance();
        }
        yes
    }

    fn parse_impl(&mut self) -> (r: PResult<ImplBlock>)
        requires
            old(self).wf(),
        ensures
            old(self).leads_to(final(self)),
            r is Ok ==> old(self).pos < final(self).pos,
            !(old(self).cur() is Impl) ==> r is Err,
            old(self).cur() is Impl ==> match old(self).ahead(1) {
                SpecTokenKind::Ident(n) => old(self).ahead(2) is LBrace && spec_methods(
                    token_views(old(self).toks@),
                    old(self).pos + 3,
                    old(self).allow_struct_lit,
                    old(self).depth as nat,
                    Seq::empty(),
                ) is Some ==> (r matches Ok(b) && b.self_type@ == n && spec_methods(
                    token_views(old(self).toks@),
                    old(self).pos + 3,
                    old(self).allow_struct_lit,
                    old(self).depth as nat,
                    Seq::empty(),
                ) == Some((methods_view(b.methods@), final(self).pos - 1))),
                _ => true,
            },
    {
        let ghost ts = token_views(self.toks@);
        let ghost sl = self.allow_struct_lit;
        let ghost d = self.depth as nat;
        let ghost goal = spec_methods(ts, self.pos + 3, sl, d, Seq::empty());
        let ghost go = self.cur() is Impl && self.ahead(1) is Ident && self.ahead(2) is LBrace && goal is Some;
        self.expect(TokenKind::Impl)?;
        let self_type = self.parse_ident()?;
        self.expect(TokenKind::LBrace)?;
        let mut methods: Vec<MethodDecl> = Vec::new();
        proof {
            assert(methods_view(methods@) =~= Seq::<(SelfKind, SItem)>::empty());
        }
        loop
            invariant
                old(self).leads_to(self),
                old(self).pos < self.pos,
                ts == token_views(old(self).toks@),
                sl == old(self).allow_struct_lit,
                d == old(self).depth as nat,
                goal == spec_methods(ts, old(self).pos + 3, sl, d, Seq::empty()),
                go == (old(self).cur() is Impl && old(self).ahead(1) is Ident && old(self).ahead(2) is LBrace
                    && goal is Some),
                go ==> spec_methods(ts, self.pos as int, sl, d, methods_view(methods@)) == goal,
            ensures
                old(self).leads_to(self),
                old(self).pos < self.pos,
                go ==> goal == Some((methods_view(methods@), self.pos as int)),
            decreases self.rem(),
        {
            let ghost m0 = methods@;
            proof {
                assert(token_views(self.toks@)[self.pos as int] == self.toks@[self.pos as int]@);
            }
            if self.peek_is(&TokenKind::RBrace) || self.at_eof() {
                break;
            }
            let m = self.parse_method()?;
            let ghost mg = m;
            methods.push(m);
            proof {
                assert(methods_view(methods@) =~= methods_view(m0).push((mg.self_kind, item_sview(Item::Fn(mg.func)))));
            }
        }
        proof {
            if go {
                lemma_methods_end(ts, old(self).pos + 3, sl, d, Seq::empty());
                assert(ts[self.pos as int] == self.toks@[self.pos as int]@);
            }
        }
        self.expect(TokenKind::RBrace)?;
        Ok(ImplBlock { self_type, methods })
    }

    fn parse_method(&mut self) -> (r: PResult<MethodDecl>)
        requires
            old(self).wf(),
        ensures
            old(self).leads_to(final(self)),
            r is Ok ==> old(self).pos < final(self).pos,
            !(old(self).cur() is Fn) ==> r is Err,
            spec_fn(token_views(old(self).toks@), old(self).pos as int, old(self).allow_struct_lit, old(self).depth as nat) matches Some((it, p))
                ==> (r matches Ok(m) && m.self_kind == SelfKind::Assoc && item_sview(Item::Fn(m.func)) == it
                && final(self).pos == p),
            r matches Ok(m) ==> (spec_self_kind(token_views(old(self).toks@), old(self).pos + 3) matches Some((k, q))
                && m.self_kind == k),
            old(self).cur() is Fn && old(self).ahead(1) is Ident && old(self).ahead(2) is LParen && old(self).ahead(3) is Amp
                && spec_self_kind(token_views(old(self).toks@), old(self).pos + 3) is None ==> (r matches Err(x)
                && exists|l: nat| x@ == "line "@ + crate::text::dec(l) + ": "@ + "expected `self` after `&`"@),
            old(self).cur() is Fn ==> match old(self).ahead(1) {
                SpecTokenKind::Ident(n) => old(self).ahead(2) is LParen ==> match spec_self_kind(
                    token_views(old(self).toks@),
                    old(self).pos + 3,
                ) {
                    Some((k, q)) => (0 <= q && q + 1 < old(self).toks@.len() && token_views(old(self).toks@)[q].kind is RParen
                        && !(token_views(old(self).toks@)[q + 1].kind is Arrow)) ==> match spec_block(
                        token_views(old(self).toks@),
                        q + 1,
                        old(self).allow_struct_lit,
                        old(self).depth as nat,
                    ) {
                        Some((body, p)) => r matches Ok(m) && m.self_kind == k && item_sview(Item::Fn(m.func))
                            == SItem::Fn { name: n, body } && final(self).pos == p,
                        None => true,
                    },
                    None => true,
                },
                _ => true,
            },
    {
        let ghost target = spec_fn(token_views(self.toks@), self.pos as int, self.allow_struct_lit, self.depth as nat);
        let ghost ts = token_views(self.toks@);
        let ghost sk = spec_self_kind(ts, self.pos + 3);
        let ghost q0: int = match sk {
            Some((_, q)) => q,
            None => 0,
        };
        let ghost easy = sk is Some && 0 <= q0 && q0 + 1 < ts.len() && ts[q0].kind is RParen;
        proof {
            let p0 = self.pos as int;
            if p0 + 5 < ts.len() {
                assert(ts[p0 + 3] == self.toks@[p0 + 3]@);
                assert(ts[p0 + 4] == self.toks@[p0 + 4]@);
                assert(ts[p0 + 5] == self.toks@[p0 + 5]@);
            } else if p0 + 4 < ts.len() {
                assert(ts[p0 + 3] == self.toks@[p0 + 3]@);
                assert(ts[p0 + 4] == self.toks@[p0 + 4]@);
            } else if p0 + 3 < ts.len() {
                assert(ts[p0 + 3] == self.toks@[p0 + 3]@);
            }
            if easy {
                assert(ts[q0] == self.toks@[q0]@);
                assert(ts[q0 + 1] == self.toks@[q0 + 1]@);
            }
        }
        proof {
            if target is Some {
                assert(token_views(self.toks@)[self.pos + 3] == self.toks@[self.pos + 3]@);
            }
        }
        self.expect(TokenKind::Fn)?;
        let name = self.parse_ident()?;
        self.expect(TokenKind::LParen)?;

        let mut self_kind = SelfKind::Assoc;
        let mut params: Vec<Param> = Vec::new();
        if self.peek_is(&TokenKind::Amp) {
            self.advance();
            // `&mut self` / `&var self` / `&متغير الذات` / `&variable soi`.
            let mut_marker = match self.peek() {
                TokenKind::Var => true,
                TokenKind::Ident(s) => chars_eq_str(str_chars(s.as_str()).as_slice(), "mut"),
                _ => false,
            };
            if mut_marker {
                self.advance();
            }
            if !self.eat_self() {
                return Err(at_line(self.line(), "expected `self` after `&`"));
            }
            self_kind = if mut_marker { SelfKind::MutRef } else { SelfKind::Ref };
            loop
                invariant
                    old(self).leads_to(self),
                    old(self).pos < self.pos,
                    target == spec_fn(token_views(old(self).toks@), old(self).pos as int, old(self).allow_struct_lit, old(self).depth as nat),
                    target is None,
                    ts == token_views(old(self).toks@),
                    sk == spec_self_kind(ts, old(self).pos + 3),
                    q0 == match sk {
                        Some((_, q)) => q,
                        None => 0,
                    },
                    easy == (sk is Some && 0 <= q0 && q0 + 1 < ts.len() && ts[q0].kind is RParen),
                    easy ==> self.pos == q0 && params@.len() == 0,
                    sk is Some,
                decreases self.rem(),
            {
                proof {
                    assert(ts[self.pos as int] == self.toks@[self.pos as int]@);
                }
                if !self.eat(&TokenKind::Comma) {
                    break;
                }
                params.push(self.parse_one_param()?);
            }
        } else if self.eat_self() {
            self_kind = SelfKind::Value;
            loop
                invariant
                    old(self).leads_to(self),
                    old(self).pos < self.pos,
                    target == spec_fn(token_views(old(self).toks@), old(self).pos as int, old(self).allow_struct_lit, old(self).depth as nat),
                    target is None,
                    ts == token_views(old(self).toks@),
                    sk == spec_self_kind(ts, old(self).pos + 3),
                    q0 == match sk {
                        Some((_, q)) => q,
                        None => 0,
                    },
                    easy == (sk is Some && 0 <= q0 && q0 + 1 < ts.len() && ts[q0].kind is RParen),
                    easy ==> self.pos == q0 && params@.len() == 0,
                    sk is Some,
                decreases self.rem(),
            {
                proof {
                    assert(ts[self.pos as int] == self.toks@[self.pos as int]@);
                }
                if !self.eat(&TokenKind::Comma) {
                    break;
                }
                params.push(self.parse_one_param()?);
            }
        } else if !self.peek_is(&TokenKind::RParen) {
            params.push(self.parse_one_param()?);
            loop
                invariant
                    old(self).leads_to(self),
                    old(self).pos < self.pos,
                    ts == token_views(old(self).toks@),
                    sk == spec_self_kind(ts, old(self).pos + 3),
                    q0 == match sk {
                        Some((_, q)) => q,
                        None => 0,
                    },
                    easy == (sk is Some && 0 <= q0 && q0 + 1 < ts.len() && ts[q0].kind is RParen),
                    !easy,
                    !(old(self).ahead(3) is Amp),
                    target == spec_fn(token_views(old(self).toks@), old(self).pos as int, old(self).allow_struct_lit, old(self).depth as nat),
                    target is None,
                decreases self.rem(),
            {
                if !self.eat(&TokenKind::Comma) {
                    break;
                }
                params.push(self.parse_one_param()?);
            }
        }
        self.expect(TokenKind::RParen)?;
        let ret = if self.eat(&TokenKind::Arrow) {
            Some(self.parse_type()?)
        } else {
            None
        };
        let body = self.parse_block()?;
        Ok(MethodDecl { self_kind, func: FnDecl { name, params, ret, body } })
    }

    fn parse_ident(&mut self) -> (r: PResult<String>)
        requires
            old(self).wf(),
        ensures
            old(self).leads_to(final(self)),
            match r {
                Ok(s) => old(self).cur() == SpecTokenKind::Ident(s@) && final(self).pos == old(self).pos + 1,
                Err(_) => !(old(self).cur() is Ident),
            },
    {
        match self.advance() {
            TokenKind::Ident(s) => Ok(s),
            other => {
                let mut m = at_line(self.line(), "expected identifier, found ");
                m.append(kind_debug(&other).as_str());
                Err(m)
            }
        }
    }

    fn parse_block(&mut self) -> (r: PResult<Block>)
        requires
            old(self).wf(),
        ensures
            old(self).leads_to(final(self)),
            r is Ok ==> old(self).pos < final(self).pos,
            spec_block(token_views(old(self).toks@), old(self).pos as int, old(self).allow_struct_lit, old(self).depth as nat) matches Some((ss, p))
                ==> (r matches Ok(b) && stmts_sview(b.stmts@) == ss && final(self).pos == p),
        decreases old(self).depth, old(self).rem(), 0int,
    {
        let ghost ts = token_views(self.toks@);
        let ghost sl = self.allow_struct_lit;
        let ghost target = spec_block(ts, self.pos as int, sl, self.depth as nat);
        self.expect(TokenKind::LBrace)?;
        let mut stmts: Vec<Stmt> = Vec::new();
        proof {
            assert(stmts_sview(stmts@) =~= Seq::<SStmt>::empty());
        }
        loop
            invariant
                old(self).leads_to(self),
                old(self).pos < self.pos,
                ts == token_views(old(self).toks@),
                sl == old(self).allow_struct_lit,
                target == spec_block(ts, old(self).pos as int, sl, old(self).depth as nat),
                target is Some ==> spec_stmt_list(ts, self.pos as int, sl, stmts_sview(stmts@), self.depth as nat) == target,
            ensures
                old(self).leads_to(self),
                old(self).pos < self.pos,
                target is Some ==> spec_stmt_list(ts, self.pos as int, sl, stmts_sview(stmts@), self.depth as nat) == target,
                self.cur() is RBrace || self.cur() is Eof,
            decreases self.rem(),
        {
            if self.peek_is(&TokenKind::RBrace) || self.at_eof() {
                break;
            }
            let ghost s0 = stmts@;
            let st = self.parse_stmt()?;
            let ghost sg = st;
            stmts.push(st);
            proof {
                assert(stmts@.subrange(0, stmts@.len() - 1) =~= s0);
                assert(stmts_sview(stmts@) =~= stmts_sview(s0).push(stmt_sview(sg)));
            }
        }
        self.expect(TokenKind::RBrace)?;
        Ok(Block { stmts })
    }

    fn parse_stmt(&mut self) -> (r: PResult<Stmt>)
        requires
            old(self).wf(),
        ensures
            old(self).leads_to(final(self)),
            r is Ok ==> old(self).pos < final(self).pos,
            spec_stmt(token_views(old(self).toks@), old(self).pos as int, old(self).allow_struct_lit, old(self).depth as nat) matches Some((st, p))
                ==> (r matches Ok(x) && stmt_sview(x) == st && final(self).pos == p),
        decreases old(self).depth, old(self).rem(), 5int,
    {
        match self.peek() {
            TokenKind::Let | TokenKind::Var => self.parse_let(),
            TokenKind::While => self.parse_while(),
            TokenKind::For => self.parse_for(),
            TokenKind::Return => self.parse_return(),
            _ => {
                // Parse a full expression; if `=` follows, reinterpret it as an
                // assignment target (`x = v`, `a[i] = v`, `p.field = v`).
                let e = self.parse_expr(0)?;
                if !self.peek_is(&TokenKind::Assign) {
                    return Ok(Stmt::Expr(e));
                }
                let line = e.line;
                let target = match e.kind {
                    ExprKind::Ident(name) => AssignTarget::Var(name),
                    ExprKind::Index { base, index } => match base.kind {
                        ExprKind::Ident(name) => AssignTarget::Index { name, index: *index },
                        _ => {
                            return Err(at_line(line, "indexed assignment requires a plain variable on the left"));
                        }
                    },
                    ExprKind::Field { base, field } => match base.kind {
                        ExprKind::Ident(name) => AssignTarget::Field { name, field },
                        _ => {
                            return Err(at_line(line, "field assignment requires a plain variable on the left"));
                        }
                    },
                    _ => {
                        return Err(at_line(line, "invalid assignment target (expected `x`, `a[i]`, or `x.field`)"));
                    }
                };
                self.expect(TokenKind::Assign)?;
                let value = self.parse_expr(0)?;
                Ok(Stmt::Assign { target, value })
            }
        }
    }

    fn parse_let(&mut self) -> (r: PResult<Stmt>)
        requires
            old(self).wf(),
            old(self).cur() is Let || old(self).cur() is Var,
        ensures
            old(self).leads_to(final(self)),
            r is Ok ==> old(self).pos < final(self).pos,
            spec_stmt(token_views(old(self).toks@), old(self).pos as int, old(self).allow_struct_lit, old(self).depth as nat) matches Some((st, p))
                ==> (r matches Ok(x) && stmt_sview(x) == st && final(self).pos == p),
        decreases old(self).depth, old(self).rem(), 4int,
    {
        let mutable = match self.advance() {
            TokenKind::Var => true,
            _ => false,
        };
        let name = self.parse_ident()?;
        let ty_ann = if self.eat(&TokenKind::Colon) {
            Some(self.parse_type()?)
        } else {
            None
        };
        self.expect(TokenKind::Assign)?;
        let init = self.parse_expr(0)?;
        Ok(Stmt::Let { name, mutable, ty_ann, init })
    }

    /// Parses an expression with struct literals disabled (conditions, scrutinees).
    fn parse_cond_expr(&mut self) -> (r: PResult<Expr>)
        requires
            old(self).wf(),
        ensures
            old(self).leads_to(final(self)),
            r is Ok ==> old(self).pos < final(self).pos,
            spec_expr(token_views(old(self).toks@), old(self).pos as int, 0, false, old(self).depth as nat) matches Some((se, p))
                ==> (r matches Ok(x) && sview(x) == se && final(self).pos == p),
        decreases old(self).depth, old(self).rem(), 4int,
    {
        let saved = self.allow_struct_lit;
        self.allow_struct_lit = false;
        let r = self.parse_expr(0);
        self.allow_struct_lit = saved;
        r
    }

    /// Parses an expression with struct literals enabled (inside brackets).
    fn parse_open_expr(&mut self) -> (r: PResult<Expr>)
        requires
            old(self).wf(),
        ensures
            old(self).leads_to(final(self)),
            r is Ok ==> old(self).pos < final(self).pos,
            spec_expr(token_views(old(self).toks@), old(self).pos as int, 0, true, old(self).depth as nat) matches Some((se, p))
                ==> (r matches Ok(x) && sview(x) == se && final(self).pos == p),
        decreases old(self).depth, old(self).rem(), 4int,
    {
        let saved = self.allow_struct_lit;
        self.allow_struct_lit = true;
        let r = self.parse_expr(0);
        self.allow_struct_lit = saved;
        r
    }

    fn parse_while(&mut self) -> (r: PResult<Stmt>)
        requires
            old(self).wf(),
            old(self).cur() is While,
        ensures
            old(self).leads_to(final(self)),
            r is Ok ==> old(self).pos < final(self).pos,
            spec_stmt(token_views(old(self).toks@), old(self).pos as int, old(self).allow_struct_lit, old(self).depth as nat) matches Some((st, p))
                ==> (r matches Ok(x) && stmt_sview(x) == st && final(self).pos == p),
        decreases old(self).depth, old(self).rem(), 4int,
    {
        self.expect(TokenKind::While)?;
        let cond = self.parse_cond_expr()?;
        let body = self.parse_block()?;
        Ok(Stmt::While { cond, body })
    }

    fn parse_for(&mut self) -> (r: PResult<Stmt>)
        requires
            old(self).wf(),
            old(self).cur() is For,
        ensures
            old(self).leads_to(final(self)),
            r is Ok ==> old(self).pos < final(self).pos,
            spec_stmt(token_views(old(self).toks@), old(self).pos as int, old(self).allow_struct_lit, old(self).depth as nat) matches Some((st, p))
                ==> (r matches Ok(x) && stmt_sview(x) == st && final(self).pos == p),
        decreases old(self).depth, old(self).rem(), 4int,
    {
        self.expect(TokenKind::For)?;
        let var = self.parse_ident()?;
        self.expect(TokenKind::In)?;
        let first = self.parse_cond_expr()?;
        // `for i in a..b` is a range; `for x in arr` iterates an array.
        if self.eat(&TokenKind::DotDot) {
            let end = self.parse_cond_expr()?;
            let body = self.parse_block()?;
            Ok(Stmt::For { var, start: first, end, body })
        } else {
            let body = self.parse_block()?;
            Ok(Stmt::ForEach { var, iter: first, body })
        }
    }

    fn parse_return(&mut self) -> (r: PResult<Stmt>)
        requires
            old(self).wf(),
        ensures
            old(self).leads_to(final(self)),
            r is Ok ==> old(self).pos < final(self).pos,
            !(old(self).cur() is Return) ==> r is Err,
            old(self).cur() is Return && old(self).ahead(1) is RBrace ==> (r matches Ok(Stmt::Return(None))
                && final(self).pos == old(self).pos + 1),
            old(self).cur() is Return && !(old(self).ahead(1) is RBrace) ==> (spec_expr(
                token_views(old(self).toks@),
                old(self).pos + 1,
                0,
                old(self).allow_struct_lit,
                old(self).depth as nat,
            ) matches Some((se, p)) ==> (r matches Ok(Stmt::Return(Some(x))) && sview(x) == se && final(self).pos
                == p)),
        decreases old(self).depth, old(self).rem(), 4int,
    {
        self.expect(TokenKind::Return)?;
        // A return may be bare (followed by `}`) or carry an expression.
        if self.peek_is(&TokenKind::RBrace) {
            Ok(Stmt::Return(None))
        } else {
            Ok(Stmt::Return(Some(self.parse_expr(0)?)))
        }
    }

    // ---- Pratt expression parser ----

    fn parse_expr(&mut self, min_bp: u8) -> (r: PResult<Expr>)
        requires
            old(self).wf(),
        ensures
            old(self).leads_to(final(self)),
            r is Ok ==> old(self).pos < final(self).pos,
            spec_expr(token_views(old(self).toks@), old(self).pos as int, min_bp, old(self).allow_struct_lit, old(self).depth as nat) matches Some((se, p))
                ==> (r matches Ok(x) && sview(x) == se && final(self).pos == p),
        decreases old(self).depth, old(self).rem(), 3int,
    {
        let ghost ts = token_views(self.toks@);
        let ghost sl = self.allow_struct_lit;
        let ghost target = spec_expr(ts, self.pos as int, min_bp, sl, self.depth as nat);
        let mut lhs = self.parse_postfix()?;
        proof {
            if target is Some {
                assert(spec_infix(ts, self.pos as int, min_bp, sl, sview(lhs), self.depth as nat) == target);
            }
        }
        loop
            invariant
                old(self).leads_to(self),
                old(self).pos < self.pos,
                ts == token_views(old(self).toks@),
                sl == old(self).allow_struct_lit,
                target == spec_expr(ts, old(self).pos as int, min_bp, sl, old(self).depth as nat),
                target is Some ==> spec_infix(ts, self.pos as int, min_bp, sl, sview(lhs), self.depth as nat) == target,
            ensures
                old(self).leads_to(self),
                old(self).pos < self.pos,
                target matches Some((se, p)) ==> sview(lhs) == se && self.pos == p,
            decreases self.rem(),
        {
            let op = match binop_of(self.peek()) {
                Some(op) => op,
                None => break,
            };
            let (l_bp, r_bp) = infix_bp(op);
            if l_bp < min_bp {
                break;
            }
            self.advance();
            let rhs = self.parse_expr(r_bp)?;
            let line = lhs.line;
            lhs = Expr { kind: ExprKind::Binary { op, lhs: Box::new(lhs), rhs: Box::new(rhs) }, line };
        }
        Ok(lhs)
    }

    /// Parses a prefix expression (attaching its line), then wraps trailing
    /// `.field` accesses, `.method(args)` calls, casts, indexing and `?`.
    fn parse_postfix(&mut self) -> (r: PResult<Expr>)
        requires
            old(self).wf(),
        ensures
            old(self).leads_to(final(self)),
            r is Ok ==> old(self).pos < final(self).pos,
            spec_postfix(token_views(old(self).toks@), old(self).pos as int, old(self).allow_struct_lit, old(self).depth as nat) matches Some((se, p))
                ==> (r matches Ok(x) && sview(x) == se && final(self).pos == p),
        decreases old(self).depth, old(self).rem(), 2int,
    {
        let ghost ts = token_views(self.toks@);
        let ghost d = self.depth as nat;
        let ghost target = spec_postfix(ts, self.pos as int, self.allow_struct_lit, d);
        let line = self.line();
        let mut e = Expr { kind: self.parse_prefix()?, line };
        proof {
            if target is Some {
                assert(ts[old(self).pos as int].line == line as nat);
                assert(sview(e) == SExpr { kind: sview(e).kind, line: line as nat });
            }
        }
        loop
            invariant_except_break
                target is Some ==> spec_postfix_rest(ts, self.pos as int, sview(e), d) == target,
            invariant
                old(self).leads_to(self),
                old(self).pos < self.pos,
                ts == token_views(old(self).toks@),
                d == old(self).depth as nat,
                target == spec_postfix(ts, old(self).pos as int, old(self).allow_struct_lit, d),
            ensures
                old(self).leads_to(self),
                old(self).pos < self.pos,
                target matches Some((se, p)) ==> sview(e) == se && self.pos == p,
            decreases self.rem(),
        {
            let l = e.line;
            let ghost e_before = e;
            match self.peek() {
                TokenKind::Dot => {
                    self.advance();
                    let name = self.parse_ident()?;
                    if self.peek_is(&TokenKind::LParen) {
                        let args = self.parse_call_args()?;
                        e = Expr { kind: ExprKind::MethodCall { receiver: Box::new(e), method: name, args }, line: l };
                        proof {
                            assert(sview(e) == SExpr {
                                kind: SKind::Method(Box::new(sview(e_before)), name@, sview_list(args@)),
                                line: sview(e_before).line,
                            });
                        }
                    } else {
                        e = Expr { kind: ExprKind::Field { base: Box::new(e), field: name }, line: l };
                    }
                }
                TokenKind::As => {
                    self.advance();
                    let ty = self.parse_type()?;
                    e = Expr { kind: ExprKind::Cast { expr: Box::new(e), ty }, line: l };
                }
                TokenKind::LBracket => {
                    self.advance();
                    let index = self.parse_open_expr()?;
                    self.expect(TokenKind::RBracket)?;
                    e = Expr { kind: ExprKind::Index { base: Box::new(e), index: Box::new(index) }, line: l };
                    proof {
                        assert(sview(e) == SExpr {
                            kind: SKind::Index(Box::new(sview(e_before)), Box::new(sview(index))),
                            line: sview(e_before).line,
                        });
                    }
                }
                TokenKind::Question => {
                    self.advance();
                    e = Expr { kind: ExprKind::Try(Box::new(e)), line: l };
                }
                _ => break,
            }
        }
        Ok(e)
    }

    /// Returns the bare `ExprKind`; `parse_postfix` attaches the line.
    fn parse_prefix(&mut self) -> (r: PResult<ExprKind>)
        requires
            old(self).wf(),
        ensures
            old(self).leads_to(final(self)),
            r is Ok ==> old(self).pos < final(self).pos,
            spec_prefix(token_views(old(self).toks@), old(self).pos as int, old(self).allow_struct_lit, old(self).depth as nat) matches Some((k, p))
                ==> (r matches Ok(x) && sview(Expr { kind: x, line: 0 }).kind == k && final(self).pos == p),
        decreases old(self).depth, old(self).rem(), 1int,
    {
        match self.peek() {
            TokenKind::Minus => {
                self.advance();
                let rhs = self.parse_expr(7)?;
                Ok(ExprKind::Unary { op: UnOp::Neg, rhs: Box::new(rhs) })
            }
            TokenKind::Bang => {
                self.advance();
                let rhs = self.parse_expr(7)?;
                Ok(ExprKind::Unary { op: UnOp::Not, rhs: Box::new(rhs) })
            }
            TokenKind::Int(n) => {
                let n = *n;
                self.advance();
                Ok(ExprKind::Int(n))
            }
            TokenKind::Float(x) => {
                let x = *x;
                self.advance();
                Ok(ExprKind::Float(x))
            }
            TokenKind::Str(_) => {
                match self.advance() {
                    TokenKind::Str(s) => Ok(ExprKind::Str(s)),
                    _ => Err(string_of_str("unreachable")),
                }
            }
            TokenKind::InterpStr(_) => {
                match self.advance() {
                    TokenKind::InterpStr(pieces) => {
                        let parts = parse_interp_pieces(&pieces, self.depth)?;
                        Ok(ExprKind::StrInterp(parts))
                    }
                    _ => Err(string_of_str("unreachable")),
                }
            }
            TokenKind::True => {
                self.advance();
                Ok(ExprKind::Bool(true))
            }
            TokenKind::False => {
                self.advance();
                Ok(ExprKind::Bool(false))
            }
            TokenKind::LParen => {
                self.advance();
                let e = self.parse_open_expr()?;
                self.expect(TokenKind::RParen)?;
                Ok(e.kind)
            }
            TokenKind::LBracket => {
                // Array literal: `[a, b, c]` (possibly empty).
                let ghost ts = token_views(self.toks@);
                let ghost d = self.depth as nat;
                let ghost tgt = spec_elems(ts, old(self).pos + 1, Seq::empty(), d);
                self.advance();
                let mut elems: Vec<Expr> = Vec::new();
                proof {
                    assert(sview_list(elems@) =~= Seq::<SExpr>::empty());
                }
                if !self.peek_is(&TokenKind::RBracket) {
                    proof {
                        assert(ts[old(self).pos + 1].kind == self.cur());
                        assert(ts[old(self).pos as int].kind is LBracket);
                    }
                    let saved = self.allow_struct_lit;
                    self.allow_struct_lit = true;
                    loop
                        invariant_except_break
                            tgt is Some ==> spec_elems(ts, self.pos as int, sview_list(elems@), d) == tgt,
                        invariant
                            self.wf(),
                            self.toks@ == old(self).toks@,
                            old(self).pos < self.pos,
                            ts == token_views(old(self).toks@),
                            d == old(self).depth as nat,
                            tgt == spec_elems(ts, old(self).pos + 1, Seq::empty(), d),
                            spec_prefix(ts, old(self).pos as int, old(self).allow_struct_lit, d) is Some ==> tgt is Some,
                            self.depth == old(self).depth,
                            self.allow_struct_lit,
                            saved == old(self).allow_struct_lit,
                        ensures
                            self.wf(),
                            self.toks@ == old(self).toks@,
                            old(self).pos < self.pos,
                            self.depth == old(self).depth,
                            saved == old(self).allow_struct_lit,
                            tgt matches Some((es, q)) ==> sview_list(elems@) == es && self.cur() is RBracket
                                && self.pos + 1 == q,
                        decreases self.rem(),
                    {
                        let ghost a0 = elems@;
                        match self.parse_expr(0) {
                            Ok(x) => {
                                let ghost xg = x;
                                elems.push(x);
                                proof {
                                    assert(elems@.subrange(0, elems@.len() - 1) =~= a0);
                                    assert(sview_list(elems@) == sview_list(a0).push(sview(xg)));
                                }
                            },
                            Err(m) => {
                                self.allow_struct_lit = saved;
                                return Err(m);
                            }
                        }
                        if !self.eat(&TokenKind::Comma) {
                            break;
                        }
                    }
                    self.allow_struct_lit = saved;
                }
                self.expect(TokenKind::RBracket)?;
                Ok(ExprKind::ArrayLit(elems))
            }
            TokenKind::If => Ok(self.parse_if()?.kind),
            TokenKind::Match => self.parse_match(),
            TokenKind::Ident(_) => {
                let name = match self.advance() {
                    TokenKind::Ident(s) => s,
                    _ => String::new(),
                };
                // All `self` spellings canonicalize to "self" here, once, so
                // every later stage tracks a single binding.
                let name = if is_self_name(name.as_str()) { string_of_str("self") } else { name };
                if self.peek_is(&TokenKind::PathSep) {
                    // Path: Type::member  or  Type::member(args)
                    self.advance();
                    let member = self.parse_ident()?;
                    let args = if self.peek_is(&TokenKind::LParen) {
                        self.parse_call_args()?
                    } else {
                        Vec::new()
                    };
                    Ok(ExprKind::Path { ty: name, member, args })
                } else if self.peek_is(&TokenKind::LParen) {
                    // Function call OR bare tuple-variant construction.
                    // `Ok`/`Err` spellings canonicalize here, once.
                    let callee = canonical_ctor(name);
                    let args = self.parse_call_args()?;
                    Ok(ExprKind::Call { callee, args })
                } else if self.allow_struct_lit && self.peek_is(&TokenKind::LBrace) {
                    self.parse_struct_lit(name)
                } else {
                    Ok(ExprKind::Ident(name))
                }
            }
            other => {
                let mut m = at_line(self.line(), "unexpected token in expression: ");
                m.append(kind_debug(other).as_str());
                Err(m)
            }
        }
    }

    fn parse_if(&mut self) -> (r: PResult<Expr>)
        requires
            old(self).wf(),
        ensures
            old(self).leads_to(final(self)),
            r is Ok ==> old(self).pos < final(self).pos,
            spec_if(token_views(old(self).toks@), old(self).pos as int, old(self).allow_struct_lit, old(self).depth as nat) matches Some((se, p))
                ==> (r matches Ok(x) && sview(x) == se && final(self).pos == p),
        decreases old(self).depth, old(self).rem(), 0int,
    {
        let ghost ts = token_views(self.toks@);
        let ghost target = spec_if(ts, self.pos as int, self.allow_struct_lit, self.depth as nat);
        let line = self.line();
        self.expect(TokenKind::If)?;
        let cond = self.parse_cond_expr()?;
        let ghost q = self.pos as int;
        let then_b = self.parse_block()?;
        let ghost q2 = self.pos as int;
        let els = if self.eat(&TokenKind::Else) {
            if self.peek_is(&TokenKind::If) {
                let x = self.parse_if()?;
                proof {
                    if target is Some {
                        assert(ts[q2 + 1].kind is If);
                        assert(spec_if(ts, q2 + 1, old(self).allow_struct_lit, old(self).depth as nat) is Some);
                    }
                }
                Some(Box::new(x))
            } else {
                let bline = self.line();
                Some(Box::new(Expr { kind: ExprKind::Block(self.parse_block()?), line: bline }))
            }
        } else {
            None
        };
        let ghost cg = cond;
        let ghost tbg = then_b;
        let ghost elg = els;
        let res = Expr { kind: ExprKind::If { cond: Box::new(cond), then_b, els }, line };
        proof {
            match target {
                Some((se, p)) => {
                    assert(ts[old(self).pos as int].line == line as nat);
                    assert(self.pos == p);
                    assert(sview(res).line == se.line);
                    match se.kind {
                        SKind::If(c, tb, e) => {
                            assert(sview(cg) == *c);
                            assert(stmts_sview(tbg.stmts@) == tb);
                            match elg {
                                Some(x) => assert(e == Some(Box::new(sview(*x)))),
                                None => assert(e is None),
                            }
                        },
                        _ => {},
                    }
                    assert(sview(res).kind == se.kind);
                },
                None => {},
            }
        }
        Ok(res)
    }

    fn parse_call_args(&mut self) -> (r: PResult<Vec<Expr>>)
        requires
            old(self).wf(),
        ensures
            old(self).leads_to(final(self)),
            r is Ok ==> old(self).pos < final(self).pos,
            spec_args(token_views(old(self).toks@), old(self).pos as int, old(self).depth as nat) matches Some((sa, p))
                ==> (r matches Ok(xs) && sview_list(xs@) == sa && final(self).pos == p),
        decreases old(self).depth, old(self).rem(), 0int,
    {
        let ghost ts = token_views(self.toks@);
        let ghost target = spec_args(ts, self.pos as int, self.depth as nat);
        self.expect(TokenKind::LParen)?;
        let mut args: Vec<Expr> = Vec::new();
        if !self.peek_is(&TokenKind::RParen) {
            proof {
                if target is Some {
                    assert(sview_list(args@) =~= Seq::<SExpr>::empty());
                }
            }
            // Inside an arg list, struct literals are unambiguous again.
            loop
                invariant_except_break
                    target is Some ==> spec_arg_list(ts, self.pos as int, sview_list(args@), self.depth as nat) == target,
                invariant
                    old(self).leads_to(self),
                    old(self).pos < self.pos,
                    ts == token_views(old(self).toks@),
                    target == spec_args(ts, old(self).pos as int, old(self).depth as nat),
                ensures
                    old(self).leads_to(self),
                    old(self).pos < self.pos,
                    target matches Some((sa, p)) ==> sview_list(args@) == sa && self.cur() is RParen
                        && self.pos + 1 == p,
                decreases self.rem(),
            {
                let ghost p0 = self.pos as int;
                let ghost a0 = args@;
                let x = self.parse_open_expr()?;
                let ghost xg = x;
                args.push(x);
                proof {
                    assert(args@.subrange(0, args@.len() - 1) =~= a0);
                    assert(sview_list(args@) == sview_list(a0).push(sview(xg)));
                }
                if !self.eat(&TokenKind::Comma) {
                    break;
                }
            }
        }
        self.expect(TokenKind::RParen)?;
        Ok(args)
    }

    fn parse_struct_lit(&mut self, name: String) -> (r: PResult<ExprKind>)
        requires
            old(self).wf(),
        ensures
            old(self).leads_to(final(self)),
            r is Ok ==> old(self).pos < final(self).pos,
            !(old(self).cur() is LBrace) ==> r is Err,
            old(self).cur() is LBrace && spec_lit_fields(
                token_views(old(self).toks@),
                old(self).pos + 1,
                old(self).depth as nat,
                Seq::empty(),
            ) is Some ==> (r matches Ok(ExprKind::StructLit { name: n, fields }) && n == name && spec_lit_fields(
                token_views(old(self).toks@),
                old(self).pos + 1,
                old(self).depth as nat,
                Seq::empty(),
            ) == Some((lit_fields_view(fields@), final(self).pos - 1))),
        decreases old(self).depth, old(self).rem(), 0int,
    {
        let ghost ts = token_views(self.toks@);
        let ghost d = self.depth as nat;
        let ghost goal = spec_lit_fields(ts, self.pos + 1, d, Seq::empty());
        let ghost go = self.cur() is LBrace && goal is Some;
        self.expect(TokenKind::LBrace)?;
        let mut fields: Vec<(String, Expr)> = Vec::new();
        proof {
            assert(lit_fields_view(fields@) =~= Seq::<(Seq<char>, SExpr)>::empty());
        }
        loop
            invariant
                old(self).leads_to(self),
                old(self).pos < self.pos,
                ts == token_views(old(self).toks@),
                d == old(self).depth as nat,
                goal == spec_lit_fields(ts, old(self).pos + 1, d, Seq::empty()),
                go == (old(self).cur() is LBrace && goal is Some),
                go ==> spec_lit_fields(ts, self.pos as int, d, lit_fields_view(fields@)) == goal,
            ensures
                old(self).leads_to(self),
                old(self).pos < self.pos,
                go ==> goal == Some((lit_fields_view(fields@), self.pos as int)),
            decreases self.rem(),
        {
            let ghost f0 = fields@;
            proof {
                let p0 = self.pos as int;
                assert(ts[p0] == self.toks@[p0]@);
                if p0 + 1 < ts.len() {
                    assert(ts[p0 + 1] == self.toks@[p0 + 1]@);
                }
            }
            if self.peek_is(&TokenKind::RBrace) || self.at_eof() {
                break;
            }
            let fname = self.parse_ident()?;
            let value = if self.eat(&TokenKind::Colon) {
                self.parse_open_expr()?
            } else {
                // Field shorthand: `User { name }` == `User { name: name }`.
                Expr { kind: ExprKind::Ident(fname.clone()), line: self.line() }
            };
            let ghost entry = (fname, value);
            fields.push((fname, value));
            proof {
                assert(lit_fields_view(fields@) =~= lit_fields_view(f0).push((entry.0@, sview(entry.1))));
                let k = self.pos as int;
                assert(ts[k] == self.toks@[k]@);
            }
            if !self.eat(&TokenKind::Comma) {
                break;
            }
        }
        proof {
            if go {
                lemma_lit_fields_end(ts, old(self).pos + 1, d, Seq::empty());
                assert(ts[self.pos as int] == self.toks@[self.pos as int]@);
            }
        }
        self.expect(TokenKind::RBrace)?;
        Ok(ExprKind::StructLit { name, fields })
    }

    fn parse_match(&mut self) -> (r: PResult<ExprKind>)
        requires
            old(self).wf(),
        ensures
            old(self).leads_to(final(self)),
            r is Ok ==> old(self).pos < final(self).pos,
            !(old(self).cur() is Match) ==> r is Err,
            old(self).cur() is Match ==> match spec_expr(
                token_views(old(self).toks@),
                old(self).pos + 1,
                0,
                false,
                old(self).depth as nat,
            ) {
                Some((se, p)) => token_views(old(self).toks@)[p].kind is LBrace && spec_arms(
                    token_views(old(self).toks@),
                    p + 1,
                    old(self).depth as nat,
                    Seq::empty(),
                ) is Some ==> (r matches Ok(ExprKind::Match { scrutinee, arms }) && sview(*scrutinee) == se
                    && spec_arms(token_views(old(self).toks@), p + 1, old(self).depth as nat, Seq::empty()) == Some(
                    (arms_view(arms@), final(self).pos - 1),
                )),
                None => true,
            },
        decreases old(self).depth, old(self).rem(), 0int,
    {
        let ghost ts = token_views(self.toks@);
        let ghost target = spec_expr(ts, self.pos + 1, 0, false, self.depth as nat);
        let ghost d = self.depth as nat;
        let ghost p_end: int = match target {
            Some((_, p)) => p,
            None => 0,
        };
        let ghost goal = spec_arms(ts, p_end + 1, d, Seq::empty());
        let ghost go = self.cur() is Match && target is Some && ts[p_end].kind is LBrace && goal is Some;
        self.expect(TokenKind::Match)?;
        let scrutinee = self.parse_cond_expr()?;
        self.expect(TokenKind::LBrace)?;
        let mut arms: Vec<MatchArm> = Vec::new();
        proof {
            assert(arms_view(arms@) =~= Seq::<(Option<SPat>, SExpr)>::empty());
        }
        loop
            invariant
                old(self).leads_to(self),
                old(self).pos < self.pos,
                ts == token_views(old(self).toks@),
                d == old(self).depth as nat,
                target == spec_expr(ts, old(self).pos + 1, 0, false, old(self).depth as nat),
                p_end == match target {
                    Some((_, p)) => p,
                    None => 0,
                },
                goal == spec_arms(ts, p_end + 1, d, Seq::empty()),
                go == (old(self).cur() is Match && target is Some && ts[p_end].kind is LBrace && goal is Some),
                go ==> goal is Some && spec_arms(ts, self.pos as int, d, arms_view(arms@)) == goal,
            ensures
                old(self).leads_to(self),
                old(self).pos < self.pos,
                go ==> goal == Some((arms_view(arms@), self.pos as int)),
            decreases self.rem(),
        {
            let ghost a0 = arms@;
            let ghost p0 = self.pos as int;
            proof {
                assert(ts[p0] == self.toks@[p0]@);
            }
            if self.peek_is(&TokenKind::RBrace) || self.at_eof() {
                break;
            }
            let pattern = self.parse_pattern()?;
            self.expect(TokenKind::FatArrow)?;
            let body = self.parse_open_expr()?;
            let ghost arm = MatchArm { pattern, body };
            arms.push(MatchArm { pattern, body });
            proof {
                assert(arms_view(arms@) =~= arms_view(a0).push((pat_view(arm.pattern), sview(arm.body))));
                let k = self.pos as int;
                assert(ts[k] == self.toks@[k]@);
            }
            self.eat(&TokenKind::Comma); // optional trailing comma
        }
        proof {
            if go {
                lemma_arms_end(ts, p_end + 1, d, Seq::empty());
                assert(ts[self.pos as int] == self.toks@[self.pos as int]@);
            }
        }
        self.expect(TokenKind::RBrace)?;
        Ok(ExprKind::Match { scrutinee: Box::new(scrutinee), arms })
    }

    fn parse_pattern(&mut self) -> (r: PResult<Pattern>)
        requires
            old(self).wf(),
        ensures
            old(self).leads_to(final(self)),
            r is Ok ==> old(self).pos < final(self).pos,
            spec_simple_pattern(token_views(old(self).toks@), old(self).pos as int) matches Some((sp, j)) ==> (
            r matches Ok(p) && pat_view(p) == Some(sp) && final(self).pos == j),
            old(self).cur() matches SpecTokenKind::Int(n) ==> (r matches Ok(Pattern::Int(m)) && m == n
                && final(self).pos == old(self).pos + 1),
            old(self).cur() is Minus ==> match old(self).ahead(1) {
                SpecTokenKind::Int(n) => n != i64::MIN ==> (r matches Ok(Pattern::Int(m)) && m == -n
                    && final(self).pos == old(self).pos + 2),
                _ => true,
            },
            old(self).cur() matches SpecTokenKind::Str(t) ==> (r matches Ok(Pattern::Str(x)) && x@ == t
                && final(self).pos == old(self).pos + 1),
            old(self).cur() is True ==> (r matches Ok(Pattern::Bool(b)) && b && final(self).pos == old(self).pos
                + 1),
            old(self).cur() is False ==> (r matches Ok(Pattern::Bool(b)) && !b && final(self).pos == old(self).pos
                + 1),
            match old(self).cur() {
                SpecTokenKind::Ident(t) => if t == "_"@ {
                    r matches Ok(Pattern::Wildcard) && final(self).pos == old(self).pos + 1
                } else {
                    !(old(self).ahead(1) is PathSep) && !(old(self).ahead(1) is LParen) ==> (r matches Ok(
                        Pattern::Ident(x),
                    ) && x@ == t && final(self).pos == old(self).pos + 1)
                },
                _ => true,
            },
        decreases old(self).rem(), 1int,
    {
        proof {
            let p0 = self.pos as int;
            assert(token_views(self.toks@)[p0] == self.toks@[p0]@);
            if p0 + 1 < self.toks@.len() {
                assert(token_views(self.toks@)[p0 + 1] == self.toks@[p0 + 1]@);
            }
        }
        match self.peek() {
            TokenKind::Int(n) => {
                let n = *n;
                self.advance();
                Ok(Pattern::Int(n))
            }
            TokenKind::Minus => {
                // negative integer literal pattern
                self.advance();
                match self.advance() {
                    TokenKind::Int(n) => {
                        if n == i64::MIN {
                            return Err(at_line(self.line(), "integer pattern is too large"));
                        }
                        Ok(Pattern::Int(-n))
                    }
                    other => {
                        let mut m = at_line(self.line(), "expected number after '-', found ");
                        m.append(kind_debug(&other).as_str());
                        Err(m)
                    }
                }
            }
            TokenKind::Str(_) => {
                match self.advance() {
                    TokenKind::Str(s) => Ok(Pattern::Str(s)),
                    _ => Err(string_of_str("unreachable")),
                }
            }
            TokenKind::True => {
                self.advance();
                Ok(Pattern::Bool(true))
            }
            TokenKind::False => {
                self.advance();
                Ok(Pattern::Bool(false))
            }
            TokenKind::Ident(_) => {
                let name = match self.advance() {
                    TokenKind::Ident(s) => s,
                    _ => String::new(),
                };
                if chars_eq_str(str_chars(name.as_str()).as_slice(), "_") {
                    return Ok(Pattern::Wildcard);
                }
                if self.peek_is(&TokenKind::PathSep) {
                    self.advance();
                    let variant = self.parse_ident()?;
                    let subs = self.parse_pattern_subs()?;
                    Ok(Pattern::Variant { enum_name: Some(name), name: variant, subs })
                } else if self.peek_is(&TokenKind::LParen) {
                    let subs = self.parse_pattern_subs()?;
                    // `Ok(x)` / `نجاح(x)` / `Erreur(e)` patterns canonicalize too.
                    let name = canonical_ctor(name);
                    Ok(Pattern::Variant { enum_name: None, name, subs })
                } else {
                    // Bare name: binding or unit variant (resolved at match time).
                    Ok(Pattern::Ident(name))
                }
            }
            other => {
                let mut m = at_line(self.line(), "invalid pattern, found ");
                m.append(kind_debug(other).as_str());
                Err(m)
            }
        }
    }

    fn parse_pattern_subs(&mut self) -> (r: PResult<Vec<Pattern>>)
        requires
            old(self).wf(),
        ensures
            old(self).leads_to(final(self)),
            !(old(self).cur() is LParen) ==> (r matches Ok(v) && v@.len() == 0 && final(self).pos == old(self).pos),
            old(self).cur() is LParen && old(self).ahead(1) is RParen ==> (r matches Ok(v) && v@.len() == 0
                && final(self).pos == old(self).pos + 2),
            old(self).cur() is LParen && !(old(self).ahead(1) is RParen) && spec_pattern_list(
                token_views(old(self).toks@),
                old(self).pos + 1,
                Seq::empty(),
            ) is Some ==> (r matches Ok(v) && spec_pattern_list(token_views(old(self).toks@), old(self).pos + 1, Seq::empty())
                == Some((pats_view(v@), final(self).pos - 1))),
        decreases old(self).rem(), 0int,
    {
        let ghost ts = token_views(self.toks@);
        let ghost goal = spec_pattern_list(ts, self.pos + 1, Seq::empty());
        proof {
            let p0 = self.pos as int;
            assert(ts[p0] == self.toks@[p0]@);
            if p0 + 1 < ts.len() {
                assert(ts[p0 + 1] == self.toks@[p0 + 1]@);
            }
        }
        let mut subs: Vec<Pattern> = Vec::new();
        if self.eat(&TokenKind::LParen) {
            let ghost go = !(old(self).ahead(1) is RParen) && goal is Some;
            if !self.peek_is(&TokenKind::RParen) {
                proof {
                    assert(pats_view(subs@) == Seq::<Option<SPat>>::empty());
                }
                loop
                    invariant_except_break
                        go ==> spec_pattern_list(ts, self.pos as int, pats_view(subs@)) == goal,
                    invariant
                        old(self).leads_to(self),
                        old(self).pos < self.pos,
                        old(self).cur() is LParen,
                        !(old(self).ahead(1) is RParen),
                        ts == token_views(old(self).toks@),
                        goal == spec_pattern_list(ts, old(self).pos + 1, Seq::empty()),
                        go == (!(old(self).ahead(1) is RParen) && goal is Some),
                    ensures
                        old(self).leads_to(self),
                        old(self).pos < self.pos,
                        go ==> goal == Some((pats_view(subs@), self.pos as int)),
                    decreases self.rem(),
                {
                    let ghost s0 = subs@;
                    let pat = self.parse_pattern()?;
                    let ghost pg = pat;
                    subs.push(pat);
                    proof {
                        assert(subs@.drop_last() =~= s0);
                        let k = self.pos as int;
                        assert(ts[k] == self.toks@[k]@);
                    }
                    if !self.eat(&TokenKind::Comma) {
                        break;
                    }
                }
                proof {
                    if go {
                        lemma_pattern_list_end(ts, old(self).pos + 1, Seq::empty());
                        assert(ts[self.pos as int] == self.toks@[self.pos as int]@);
                    }
                }
            }
            self.expect(TokenKind::RParen)?;
        }
        Ok(subs)
    }
}

} // verus!
