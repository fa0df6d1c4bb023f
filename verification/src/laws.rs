//! Properties of the language as a whole, proved over the specifications of
//! the lexer, the checker and the interpreter.

use vstd::prelude::*;
use crate::ast::{AssignTarget, BinOp, Block, Expr, ExprKind, Stmt, UnOp};
use crate::interp::{env_assign, env_find, msg_condition, pure_cost, pure_eval, pure_for, pure_while, VarView};
use crate::jit::for_loop_test;
use crate::lexer::{
    digits_value, escape_char, first_bidi, line_at, msg_bidi, scan_string, spec_digit_value, spec_is_bidi,
    spec_tokenize, split_pieces, string_token, symbol_at, with_lit, word_token, LexStep, StrScan,
};
use crate::token::{
    spec_array_method, spec_is_clone, spec_is_print, spec_result_ctor, ArrayMethod, SpecTokenKind,
};
use crate::ast::{SExpr, SKind};
use crate::parser::{
    lemma_postfix_end, spec_binop, spec_expr, spec_infix, spec_infix_bp, spec_postfix, spec_postfix_rest, spec_prefix,
};
use crate::token::SpecToken;
use crate::typeck::{
    lemma_tenv_find_bounds, missing_names, msg_moved, pure_check_stmt, pure_check_stmts, pure_type, spec_exhaustive,
    lemma_tfirst_in_bounds, spec_with_line, tenv_bind, tenv_find, tenv_mark, tenv_move, tfirst_in, TyView,
};
use crate::types::spec_is_copy;
use crate::types::spec_ty_text;
use crate::types::{spec_types_match, SpecTy};
use crate::value::{
    abs, in_i64, order_chars, spec_arith, spec_binary, spec_index, spec_order, tdiv, trem, value_text, SpecValue,
};

verus! {

proof fn lemma_keyword_let()
    ensures
        word_token("let"@) == SpecTokenKind::Let,
        word_token("دع"@) == SpecTokenKind::Let,
        word_token("soit"@) == SpecTokenKind::Let,
{
    reveal_strlit("let");
    reveal_strlit("soit");
    reveal_strlit("دع");
}

proof fn lemma_keyword_var()
    ensures
        word_token("var"@) == SpecTokenKind::Var,
        word_token("متغير"@) == SpecTokenKind::Var,
        word_token("variable"@) == SpecTokenKind::Var,
{
    reveal_strlit("let");
    reveal_strlit("soit");
    reveal_strlit("var");
    reveal_strlit("variable");
    reveal_strlit("دع");
    reveal_strlit("متغير");
    assert("var"@[0] != "let"@[0]);
    assert("var"@ != "let"@);
    assert("var"@.len() != "دع"@.len());
    assert("var"@ != "دع"@);
    assert("var"@.len() != "soit"@.len());
    assert("var"@ != "soit"@);
    assert("متغير"@.len() != "let"@.len());
    assert("متغير"@ != "let"@);
    assert("متغير"@.len() != "دع"@.len());
    assert("متغير"@ != "دع"@);
    assert("متغير"@.len() != "soit"@.len());
    assert("متغير"@ != "soit"@);
    assert("variable"@.len() != "let"@.len());
    assert("variable"@ != "let"@);
    assert("variable"@.len() != "دع"@.len());
    assert("variable"@ != "دع"@);
    assert("variable"@.len() != "soit"@.len());
    assert("variable"@ != "soit"@);
}

proof fn lemma_keyword_fn()
    ensures
        word_token("fn"@) == SpecTokenKind::Fn,
        word_token("دالة"@) == SpecTokenKind::Fn,
        word_token("fonction"@) == SpecTokenKind::Fn,
{
    reveal_strlit("fn");
    reveal_strlit("fonction");
    reveal_strlit("let");
    reveal_strlit("soit");
    reveal_strlit("var");
    reveal_strlit("variable");
    reveal_strlit("دالة");
    reveal_strlit("دع");
    reveal_strlit("متغير");
    assert("fn"@.len() != "let"@.len());
    assert("fn"@ != "let"@);
    assert("fn"@[0] != "دع"@[0]);
    assert("fn"@ != "دع"@);
    assert("fn"@.len() != "soit"@.len());
    assert("fn"@ != "soit"@);
    assert("fn"@.len() != "var"@.len());
    assert("fn"@ != "var"@);
    assert("fn"@.len() != "متغير"@.len());
    assert("fn"@ != "متغير"@);
    assert("fn"@.len() != "variable"@.len());
    assert("fn"@ != "variable"@);
    assert("دالة"@.len() != "let"@.len());
    assert("دالة"@ != "let"@);
    assert("دالة"@.len() != "دع"@.len());
    assert("دالة"@ != "دع"@);
    assert("دالة"@[0] != "soit"@[0]);
    assert("دالة"@ != "soit"@);
    assert("دالة"@.len() != "var"@.len());
    assert("دالة"@ != "var"@);
    assert("دالة"@.len() != "متغير"@.len());
    assert("دالة"@ != "متغير"@);
    assert("دالة"@.len() != "variable"@.len());
    assert("دالة"@ != "variable"@);
    assert("fonction"@.len() != "let"@.len());
    assert("fonction"@ != "let"@);
    assert("fonction"@.len() != "دع"@.len());
    assert("fonction"@ != "دع"@);
    assert("fonction"@.len() != "soit"@.len());
    assert("fonction"@ != "soit"@);
    assert("fonction"@.len() != "var"@.len());
    assert("fonction"@ != "var"@);
    assert("fonction"@.len() != "متغير"@.len());
    assert("fonction"@ != "متغير"@);
    assert("fonction"@[0] != "variable"@[0]);
    assert("fonction"@ != "variable"@);
}

proof fn lemma_keyword_if()
    ensures
        word_token("if"@) == SpecTokenKind::If,
        word_token("اذا"@) == SpecTokenKind::If,
        word_token("si"@) == SpecTokenKind::If,
{
    reveal_strlit("fn");
    reveal_strlit("fonction");
    reveal_strlit("if");
    reveal_strlit("let");
    reveal_strlit("si");
    reveal_strlit("soit");
    reveal_strlit("var");
    reveal_strlit("variable");
    reveal_strlit("اذا");
    reveal_strlit("دالة");
    reveal_strlit("دع");
    reveal_strlit("متغير");
    assert("if"@.len() != "let"@.len());
    assert("if"@ != "let"@);
    assert("if"@[0] != "دع"@[0]);
    assert("if"@ != "دع"@);
    assert("if"@.len() != "soit"@.len());
    assert("if"@ != "soit"@);
    assert("if"@.len() != "var"@.len());
    assert("if"@ != "var"@);
    assert("if"@.len() != "متغير"@.len());
    assert("if"@ != "متغير"@);
    assert("if"@.len() != "variable"@.len());
    assert("if"@ != "variable"@);
    assert("if"@[0] != "fn"@[0]);
    assert("if"@ != "fn"@);
    assert("if"@.len() != "دالة"@.len());
    assert("if"@ != "دالة"@);
    assert("if"@.len() != "fonction"@.len());
    assert("if"@ != "fonction"@);
    assert("اذا"@[0] != "let"@[0]);
    assert("اذا"@ != "let"@);
    assert("اذا"@.len() != "دع"@.len());
    assert("اذا"@ != "دع"@);
    assert("اذا"@.len() != "soit"@.len());
    assert("اذا"@ != "soit"@);
    assert("اذا"@[0] != "var"@[0]);
    assert("اذا"@ != "var"@);
    assert("اذا"@.len() != "متغير"@.len());
    assert("اذا"@ != "متغير"@);
    assert("اذا"@.len() != "variable"@.len());
    assert("اذا"@ != "variable"@);
    assert("اذا"@.len() != "fn"@.len());
    assert("اذا"@ != "fn"@);
    assert("اذا"@.len() != "دالة"@.len());
    assert("اذا"@ != "دالة"@);
    assert("اذا"@.len() != "fonction"@.len());
    assert("اذا"@ != "fonction"@);
    assert("si"@.len() != "let"@.len());
    assert("si"@ != "let"@);
    assert("si"@[0] != "دع"@[0]);
    assert("si"@ != "دع"@);
    assert("si"@.len() != "soit"@.len());
    assert("si"@ != "soit"@);
    assert("si"@.len() != "var"@.len());
    assert("si"@ != "var"@);
    assert("si"@.len() != "متغير"@.len());
    assert("si"@ != "متغير"@);
    assert("si"@.len() != "variable"@.len());
    assert("si"@ != "variable"@);
    assert("si"@[0] != "fn"@[0]);
    assert("si"@ != "fn"@);
    assert("si"@.len() != "دالة"@.len());
    assert("si"@ != "دالة"@);
    assert("si"@.len() != "fonction"@.len());
    assert("si"@ != "fonction"@);
}

proof fn lemma_keyword_else()
    ensures
        word_token("else"@) == SpecTokenKind::Else,
        word_token("وإلا"@) == SpecTokenKind::Else,
        word_token("sinon"@) == SpecTokenKind::Else,
{
    reveal_strlit("else");
    reveal_strlit("fn");
    reveal_strlit("fonction");
    reveal_strlit("if");
    reveal_strlit("let");
    reveal_strlit("si");
    reveal_strlit("sinon");
    reveal_strlit("soit");
    reveal_strlit("var");
    reveal_strlit("variable");
    reveal_strlit("اذا");
    reveal_strlit("دالة");
    reveal_strlit("دع");
    reveal_strlit("متغير");
    reveal_strlit("وإلا");
    assert("else"@.len() != "let"@.len());
    assert("else"@ != "let"@);
    assert("else"@.len() != "دع"@.len());
    assert("else"@ != "دع"@);
    assert("else"@[0] != "soit"@[0]);
    assert("else"@ != "soit"@);
    assert("else"@.len() != "var"@.len());
    assert("else"@ != "var"@);
    assert("else"@.len() != "متغير"@.len());
    assert("else"@ != "متغير"@);
    assert("else"@.len() != "variable"@.len());
    assert("else"@ != "variable"@);
    assert("else"@.len() != "fn"@.len());
    assert("else"@ != "fn"@);
    assert("else"@[0] != "دالة"@[0]);
    assert("else"@ != "دالة"@);
    assert("else"@.len() != "fonction"@.len());
    assert("else"@ != "fonction"@);
    assert("else"@.len() != "if"@.len());
    assert("else"@ != "if"@);
    assert("else"@.len() != "اذا"@.len());
    assert("else"@ != "اذا"@);
    assert("else"@.len() != "si"@.len());
    assert("else"@ != "si"@);
    assert("وإلا"@.len() != "let"@.len());
    assert("وإلا"@ != "let"@);
    assert("وإلا"@.len() != "دع"@.len());
    assert("وإلا"@ != "دع"@);
    assert("وإلا"@[0] != "soit"@[0]);
    assert("وإلا"@ != "soit"@);
    assert("وإلا"@.len() != "var"@.len());
    assert("وإلا"@ != "var"@);
    assert("وإلا"@.len() != "متغير"@.len());
    assert("وإلا"@ != "متغير"@);
    assert("وإلا"@.len() != "variable"@.len());
    assert("وإلا"@ != "variable"@);
    assert("وإلا"@.len() != "fn"@.len());
    assert("وإلا"@ != "fn"@);
    assert("وإلا"@[0] != "دالة"@[0]);
    assert("وإلا"@ != "دالة"@);
    assert("وإلا"@.len() != "fonction"@.len());
    assert("وإلا"@ != "fonction"@);
    assert("وإلا"@.len() != "if"@.len());
    assert("وإلا"@ != "if"@);
    assert("وإلا"@.len() != "اذا"@.len());
    assert("وإلا"@ != "اذا"@);
    assert("وإلا"@.len() != "si"@.len());
    assert("وإلا"@ != "si"@);
    assert("sinon"@.len() != "let"@.len());
    assert("sinon"@ != "let"@);
    assert("sinon"@.len() != "دع"@.len());
    assert("sinon"@ != "دع"@);
    assert("sinon"@.len() != "soit"@.len());
    assert("sinon"@ != "soit"@);
    assert("sinon"@.len() != "var"@.len());
    assert("sinon"@ != "var"@);
    assert("sinon"@[0] != "متغير"@[0]);
    assert("sinon"@ != "متغير"@);
    assert("sinon"@.len() != "variable"@.len());
    assert("sinon"@ != "variable"@);
    assert("sinon"@.len() != "fn"@.len());
    assert("sinon"@ != "fn"@);
    assert("sinon"@.len() != "دالة"@.len());
    assert("sinon"@ != "دالة"@);
    assert("sinon"@.len() != "fonction"@.len());
    assert("sinon"@ != "fonction"@);
    assert("sinon"@.len() != "if"@.len());
    assert("sinon"@ != "if"@);
    assert("sinon"@.len() != "اذا"@.len());
    assert("sinon"@ != "اذا"@);
    assert("sinon"@.len() != "si"@.len());
    assert("sinon"@ != "si"@);
}

proof fn lemma_keyword_while()
    ensures
        word_token("while"@) == SpecTokenKind::While,
        word_token("طالما"@) == SpecTokenKind::While,
        word_token("tantque"@) == SpecTokenKind::While,
{
    reveal_strlit("else");
    reveal_strlit("fn");
    reveal_strlit("fonction");
    reveal_strlit("if");
    reveal_strlit("let");
    reveal_strlit("si");
    reveal_strlit("sinon");
    reveal_strlit("soit");
    reveal_strlit("tantque");
    reveal_strlit("var");
    reveal_strlit("variable");
    reveal_strlit("while");
    reveal_strlit("اذا");
    reveal_strlit("دالة");
    reveal_strlit("دع");
    reveal_strlit("طالما");
    reveal_strlit("متغير");
    reveal_strlit("وإلا");
    assert("while"@.len() != "let"@.len());
    assert("while"@ != "let"@);
    assert("while"@.len() != "دع"@.len());
    assert("while"@ != "دع"@);
    assert("while"@.len() != "soit"@.len());
    assert("while"@ != "soit"@);
    assert("while"@.len() != "var"@.len());
    assert("while"@ != "var"@);
    assert("while"@[0] != "متغير"@[0]);
    assert("while"@ != "متغير"@);
    assert("while"@.len() != "variable"@.len());
    assert("while"@ != "variable"@);
    assert("while"@.len() != "fn"@.len());
    assert("while"@ != "fn"@);
    assert("while"@.len() != "دالة"@.len());
    assert("while"@ != "دالة"@);
    assert("while"@.len() != "fonction"@.len());
    assert("while"@ != "fonction"@);
    assert("while"@.len() != "if"@.len());
    assert("while"@ != "if"@);
    assert("while"@.len() != "اذا"@.len());
    assert("while"@ != "اذا"@);
    assert("while"@.len() != "si"@.len());
    assert("while"@ != "si"@);
    assert("while"@.len() != "else"@.len());
    assert("while"@ != "else"@);
    assert("while"@.len() != "وإلا"@.len());
    assert("while"@ != "وإلا"@);
    assert("while"@[0] != "sinon"@[0]);
    assert("while"@ != "sinon"@);
    assert("طالما"@.len() != "let"@.len());
    assert("طالما"@ != "let"@);
    assert("طالما"@.len() != "دع"@.len());
    assert("طالما"@ != "دع"@);
    assert("طالما"@.len() != "soit"@.len());
    assert("طالما"@ != "soit"@);
    assert("طالما"@.len() != "var"@.len());
    assert("طالما"@ != "var"@);
    assert("طالما"@[0] != "متغير"@[0]);
    assert("طالما"@ != "متغير"@);
    assert("طالما"@.len() != "variable"@.len());
    assert("طالما"@ != "variable"@);
    assert("طالما"@.len() != "fn"@.len());
    assert("طالما"@ != "fn"@);
    assert("طالما"@.len() != "دالة"@.len());
    assert("طالما"@ != "دالة"@);
    assert("طالما"@.len() != "fonction"@.len());
    assert("طالما"@ != "fonction"@);
    assert("طالما"@.len() != "if"@.len());
    assert("طالما"@ != "if"@);
    assert("طالما"@.len() != "اذا"@.len());
    assert("طالما"@ != "اذا"@);
    assert("طالما"@.len() != "si"@.len());
    assert("طالما"@ != "si"@);
    assert("طالما"@.len() != "else"@.len());
    assert("طالما"@ != "else"@);
    assert("طالما"@.len() != "وإلا"@.len());
    assert("طالما"@ != "وإلا"@);
    assert("طالما"@[0] != "sinon"@[0]);
    assert("طالما"@ != "sinon"@);
    assert("tantque"@.len() != "let"@.len());
    assert("tantque"@ != "let"@);
    assert("tantque"@.len() != "دع"@.len());
    assert("tantque"@ != "دع"@);
    assert("tantque"@.len() != "soit"@.len());
    assert("tantque"@ != "soit"@);
    assert("tantque"@.len() != "var"@.len());
    assert("tantque"@ != "var"@);
    assert("tantque"@.len() != "متغير"@.len());
    assert("tantque"@ != "متغير"@);
    assert("tantque"@.len() != "variable"@.len());
    assert("tantque"@ != "variable"@);
    assert("tantque"@.len() != "fn"@.len());
    assert("tantque"@ != "fn"@);
    assert("tantque"@.len() != "دالة"@.len());
    assert("tantque"@ != "دالة"@);
    assert("tantque"@.len() != "fonction"@.len());
    assert("tantque"@ != "fonction"@);
    assert("tantque"@.len() != "if"@.len());
    assert("tantque"@ != "if"@);
    assert("tantque"@.len() != "اذا"@.len());
    assert("tantque"@ != "اذا"@);
    assert("tantque"@.len() != "si"@.len());
    assert("tantque"@ != "si"@);
    assert("tantque"@.len() != "else"@.len());
    assert("tantque"@ != "else"@);
    assert("tantque"@.len() != "وإلا"@.len());
    assert("tantque"@ != "وإلا"@);
    assert("tantque"@.len() != "sinon"@.len());
    assert("tantque"@ != "sinon"@);
}

proof fn lemma_keyword_for()
    ensures
        word_token("for"@) == SpecTokenKind::For,
        word_token("لكل"@) == SpecTokenKind::For,
        word_token("pour"@) == SpecTokenKind::For,
{
    reveal_strlit("else");
    reveal_strlit("fn");
    reveal_strlit("fonction");
    reveal_strlit("for");
    reveal_strlit("if");
    reveal_strlit("let");
    reveal_strlit("pour");
    reveal_strlit("si");
    reveal_strlit("sinon");
    reveal_strlit("soit");
    reveal_strlit("tantque");
    reveal_strlit("var");
    reveal_strlit("variable");
    reveal_strlit("while");
    reveal_strlit("اذا");
    reveal_strlit("دالة");
    reveal_strlit("دع");
    reveal_strlit("طالما");
    reveal_strlit("لكل");
    reveal_strlit("متغير");
    reveal_strlit("وإلا");
    assert("for"@[0] != "let"@[0]);
    assert("for"@ != "let"@);
    assert("for"@.len() != "دع"@.len());
    assert("for"@ != "دع"@);
    assert("for"@.len() != "soit"@.len());
    assert("for"@ != "soit"@);
    assert("for"@[0] != "var"@[0]);
    assert("for"@ != "var"@);
    assert("for"@.len() != "متغير"@.len());
    assert("for"@ != "متغير"@);
    assert("for"@.len() != "variable"@.len());
    assert("for"@ != "variable"@);
    assert("for"@.len() != "fn"@.len());
    assert("for"@ != "fn"@);
    assert("for"@.len() != "دالة"@.len());
    assert("for"@ != "دالة"@);
    assert("for"@.len() != "fonction"@.len());
    assert("for"@ != "fonction"@);
    assert("for"@.len() != "if"@.len());
    assert("for"@ != "if"@);
    assert("for"@[0] != "اذا"@[0]);
    assert("for"@ != "اذا"@);
    assert("for"@.len() != "si"@.len());
    assert("for"@ != "si"@);
    assert("for"@.len() != "else"@.len());
    assert("for"@ != "else"@);
    assert("for"@.len() != "وإلا"@.len());
    assert("for"@ != "وإلا"@);
    assert("for"@.len() != "sinon"@.len());
    assert("for"@ != "sinon"@);
    assert("for"@.len() != "while"@.len());
    assert("for"@ != "while"@);
    assert("for"@.len() != "طالما"@.len());
    assert("for"@ != "طالما"@);
    assert("for"@.len() != "tantque"@.len());
    assert("for"@ != "tantque"@);
    assert("لكل"@[0] != "let"@[0]);
    assert("لكل"@ != "let"@);
    assert("لكل"@.len() != "دع"@.len());
    assert("لكل"@ != "دع"@);
    assert("لكل"@.len() != "soit"@.len());
    assert("لكل"@ != "soit"@);
    assert("لكل"@[0] != "var"@[0]);
    assert("لكل"@ != "var"@);
    assert("لكل"@.len() != "متغير"@.len());
    assert("لكل"@ != "متغير"@);
    assert("لكل"@.len() != "variable"@.len());
    assert("لكل"@ != "variable"@);
    assert("لكل"@.len() != "fn"@.len());
    assert("لكل"@ != "fn"@);
    assert("لكل"@.len() != "دالة"@.len());
    assert("لكل"@ != "دالة"@);
    assert("لكل"@.len() != "fonction"@.len());
    assert("لكل"@ != "fonction"@);
    assert("لكل"@.len() != "if"@.len());
    assert("لكل"@ != "if"@);
    assert("لكل"@[0] != "اذا"@[0]);
    assert("لكل"@ != "اذا"@);
    assert("لكل"@.len() != "si"@.len());
    assert("لكل"@ != "si"@);
    assert("لكل"@.len() != "else"@.len());
    assert("لكل"@ != "else"@);
    assert("لكل"@.len() != "وإلا"@.len());
    assert("لكل"@ != "وإلا"@);
    assert("لكل"@.len() != "sinon"@.len());
    assert("لكل"@ != "sinon"@);
    assert("لكل"@.len() != "while"@.len());
    assert("لكل"@ != "while"@);
    assert("لكل"@.len() != "طالما"@.len());
    assert("لكل"@ != "طالما"@);
    assert("لكل"@.len() != "tantque"@.len());
    assert("لكل"@ != "tantque"@);
    assert("pour"@.len() != "let"@.len());
    assert("pour"@ != "let"@);
    assert("pour"@.len() != "دع"@.len());
    assert("pour"@ != "دع"@);
    assert("pour"@[0] != "soit"@[0]);
    assert("pour"@ != "soit"@);
    assert("pour"@.len() != "var"@.len());
    assert("pour"@ != "var"@);
    assert("pour"@.len() != "متغير"@.len());
    assert("pour"@ != "متغير"@);
    assert("pour"@.len() != "variable"@.len());
    assert("pour"@ != "variable"@);
    assert("pour"@.len() != "fn"@.len());
    assert("pour"@ != "fn"@);
    assert("pour"@[0] != "دالة"@[0]);
    assert("pour"@ != "دالة"@);
    assert("pour"@.len() != "fonction"@.len());
    assert("pour"@ != "fonction"@);
    assert("pour"@.len() != "if"@.len());
    assert("pour"@ != "if"@);
    assert("pour"@.len() != "اذا"@.len());
    assert("pour"@ != "اذا"@);
    assert("pour"@.len() != "si"@.len());
    assert("pour"@ != "si"@);
    assert("pour"@[0] != "else"@[0]);
    assert("pour"@ != "else"@);
    assert("pour"@[0] != "وإلا"@[0]);
    assert("pour"@ != "وإلا"@);
    assert("pour"@.len() != "sinon"@.len());
    assert("pour"@ != "sinon"@);
    assert("pour"@.len() != "while"@.len());
    assert("pour"@ != "while"@);
    assert("pour"@.len() != "طالما"@.len());
    assert("pour"@ != "طالما"@);
    assert("pour"@.len() != "tantque"@.len());
    assert("pour"@ != "tantque"@);
}

proof fn lemma_keyword_in()
    ensures
        word_token("in"@) == SpecTokenKind::In,
        word_token("في"@) == SpecTokenKind::In,
        word_token("dans"@) == SpecTokenKind::In,
{
    reveal_strlit("dans");
    reveal_strlit("else");
    reveal_strlit("fn");
    reveal_strlit("fonction");
    reveal_strlit("for");
    reveal_strlit("if");
    reveal_strlit("in");
    reveal_strlit("let");
    reveal_strlit("pour");
    reveal_strlit("si");
    reveal_strlit("sinon");
    reveal_strlit("soit");
    reveal_strlit("tantque");
    reveal_strlit("var");
    reveal_strlit("variable");
    reveal_strlit("while");
    reveal_strlit("اذا");
    reveal_strlit("دالة");
    reveal_strlit("دع");
    reveal_strlit("طالما");
    reveal_strlit("في");
    reveal_strlit("لكل");
    reveal_strlit("متغير");
    reveal_strlit("وإلا");
    assert("in"@.len() != "let"@.len());
    assert("in"@ != "let"@);
    assert("in"@[0] != "دع"@[0]);
    assert("in"@ != "دع"@);
    assert("in"@.len() != "soit"@.len());
    assert("in"@ != "soit"@);
    assert("in"@.len() != "var"@.len());
    assert("in"@ != "var"@);
    assert("in"@.len() != "متغير"@.len());
    assert("in"@ != "متغير"@);
    assert("in"@.len() != "variable"@.len());
    assert("in"@ != "variable"@);
    assert("in"@[0] != "fn"@[0]);
    assert("in"@ != "fn"@);
    assert("in"@.len() != "دالة"@.len());
    assert("in"@ != "دالة"@);
    assert("in"@.len() != "fonction"@.len());
    assert("in"@ != "fonction"@);
    assert("in"@[1] != "if"@[1]);
    assert("in"@ != "if"@);
    assert("in"@.len() != "اذا"@.len());
    assert("in"@ != "اذا"@);
    assert("in"@[0] != "si"@[0]);
    assert("in"@ != "si"@);
    assert("in"@.len() != "else"@.len());
    assert("in"@ != "else"@);
    assert("in"@.len() != "وإلا"@.len());
    assert("in"@ != "وإلا"@);
    assert("in"@.len() != "sinon"@.len());
    assert("in"@ != "sinon"@);
    assert("in"@.len() != "while"@.len());
    assert("in"@ != "while"@);
    assert("in"@.len() != "طالما"@.len());
    assert("in"@ != "طالما"@);
    assert("in"@.len() != "tantque"@.len());
    assert("in"@ != "tantque"@);
    assert("in"@.len() != "for"@.len());
    assert("in"@ != "for"@);
    assert("in"@.len() != "لكل"@.len());
    assert("in"@ != "لكل"@);
    assert("in"@.len() != "pour"@.len());
    assert("in"@ != "pour"@);
    assert("في"@.len() != "let"@.len());
    assert("في"@ != "let"@);
    assert("في"@[0] != "دع"@[0]);
    assert("في"@ != "دع"@);
    assert("في"@.len() != "soit"@.len());
    assert("في"@ != "soit"@);
    assert("في"@.len() != "var"@.len());
    assert("في"@ != "var"@);
    assert("في"@.len() != "متغير"@.len());
    assert("في"@ != "متغير"@);
    assert("في"@.len() != "variable"@.len());
    assert("في"@ != "variable"@);
    assert("في"@[0] != "fn"@[0]);
    assert("في"@ != "fn"@);
    assert("في"@.len() != "دالة"@.len());
    assert("في"@ != "دالة"@);
    assert("في"@.len() != "fonction"@.len());
    assert("في"@ != "fonction"@);
    assert("في"@[0] != "if"@[0]);
    assert("في"@ != "if"@);
    assert("في"@.len() != "اذا"@.len());
    assert("في"@ != "اذا"@);
    assert("في"@[0] != "si"@[0]);
    assert("في"@ != "si"@);
    assert("في"@.len() != "else"@.len());
    assert("في"@ != "else"@);
    assert("في"@.len() != "وإلا"@.len());
    assert("في"@ != "وإلا"@);
    assert("في"@.len() != "sinon"@.len());
    assert("في"@ != "sinon"@);
    assert("في"@.len() != "while"@.len());
    assert("في"@ != "while"@);
    assert("في"@.len() != "طالما"@.len());
    assert("في"@ != "طالما"@);
    assert("في"@.len() != "tantque"@.len());
    assert("في"@ != "tantque"@);
    assert("في"@.len() != "for"@.len());
    assert("في"@ != "for"@);
    assert("في"@.len() != "لكل"@.len());
    assert("في"@ != "لكل"@);
    assert("في"@.len() != "pour"@.len());
    assert("في"@ != "pour"@);
    assert("dans"@.len() != "let"@.len());
    assert("dans"@ != "let"@);
    assert("dans"@.len() != "دع"@.len());
    assert("dans"@ != "دع"@);
    assert("dans"@[0] != "soit"@[0]);
    assert("dans"@ != "soit"@);
    assert("dans"@.len() != "var"@.len());
    assert("dans"@ != "var"@);
    assert("dans"@.len() != "متغير"@.len());
    assert("dans"@ != "متغير"@);
    assert("dans"@.len() != "variable"@.len());
    assert("dans"@ != "variable"@);
    assert("dans"@.len() != "fn"@.len());
    assert("dans"@ != "fn"@);
    assert("dans"@[0] != "دالة"@[0]);
    assert("dans"@ != "دالة"@);
    assert("dans"@.len() != "fonction"@.len());
    assert("dans"@ != "fonction"@);
    assert("dans"@.len() != "if"@.len());
    assert("dans"@ != "if"@);
    assert("dans"@.len() != "اذا"@.len());
    assert("dans"@ != "اذا"@);
    assert("dans"@.len() != "si"@.len());
    assert("dans"@ != "si"@);
    assert("dans"@[0] != "else"@[0]);
    assert("dans"@ != "else"@);
    assert("dans"@[0] != "وإلا"@[0]);
    assert("dans"@ != "وإلا"@);
    assert("dans"@.len() != "sinon"@.len());
    assert("dans"@ != "sinon"@);
    assert("dans"@.len() != "while"@.len());
    assert("dans"@ != "while"@);
    assert("dans"@.len() != "طالما"@.len());
    assert("dans"@ != "طالما"@);
    assert("dans"@.len() != "tantque"@.len());
    assert("dans"@ != "tantque"@);
    assert("dans"@.len() != "for"@.len());
    assert("dans"@ != "for"@);
    assert("dans"@.len() != "لكل"@.len());
    assert("dans"@ != "لكل"@);
    assert("dans"@[0] != "pour"@[0]);
    assert("dans"@ != "pour"@);
}

proof fn lemma_keyword_return()
    ensures
        word_token("return"@) == SpecTokenKind::Return,
        word_token("أرجع"@) == SpecTokenKind::Return,
        word_token("retourne"@) == SpecTokenKind::Return,
{
    reveal_strlit("dans");
    reveal_strlit("else");
    reveal_strlit("fn");
    reveal_strlit("fonction");
    reveal_strlit("for");
    reveal_strlit("if");
    reveal_strlit("in");
    reveal_strlit("let");
    reveal_strlit("pour");
    reveal_strlit("retourne");
    reveal_strlit("return");
    reveal_strlit("si");
    reveal_strlit("sinon");
    reveal_strlit("soit");
    reveal_strlit("tantque");
    reveal_strlit("var");
    reveal_strlit("variable");
    reveal_strlit("while");
    reveal_strlit("أرجع");
    reveal_strlit("اذا");
    reveal_strlit("دالة");
    reveal_strlit("دع");
    reveal_strlit("طالما");
    reveal_strlit("في");
    reveal_strlit("لكل");
    reveal_strlit("متغير");
    reveal_strlit("وإلا");
    assert("return"@.len() != "let"@.len());
    assert("return"@ != "let"@);
    assert("return"@.len() != "دع"@.len());
    assert("return"@ != "دع"@);
    assert("return"@.len() != "soit"@.len());
    assert("return"@ != "soit"@);
    assert("return"@.len() != "var"@.len());
    assert("return"@ != "var"@);
    assert("return"@.len() != "متغير"@.len());
    assert("return"@ != "متغير"@);
    assert("return"@.len() != "variable"@.len());
    assert("return"@ != "variable"@);
    assert("return"@.len() != "fn"@.len());
    assert("return"@ != "fn"@);
    assert("return"@.len() != "دالة"@.len());
    assert("return"@ != "دالة"@);
    assert("return"@.len() != "fonction"@.len());
    assert("return"@ != "fonction"@);
    assert("return"@.len() != "if"@.len());
    assert("return"@ != "if"@);
    assert("return"@.len() != "اذا"@.len());
    assert("return"@ != "اذا"@);
    assert("return"@.len() != "si"@.len());
    assert("return"@ != "si"@);
    assert("return"@.len() != "else"@.len());
    assert("return"@ != "else"@);
    assert("return"@.len() != "وإلا"@.len());
    assert("return"@ != "وإلا"@);
    assert("return"@.len() != "sinon"@.len());
    assert("return"@ != "sinon"@);
    assert("return"@.len() != "while"@.len());
    assert("return"@ != "while"@);
    assert("return"@.len() != "طالما"@.len());
    assert("return"@ != "طالما"@);
    assert("return"@.len() != "tantque"@.len());
    assert("return"@ != "tantque"@);
    assert("return"@.len() != "for"@.len());
    assert("return"@ != "for"@);
    assert("return"@.len() != "لكل"@.len());
    assert("return"@ != "لكل"@);
    assert("return"@.len() != "pour"@.len());
    assert("return"@ != "pour"@);
    assert("return"@.len() != "in"@.len());
    assert("return"@ != "in"@);
    assert("return"@.len() != "في"@.len());
    assert("return"@ != "في"@);
    assert("return"@.len() != "dans"@.len());
    assert("return"@ != "dans"@);
    assert("أرجع"@.len() != "let"@.len());
    assert("أرجع"@ != "let"@);
    assert("أرجع"@.len() != "دع"@.len());
    assert("أرجع"@ != "دع"@);
    assert("أرجع"@[0] != "soit"@[0]);
    assert("أرجع"@ != "soit"@);
    assert("أرجع"@.len() != "var"@.len());
    assert("أرجع"@ != "var"@);
    assert("أرجع"@.len() != "متغير"@.len());
    assert("أرجع"@ != "متغير"@);
    assert("أرجع"@.len() != "variable"@.len());
    assert("أرجع"@ != "variable"@);
    assert("أرجع"@.len() != "fn"@.len());
    assert("أرجع"@ != "fn"@);
    assert("أرجع"@[0] != "دالة"@[0]);
    assert("أرجع"@ != "دالة"@);
    assert("أرجع"@.len() != "fonction"@.len());
    assert("أرجع"@ != "fonction"@);
    assert("أرجع"@.len() != "if"@.len());
    assert("أرجع"@ != "if"@);
    assert("أرجع"@.len() != "اذا"@.len());
    assert("أرجع"@ != "اذا"@);
    assert("أرجع"@.len() != "si"@.len());
    assert("أرجع"@ != "si"@);
    assert("أرجع"@[0] != "else"@[0]);
    assert("أرجع"@ != "else"@);
    assert("أرجع"@[0] != "وإلا"@[0]);
    assert("أرجع"@ != "وإلا"@);
    assert("أرجع"@.len() != "sinon"@.len());
    assert("أرجع"@ != "sinon"@);
    assert("أرجع"@.len() != "while"@.len());
    assert("أرجع"@ != "while"@);
    assert("أرجع"@.len() != "طالما"@.len());
    assert("أرجع"@ != "طالما"@);
    assert("أرجع"@.len() != "tantque"@.len());
    assert("أرجع"@ != "tantque"@);
    assert("أرجع"@.len() != "for"@.len());
    assert("أرجع"@ != "for"@);
    assert("أرجع"@.len() != "لكل"@.len());
    assert("أرجع"@ != "لكل"@);
    assert("أرجع"@[0] != "pour"@[0]);
    assert("أرجع"@ != "pour"@);
    assert("أرجع"@.len() != "in"@.len());
    assert("أرجع"@ != "in"@);
    assert("أرجع"@.len() != "في"@.len());
    assert("أرجع"@ != "في"@);
    assert("أرجع"@[0] != "dans"@[0]);
    assert("أرجع"@ != "dans"@);
    assert("retourne"@.len() != "let"@.len());
    assert("retourne"@ != "let"@);
    assert("retourne"@.len() != "دع"@.len());
    assert("retourne"@ != "دع"@);
    assert("retourne"@.len() != "soit"@.len());
    assert("retourne"@ != "soit"@);
    assert("retourne"@.len() != "var"@.len());
    assert("retourne"@ != "var"@);
    assert("retourne"@.len() != "متغير"@.len());
    assert("retourne"@ != "متغير"@);
    assert("retourne"@[0] != "variable"@[0]);
    assert("retourne"@ != "variable"@);
    assert("retourne"@.len() != "fn"@.len());
    assert("retourne"@ != "fn"@);
    assert("retourne"@.len() != "دالة"@.len());
    assert("retourne"@ != "دالة"@);
    assert("retourne"@[0] != "fonction"@[0]);
    assert("retourne"@ != "fonction"@);
    assert("retourne"@.len() != "if"@.len());
    assert("retourne"@ != "if"@);
    assert("retourne"@.len() != "اذا"@.len());
    assert("retourne"@ != "اذا"@);
    assert("retourne"@.len() != "si"@.len());
    assert("retourne"@ != "si"@);
    assert("retourne"@.len() != "else"@.len());
    assert("retourne"@ != "else"@);
    assert("retourne"@.len() != "وإلا"@.len());
    assert("retourne"@ != "وإلا"@);
    assert("retourne"@.len() != "sinon"@.len());
    assert("retourne"@ != "sinon"@);
    assert("retourne"@.len() != "while"@.len());
    assert("retourne"@ != "while"@);
    assert("retourne"@.len() != "طالما"@.len());
    assert("retourne"@ != "طالما"@);
    assert("retourne"@.len() != "tantque"@.len());
    assert("retourne"@ != "tantque"@);
    assert("retourne"@.len() != "for"@.len());
    assert("retourne"@ != "for"@);
    assert("retourne"@.len() != "لكل"@.len());
    assert("retourne"@ != "لكل"@);
    assert("retourne"@.len() != "pour"@.len());
    assert("retourne"@ != "pour"@);
    assert("retourne"@.len() != "in"@.len());
    assert("retourne"@ != "in"@);
    assert("retourne"@.len() != "في"@.len());
    assert("retourne"@ != "في"@);
    assert("retourne"@.len() != "dans"@.len());
    assert("retourne"@ != "dans"@);
}

proof fn lemma_keyword_true()
    ensures
        word_token("true"@) == SpecTokenKind::True,
        word_token("صحيح"@) == SpecTokenKind::True,
        word_token("vrai"@) == SpecTokenKind::True,
{
    reveal_strlit("dans");
    reveal_strlit("else");
    reveal_strlit("fn");
    reveal_strlit("fonction");
    reveal_strlit("for");
    reveal_strlit("if");
    reveal_strlit("in");
    reveal_strlit("let");
    reveal_strlit("pour");
    reveal_strlit("retourne");
    reveal_strlit("return");
    reveal_strlit("si");
    reveal_strlit("sinon");
    reveal_strlit("soit");
    reveal_strlit("tantque");
    reveal_strlit("true");
    reveal_strlit("var");
    reveal_strlit("variable");
    reveal_strlit("vrai");
    reveal_strlit("while");
    reveal_strlit("أرجع");
    reveal_strlit("اذا");
    reveal_strlit("دالة");
    reveal_strlit("دع");
    reveal_strlit("صحيح");
    reveal_strlit("طالما");
    reveal_strlit("في");
    reveal_strlit("لكل");
    reveal_strlit("متغير");
    reveal_strlit("وإلا");
    assert("true"@.len() != "let"@.len());
    assert("true"@ != "let"@);
    assert("true"@.len() != "دع"@.len());
    assert("true"@ != "دع"@);
    assert("true"@[0] != "soit"@[0]);
    assert("true"@ != "soit"@);
    assert("true"@.len() != "var"@.len());
    assert("true"@ != "var"@);
    assert("true"@.len() != "متغير"@.len());
    assert("true"@ != "متغير"@);
    assert("true"@.len() != "variable"@.len());
    assert("true"@ != "variable"@);
    assert("true"@.len() != "fn"@.len());
    assert("true"@ != "fn"@);
    assert("true"@[0] != "دالة"@[0]);
    assert("true"@ != "دالة"@);
    assert("true"@.len() != "fonction"@.len());
    assert("true"@ != "fonction"@);
    assert("true"@.len() != "if"@.len());
    assert("true"@ != "if"@);
    assert("true"@.len() != "اذا"@.len());
    assert("true"@ != "اذا"@);
    assert("true"@.len() != "si"@.len());
    assert("true"@ != "si"@);
    assert("true"@[0] != "else"@[0]);
    assert("true"@ != "else"@);
    assert("true"@[0] != "وإلا"@[0]);
    assert("true"@ != "وإلا"@);
    assert("true"@.len() != "sinon"@.len());
    assert("true"@ != "sinon"@);
    assert("true"@.len() != "while"@.len());
    assert("true"@ != "while"@);
    assert("true"@.len() != "طالما"@.len());
    assert("true"@ != "طالما"@);
    assert("true"@.len() != "tantque"@.len());
    assert("true"@ != "tantque"@);
    assert("true"@.len() != "for"@.len());
    assert("true"@ != "for"@);
    assert("true"@.len() != "لكل"@.len());
    assert("true"@ != "لكل"@);
    assert("true"@[0] != "pour"@[0]);
    assert("true"@ != "pour"@);
    assert("true"@.len() != "in"@.len());
    assert("true"@ != "in"@);
    assert("true"@.len() != "في"@.len());
    assert("true"@ != "في"@);
    assert("true"@[0] != "dans"@[0]);
    assert("true"@ != "dans"@);
    assert("true"@.len() != "return"@.len());
    assert("true"@ != "return"@);
    assert("true"@[0] != "أرجع"@[0]);
    assert("true"@ != "أرجع"@);
    assert("true"@.len() != "retourne"@.len());
    assert("true"@ != "retourne"@);
    assert("صحيح"@.len() != "let"@.len());
    assert("صحيح"@ != "let"@);
    assert("صحيح"@.len() != "دع"@.len());
    assert("صحيح"@ != "دع"@);
    assert("صحيح"@[0] != "soit"@[0]);
    assert("صحيح"@ != "soit"@);
    assert("صحيح"@.len() != "var"@.len());
    assert("صحيح"@ != "var"@);
    assert("صحيح"@.len() != "متغير"@.len());
    assert("صحيح"@ != "متغير"@);
    assert("صحيح"@.len() != "variable"@.len());
    assert("صحيح"@ != "variable"@);
    assert("صحيح"@.len() != "fn"@.len());
    assert("صحيح"@ != "fn"@);
    assert("صحيح"@[0] != "دالة"@[0]);
    assert("صحيح"@ != "دالة"@);
    assert("صحيح"@.len() != "fonction"@.len());
    assert("صحيح"@ != "fonction"@);
    assert("صحيح"@.len() != "if"@.len());
    assert("صحيح"@ != "if"@);
    assert("صحيح"@.len() != "اذا"@.len());
    assert("صحيح"@ != "اذا"@);
    assert("صحيح"@.len() != "si"@.len());
    assert("صحيح"@ != "si"@);
    assert("صحيح"@[0] != "else"@[0]);
    assert("صحيح"@ != "else"@);
    assert("صحيح"@[0] != "وإلا"@[0]);
    assert("صحيح"@ != "وإلا"@);
    assert("صحيح"@.len() != "sinon"@.len());
    assert("صحيح"@ != "sinon"@);
    assert("صحيح"@.len() != "while"@.len());
    assert("صحيح"@ != "while"@);
    assert("صحيح"@.len() != "طالما"@.len());
    assert("صحيح"@ != "طالما"@);
    assert("صحيح"@.len() != "tantque"@.len());
    assert("صحيح"@ != "tantque"@);
    assert("صحيح"@.len() != "for"@.len());
    assert("صحيح"@ != "for"@);
    assert("صحيح"@.len() != "لكل"@.len());
    assert("صحيح"@ != "لكل"@);
    assert("صحيح"@[0] != "pour"@[0]);
    assert("صحيح"@ != "pour"@);
    assert("صحيح"@.len() != "in"@.len());
    assert("صحيح"@ != "in"@);
    assert("صحيح"@.len() != "في"@.len());
    assert("صحيح"@ != "في"@);
    assert("صحيح"@[0] != "dans"@[0]);
    assert("صحيح"@ != "dans"@);
    assert("صحيح"@.len() != "return"@.len());
    assert("صحيح"@ != "return"@);
    assert("صحيح"@[0] != "أرجع"@[0]);
    assert("صحيح"@ != "أرجع"@);
    assert("صحيح"@.len() != "retourne"@.len());
    assert("صحيح"@ != "retourne"@);
    assert("vrai"@.len() != "let"@.len());
    assert("vrai"@ != "let"@);
    assert("vrai"@.len() != "دع"@.len());
    assert("vrai"@ != "دع"@);
    assert("vrai"@[0] != "soit"@[0]);
    assert("vrai"@ != "soit"@);
    assert("vrai"@.len() != "var"@.len());
    assert("vrai"@ != "var"@);
    assert("vrai"@.len() != "متغير"@.len());
    assert("vrai"@ != "متغير"@);
    assert("vrai"@.len() != "variable"@.len());
    assert("vrai"@ != "variable"@);
    assert("vrai"@.len() != "fn"@.len());
    assert("vrai"@ != "fn"@);
    assert("vrai"@[0] != "دالة"@[0]);
    assert("vrai"@ != "دالة"@);
    assert("vrai"@.len() != "fonction"@.len());
    assert("vrai"@ != "fonction"@);
    assert("vrai"@.len() != "if"@.len());
    assert("vrai"@ != "if"@);
    assert("vrai"@.len() != "اذا"@.len());
    assert("vrai"@ != "اذا"@);
    assert("vrai"@.len() != "si"@.len());
    assert("vrai"@ != "si"@);
    assert("vrai"@[0] != "else"@[0]);
    assert("vrai"@ != "else"@);
    assert("vrai"@[0] != "وإلا"@[0]);
    assert("vrai"@ != "وإلا"@);
    assert("vrai"@.len() != "sinon"@.len());
    assert("vrai"@ != "sinon"@);
    assert("vrai"@.len() != "while"@.len());
    assert("vrai"@ != "while"@);
    assert("vrai"@.len() != "طالما"@.len());
    assert("vrai"@ != "طالما"@);
    assert("vrai"@.len() != "tantque"@.len());
    assert("vrai"@ != "tantque"@);
    assert("vrai"@.len() != "for"@.len());
    assert("vrai"@ != "for"@);
    assert("vrai"@.len() != "لكل"@.len());
    assert("vrai"@ != "لكل"@);
    assert("vrai"@[0] != "pour"@[0]);
    assert("vrai"@ != "pour"@);
    assert("vrai"@.len() != "in"@.len());
    assert("vrai"@ != "in"@);
    assert("vrai"@.len() != "في"@.len());
    assert("vrai"@ != "في"@);
    assert("vrai"@[0] != "dans"@[0]);
    assert("vrai"@ != "dans"@);
    assert("vrai"@.len() != "return"@.len());
    assert("vrai"@ != "return"@);
    assert("vrai"@[0] != "أرجع"@[0]);
    assert("vrai"@ != "أرجع"@);
    assert("vrai"@.len() != "retourne"@.len());
    assert("vrai"@ != "retourne"@);
}

proof fn lemma_keyword_false()
    ensures
        word_token("false"@) == SpecTokenKind::False,
        word_token("خطأ"@) == SpecTokenKind::False,
        word_token("faux"@) == SpecTokenKind::False,
{
    reveal_strlit("dans");
    reveal_strlit("else");
    reveal_strlit("false");
    reveal_strlit("faux");
    reveal_strlit("fn");
    reveal_strlit("fonction");
    reveal_strlit("for");
    reveal_strlit("if");
    reveal_strlit("in");
    reveal_strlit("let");
    reveal_strlit("pour");
    reveal_strlit("retourne");
    reveal_strlit("return");
    reveal_strlit("si");
    reveal_strlit("sinon");
    reveal_strlit("soit");
    reveal_strlit("tantque");
    reveal_strlit("true");
    reveal_strlit("var");
    reveal_strlit("variable");
    reveal_strlit("vrai");
    reveal_strlit("while");
    reveal_strlit("أرجع");
    reveal_strlit("اذا");
    reveal_strlit("خطأ");
    reveal_strlit("دالة");
    reveal_strlit("دع");
    reveal_strlit("صحيح");
    reveal_strlit("طالما");
    reveal_strlit("في");
    reveal_strlit("لكل");
    reveal_strlit("متغير");
    reveal_strlit("وإلا");
    assert("false"@.len() != "let"@.len());
    assert("false"@ != "let"@);
    assert("false"@.len() != "دع"@.len());
    assert("false"@ != "دع"@);
    assert("false"@.len() != "soit"@.len());
    assert("false"@ != "soit"@);
    assert("false"@.len() != "var"@.len());
    assert("false"@ != "var"@);
    assert("false"@[0] != "متغير"@[0]);
    assert("false"@ != "متغير"@);
    assert("false"@.len() != "variable"@.len());
    assert("false"@ != "variable"@);
    assert("false"@.len() != "fn"@.len());
    assert("false"@ != "fn"@);
    assert("false"@.len() != "دالة"@.len());
    assert("false"@ != "دالة"@);
    assert("false"@.len() != "fonction"@.len());
    assert("false"@ != "fonction"@);
    assert("false"@.len() != "if"@.len());
    assert("false"@ != "if"@);
    assert("false"@.len() != "اذا"@.len());
    assert("false"@ != "اذا"@);
    assert("false"@.len() != "si"@.len());
    assert("false"@ != "si"@);
    assert("false"@.len() != "else"@.len());
    assert("false"@ != "else"@);
    assert("false"@.len() != "وإلا"@.len());
    assert("false"@ != "وإلا"@);
    assert("false"@[0] != "sinon"@[0]);
    assert("false"@ != "sinon"@);
    assert("false"@[0] != "while"@[0]);
    assert("false"@ != "while"@);
    assert("false"@[0] != "طالما"@[0]);
    assert("false"@ != "طالما"@);
    assert("false"@.len() != "tantque"@.len());
    assert("false"@ != "tantque"@);
    assert("false"@.len() != "for"@.len());
    assert("false"@ != "for"@);
    assert("false"@.len() != "لكل"@.len());
    assert("false"@ != "لكل"@);
    assert("false"@.len() != "pour"@.len());
    assert("false"@ != "pour"@);
    assert("false"@.len() != "in"@.len());
    assert("false"@ != "in"@);
    assert("false"@.len() != "في"@.len());
    assert("false"@ != "في"@);
    assert("false"@.len() != "dans"@.len());
    assert("false"@ != "dans"@);
    assert("false"@.len() != "return"@.len());
    assert("false"@ != "return"@);
    assert("false"@.len() != "أرجع"@.len());
    assert("false"@ != "أرجع"@);
    assert("false"@.len() != "retourne"@.len());
    assert("false"@ != "retourne"@);
    assert("false"@.len() != "true"@.len());
    assert("false"@ != "true"@);
    assert("false"@.len() != "صحيح"@.len());
    assert("false"@ != "صحيح"@);
    assert("false"@.len() != "vrai"@.len());
    assert("false"@ != "vrai"@);
    assert("خطأ"@[0] != "let"@[0]);
    assert("خطأ"@ != "let"@);
    assert("خطأ"@.len() != "دع"@.len());
    assert("خطأ"@ != "دع"@);
    assert("خطأ"@.len() != "soit"@.len());
    assert("خطأ"@ != "soit"@);
    assert("خطأ"@[0] != "var"@[0]);
    assert("خطأ"@ != "var"@);
    assert("خطأ"@.len() != "متغير"@.len());
    assert("خطأ"@ != "متغير"@);
    assert("خطأ"@.len() != "variable"@.len());
    assert("خطأ"@ != "variable"@);
    assert("خطأ"@.len() != "fn"@.len());
    assert("خطأ"@ != "fn"@);
    assert("خطأ"@.len() != "دالة"@.len());
    assert("خطأ"@ != "دالة"@);
    assert("خطأ"@.len() != "fonction"@.len());
    assert("خطأ"@ != "fonction"@);
    assert("خطأ"@.len() != "if"@.len());
    assert("خطأ"@ != "if"@);
    assert("خطأ"@[0] != "اذا"@[0]);
    assert("خطأ"@ != "اذا"@);
    assert("خطأ"@.len() != "si"@.len());
    assert("خطأ"@ != "si"@);
    assert("خطأ"@.len() != "else"@.len());
    assert("خطأ"@ != "else"@);
    assert("خطأ"@.len() != "وإلا"@.len());
    assert("خطأ"@ != "وإلا"@);
    assert("خطأ"@.len() != "sinon"@.len());
    assert("خطأ"@ != "sinon"@);
    assert("خطأ"@.len() != "while"@.len());
    assert("خطأ"@ != "while"@);
    assert("خطأ"@.len() != "طالما"@.len());
    assert("خطأ"@ != "طالما"@);
    assert("خطأ"@.len() != "tantque"@.len());
    assert("خطأ"@ != "tantque"@);
    assert("خطأ"@[0] != "for"@[0]);
    assert("خطأ"@ != "for"@);
    assert("خطأ"@[0] != "لكل"@[0]);
    assert("خطأ"@ != "لكل"@);
    assert("خطأ"@.len() != "pour"@.len());
    assert("خطأ"@ != "pour"@);
    assert("خطأ"@.len() != "in"@.len());
    assert("خطأ"@ != "in"@);
    assert("خطأ"@.len() != "في"@.len());
    assert("خطأ"@ != "في"@);
    assert("خطأ"@.len() != "dans"@.len());
    assert("خطأ"@ != "dans"@);
    assert("خطأ"@.len() != "return"@.len());
    assert("خطأ"@ != "return"@);
    assert("خطأ"@.len() != "أرجع"@.len());
    assert("خطأ"@ != "أرجع"@);
    assert("خطأ"@.len() != "retourne"@.len());
    assert("خطأ"@ != "retourne"@);
    assert("خطأ"@.len() != "true"@.len());
    assert("خطأ"@ != "true"@);
    assert("خطأ"@.len() != "صحيح"@.len());
    assert("خطأ"@ != "صحيح"@);
    assert("خطأ"@.len() != "vrai"@.len());
    assert("خطأ"@ != "vrai"@);
    assert("faux"@.len() != "let"@.len());
    assert("faux"@ != "let"@);
    assert("faux"@.len() != "دع"@.len());
    assert("faux"@ != "دع"@);
    assert("faux"@[0] != "soit"@[0]);
    assert("faux"@ != "soit"@);
    assert("faux"@.len() != "var"@.len());
    assert("faux"@ != "var"@);
    assert("faux"@.len() != "متغير"@.len());
    assert("faux"@ != "متغير"@);
    assert("faux"@.len() != "variable"@.len());
    assert("faux"@ != "variable"@);
    assert("faux"@.len() != "fn"@.len());
    assert("faux"@ != "fn"@);
    assert("faux"@[0] != "دالة"@[0]);
    assert("faux"@ != "دالة"@);
    assert("faux"@.len() != "fonction"@.len());
    assert("faux"@ != "fonction"@);
    assert("faux"@.len() != "if"@.len());
    assert("faux"@ != "if"@);
    assert("faux"@.len() != "اذا"@.len());
    assert("faux"@ != "اذا"@);
    assert("faux"@.len() != "si"@.len());
    assert("faux"@ != "si"@);
    assert("faux"@[0] != "else"@[0]);
    assert("faux"@ != "else"@);
    assert("faux"@[0] != "وإلا"@[0]);
    assert("faux"@ != "وإلا"@);
    assert("faux"@.len() != "sinon"@.len());
    assert("faux"@ != "sinon"@);
    assert("faux"@.len() != "while"@.len());
    assert("faux"@ != "while"@);
    assert("faux"@.len() != "طالما"@.len());
    assert("faux"@ != "طالما"@);
    assert("faux"@.len() != "tantque"@.len());
    assert("faux"@ != "tantque"@);
    assert("faux"@.len() != "for"@.len());
    assert("faux"@ != "for"@);
    assert("faux"@.len() != "لكل"@.len());
    assert("faux"@ != "لكل"@);
    assert("faux"@[0] != "pour"@[0]);
    assert("faux"@ != "pour"@);
    assert("faux"@.len() != "in"@.len());
    assert("faux"@ != "in"@);
    assert("faux"@.len() != "في"@.len());
    assert("faux"@ != "في"@);
    assert("faux"@[0] != "dans"@[0]);
    assert("faux"@ != "dans"@);
    assert("faux"@.len() != "return"@.len());
    assert("faux"@ != "return"@);
    assert("faux"@[0] != "أرجع"@[0]);
    assert("faux"@ != "أرجع"@);
    assert("faux"@.len() != "retourne"@.len());
    assert("faux"@ != "retourne"@);
    assert("faux"@[0] != "true"@[0]);
    assert("faux"@ != "true"@);
    assert("faux"@[0] != "صحيح"@[0]);
    assert("faux"@ != "صحيح"@);
    assert("faux"@[0] != "vrai"@[0]);
    assert("faux"@ != "vrai"@);
}

proof fn lemma_keyword_struct()
    ensures
        word_token("struct"@) == SpecTokenKind::Struct,
        word_token("هيكل"@) == SpecTokenKind::Struct,
        word_token("structure"@) == SpecTokenKind::Struct,
{
    reveal_strlit("dans");
    reveal_strlit("else");
    reveal_strlit("false");
    reveal_strlit("faux");
    reveal_strlit("fn");
    reveal_strlit("fonction");
    reveal_strlit("for");
    reveal_strlit("if");
    reveal_strlit("in");
    reveal_strlit("let");
    reveal_strlit("pour");
    reveal_strlit("retourne");
    reveal_strlit("return");
    reveal_strlit("si");
    reveal_strlit("sinon");
    reveal_strlit("soit");
    reveal_strlit("struct");
    reveal_strlit("structure");
    reveal_strlit("tantque");
    reveal_strlit("true");
    reveal_strlit("var");
    reveal_strlit("variable");
    reveal_strlit("vrai");
    reveal_strlit("while");
    reveal_strlit("أرجع");
    reveal_strlit("اذا");
    reveal_strlit("خطأ");
    reveal_strlit("دالة");
    reveal_strlit("دع");
    reveal_strlit("صحيح");
    reveal_strlit("طالما");
    reveal_strlit("في");
    reveal_strlit("لكل");
    reveal_strlit("متغير");
    reveal_strlit("هيكل");
    reveal_strlit("وإلا");
    assert("struct"@.len() != "let"@.len());
    assert("struct"@ != "let"@);
    assert("struct"@.len() != "دع"@.len());
    assert("struct"@ != "دع"@);
    assert("struct"@.len() != "soit"@.len());
    assert("struct"@ != "soit"@);
    assert("struct"@.len() != "var"@.len());
    assert("struct"@ != "var"@);
    assert("struct"@.len() != "متغير"@.len());
    assert("struct"@ != "متغير"@);
    assert("struct"@.len() != "variable"@.len());
    assert("struct"@ != "variable"@);
    assert("struct"@.len() != "fn"@.len());
    assert("struct"@ != "fn"@);
    assert("struct"@.len() != "دالة"@.len());
    assert("struct"@ != "دالة"@);
    assert("struct"@.len() != "fonction"@.len());
    assert("struct"@ != "fonction"@);
    assert("struct"@.len() != "if"@.len());
    assert("struct"@ != "if"@);
    assert("struct"@.len() != "اذا"@.len());
    assert("struct"@ != "اذا"@);
    assert("struct"@.len() != "si"@.len());
    assert("struct"@ != "si"@);
    assert("struct"@.len() != "else"@.len());
    assert("struct"@ != "else"@);
    assert("struct"@.len() != "وإلا"@.len());
    assert("struct"@ != "وإلا"@);
    assert("struct"@.len() != "sinon"@.len());
    assert("struct"@ != "sinon"@);
    assert("struct"@.len() != "while"@.len());
    assert("struct"@ != "while"@);
    assert("struct"@.len() != "طالما"@.len());
    assert("struct"@ != "طالما"@);
    assert("struct"@.len() != "tantque"@.len());
    assert("struct"@ != "tantque"@);
    assert("struct"@.len() != "for"@.len());
    assert("struct"@ != "for"@);
    assert("struct"@.len() != "لكل"@.len());
    assert("struct"@ != "لكل"@);
    assert("struct"@.len() != "pour"@.len());
    assert("struct"@ != "pour"@);
    assert("struct"@.len() != "in"@.len());
    assert("struct"@ != "in"@);
    assert("struct"@.len() != "في"@.len());
    assert("struct"@ != "في"@);
    assert("struct"@.len() != "dans"@.len());
    assert("struct"@ != "dans"@);
    assert("struct"@[0] != "return"@[0]);
    assert("struct"@ != "return"@);
    assert("struct"@.len() != "أرجع"@.len());
    assert("struct"@ != "أرجع"@);
    assert("struct"@.len() != "retourne"@.len());
    assert("struct"@ != "retourne"@);
    assert("struct"@.len() != "true"@.len());
    assert("struct"@ != "true"@);
    assert("struct"@.len() != "صحيح"@.len());
    assert("struct"@ != "صحيح"@);
    assert("struct"@.len() != "vrai"@.len());
    assert("struct"@ != "vrai"@);
    assert("struct"@.len() != "false"@.len());
    assert("struct"@ != "false"@);
    assert("struct"@.len() != "خطأ"@.len());
    assert("struct"@ != "خطأ"@);
    assert("struct"@.len() != "faux"@.len());
    assert("struct"@ != "faux"@);
    assert("هيكل"@.len() != "let"@.len());
    assert("هيكل"@ != "let"@);
    assert("هيكل"@.len() != "دع"@.len());
    assert("هيكل"@ != "دع"@);
    assert("هيكل"@[0] != "soit"@[0]);
    assert("هيكل"@ != "soit"@);
    assert("هيكل"@.len() != "var"@.len());
    assert("هيكل"@ != "var"@);
    assert("هيكل"@.len() != "متغير"@.len());
    assert("هيكل"@ != "متغير"@);
    assert("هيكل"@.len() != "variable"@.len());
    assert("هيكل"@ != "variable"@);
    assert("هيكل"@.len() != "fn"@.len());
    assert("هيكل"@ != "fn"@);
    assert("هيكل"@[0] != "دالة"@[0]);
    assert("هيكل"@ != "دالة"@);
    assert("هيكل"@.len() != "fonction"@.len());
    assert("هيكل"@ != "fonction"@);
    assert("هيكل"@.len() != "if"@.len());
    assert("هيكل"@ != "if"@);
    assert("هيكل"@.len() != "اذا"@.len());
    assert("هيكل"@ != "اذا"@);
    assert("هيكل"@.len() != "si"@.len());
    assert("هيكل"@ != "si"@);
    assert("هيكل"@[0] != "else"@[0]);
    assert("هيكل"@ != "else"@);
    assert("هيكل"@[0] != "وإلا"@[0]);
    assert("هيكل"@ != "وإلا"@);
    assert("هيكل"@.len() != "sinon"@.len());
    assert("هيكل"@ != "sinon"@);
    assert("هيكل"@.len() != "while"@.len());
    assert("هيكل"@ != "while"@);
    assert("هيكل"@.len() != "طالما"@.len());
    assert("هيكل"@ != "طالما"@);
    assert("هيكل"@.len() != "tantque"@.len());
    assert("هيكل"@ != "tantque"@);
    assert("هيكل"@.len() != "for"@.len());
    assert("هيكل"@ != "for"@);
    assert("هيكل"@.len() != "لكل"@.len());
    assert("هيكل"@ != "لكل"@);
    assert("هيكل"@[0] != "pour"@[0]);
    assert("هيكل"@ != "pour"@);
    assert("هيكل"@.len() != "in"@.len());
    assert("هيكل"@ != "in"@);
    assert("هيكل"@.len() != "في"@.len());
    assert("هيكل"@ != "في"@);
    assert("هيكل"@[0] != "dans"@[0]);
    assert("هيكل"@ != "dans"@);
    assert("هيكل"@.len() != "return"@.len());
    assert("هيكل"@ != "return"@);
    assert("هيكل"@[0] != "أرجع"@[0]);
    assert("هيكل"@ != "أرجع"@);
    assert("هيكل"@.len() != "retourne"@.len());
    assert("هيكل"@ != "retourne"@);
    assert("هيكل"@[0] != "true"@[0]);
    assert("هيكل"@ != "true"@);
    assert("هيكل"@[0] != "صحيح"@[0]);
    assert("هيكل"@ != "صحيح"@);
    assert("هيكل"@[0] != "vrai"@[0]);
    assert("هيكل"@ != "vrai"@);
    assert("هيكل"@.len() != "false"@.len());
    assert("هيكل"@ != "false"@);
    assert("هيكل"@.len() != "خطأ"@.len());
    assert("هيكل"@ != "خطأ"@);
    assert("هيكل"@[0] != "faux"@[0]);
    assert("هيكل"@ != "faux"@);
    assert("structure"@.len() != "let"@.len());
    assert("structure"@ != "let"@);
    assert("structure"@.len() != "دع"@.len());
    assert("structure"@ != "دع"@);
    assert("structure"@.len() != "soit"@.len());
    assert("structure"@ != "soit"@);
    assert("structure"@.len() != "var"@.len());
    assert("structure"@ != "var"@);
    assert("structure"@.len() != "متغير"@.len());
    assert("structure"@ != "متغير"@);
    assert("structure"@.len() != "variable"@.len());
    assert("structure"@ != "variable"@);
    assert("structure"@.len() != "fn"@.len());
    assert("structure"@ != "fn"@);
    assert("structure"@.len() != "دالة"@.len());
    assert("structure"@ != "دالة"@);
    assert("structure"@.len() != "fonction"@.len());
    assert("structure"@ != "fonction"@);
    assert("structure"@.len() != "if"@.len());
    assert("structure"@ != "if"@);
    assert("structure"@.len() != "اذا"@.len());
    assert("structure"@ != "اذا"@);
    assert("structure"@.len() != "si"@.len());
    assert("structure"@ != "si"@);
    assert("structure"@.len() != "else"@.len());
    assert("structure"@ != "else"@);
    assert("structure"@.len() != "وإلا"@.len());
    assert("structure"@ != "وإلا"@);
    assert("structure"@.len() != "sinon"@.len());
    assert("structure"@ != "sinon"@);
    assert("structure"@.len() != "while"@.len());
    assert("structure"@ != "while"@);
    assert("structure"@.len() != "طالما"@.len());
    assert("structure"@ != "طالما"@);
    assert("structure"@.len() != "tantque"@.len());
    assert("structure"@ != "tantque"@);
    assert("structure"@.len() != "for"@.len());
    assert("structure"@ != "for"@);
    assert("structure"@.len() != "لكل"@.len());
    assert("structure"@ != "لكل"@);
    assert("structure"@.len() != "pour"@.len());
    assert("structure"@ != "pour"@);
    assert("structure"@.len() != "in"@.len());
    assert("structure"@ != "in"@);
    assert("structure"@.len() != "في"@.len());
    assert("structure"@ != "في"@);
    assert("structure"@.len() != "dans"@.len());
    assert("structure"@ != "dans"@);
    assert("structure"@.len() != "return"@.len());
    assert("structure"@ != "return"@);
    assert("structure"@.len() != "أرجع"@.len());
    assert("structure"@ != "أرجع"@);
    assert("structure"@.len() != "retourne"@.len());
    assert("structure"@ != "retourne"@);
    assert("structure"@.len() != "true"@.len());
    assert("structure"@ != "true"@);
    assert("structure"@.len() != "صحيح"@.len());
    assert("structure"@ != "صحيح"@);
    assert("structure"@.len() != "vrai"@.len());
    assert("structure"@ != "vrai"@);
    assert("structure"@.len() != "false"@.len());
    assert("structure"@ != "false"@);
    assert("structure"@.len() != "خطأ"@.len());
    assert("structure"@ != "خطأ"@);
    assert("structure"@.len() != "faux"@.len());
    assert("structure"@ != "faux"@);
}

proof fn lemma_keyword_enum()
    ensures
        word_token("enum"@) == SpecTokenKind::Enum,
        word_token("تعداد"@) == SpecTokenKind::Enum,
        word_token("énum"@) == SpecTokenKind::Enum,
{
    reveal_strlit("dans");
    reveal_strlit("else");
    reveal_strlit("enum");
    reveal_strlit("false");
    reveal_strlit("faux");
    reveal_strlit("fn");
    reveal_strlit("fonction");
    reveal_strlit("for");
    reveal_strlit("if");
    reveal_strlit("in");
    reveal_strlit("let");
    reveal_strlit("pour");
    reveal_strlit("retourne");
    reveal_strlit("return");
    reveal_strlit("si");
    reveal_strlit("sinon");
    reveal_strlit("soit");
    reveal_strlit("struct");
    reveal_strlit("structure");
    reveal_strlit("tantque");
    reveal_strlit("true");
    reveal_strlit("var");
    reveal_strlit("variable");
    reveal_strlit("vrai");
    reveal_strlit("while");
    reveal_strlit("énum");
    reveal_strlit("أرجع");
    reveal_strlit("اذا");
    reveal_strlit("تعداد");
    reveal_strlit("خطأ");
    reveal_strlit("دالة");
    reveal_strlit("دع");
    reveal_strlit("صحيح");
    reveal_strlit("طالما");
    reveal_strlit("في");
    reveal_strlit("لكل");
    reveal_strlit("متغير");
    reveal_strlit("هيكل");
    reveal_strlit("وإلا");
    assert("enum"@.len() != "let"@.len());
    assert("enum"@ != "let"@);
    assert("enum"@.len() != "دع"@.len());
    assert("enum"@ != "دع"@);
    assert("enum"@[0] != "soit"@[0]);
    assert("enum"@ != "soit"@);
    assert("enum"@.len() != "var"@.len());
    assert("enum"@ != "var"@);
    assert("enum"@.len() != "متغير"@.len());
    assert("enum"@ != "متغير"@);
    assert("enum"@.len() != "variable"@.len());
    assert("enum"@ != "variable"@);
    assert("enum"@.len() != "fn"@.len());
    assert("enum"@ != "fn"@);
    assert("enum"@[0] != "دالة"@[0]);
    assert("enum"@ != "دالة"@);
    assert("enum"@.len() != "fonction"@.len());
    assert("enum"@ != "fonction"@);
    assert("enum"@.len() != "if"@.len());
    assert("enum"@ != "if"@);
    assert("enum"@.len() != "اذا"@.len());
    assert("enum"@ != "اذا"@);
    assert("enum"@.len() != "si"@.len());
    assert("enum"@ != "si"@);
    assert("enum"@[1] != "else"@[1]);
    assert("enum"@ != "else"@);
    assert("enum"@[0] != "وإلا"@[0]);
    assert("enum"@ != "وإلا"@);
    assert("enum"@.len() != "sinon"@.len());
    assert("enum"@ != "sinon"@);
    assert("enum"@.len() != "while"@.len());
    assert("enum"@ != "while"@);
    assert("enum"@.len() != "طالما"@.len());
    assert("enum"@ != "طالما"@);
    assert("enum"@.len() != "tantque"@.len());
    assert("enum"@ != "tantque"@);
    assert("enum"@.len() != "for"@.len());
    assert("enum"@ != "for"@);
    assert("enum"@.len() != "لكل"@.len());
    assert("enum"@ != "لكل"@);
    assert("enum"@[0] != "pour"@[0]);
    assert("enum"@ != "pour"@);
    assert("enum"@.len() != "in"@.len());
    assert("enum"@ != "in"@);
    assert("enum"@.len() != "في"@.len());
    assert("enum"@ != "في"@);
    assert("enum"@[0] != "dans"@[0]);
    assert("enum"@ != "dans"@);
    assert("enum"@.len() != "return"@.len());
    assert("enum"@ != "return"@);
    assert("enum"@[0] != "أرجع"@[0]);
    assert("enum"@ != "أرجع"@);
    assert("enum"@.len() != "retourne"@.len());
    assert("enum"@ != "retourne"@);
    assert("enum"@[0] != "true"@[0]);
    assert("enum"@ != "true"@);
    assert("enum"@[0] != "صحيح"@[0]);
    assert("enum"@ != "صحيح"@);
    assert("enum"@[0] != "vrai"@[0]);
    assert("enum"@ != "vrai"@);
    assert("enum"@.len() != "false"@.len());
    assert("enum"@ != "false"@);
    assert("enum"@.len() != "خطأ"@.len());
    assert("enum"@ != "خطأ"@);
    assert("enum"@[0] != "faux"@[0]);
    assert("enum"@ != "faux"@);
    assert("enum"@.len() != "struct"@.len());
    assert("enum"@ != "struct"@);
    assert("enum"@[0] != "هيكل"@[0]);
    assert("enum"@ != "هيكل"@);
    assert("enum"@.len() != "structure"@.len());
    assert("enum"@ != "structure"@);
    assert("تعداد"@.len() != "let"@.len());
    assert("تعداد"@ != "let"@);
    assert("تعداد"@.len() != "دع"@.len());
    assert("تعداد"@ != "دع"@);
    assert("تعداد"@.len() != "soit"@.len());
    assert("تعداد"@ != "soit"@);
    assert("تعداد"@.len() != "var"@.len());
    assert("تعداد"@ != "var"@);
    assert("تعداد"@[0] != "متغير"@[0]);
    assert("تعداد"@ != "متغير"@);
    assert("تعداد"@.len() != "variable"@.len());
    assert("تعداد"@ != "variable"@);
    assert("تعداد"@.len() != "fn"@.len());
    assert("تعداد"@ != "fn"@);
    assert("تعداد"@.len() != "دالة"@.len());
    assert("تعداد"@ != "دالة"@);
    assert("تعداد"@.len() != "fonction"@.len());
    assert("تعداد"@ != "fonction"@);
    assert("تعداد"@.len() != "if"@.len());
    assert("تعداد"@ != "if"@);
    assert("تعداد"@.len() != "اذا"@.len());
    assert("تعداد"@ != "اذا"@);
    assert("تعداد"@.len() != "si"@.len());
    assert("تعداد"@ != "si"@);
    assert("تعداد"@.len() != "else"@.len());
    assert("تعداد"@ != "else"@);
    assert("تعداد"@.len() != "وإلا"@.len());
    assert("تعداد"@ != "وإلا"@);
    assert("تعداد"@[0] != "sinon"@[0]);
    assert("تعداد"@ != "sinon"@);
    assert("تعداد"@[0] != "while"@[0]);
    assert("تعداد"@ != "while"@);
    assert("تعداد"@[0] != "طالما"@[0]);
    assert("تعداد"@ != "طالما"@);
    assert("تعداد"@.len() != "tantque"@.len());
    assert("تعداد"@ != "tantque"@);
    assert("تعداد"@.len() != "for"@.len());
    assert("تعداد"@ != "for"@);
    assert("تعداد"@.len() != "لكل"@.len());
    assert("تعداد"@ != "لكل"@);
    assert("تعداد"@.len() != "pour"@.len());
    assert("تعداد"@ != "pour"@);
    assert("تعداد"@.len() != "in"@.len());
    assert("تعداد"@ != "in"@);
    assert("تعداد"@.len() != "في"@.len());
    assert("تعداد"@ != "في"@);
    assert("تعداد"@.len() != "dans"@.len());
    assert("تعداد"@ != "dans"@);
    assert("تعداد"@.len() != "return"@.len());
    assert("تعداد"@ != "return"@);
    assert("تعداد"@.len() != "أرجع"@.len());
    assert("تعداد"@ != "أرجع"@);
    assert("تعداد"@.len() != "retourne"@.len());
    assert("تعداد"@ != "retourne"@);
    assert("تعداد"@.len() != "true"@.len());
    assert("تعداد"@ != "true"@);
    assert("تعداد"@.len() != "صحيح"@.len());
    assert("تعداد"@ != "صحيح"@);
    assert("تعداد"@.len() != "vrai"@.len());
    assert("تعداد"@ != "vrai"@);
    assert("تعداد"@[0] != "false"@[0]);
    assert("تعداد"@ != "false"@);
    assert("تعداد"@.len() != "خطأ"@.len());
    assert("تعداد"@ != "خطأ"@);
    assert("تعداد"@.len() != "faux"@.len());
    assert("تعداد"@ != "faux"@);
    assert("تعداد"@.len() != "struct"@.len());
    assert("تعداد"@ != "struct"@);
    assert("تعداد"@.len() != "هيكل"@.len());
    assert("تعداد"@ != "هيكل"@);
    assert("تعداد"@.len() != "structure"@.len());
    assert("تعداد"@ != "structure"@);
    assert("énum"@.len() != "let"@.len());
    assert("énum"@ != "let"@);
    assert("énum"@.len() != "دع"@.len());
    assert("énum"@ != "دع"@);
    assert("énum"@[0] != "soit"@[0]);
    assert("énum"@ != "soit"@);
    assert("énum"@.len() != "var"@.len());
    assert("énum"@ != "var"@);
    assert("énum"@.len() != "متغير"@.len());
    assert("énum"@ != "متغير"@);
    assert("énum"@.len() != "variable"@.len());
    assert("énum"@ != "variable"@);
    assert("énum"@.len() != "fn"@.len());
    assert("énum"@ != "fn"@);
    assert("énum"@[0] != "دالة"@[0]);
    assert("énum"@ != "دالة"@);
    assert("énum"@.len() != "fonction"@.len());
    assert("énum"@ != "fonction"@);
    assert("énum"@.len() != "if"@.len());
    assert("énum"@ != "if"@);
    assert("énum"@.len() != "اذا"@.len());
    assert("énum"@ != "اذا"@);
    assert("énum"@.len() != "si"@.len());
    assert("énum"@ != "si"@);
    assert("énum"@[0] != "else"@[0]);
    assert("énum"@ != "else"@);
    assert("énum"@[0] != "وإلا"@[0]);
    assert("énum"@ != "وإلا"@);
    assert("énum"@.len() != "sinon"@.len());
    assert("énum"@ != "sinon"@);
    assert("énum"@.len() != "while"@.len());
    assert("énum"@ != "while"@);
    assert("énum"@.len() != "طالما"@.len());
    assert("énum"@ != "طالما"@);
    assert("énum"@.len() != "tantque"@.len());
    assert("énum"@ != "tantque"@);
    assert("énum"@.len() != "for"@.len());
    assert("énum"@ != "for"@);
    assert("énum"@.len() != "لكل"@.len());
    assert("énum"@ != "لكل"@);
    assert("énum"@[0] != "pour"@[0]);
    assert("énum"@ != "pour"@);
    assert("énum"@.len() != "in"@.len());
    assert("énum"@ != "in"@);
    assert("énum"@.len() != "في"@.len());
    assert("énum"@ != "في"@);
    assert("énum"@[0] != "dans"@[0]);
    assert("énum"@ != "dans"@);
    assert("énum"@.len() != "return"@.len());
    assert("énum"@ != "return"@);
    assert("énum"@[0] != "أرجع"@[0]);
    assert("énum"@ != "أرجع"@);
    assert("énum"@.len() != "retourne"@.len());
    assert("énum"@ != "retourne"@);
    assert("énum"@[0] != "true"@[0]);
    assert("énum"@ != "true"@);
    assert("énum"@[0] != "صحيح"@[0]);
    assert("énum"@ != "صحيح"@);
    assert("énum"@[0] != "vrai"@[0]);
    assert("énum"@ != "vrai"@);
    assert("énum"@.len() != "false"@.len());
    assert("énum"@ != "false"@);
    assert("énum"@.len() != "خطأ"@.len());
    assert("énum"@ != "خطأ"@);
    assert("énum"@[0] != "faux"@[0]);
    assert("énum"@ != "faux"@);
    assert("énum"@.len() != "struct"@.len());
    assert("énum"@ != "struct"@);
    assert("énum"@[0] != "هيكل"@[0]);
    assert("énum"@ != "هيكل"@);
    assert("énum"@.len() != "structure"@.len());
    assert("énum"@ != "structure"@);
}

proof fn lemma_keyword_match()
    ensures
        word_token("match"@) == SpecTokenKind::Match,
        word_token("طابق"@) == SpecTokenKind::Match,
        word_token("selon"@) == SpecTokenKind::Match,
{
    reveal_strlit("dans");
    reveal_strlit("else");
    reveal_strlit("enum");
    reveal_strlit("false");
    reveal_strlit("faux");
    reveal_strlit("fn");
    reveal_strlit("fonction");
    reveal_strlit("for");
    reveal_strlit("if");
    reveal_strlit("in");
    reveal_strlit("let");
    reveal_strlit("match");
    reveal_strlit("pour");
    reveal_strlit("retourne");
    reveal_strlit("return");
    reveal_strlit("selon");
    reveal_strlit("si");
    reveal_strlit("sinon");
    reveal_strlit("soit");
    reveal_strlit("struct");
    reveal_strlit("structure");
    reveal_strlit("tantque");
    reveal_strlit("true");
    reveal_strlit("var");
    reveal_strlit("variable");
    reveal_strlit("vrai");
    reveal_strlit("while");
    reveal_strlit("énum");
    reveal_strlit("أرجع");
    reveal_strlit("اذا");
    reveal_strlit("تعداد");
    reveal_strlit("خطأ");
    reveal_strlit("دالة");
    reveal_strlit("دع");
    reveal_strlit("صحيح");
    reveal_strlit("طابق");
    reveal_strlit("طالما");
    reveal_strlit("في");
    reveal_strlit("لكل");
    reveal_strlit("متغير");
    reveal_strlit("هيكل");
    reveal_strlit("وإلا");
    assert("match"@.len() != "let"@.len());
    assert("match"@ != "let"@);
    assert("match"@.len() != "دع"@.len());
    assert("match"@ != "دع"@);
    assert("match"@.len() != "soit"@.len());
    assert("match"@ != "soit"@);
    assert("match"@.len() != "var"@.len());
    assert("match"@ != "var"@);
    assert("match"@[0] != "متغير"@[0]);
    assert("match"@ != "متغير"@);
    assert("match"@.len() != "variable"@.len());
    assert("match"@ != "variable"@);
    assert("match"@.len() != "fn"@.len());
    assert("match"@ != "fn"@);
    assert("match"@.len() != "دالة"@.len());
    assert("match"@ != "دالة"@);
    assert("match"@.len() != "fonction"@.len());
    assert("match"@ != "fonction"@);
    assert("match"@.len() != "if"@.len());
    assert("match"@ != "if"@);
    assert("match"@.len() != "اذا"@.len());
    assert("match"@ != "اذا"@);
    assert("match"@.len() != "si"@.len());
    assert("match"@ != "si"@);
    assert("match"@.len() != "else"@.len());
    assert("match"@ != "else"@);
    assert("match"@.len() != "وإلا"@.len());
    assert("match"@ != "وإلا"@);
    assert("match"@[0] != "sinon"@[0]);
    assert("match"@ != "sinon"@);
    assert("match"@[0] != "while"@[0]);
    assert("match"@ != "while"@);
    assert("match"@[0] != "طالما"@[0]);
    assert("match"@ != "طالما"@);
    assert("match"@.len() != "tantque"@.len());
    assert("match"@ != "tantque"@);
    assert("match"@.len() != "for"@.len());
    assert("match"@ != "for"@);
    assert("match"@.len() != "لكل"@.len());
    assert("match"@ != "لكل"@);
    assert("match"@.len() != "pour"@.len());
    assert("match"@ != "pour"@);
    assert("match"@.len() != "in"@.len());
    assert("match"@ != "in"@);
    assert("match"@.len() != "في"@.len());
    assert("match"@ != "في"@);
    assert("match"@.len() != "dans"@.len());
    assert("match"@ != "dans"@);
    assert("match"@.len() != "return"@.len());
    assert("match"@ != "return"@);
    assert("match"@.len() != "أرجع"@.len());
    assert("match"@ != "أرجع"@);
    assert("match"@.len() != "retourne"@.len());
    assert("match"@ != "retourne"@);
    assert("match"@.len() != "true"@.len());
    assert("match"@ != "true"@);
    assert("match"@.len() != "صحيح"@.len());
    assert("match"@ != "صحيح"@);
    assert("match"@.len() != "vrai"@.len());
    assert("match"@ != "vrai"@);
    assert("match"@[0] != "false"@[0]);
    assert("match"@ != "false"@);
    assert("match"@.len() != "خطأ"@.len());
    assert("match"@ != "خطأ"@);
    assert("match"@.len() != "faux"@.len());
    assert("match"@ != "faux"@);
    assert("match"@.len() != "struct"@.len());
    assert("match"@ != "struct"@);
    assert("match"@.len() != "هيكل"@.len());
    assert("match"@ != "هيكل"@);
    assert("match"@.len() != "structure"@.len());
    assert("match"@ != "structure"@);
    assert("match"@.len() != "enum"@.len());
    assert("match"@ != "enum"@);
    assert("match"@[0] != "تعداد"@[0]);
    assert("match"@ != "تعداد"@);
    assert("match"@.len() != "énum"@.len());
    assert("match"@ != "énum"@);
    assert("طابق"@.len() != "let"@.len());
    assert("طابق"@ != "let"@);
    assert("طابق"@.len() != "دع"@.len());
    assert("طابق"@ != "دع"@);
    assert("طابق"@[0] != "soit"@[0]);
    assert("طابق"@ != "soit"@);
    assert("طابق"@.len() != "var"@.len());
    assert("طابق"@ != "var"@);
    assert("طابق"@.len() != "متغير"@.len());
    assert("طابق"@ != "متغير"@);
    assert("طابق"@.len() != "variable"@.len());
    assert("طابق"@ != "variable"@);
    assert("طابق"@.len() != "fn"@.len());
    assert("طابق"@ != "fn"@);
    assert("طابق"@[0] != "دالة"@[0]);
    assert("طابق"@ != "دالة"@);
    assert("طابق"@.len() != "fonction"@.len());
    assert("طابق"@ != "fonction"@);
    assert("طابق"@.len() != "if"@.len());
    assert("طابق"@ != "if"@);
    assert("طابق"@.len() != "اذا"@.len());
    assert("طابق"@ != "اذا"@);
    assert("طابق"@.len() != "si"@.len());
    assert("طابق"@ != "si"@);
    assert("طابق"@[0] != "else"@[0]);
    assert("طابق"@ != "else"@);
    assert("طابق"@[0] != "وإلا"@[0]);
    assert("طابق"@ != "وإلا"@);
    assert("طابق"@.len() != "sinon"@.len());
    assert("طابق"@ != "sinon"@);
    assert("طابق"@.len() != "while"@.len());
    assert("طابق"@ != "while"@);
    assert("طابق"@.len() != "طالما"@.len());
    assert("طابق"@ != "طالما"@);
    assert("طابق"@.len() != "tantque"@.len());
    assert("طابق"@ != "tantque"@);
    assert("طابق"@.len() != "for"@.len());
    assert("طابق"@ != "for"@);
    assert("طابق"@.len() != "لكل"@.len());
    assert("طابق"@ != "لكل"@);
    assert("طابق"@[0] != "pour"@[0]);
    assert("طابق"@ != "pour"@);
    assert("طابق"@.len() != "in"@.len());
    assert("طابق"@ != "in"@);
    assert("طابق"@.len() != "في"@.len());
    assert("طابق"@ != "في"@);
    assert("طابق"@[0] != "dans"@[0]);
    assert("طابق"@ != "dans"@);
    assert("طابق"@.len() != "return"@.len());
    assert("طابق"@ != "return"@);
    assert("طابق"@[0] != "أرجع"@[0]);
    assert("طابق"@ != "أرجع"@);
    assert("طابق"@.len() != "retourne"@.len());
    assert("طابق"@ != "retourne"@);
    assert("طابق"@[0] != "true"@[0]);
    assert("طابق"@ != "true"@);
    assert("طابق"@[0] != "صحيح"@[0]);
    assert("طابق"@ != "صحيح"@);
    assert("طابق"@[0] != "vrai"@[0]);
    assert("طابق"@ != "vrai"@);
    assert("طابق"@.len() != "false"@.len());
    assert("طابق"@ != "false"@);
    assert("طابق"@.len() != "خطأ"@.len());
    assert("طابق"@ != "خطأ"@);
    assert("طابق"@[0] != "faux"@[0]);
    assert("طابق"@ != "faux"@);
    assert("طابق"@.len() != "struct"@.len());
    assert("طابق"@ != "struct"@);
    assert("طابق"@[0] != "هيكل"@[0]);
    assert("طابق"@ != "هيكل"@);
    assert("طابق"@.len() != "structure"@.len());
    assert("طابق"@ != "structure"@);
    assert("طابق"@[0] != "enum"@[0]);
    assert("طابق"@ != "enum"@);
    assert("طابق"@.len() != "تعداد"@.len());
    assert("طابق"@ != "تعداد"@);
    assert("طابق"@[0] != "énum"@[0]);
    assert("طابق"@ != "énum"@);
    assert("selon"@.len() != "let"@.len());
    assert("selon"@ != "let"@);
    assert("selon"@.len() != "دع"@.len());
    assert("selon"@ != "دع"@);
    assert("selon"@.len() != "soit"@.len());
    assert("selon"@ != "soit"@);
    assert("selon"@.len() != "var"@.len());
    assert("selon"@ != "var"@);
    assert("selon"@[0] != "متغير"@[0]);
    assert("selon"@ != "متغير"@);
    assert("selon"@.len() != "variable"@.len());
    assert("selon"@ != "variable"@);
    assert("selon"@.len() != "fn"@.len());
    assert("selon"@ != "fn"@);
    assert("selon"@.len() != "دالة"@.len());
    assert("selon"@ != "دالة"@);
    assert("selon"@.len() != "fonction"@.len());
    assert("selon"@ != "fonction"@);
    assert("selon"@.len() != "if"@.len());
    assert("selon"@ != "if"@);
    assert("selon"@.len() != "اذا"@.len());
    assert("selon"@ != "اذا"@);
    assert("selon"@.len() != "si"@.len());
    assert("selon"@ != "si"@);
    assert("selon"@.len() != "else"@.len());
    assert("selon"@ != "else"@);
    assert("selon"@.len() != "وإلا"@.len());
    assert("selon"@ != "وإلا"@);
    assert("selon"@[1] != "sinon"@[1]);
    assert("selon"@ != "sinon"@);
    assert("selon"@[0] != "while"@[0]);
    assert("selon"@ != "while"@);
    assert("selon"@[0] != "طالما"@[0]);
    assert("selon"@ != "طالما"@);
    assert("selon"@.len() != "tantque"@.len());
    assert("selon"@ != "tantque"@);
    assert("selon"@.len() != "for"@.len());
    assert("selon"@ != "for"@);
    assert("selon"@.len() != "لكل"@.len());
    assert("selon"@ != "لكل"@);
    assert("selon"@.len() != "pour"@.len());
    assert("selon"@ != "pour"@);
    assert("selon"@.len() != "in"@.len());
    assert("selon"@ != "in"@);
    assert("selon"@.len() != "في"@.len());
    assert("selon"@ != "في"@);
    assert("selon"@.len() != "dans"@.len());
    assert("selon"@ != "dans"@);
    assert("selon"@.len() != "return"@.len());
    assert("selon"@ != "return"@);
    assert("selon"@.len() != "أرجع"@.len());
    assert("selon"@ != "أرجع"@);
    assert("selon"@.len() != "retourne"@.len());
    assert("selon"@ != "retourne"@);
    assert("selon"@.len() != "true"@.len());
    assert("selon"@ != "true"@);
    assert("selon"@.len() != "صحيح"@.len());
    assert("selon"@ != "صحيح"@);
    assert("selon"@.len() != "vrai"@.len());
    assert("selon"@ != "vrai"@);
    assert("selon"@[0] != "false"@[0]);
    assert("selon"@ != "false"@);
    assert("selon"@.len() != "خطأ"@.len());
    assert("selon"@ != "خطأ"@);
    assert("selon"@.len() != "faux"@.len());
    assert("selon"@ != "faux"@);
    assert("selon"@.len() != "struct"@.len());
    assert("selon"@ != "struct"@);
    assert("selon"@.len() != "هيكل"@.len());
    assert("selon"@ != "هيكل"@);
    assert("selon"@.len() != "structure"@.len());
    assert("selon"@ != "structure"@);
    assert("selon"@.len() != "enum"@.len());
    assert("selon"@ != "enum"@);
    assert("selon"@[0] != "تعداد"@[0]);
    assert("selon"@ != "تعداد"@);
    assert("selon"@.len() != "énum"@.len());
    assert("selon"@ != "énum"@);
}

proof fn lemma_keyword_impl()
    ensures
        word_token("impl"@) == SpecTokenKind::Impl,
        word_token("تطبيق"@) == SpecTokenKind::Impl,
        word_token("implémente"@) == SpecTokenKind::Impl,
        word_token("implemente"@) == SpecTokenKind::Impl,
{
    reveal_strlit("dans");
    reveal_strlit("else");
    reveal_strlit("enum");
    reveal_strlit("false");
    reveal_strlit("faux");
    reveal_strlit("fn");
    reveal_strlit("fonction");
    reveal_strlit("for");
    reveal_strlit("if");
    reveal_strlit("impl");
    reveal_strlit("implemente");
    reveal_strlit("implémente");
    reveal_strlit("in");
    reveal_strlit("let");
    reveal_strlit("match");
    reveal_strlit("pour");
    reveal_strlit("retourne");
    reveal_strlit("return");
    reveal_strlit("selon");
    reveal_strlit("si");
    reveal_strlit("sinon");
    reveal_strlit("soit");
    reveal_strlit("struct");
    reveal_strlit("structure");
    reveal_strlit("tantque");
    reveal_strlit("true");
    reveal_strlit("var");
    reveal_strlit("variable");
    reveal_strlit("vrai");
    reveal_strlit("while");
    reveal_strlit("énum");
    reveal_strlit("أرجع");
    reveal_strlit("اذا");
    reveal_strlit("تطبيق");
    reveal_strlit("تعداد");
    reveal_strlit("خطأ");
    reveal_strlit("دالة");
    reveal_strlit("دع");
    reveal_strlit("صحيح");
    reveal_strlit("طابق");
    reveal_strlit("طالما");
    reveal_strlit("في");
    reveal_strlit("لكل");
    reveal_strlit("متغير");
    reveal_strlit("هيكل");
    reveal_strlit("وإلا");
    assert("impl"@.len() != "let"@.len());
    assert("impl"@ != "let"@);
    assert("impl"@.len() != "دع"@.len());
    assert("impl"@ != "دع"@);
    assert("impl"@[0] != "soit"@[0]);
    assert("impl"@ != "soit"@);
    assert("impl"@.len() != "var"@.len());
    assert("impl"@ != "var"@);
    assert("impl"@.len() != "متغير"@.len());
    assert("impl"@ != "متغير"@);
    assert("impl"@.len() != "variable"@.len());
    assert("impl"@ != "variable"@);
    assert("impl"@.len() != "fn"@.len());
    assert("impl"@ != "fn"@);
    assert("impl"@[0] != "دالة"@[0]);
    assert("impl"@ != "دالة"@);
    assert("impl"@.len() != "fonction"@.len());
    assert("impl"@ != "fonction"@);
    assert("impl"@.len() != "if"@.len());
    assert("impl"@ != "if"@);
    assert("impl"@.len() != "اذا"@.len());
    assert("impl"@ != "اذا"@);
    assert("impl"@.len() != "si"@.len());
    assert("impl"@ != "si"@);
    assert("impl"@[0] != "else"@[0]);
    assert("impl"@ != "else"@);
    assert("impl"@[0] != "وإلا"@[0]);
    assert("impl"@ != "وإلا"@);
    assert("impl"@.len() != "sinon"@.len());
    assert("impl"@ != "sinon"@);
    assert("impl"@.len() != "while"@.len());
    assert("impl"@ != "while"@);
    assert("impl"@.len() != "طالما"@.len());
    assert("impl"@ != "طالما"@);
    assert("impl"@.len() != "tantque"@.len());
    assert("impl"@ != "tantque"@);
    assert("impl"@.len() != "for"@.len());
    assert("impl"@ != "for"@);
    assert("impl"@.len() != "لكل"@.len());
    assert("impl"@ != "لكل"@);
    assert("impl"@[0] != "pour"@[0]);
    assert("impl"@ != "pour"@);
    assert("impl"@.len() != "in"@.len());
    assert("impl"@ != "in"@);
    assert("impl"@.len() != "في"@.len());
    assert("impl"@ != "في"@);
    assert("impl"@[0] != "dans"@[0]);
    assert("impl"@ != "dans"@);
    assert("impl"@.len() != "return"@.len());
    assert("impl"@ != "return"@);
    assert("impl"@[0] != "أرجع"@[0]);
    assert("impl"@ != "أرجع"@);
    assert("impl"@.len() != "retourne"@.len());
    assert("impl"@ != "retourne"@);
    assert("impl"@[0] != "true"@[0]);
    assert("impl"@ != "true"@);
    assert("impl"@[0] != "صحيح"@[0]);
    assert("impl"@ != "صحيح"@);
    assert("impl"@[0] != "vrai"@[0]);
    assert("impl"@ != "vrai"@);
    assert("impl"@.len() != "false"@.len());
    assert("impl"@ != "false"@);
    assert("impl"@.len() != "خطأ"@.len());
    assert("impl"@ != "خطأ"@);
    assert("impl"@[0] != "faux"@[0]);
    assert("impl"@ != "faux"@);
    assert("impl"@.len() != "struct"@.len());
    assert("impl"@ != "struct"@);
    assert("impl"@[0] != "هيكل"@[0]);
    assert("impl"@ != "هيكل"@);
    assert("impl"@.len() != "structure"@.len());
    assert("impl"@ != "structure"@);
    assert("impl"@[0] != "enum"@[0]);
    assert("impl"@ != "enum"@);
    assert("impl"@.len() != "تعداد"@.len());
    assert("impl"@ != "تعداد"@);
    assert("impl"@[0] != "énum"@[0]);
    assert("impl"@ != "énum"@);
    assert("impl"@.len() != "match"@.len());
    assert("impl"@ != "match"@);
    assert("impl"@[0] != "طابق"@[0]);
    assert("impl"@ != "طابق"@);
    assert("impl"@.len() != "selon"@.len());
    assert("impl"@ != "selon"@);
    assert("تطبيق"@.len() != "let"@.len());
    assert("تطبيق"@ != "let"@);
    assert("تطبيق"@.len() != "دع"@.len());
    assert("تطبيق"@ != "دع"@);
    assert("تطبيق"@.len() != "soit"@.len());
    assert("تطبيق"@ != "soit"@);
    assert("تطبيق"@.len() != "var"@.len());
    assert("تطبيق"@ != "var"@);
    assert("تطبيق"@[0] != "متغير"@[0]);
    assert("تطبيق"@ != "متغير"@);
    assert("تطبيق"@.len() != "variable"@.len());
    assert("تطبيق"@ != "variable"@);
    assert("تطبيق"@.len() != "fn"@.len());
    assert("تطبيق"@ != "fn"@);
    assert("تطبيق"@.len() != "دالة"@.len());
    assert("تطبيق"@ != "دالة"@);
    assert("تطبيق"@.len() != "fonction"@.len());
    assert("تطبيق"@ != "fonction"@);
    assert("تطبيق"@.len() != "if"@.len());
    assert("تطبيق"@ != "if"@);
    assert("تطبيق"@.len() != "اذا"@.len());
    assert("تطبيق"@ != "اذا"@);
    assert("تطبيق"@.len() != "si"@.len());
    assert("تطبيق"@ != "si"@);
    assert("تطبيق"@.len() != "else"@.len());
    assert("تطبيق"@ != "else"@);
    assert("تطبيق"@.len() != "وإلا"@.len());
    assert("تطبيق"@ != "وإلا"@);
    assert("تطبيق"@[0] != "sinon"@[0]);
    assert("تطبيق"@ != "sinon"@);
    assert("تطبيق"@[0] != "while"@[0]);
    assert("تطبيق"@ != "while"@);
    assert("تطبيق"@[0] != "طالما"@[0]);
    assert("تطبيق"@ != "طالما"@);
    assert("تطبيق"@.len() != "tantque"@.len());
    assert("تطبيق"@ != "tantque"@);
    assert("تطبيق"@.len() != "for"@.len());
    assert("تطبيق"@ != "for"@);
    assert("تطبيق"@.len() != "لكل"@.len());
    assert("تطبيق"@ != "لكل"@);
    assert("تطبيق"@.len() != "pour"@.len());
    assert("تطبيق"@ != "pour"@);
    assert("تطبيق"@.len() != "in"@.len());
    assert("تطبيق"@ != "in"@);
    assert("تطبيق"@.len() != "في"@.len());
    assert("تطبيق"@ != "في"@);
    assert("تطبيق"@.len() != "dans"@.len());
    assert("تطبيق"@ != "dans"@);
    assert("تطبيق"@.len() != "return"@.len());
    assert("تطبيق"@ != "return"@);
    assert("تطبيق"@.len() != "أرجع"@.len());
    assert("تطبيق"@ != "أرجع"@);
    assert("تطبيق"@.len() != "retourne"@.len());
    assert("تطبيق"@ != "retourne"@);
    assert("تطبيق"@.len() != "true"@.len());
    assert("تطبيق"@ != "true"@);
    assert("تطبيق"@.len() != "صحيح"@.len());
    assert("تطبيق"@ != "صحيح"@);
    assert("تطبيق"@.len() != "vrai"@.len());
    assert("تطبيق"@ != "vrai"@);
    assert("تطبيق"@[0] != "false"@[0]);
    assert("تطبيق"@ != "false"@);
    assert("تطبيق"@.len() != "خطأ"@.len());
    assert("تطبيق"@ != "خطأ"@);
    assert("تطبيق"@.len() != "faux"@.len());
    assert("تطبيق"@ != "faux"@);
    assert("تطبيق"@.len() != "struct"@.len());
    assert("تطبيق"@ != "struct"@);
    assert("تطبيق"@.len() != "هيكل"@.len());
    assert("تطبيق"@ != "هيكل"@);
    assert("تطبيق"@.len() != "structure"@.len());
    assert("تطبيق"@ != "structure"@);
    assert("تطبيق"@.len() != "enum"@.len());
    assert("تطبيق"@ != "enum"@);
    assert("تطبيق"@[1] != "تعداد"@[1]);
    assert("تطبيق"@ != "تعداد"@);
    assert("تطبيق"@.len() != "énum"@.len());
    assert("تطبيق"@ != "énum"@);
    assert("تطبيق"@[0] != "match"@[0]);
    assert("تطبيق"@ != "match"@);
    assert("تطبيق"@.len() != "طابق"@.len());
    assert("تطبيق"@ != "طابق"@);
    assert("تطبيق"@[0] != "selon"@[0]);
    assert("تطبيق"@ != "selon"@);
    assert("implémente"@.len() != "let"@.len());
    assert("implémente"@ != "let"@);
    assert("implémente"@.len() != "دع"@.len());
    assert("implémente"@ != "دع"@);
    assert("implémente"@.len() != "soit"@.len());
    assert("implémente"@ != "soit"@);
    assert("implémente"@.len() != "var"@.len());
    assert("implémente"@ != "var"@);
    assert("implémente"@.len() != "متغير"@.len());
    assert("implémente"@ != "متغير"@);
    assert("implémente"@.len() != "variable"@.len());
    assert("implémente"@ != "variable"@);
    assert("implémente"@.len() != "fn"@.len());
    assert("implémente"@ != "fn"@);
    assert("implémente"@.len() != "دالة"@.len());
    assert("implémente"@ != "دالة"@);
    assert("implémente"@.len() != "fonction"@.len());
    assert("implémente"@ != "fonction"@);
    assert("implémente"@.len() != "if"@.len());
    assert("implémente"@ != "if"@);
    assert("implémente"@.len() != "اذا"@.len());
    assert("implémente"@ != "اذا"@);
    assert("implémente"@.len() != "si"@.len());
    assert("implémente"@ != "si"@);
    assert("implémente"@.len() != "else"@.len());
    assert("implémente"@ != "else"@);
    assert("implémente"@.len() != "وإلا"@.len());
    assert("implémente"@ != "وإلا"@);
    assert("implémente"@.len() != "sinon"@.len());
    assert("implémente"@ != "sinon"@);
    assert("implémente"@.len() != "while"@.len());
    assert("implémente"@ != "while"@);
    assert("implémente"@.len() != "طالما"@.len());
    assert("implémente"@ != "طالما"@);
    assert("implémente"@.len() != "tantque"@.len());
    assert("implémente"@ != "tantque"@);
    assert("implémente"@.len() != "for"@.len());
    assert("implémente"@ != "for"@);
    assert("implémente"@.len() != "لكل"@.len());
    assert("implémente"@ != "لكل"@);
    assert("implémente"@.len() != "pour"@.len());
    assert("implémente"@ != "pour"@);
    assert("implémente"@.len() != "in"@.len());
    assert("implémente"@ != "in"@);
    assert("implémente"@.len() != "في"@.len());
    assert("implémente"@ != "في"@);
    assert("implémente"@.len() != "dans"@.len());
    assert("implémente"@ != "dans"@);
    assert("implémente"@.len() != "return"@.len());
    assert("implémente"@ != "return"@);
    assert("implémente"@.len() != "أرجع"@.len());
    assert("implémente"@ != "أرجع"@);
    assert("implémente"@.len() != "retourne"@.len());
    assert("implémente"@ != "retourne"@);
    assert("implémente"@.len() != "true"@.len());
    assert("implémente"@ != "true"@);
    assert("implémente"@.len() != "صحيح"@.len());
    assert("implémente"@ != "صحيح"@);
    assert("implémente"@.len() != "vrai"@.len());
    assert("implémente"@ != "vrai"@);
    assert("implémente"@.len() != "false"@.len());
    assert("implémente"@ != "false"@);
    assert("implémente"@.len() != "خطأ"@.len());
    assert("implémente"@ != "خطأ"@);
    assert("implémente"@.len() != "faux"@.len());
    assert("implémente"@ != "faux"@);
    assert("implémente"@.len() != "struct"@.len());
    assert("implémente"@ != "struct"@);
    assert("implémente"@.len() != "هيكل"@.len());
    assert("implémente"@ != "هيكل"@);
    assert("implémente"@.len() != "structure"@.len());
    assert("implémente"@ != "structure"@);
    assert("implémente"@.len() != "enum"@.len());
    assert("implémente"@ != "enum"@);
    assert("implémente"@.len() != "تعداد"@.len());
    assert("implémente"@ != "تعداد"@);
    assert("implémente"@.len() != "énum"@.len());
    assert("implémente"@ != "énum"@);
    assert("implémente"@.len() != "match"@.len());
    assert("implémente"@ != "match"@);
    assert("implémente"@.len() != "طابق"@.len());
    assert("implémente"@ != "طابق"@);
    assert("implémente"@.len() != "selon"@.len());
    assert("implémente"@ != "selon"@);
    assert("implemente"@.len() != "let"@.len());
    assert("implemente"@ != "let"@);
    assert("implemente"@.len() != "دع"@.len());
    assert("implemente"@ != "دع"@);
    assert("implemente"@.len() != "soit"@.len());
    assert("implemente"@ != "soit"@);
    assert("implemente"@.len() != "var"@.len());
    assert("implemente"@ != "var"@);
    assert("implemente"@.len() != "متغير"@.len());
    assert("implemente"@ != "متغير"@);
    assert("implemente"@.len() != "variable"@.len());
    assert("implemente"@ != "variable"@);
    assert("implemente"@.len() != "fn"@.len());
    assert("implemente"@ != "fn"@);
    assert("implemente"@.len() != "دالة"@.len());
    assert("implemente"@ != "دالة"@);
    assert("implemente"@.len() != "fonction"@.len());
    assert("implemente"@ != "fonction"@);
    assert("implemente"@.len() != "if"@.len());
    assert("implemente"@ != "if"@);
    assert("implemente"@.len() != "اذا"@.len());
    assert("implemente"@ != "اذا"@);
    assert("implemente"@.len() != "si"@.len());
    assert("implemente"@ != "si"@);
    assert("implemente"@.len() != "else"@.len());
    assert("implemente"@ != "else"@);
    assert("implemente"@.len() != "وإلا"@.len());
    assert("implemente"@ != "وإلا"@);
    assert("implemente"@.len() != "sinon"@.len());
    assert("implemente"@ != "sinon"@);
    assert("implemente"@.len() != "while"@.len());
    assert("implemente"@ != "while"@);
    assert("implemente"@.len() != "طالما"@.len());
    assert("implemente"@ != "طالما"@);
    assert("implemente"@.len() != "tantque"@.len());
    assert("implemente"@ != "tantque"@);
    assert("implemente"@.len() != "for"@.len());
    assert("implemente"@ != "for"@);
    assert("implemente"@.len() != "لكل"@.len());
    assert("implemente"@ != "لكل"@);
    assert("implemente"@.len() != "pour"@.len());
    assert("implemente"@ != "pour"@);
    assert("implemente"@.len() != "in"@.len());
    assert("implemente"@ != "in"@);
    assert("implemente"@.len() != "في"@.len());
    assert("implemente"@ != "في"@);
    assert("implemente"@.len() != "dans"@.len());
    assert("implemente"@ != "dans"@);
    assert("implemente"@.len() != "return"@.len());
    assert("implemente"@ != "return"@);
    assert("implemente"@.len() != "أرجع"@.len());
    assert("implemente"@ != "أرجع"@);
    assert("implemente"@.len() != "retourne"@.len());
    assert("implemente"@ != "retourne"@);
    assert("implemente"@.len() != "true"@.len());
    assert("implemente"@ != "true"@);
    assert("implemente"@.len() != "صحيح"@.len());
    assert("implemente"@ != "صحيح"@);
    assert("implemente"@.len() != "vrai"@.len());
    assert("implemente"@ != "vrai"@);
    assert("implemente"@.len() != "false"@.len());
    assert("implemente"@ != "false"@);
    assert("implemente"@.len() != "خطأ"@.len());
    assert("implemente"@ != "خطأ"@);
    assert("implemente"@.len() != "faux"@.len());
    assert("implemente"@ != "faux"@);
    assert("implemente"@.len() != "struct"@.len());
    assert("implemente"@ != "struct"@);
    assert("implemente"@.len() != "هيكل"@.len());
    assert("implemente"@ != "هيكل"@);
    assert("implemente"@.len() != "structure"@.len());
    assert("implemente"@ != "structure"@);
    assert("implemente"@.len() != "enum"@.len());
    assert("implemente"@ != "enum"@);
    assert("implemente"@.len() != "تعداد"@.len());
    assert("implemente"@ != "تعداد"@);
    assert("implemente"@.len() != "énum"@.len());
    assert("implemente"@ != "énum"@);
    assert("implemente"@.len() != "match"@.len());
    assert("implemente"@ != "match"@);
    assert("implemente"@.len() != "طابق"@.len());
    assert("implemente"@ != "طابق"@);
    assert("implemente"@.len() != "selon"@.len());
    assert("implemente"@ != "selon"@);
}

proof fn lemma_keyword_as()
    ensures
        word_token("as"@) == SpecTokenKind::As,
        word_token("كـ"@) == SpecTokenKind::As,
        word_token("comme"@) == SpecTokenKind::As,
{
    reveal_strlit("as");
    reveal_strlit("comme");
    reveal_strlit("dans");
    reveal_strlit("else");
    reveal_strlit("enum");
    reveal_strlit("false");
    reveal_strlit("faux");
    reveal_strlit("fn");
    reveal_strlit("fonction");
    reveal_strlit("for");
    reveal_strlit("if");
    reveal_strlit("impl");
    reveal_strlit("implemente");
    reveal_strlit("implémente");
    reveal_strlit("in");
    reveal_strlit("let");
    reveal_strlit("match");
    reveal_strlit("pour");
    reveal_strlit("retourne");
    reveal_strlit("return");
    reveal_strlit("selon");
    reveal_strlit("si");
    reveal_strlit("sinon");
    reveal_strlit("soit");
    reveal_strlit("struct");
    reveal_strlit("structure");
    reveal_strlit("tantque");
    reveal_strlit("true");
    reveal_strlit("var");
    reveal_strlit("variable");
    reveal_strlit("vrai");
    reveal_strlit("while");
    reveal_strlit("énum");
    reveal_strlit("أرجع");
    reveal_strlit("اذا");
    reveal_strlit("تطبيق");
    reveal_strlit("تعداد");
    reveal_strlit("خطأ");
    reveal_strlit("دالة");
    reveal_strlit("دع");
    reveal_strlit("صحيح");
    reveal_strlit("طابق");
    reveal_strlit("طالما");
    reveal_strlit("في");
    reveal_strlit("كـ");
    reveal_strlit("لكل");
    reveal_strlit("متغير");
    reveal_strlit("هيكل");
    reveal_strlit("وإلا");
    assert("as"@.len() != "let"@.len());
    assert("as"@ != "let"@);
    assert("as"@[0] != "دع"@[0]);
    assert("as"@ != "دع"@);
    assert("as"@.len() != "soit"@.len());
    assert("as"@ != "soit"@);
    assert("as"@.len() != "var"@.len());
    assert("as"@ != "var"@);
    assert("as"@.len() != "متغير"@.len());
    assert("as"@ != "متغير"@);
    assert("as"@.len() != "variable"@.len());
    assert("as"@ != "variable"@);
    assert("as"@[0] != "fn"@[0]);
    assert("as"@ != "fn"@);
    assert("as"@.len() != "دالة"@.len());
    assert("as"@ != "دالة"@);
    assert("as"@.len() != "fonction"@.len());
    assert("as"@ != "fonction"@);
    assert("as"@[0] != "if"@[0]);
    assert("as"@ != "if"@);
    assert("as"@.len() != "اذا"@.len());
    assert("as"@ != "اذا"@);
    assert("as"@[0] != "si"@[0]);
    assert("as"@ != "si"@);
    assert("as"@.len() != "else"@.len());
    assert("as"@ != "else"@);
    assert("as"@.len() != "وإلا"@.len());
    assert("as"@ != "وإلا"@);
    assert("as"@.len() != "sinon"@.len());
    assert("as"@ != "sinon"@);
    assert("as"@.len() != "while"@.len());
    assert("as"@ != "while"@);
    assert("as"@.len() != "طالما"@.len());
    assert("as"@ != "طالما"@);
    assert("as"@.len() != "tantque"@.len());
    assert("as"@ != "tantque"@);
    assert("as"@.len() != "for"@.len());
    assert("as"@ != "for"@);
    assert("as"@.len() != "لكل"@.len());
    assert("as"@ != "لكل"@);
    assert("as"@.len() != "pour"@.len());
    assert("as"@ != "pour"@);
    assert("as"@[0] != "in"@[0]);
    assert("as"@ != "in"@);
    assert("as"@[0] != "في"@[0]);
    assert("as"@ != "في"@);
    assert("as"@.len() != "dans"@.len());
    assert("as"@ != "dans"@);
    assert("as"@.len() != "return"@.len());
    assert("as"@ != "return"@);
    assert("as"@.len() != "أرجع"@.len());
    assert("as"@ != "أرجع"@);
    assert("as"@.len() != "retourne"@.len());
    assert("as"@ != "retourne"@);
    assert("as"@.len() != "true"@.len());
    assert("as"@ != "true"@);
    assert("as"@.len() != "صحيح"@.len());
    assert("as"@ != "صحيح"@);
    assert("as"@.len() != "vrai"@.len());
    assert("as"@ != "vrai"@);
    assert("as"@.len() != "false"@.len());
    assert("as"@ != "false"@);
    assert("as"@.len() != "خطأ"@.len());
    assert("as"@ != "خطأ"@);
    assert("as"@.len() != "faux"@.len());
    assert("as"@ != "faux"@);
    assert("as"@.len() != "struct"@.len());
    assert("as"@ != "struct"@);
    assert("as"@.len() != "هيكل"@.len());
    assert("as"@ != "هيكل"@);
    assert("as"@.len() != "structure"@.len());
    assert("as"@ != "structure"@);
    assert("as"@.len() != "enum"@.len());
    assert("as"@ != "enum"@);
    assert("as"@.len() != "تعداد"@.len());
    assert("as"@ != "تعداد"@);
    assert("as"@.len() != "énum"@.len());
    assert("as"@ != "énum"@);
    assert("as"@.len() != "match"@.len());
    assert("as"@ != "match"@);
    assert("as"@.len() != "طابق"@.len());
    assert("as"@ != "طابق"@);
    assert("as"@.len() != "selon"@.len());
    assert("as"@ != "selon"@);
    assert("as"@.len() != "impl"@.len());
    assert("as"@ != "impl"@);
    assert("as"@.len() != "تطبيق"@.len());
    assert("as"@ != "تطبيق"@);
    assert("as"@.len() != "implémente"@.len());
    assert("as"@ != "implémente"@);
    assert("as"@.len() != "implemente"@.len());
    assert("as"@ != "implemente"@);
    assert("كـ"@.len() != "let"@.len());
    assert("كـ"@ != "let"@);
    assert("كـ"@[0] != "دع"@[0]);
    assert("كـ"@ != "دع"@);
    assert("كـ"@.len() != "soit"@.len());
    assert("كـ"@ != "soit"@);
    assert("كـ"@.len() != "var"@.len());
    assert("كـ"@ != "var"@);
    assert("كـ"@.len() != "متغير"@.len());
    assert("كـ"@ != "متغير"@);
    assert("كـ"@.len() != "variable"@.len());
    assert("كـ"@ != "variable"@);
    assert("كـ"@[0] != "fn"@[0]);
    assert("كـ"@ != "fn"@);
    assert("كـ"@.len() != "دالة"@.len());
    assert("كـ"@ != "دالة"@);
    assert("كـ"@.len() != "fonction"@.len());
    assert("كـ"@ != "fonction"@);
    assert("كـ"@[0] != "if"@[0]);
    assert("كـ"@ != "if"@);
    assert("كـ"@.len() != "اذا"@.len());
    assert("كـ"@ != "اذا"@);
    assert("كـ"@[0] != "si"@[0]);
    assert("كـ"@ != "si"@);
    assert("كـ"@.len() != "else"@.len());
    assert("كـ"@ != "else"@);
    assert("كـ"@.len() != "وإلا"@.len());
    assert("كـ"@ != "وإلا"@);
    assert("كـ"@.len() != "sinon"@.len());
    assert("كـ"@ != "sinon"@);
    assert("كـ"@.len() != "while"@.len());
    assert("كـ"@ != "while"@);
    assert("كـ"@.len() != "طالما"@.len());
    assert("كـ"@ != "طالما"@);
    assert("كـ"@.len() != "tantque"@.len());
    assert("كـ"@ != "tantque"@);
    assert("كـ"@.len() != "for"@.len());
    assert("كـ"@ != "for"@);
    assert("كـ"@.len() != "لكل"@.len());
    assert("كـ"@ != "لكل"@);
    assert("كـ"@.len() != "pour"@.len());
    assert("كـ"@ != "pour"@);
    assert("كـ"@[0] != "in"@[0]);
    assert("كـ"@ != "in"@);
    assert("كـ"@[0] != "في"@[0]);
    assert("كـ"@ != "في"@);
    assert("كـ"@.len() != "dans"@.len());
    assert("كـ"@ != "dans"@);
    assert("كـ"@.len() != "return"@.len());
    assert("كـ"@ != "return"@);
    assert("كـ"@.len() != "أرجع"@.len());
    assert("كـ"@ != "أرجع"@);
    assert("كـ"@.len() != "retourne"@.len());
    assert("كـ"@ != "retourne"@);
    assert("كـ"@.len() != "true"@.len());
    assert("كـ"@ != "true"@);
    assert("كـ"@.len() != "صحيح"@.len());
    assert("كـ"@ != "صحيح"@);
    assert("كـ"@.len() != "vrai"@.len());
    assert("كـ"@ != "vrai"@);
    assert("كـ"@.len() != "false"@.len());
    assert("كـ"@ != "false"@);
    assert("كـ"@.len() != "خطأ"@.len());
    assert("كـ"@ != "خطأ"@);
    assert("كـ"@.len() != "faux"@.len());
    assert("كـ"@ != "faux"@);
    assert("كـ"@.len() != "struct"@.len());
    assert("كـ"@ != "struct"@);
    assert("كـ"@.len() != "هيكل"@.len());
    assert("كـ"@ != "هيكل"@);
    assert("كـ"@.len() != "structure"@.len());
    assert("كـ"@ != "structure"@);
    assert("كـ"@.len() != "enum"@.len());
    assert("كـ"@ != "enum"@);
    assert("كـ"@.len() != "تعداد"@.len());
    assert("كـ"@ != "تعداد"@);
    assert("كـ"@.len() != "énum"@.len());
    assert("كـ"@ != "énum"@);
    assert("كـ"@.len() != "match"@.len());
    assert("كـ"@ != "match"@);
    assert("كـ"@.len() != "طابق"@.len());
    assert("كـ"@ != "طابق"@);
    assert("كـ"@.len() != "selon"@.len());
    assert("كـ"@ != "selon"@);
    assert("كـ"@.len() != "impl"@.len());
    assert("كـ"@ != "impl"@);
    assert("كـ"@.len() != "تطبيق"@.len());
    assert("كـ"@ != "تطبيق"@);
    assert("كـ"@.len() != "implémente"@.len());
    assert("كـ"@ != "implémente"@);
    assert("كـ"@.len() != "implemente"@.len());
    assert("كـ"@ != "implemente"@);
    assert("comme"@.len() != "let"@.len());
    assert("comme"@ != "let"@);
    assert("comme"@.len() != "دع"@.len());
    assert("comme"@ != "دع"@);
    assert("comme"@.len() != "soit"@.len());
    assert("comme"@ != "soit"@);
    assert("comme"@.len() != "var"@.len());
    assert("comme"@ != "var"@);
    assert("comme"@[0] != "متغير"@[0]);
    assert("comme"@ != "متغير"@);
    assert("comme"@.len() != "variable"@.len());
    assert("comme"@ != "variable"@);
    assert("comme"@.len() != "fn"@.len());
    assert("comme"@ != "fn"@);
    assert("comme"@.len() != "دالة"@.len());
    assert("comme"@ != "دالة"@);
    assert("comme"@.len() != "fonction"@.len());
    assert("comme"@ != "fonction"@);
    assert("comme"@.len() != "if"@.len());
    assert("comme"@ != "if"@);
    assert("comme"@.len() != "اذا"@.len());
    assert("comme"@ != "اذا"@);
    assert("comme"@.len() != "si"@.len());
    assert("comme"@ != "si"@);
    assert("comme"@.len() != "else"@.len());
    assert("comme"@ != "else"@);
    assert("comme"@.len() != "وإلا"@.len());
    assert("comme"@ != "وإلا"@);
    assert("comme"@[0] != "sinon"@[0]);
    assert("comme"@ != "sinon"@);
    assert("comme"@[0] != "while"@[0]);
    assert("comme"@ != "while"@);
    assert("comme"@[0] != "طالما"@[0]);
    assert("comme"@ != "طالما"@);
    assert("comme"@.len() != "tantque"@.len());
    assert("comme"@ != "tantque"@);
    assert("comme"@.len() != "for"@.len());
    assert("comme"@ != "for"@);
    assert("comme"@.len() != "لكل"@.len());
    assert("comme"@ != "لكل"@);
    assert("comme"@.len() != "pour"@.len());
    assert("comme"@ != "pour"@);
    assert("comme"@.len() != "in"@.len());
    assert("comme"@ != "in"@);
    assert("comme"@.len() != "في"@.len());
    assert("comme"@ != "في"@);
    assert("comme"@.len() != "dans"@.len());
    assert("comme"@ != "dans"@);
    assert("comme"@.len() != "return"@.len());
    assert("comme"@ != "return"@);
    assert("comme"@.len() != "أرجع"@.len());
    assert("comme"@ != "أرجع"@);
    assert("comme"@.len() != "retourne"@.len());
    assert("comme"@ != "retourne"@);
    assert("comme"@.len() != "true"@.len());
    assert("comme"@ != "true"@);
    assert("comme"@.len() != "صحيح"@.len());
    assert("comme"@ != "صحيح"@);
    assert("comme"@.len() != "vrai"@.len());
    assert("comme"@ != "vrai"@);
    assert("comme"@[0] != "false"@[0]);
    assert("comme"@ != "false"@);
    assert("comme"@.len() != "خطأ"@.len());
    assert("comme"@ != "خطأ"@);
    assert("comme"@.len() != "faux"@.len());
    assert("comme"@ != "faux"@);
    assert("comme"@.len() != "struct"@.len());
    assert("comme"@ != "struct"@);
    assert("comme"@.len() != "هيكل"@.len());
    assert("comme"@ != "هيكل"@);
    assert("comme"@.len() != "structure"@.len());
    assert("comme"@ != "structure"@);
    assert("comme"@.len() != "enum"@.len());
    assert("comme"@ != "enum"@);
    assert("comme"@[0] != "تعداد"@[0]);
    assert("comme"@ != "تعداد"@);
    assert("comme"@.len() != "énum"@.len());
    assert("comme"@ != "énum"@);
    assert("comme"@[0] != "match"@[0]);
    assert("comme"@ != "match"@);
    assert("comme"@.len() != "طابق"@.len());
    assert("comme"@ != "طابق"@);
    assert("comme"@[0] != "selon"@[0]);
    assert("comme"@ != "selon"@);
    assert("comme"@.len() != "impl"@.len());
    assert("comme"@ != "impl"@);
    assert("comme"@[0] != "تطبيق"@[0]);
    assert("comme"@ != "تطبيق"@);
    assert("comme"@.len() != "implémente"@.len());
    assert("comme"@ != "implémente"@);
    assert("comme"@.len() != "implemente"@.len());
    assert("comme"@ != "implemente"@);
}

/// English, Arabic and French spellings of every keyword lex to the same
/// token; the surface language is erased at the lexer.
pub proof fn law_keywords_trilingual()
    ensures
        word_token("let"@) == SpecTokenKind::Let && word_token("دع"@) == SpecTokenKind::Let
            && word_token("soit"@) == SpecTokenKind::Let,
        word_token("var"@) == SpecTokenKind::Var && word_token("متغير"@) == SpecTokenKind::Var
            && word_token("variable"@) == SpecTokenKind::Var,
        word_token("fn"@) == SpecTokenKind::Fn && word_token("دالة"@) == SpecTokenKind::Fn
            && word_token("fonction"@) == SpecTokenKind::Fn,
        word_token("if"@) == SpecTokenKind::If && word_token("اذا"@) == SpecTokenKind::If
            && word_token("si"@) == SpecTokenKind::If,
        word_token("else"@) == SpecTokenKind::Else && word_token("وإلا"@) == SpecTokenKind::Else
            && word_token("sinon"@) == SpecTokenKind::Else,
        word_token("while"@) == SpecTokenKind::While && word_token("طالما"@) == SpecTokenKind::While
            && word_token("tantque"@) == SpecTokenKind::While,
        word_token("for"@) == SpecTokenKind::For && word_token("لكل"@) == SpecTokenKind::For
            && word_token("pour"@) == SpecTokenKind::For,
        word_token("in"@) == SpecTokenKind::In && word_token("في"@) == SpecTokenKind::In
            && word_token("dans"@) == SpecTokenKind::In,
        word_token("return"@) == SpecTokenKind::Return && word_token("أرجع"@) == SpecTokenKind::Return
            && word_token("retourne"@) == SpecTokenKind::Return,
        word_token("true"@) == SpecTokenKind::True && word_token("صحيح"@) == SpecTokenKind::True
            && word_token("vrai"@) == SpecTokenKind::True,
        word_token("false"@) == SpecTokenKind::False && word_token("خطأ"@) == SpecTokenKind::False
            && word_token("faux"@) == SpecTokenKind::False,
        word_token("struct"@) == SpecTokenKind::Struct && word_token("هيكل"@) == SpecTokenKind::Struct
            && word_token("structure"@) == SpecTokenKind::Struct,
        word_token("enum"@) == SpecTokenKind::Enum && word_token("تعداد"@) == SpecTokenKind::Enum
            && word_token("énum"@) == SpecTokenKind::Enum,
        word_token("match"@) == SpecTokenKind::Match && word_token("طابق"@) == SpecTokenKind::Match
            && word_token("selon"@) == SpecTokenKind::Match,
        word_token("impl"@) == SpecTokenKind::Impl && word_token("تطبيق"@) == SpecTokenKind::Impl
            && word_token("implémente"@) == SpecTokenKind::Impl && word_token("implemente"@)
            == SpecTokenKind::Impl,
        word_token("as"@) == SpecTokenKind::As && word_token("كـ"@) == SpecTokenKind::As
            && word_token("comme"@) == SpecTokenKind::As,
{
    lemma_keyword_let();
    lemma_keyword_var();
    lemma_keyword_fn();
    lemma_keyword_if();
    lemma_keyword_else();
    lemma_keyword_while();
    lemma_keyword_for();
    lemma_keyword_in();
    lemma_keyword_return();
    lemma_keyword_true();
    lemma_keyword_false();
    lemma_keyword_struct();
    lemma_keyword_enum();
    lemma_keyword_match();
    lemma_keyword_impl();
    lemma_keyword_as();
}

proof fn lemma_array_method_len()
    ensures
        spec_array_method("len"@) == Some(ArrayMethod::Len),
        spec_array_method("طول"@) == Some(ArrayMethod::Len),
        spec_array_method("longueur"@) == Some(ArrayMethod::Len),
{
    reveal_strlit("len");
    reveal_strlit("longueur");
    reveal_strlit("طول");
}

proof fn lemma_array_method_push()
    ensures
        spec_array_method("push"@) == Some(ArrayMethod::Push),
        spec_array_method("أضف"@) == Some(ArrayMethod::Push),
        spec_array_method("ajoute"@) == Some(ArrayMethod::Push),
{
    reveal_strlit("ajoute");
    reveal_strlit("len");
    reveal_strlit("longueur");
    reveal_strlit("push");
    reveal_strlit("أضف");
    reveal_strlit("طول");
    assert("push"@.len() != "len"@.len());
    assert("push"@ != "len"@);
    assert("push"@.len() != "طول"@.len());
    assert("push"@ != "طول"@);
    assert("push"@.len() != "longueur"@.len());
    assert("push"@ != "longueur"@);
    assert("أضف"@[0] != "len"@[0]);
    assert("أضف"@ != "len"@);
    assert("أضف"@[0] != "طول"@[0]);
    assert("أضف"@ != "طول"@);
    assert("أضف"@.len() != "longueur"@.len());
    assert("أضف"@ != "longueur"@);
    assert("ajoute"@.len() != "len"@.len());
    assert("ajoute"@ != "len"@);
    assert("ajoute"@.len() != "طول"@.len());
    assert("ajoute"@ != "طول"@);
    assert("ajoute"@.len() != "longueur"@.len());
    assert("ajoute"@ != "longueur"@);
}

proof fn lemma_array_method_pop()
    ensures
        spec_array_method("pop"@) == Some(ArrayMethod::Pop),
        spec_array_method("اسحب"@) == Some(ArrayMethod::Pop),
        spec_array_method("retire"@) == Some(ArrayMethod::Pop),
{
    reveal_strlit("ajoute");
    reveal_strlit("len");
    reveal_strlit("longueur");
    reveal_strlit("pop");
    reveal_strlit("push");
    reveal_strlit("retire");
    reveal_strlit("أضف");
    reveal_strlit("اسحب");
    reveal_strlit("طول");
    assert("pop"@[0] != "len"@[0]);
    assert("pop"@ != "len"@);
    assert("pop"@[0] != "طول"@[0]);
    assert("pop"@ != "طول"@);
    assert("pop"@.len() != "longueur"@.len());
    assert("pop"@ != "longueur"@);
    assert("pop"@.len() != "push"@.len());
    assert("pop"@ != "push"@);
    assert("pop"@[0] != "أضف"@[0]);
    assert("pop"@ != "أضف"@);
    assert("pop"@.len() != "ajoute"@.len());
    assert("pop"@ != "ajoute"@);
    assert("اسحب"@.len() != "len"@.len());
    assert("اسحب"@ != "len"@);
    assert("اسحب"@.len() != "طول"@.len());
    assert("اسحب"@ != "طول"@);
    assert("اسحب"@.len() != "longueur"@.len());
    assert("اسحب"@ != "longueur"@);
    assert("اسحب"@[0] != "push"@[0]);
    assert("اسحب"@ != "push"@);
    assert("اسحب"@.len() != "أضف"@.len());
    assert("اسحب"@ != "أضف"@);
    assert("اسحب"@.len() != "ajoute"@.len());
    assert("اسحب"@ != "ajoute"@);
    assert("retire"@.len() != "len"@.len());
    assert("retire"@ != "len"@);
    assert("retire"@.len() != "طول"@.len());
    assert("retire"@ != "طول"@);
    assert("retire"@.len() != "longueur"@.len());
    assert("retire"@ != "longueur"@);
    assert("retire"@.len() != "push"@.len());
    assert("retire"@ != "push"@);
    assert("retire"@.len() != "أضف"@.len());
    assert("retire"@ != "أضف"@);
    assert("retire"@[0] != "ajoute"@[0]);
    assert("retire"@ != "ajoute"@);
}

proof fn lemma_result_ctors()
    ensures
        spec_result_ctor("Ok"@) == Some("Ok"@),
        spec_result_ctor("نجاح"@) == Some("Ok"@),
        spec_result_ctor("Err"@) == Some("Err"@),
        spec_result_ctor("فشل"@) == Some("Err"@),
        spec_result_ctor("Erreur"@) == Some("Err"@),
{
    reveal_strlit("Ok");
    reveal_strlit("نجاح");
    reveal_strlit("Err");
    reveal_strlit("فشل");
    reveal_strlit("Erreur");
    assert("Err"@.len() != "Ok"@.len());
    assert("Err"@ != "Ok"@);
    assert("Err"@.len() != "نجاح"@.len());
    assert("Err"@ != "نجاح"@);
    assert("فشل"@.len() != "Ok"@.len());
    assert("فشل"@ != "Ok"@);
    assert("فشل"@.len() != "نجاح"@.len());
    assert("فشل"@ != "نجاح"@);
    assert("Erreur"@.len() != "Ok"@.len());
    assert("Erreur"@ != "Ok"@);
    assert("Erreur"@.len() != "نجاح"@.len());
    assert("Erreur"@ != "نجاح"@);
}

/// The builtin names are trilingual too: `print`, the array methods,
/// `clone` and the `Result` constructors.
pub proof fn law_builtins_trilingual()
    ensures
        spec_is_print("print"@) && spec_is_print("اطبع"@) && spec_is_print("affiche"@),
        spec_array_method("len"@) == Some(ArrayMethod::Len) && spec_array_method("طول"@) == Some(ArrayMethod::Len)
            && spec_array_method("longueur"@) == Some(ArrayMethod::Len),
        spec_array_method("push"@) == Some(ArrayMethod::Push) && spec_array_method("أضف"@) == Some(ArrayMethod::Push)
            && spec_array_method("ajoute"@) == Some(ArrayMethod::Push),
        spec_array_method("pop"@) == Some(ArrayMethod::Pop) && spec_array_method("اسحب"@) == Some(ArrayMethod::Pop)
            && spec_array_method("retire"@) == Some(ArrayMethod::Pop),
        spec_is_clone("clone"@) && spec_is_clone("انسخ"@) && spec_is_clone("cloner"@),
        spec_result_ctor("Ok"@) == Some("Ok"@) && spec_result_ctor("نجاح"@) == Some("Ok"@),
        spec_result_ctor("Err"@) == Some("Err"@) && spec_result_ctor("فشل"@) == Some("Err"@)
            && spec_result_ctor("Erreur"@) == Some("Err"@),
{
    lemma_array_method_len();
    lemma_array_method_push();
    lemma_array_method_pop();
    lemma_result_ctors();
}

/// A digit has the same value in ASCII, Arabic-Indic and Persian script.
pub proof fn law_digit_scripts(d: nat)
    requires
        d < 10,
    ensures
        spec_digit_value(('0' as nat + d) as char) == Some(d),
        spec_digit_value((0x0660 + d) as char) == Some(d),
        spec_digit_value((0x06F0 + d) as char) == Some(d),
{
}

/// A numeral's value depends only on the values of its digits, so the same
/// number written in any digit script has the same value.
pub proof fn law_numeral_scripts(s: Seq<char>, t: Seq<char>)
    requires
        s.len() == t.len(),
        forall|i: int| 0 <= i < s.len() ==> spec_digit_value(#[trigger] s[i]) == spec_digit_value(t[i]),
    ensures
        digits_value(s) == digits_value(t),
    decreases s.len(),
{
    if s.len() > 0 {
        let s2 = s.drop_last();
        let t2 = t.drop_last();
        assert forall|i: int| 0 <= i < s2.len() implies spec_digit_value(#[trigger] s2[i]) == spec_digit_value(t2[i]) by {
            assert(s2[i] == s[i]);
            assert(t2[i] == t[i]);
        }
        law_numeral_scripts(s2, t2);
        assert(spec_digit_value(s[s.len() - 1]) == spec_digit_value(t[t.len() - 1]));
    }
}

proof fn lemma_first_bidi_found(s: Seq<char>, j: int, k: int)
    requires
        0 <= j <= k < s.len(),
        spec_is_bidi(s[k]),
    ensures
        first_bidi(s, j) matches Some(b) && j <= b <= k && spec_is_bidi(s[b]),
    decreases k - j,
{
    if !spec_is_bidi(s[j]) {
        lemma_first_bidi_found(s, j + 1, k);
    }
}

/// A source holding a bidirectional control character anywhere is rejected
/// (Trojan Source defense), and the error names the first such character
/// and its line.
pub proof fn law_bidi_rejected(s: Seq<char>, k: int, start: int)
    requires
        0 <= k < s.len(),
        spec_is_bidi(s[k]),
    ensures
        first_bidi(s, 0) matches Some(b) && b <= k && spec_tokenize(s, start) == Err::<Seq<crate::token::SpecToken>, Seq<char>>(msg_bidi(line_at(s, b), s[b])),
{
    lemma_first_bidi_found(s, 0, k);
}

/// The Arabic comma `،` and question mark `؟` are the same tokens as `,`
/// and `?`.
pub proof fn law_punctuation_bilingual(s: Seq<char>, i: int)
    requires
        0 <= i < s.len(),
    ensures
        (s[i] == ',' || s[i] == '،') ==> symbol_at(s, i) == LexStep::Tok(SpecTokenKind::Comma, i + 1),
        (s[i] == '?' || s[i] == '؟') ==> symbol_at(s, i) == LexStep::Tok(SpecTokenKind::Question, i + 1),
{
}

/// Integer arithmetic is checked: a result is the exact mathematical value,
/// and a value that does not fit in 64 bits is an error, never a
/// wraparound. Division and remainder round toward zero; by zero they are
/// errors.
pub proof fn law_checked_arithmetic(op: BinOp, a: i64, b: i64)
    ensures
        spec_arith(op, a, b) matches Ok(x) ==> x as int == (match op {
            BinOp::Add => a + b,
            BinOp::Sub => a - b,
            BinOp::Mul => a * b,
            BinOp::Div => tdiv(a as int, b as int),
            _ => trem(a as int, b as int),
        }),
        (op is Add && !in_i64(a + b)) ==> spec_arith(op, a, b) == Err::<i64, Seq<char>>("integer overflow"@),
        (op is Sub && !in_i64(a - b)) ==> spec_arith(op, a, b) == Err::<i64, Seq<char>>("integer overflow"@),
        (op is Mul && !in_i64(a * b)) ==> spec_arith(op, a, b) == Err::<i64, Seq<char>>("integer overflow"@),
        (op is Div && b == 0) ==> spec_arith(op, a, b) == Err::<i64, Seq<char>>("division by zero"@),
        (op is Rem && b == 0) ==> spec_arith(op, a, b) == Err::<i64, Seq<char>>("remainder by zero"@),
{
}

/// Array indexing is bounds-checked: an index inside the array gives its
/// element, and any other index is an error, never a value.
pub proof fn law_bounds_checked(xs: Seq<SpecValue>, k: i64)
    ensures
        spec_index(SpecValue::Array(xs), SpecValue::Int(k)) is Ok <==> 0 <= k < xs.len(),
        0 <= k < xs.len() ==> spec_index(SpecValue::Array(xs), SpecValue::Int(k)) == Ok::<SpecValue, Seq<char>>(xs[k as int]),
{
}

/// Truncating division and its remainder recompose the dividend, and the
/// remainder is smaller than the divisor in magnitude.
pub proof fn law_division(a: int, b: int)
    requires
        b != 0,
    ensures
        b * tdiv(a, b) + trem(a, b) == a,
        abs(trem(a, b)) < abs(b),
{
    let q = abs(a) / abs(b);
    let r = abs(a) % abs(b);
    assert(abs(a) == abs(b) * q + r && 0 <= r < abs(b)) by (nonlinear_arith)
        requires
            abs(b) > 0,
            abs(a) >= 0,
            q == abs(a) / abs(b),
            r == abs(a) % abs(b),
    ;
    if a < 0 && b < 0 {
        assert(b * q == -(abs(b) * q)) by (nonlinear_arith)
            requires
                b < 0,
                abs(b) == -b,
        ;
    } else if a < 0 {
        assert(b * -q == -(abs(b) * q)) by (nonlinear_arith)
            requires
                b > 0,
                abs(b) == b,
        ;
    } else if b < 0 {
        assert(b * -q == abs(b) * q) by (nonlinear_arith)
            requires
                b < 0,
                abs(b) == -b,
        ;
    } else {
        assert(b * q == abs(b) * q);
    }
}

/// `==` compares two ints, two strings or two booleans, and two arrays by
/// their elements: it is then reflexive and symmetric, with `!=` its
/// negation. On any other pair of values it is the error "cannot compare".
pub proof fn law_value_equality(a: SpecValue, b: SpecValue)
    ensures
        spec_order(a, a) is Some ==> spec_binary(BinOp::Eq, a, a) == Ok::<SpecValue, Seq<char>>(
            SpecValue::Bool(true),
        ),
        spec_order(a, b) is Some ==> spec_binary(BinOp::Eq, a, b) == spec_binary(BinOp::Eq, b, a),
        a is Array && b is Array ==> spec_binary(BinOp::Eq, a, b) == Ok::<SpecValue, Seq<char>>(
            SpecValue::Bool(a == b),
        ),
        spec_order(a, b) is None && !(a is Array && b is Array) ==> spec_binary(BinOp::Eq, a, b) == Err::<SpecValue, Seq<char>>(
            "cannot compare "@ + value_text(a) + " and "@ + value_text(b),
        ),
        spec_binary(BinOp::Eq, a, b) matches Ok(SpecValue::Bool(x)) ==> spec_binary(BinOp::Ne, a, b) == Ok::<
            SpecValue,
            Seq<char>,
        >(SpecValue::Bool(!x)),
{
    match a {
        SpecValue::Str(x) => {
            law_string_order(x, x);
        },
        _ => {},
    }
    match (a, b) {
        (SpecValue::Str(x), SpecValue::Str(y)) => {
            law_string_order(x, y);
        },
        _ => {},
    }
}

/// The order of strings is antisymmetric, and a string is equal to itself.
pub proof fn law_string_order(a: Seq<char>, b: Seq<char>)
    ensures
        order_chars(a, a) == 0,
        order_chars(a, b) == -order_chars(b, a),
    decreases a.len(),
{
    if a.len() > 0 {
        law_string_order(a.drop_first(), a.drop_first());
        if b.len() > 0 {
            law_string_order(a.drop_first(), b.drop_first());
        }
    }
}

/// Type compatibility is reflexive and symmetric.
pub proof fn law_types_match(a: SpecTy, b: SpecTy)
    ensures
        spec_types_match(a, a),
        spec_types_match(a, b) == spec_types_match(b, a),
    decreases a,
{
    match (a, b) {
        (SpecTy::Vec(x), SpecTy::Vec(y)) => {
            law_types_match(*x, *y);
        }
        (SpecTy::Result(t1, e1), SpecTy::Result(t2, e2)) => {
            law_types_match(*t1, *t2);
            law_types_match(*e1, *e2);
        }
        _ => {}
    }
    match a {
        SpecTy::Vec(x) => law_types_match(*x, *x),
        SpecTy::Result(t, e) => {
            law_types_match(*t, *t);
            law_types_match(*e, *e);
        }
        _ => {}
    }
}

proof fn lemma_missing(all: Seq<Seq<char>>, covered: Seq<Seq<char>>, v: Seq<char>)
    requires
        all.contains(v),
        !covered.contains(v),
    ensures
        missing_names(all, covered).contains(v),
    decreases all.len(),
{
    if all.last() == v {
        assert(missing_names(all, covered).last() == v);
    } else {
        let k = choose|k: int| 0 <= k < all.len() && all[k] == v;
        assert(all.drop_last()[k] == v);
        lemma_missing(all.drop_last(), covered, v);
        let rest = missing_names(all.drop_last(), covered);
        let j = choose|j: int| 0 <= j < rest.len() && rest[j] == v;
        if !covered.contains(all.last()) {
            assert(rest.push(all.last())[j] == v);
        }
    }
}

/// A match on an enum without a wildcard arm is rejected when a variant
/// has no arm, and the diagnostic lists that variant among the missing;
/// an arm that binds or is `_` makes any match exhaustive.
pub proof fn law_exhaustive_match(
    e: Seq<char>,
    variants: Seq<Seq<char>>,
    covered: Seq<Seq<char>>,
    covers_true: bool,
    covers_false: bool,
    v: Seq<char>,
)
    ensures
        (variants.contains(v) && !covered.contains(v)) ==> (
            spec_exhaustive(SpecTy::Enum(e), false, variants, covered, covers_true, covers_false) is Err
            && missing_names(variants, covered).contains(v)),
        forall|t: SpecTy| spec_exhaustive(t, true, variants, covered, covers_true, covers_false) is Ok,
{
    if variants.contains(v) && !covered.contains(v) {
        lemma_missing(variants, covered, v);
    }
}

proof fn lemma_none_missing(all: Seq<Seq<char>>, covered: Seq<Seq<char>>)
    requires
        forall|k: int| 0 <= k < all.len() ==> covered.contains(#[trigger] all[k]),
    ensures
        missing_names(all, covered).len() == 0,
    decreases all.len(),
{
    if all.len() > 0 {
        let rest = all.drop_last();
        assert forall|k: int| 0 <= k < rest.len() implies covered.contains(#[trigger] rest[k]) by {
            assert(rest[k] == all[k]);
        }
        lemma_none_missing(rest, covered);
        assert(covered.contains(all[all.len() - 1]));
    }
}

/// Without a wildcard arm, a match on all `variants` is accepted exactly
/// when every one of them has an arm.
proof fn lemma_missing_exactly(all: Seq<Seq<char>>, covered: Seq<Seq<char>>)
    ensures
        (missing_names(all, covered).len() == 0) == (forall|k: int| 0 <= k < all.len() ==> covered.contains(
            #[trigger] all[k],
        )),
{
    if forall|k: int| 0 <= k < all.len() ==> covered.contains(#[trigger] all[k]) {
        lemma_none_missing(all, covered);
    } else {
        let k = choose|k: int| 0 <= k < all.len() && !covered.contains(#[trigger] all[k]);
        assert(all.contains(all[k]));
        lemma_missing(all, covered, all[k]);
    }
}

/// Exhaustiveness, exactly: without a wildcard arm, a match on a `bool` is
/// accepted just when its arms cover both `true` and `false`; on a
/// `Result` just when both `Ok` and `Err` have arms; on an enum just when
/// every variant has an arm; on any other type never.
pub proof fn law_exhaustive_exactly(
    e: Seq<char>,
    variants: Seq<Seq<char>>,
    covered: Seq<Seq<char>>,
    covers_true: bool,
    covers_false: bool,
    a: SpecTy,
    b: SpecTy,
    t: SpecTy,
)
    ensures
        spec_exhaustive(SpecTy::Bool, false, variants, covered, covers_true, covers_false) is Ok <==> (covers_true
            && covers_false),
        spec_exhaustive(SpecTy::Enum(e), false, variants, covered, covers_true, covers_false) is Ok <==> (forall|
            k: int,
        | 0 <= k < variants.len() ==> covered.contains(#[trigger] variants[k])),
        spec_exhaustive(SpecTy::Result(Box::new(a), Box::new(b)), false, variants, covered, covers_true, covers_false)
            is Ok <==> (covered.contains("Ok"@) && covered.contains("Err"@)),
        !(t is Bool || t is Enum || t is Result) ==> spec_exhaustive(t, false, variants, covered, covers_true, covers_false)
            is Err,
{
    lemma_missing_exactly(variants, covered);
    let rs = seq!["Ok"@, "Err"@];
    lemma_missing_exactly(rs, covered);
    assert(rs[0] == "Ok"@ && rs[1] == "Err"@);
    if covered.contains("Ok"@) && covered.contains("Err"@) {
        assert forall|k: int| 0 <= k < rs.len() implies covered.contains(#[trigger] rs[k]) by {
            if k == 0 {
            } else {
            }
        }
    }
}

/// No quote and no backslash in `t`.
pub open spec fn plain_text(t: Seq<char>) -> bool {
    forall|k: int| 0 <= k < t.len() ==> #[trigger] t[k] != '"' && t[k] != '\\'
}

/// No brace in `t`.
pub open spec fn brace_free(t: Seq<char>) -> bool {
    forall|k: int| 0 <= k < t.len() ==> #[trigger] t[k] != '{' && t[k] != '}'
}

proof fn lemma_scan_plain(s: Seq<char>, i: int, acc: Seq<char>, n: int)
    requires
        0 <= i,
        0 <= n,
        i + n <= s.len(),
        plain_text(s.subrange(i, i + n)),
    ensures
        scan_string(s, i, acc) == scan_string(s, i + n, acc + s.subrange(i, i + n)),
    decreases n,
{
    if n > 0 {
        assert(s.subrange(i, i + n)[0] == s[i]);
        assert(plain_text(s.subrange(i + 1, i + n))) by {
            assert forall|k: int| 0 <= k < n - 1 implies #[trigger] s.subrange(i + 1, i + n)[k] != '"'
                && s.subrange(i + 1, i + n)[k] != '\\' by {
                assert(s.subrange(i + 1, i + n)[k] == s.subrange(i, i + n)[k + 1]);
            }
        }
        lemma_scan_plain(s, i + 1, acc.push(s[i]), n - 1);
        assert(acc.push(s[i]) + s.subrange(i + 1, i + n) =~= acc + s.subrange(i, i + n));
    } else {
        assert(acc + s.subrange(i, i) =~= acc);
    }
}

proof fn lemma_split_plain(t: Seq<char>, i: int, lit: Seq<char>)
    requires
        0 <= i <= t.len(),
        brace_free(t),
    ensures
        split_pieces(t, i, lit, Seq::empty()) == Some(with_lit(Seq::empty(), lit + t.subrange(i, t.len() as int))),
    decreases t.len() - i,
{
    if i < t.len() {
        lemma_split_plain(t, i + 1, lit.push(t[i]));
        assert(lit.push(t[i]) + t.subrange(i + 1, t.len() as int) =~= lit + t.subrange(i, t.len() as int));
    } else {
        assert(lit + t.subrange(i, i) =~= lit);
    }
}

/// Escapes in string literals: in the body `p\cq` of a literal (with `p`
/// and `q` free of quotes and backslashes), `\n` stands for a line feed,
/// `\t` for a tab and `\c` for `c` otherwise; and a literal with no brace
/// is a plain string token of that text.
pub proof fn law_string_escapes(s: Seq<char>, i: int, p: Seq<char>, c: char, q: Seq<char>)
    requires
        0 <= i,
        i + p.len() + 2 + q.len() < s.len(),
        s.subrange(i, i + p.len()) == p,
        s[i + p.len()] == '\\',
        s[i + p.len() + 1] == c,
        s.subrange(i + p.len() + 2, i + p.len() + 2 + q.len()) == q,
        s[i + p.len() + 2 + q.len()] == '"',
        plain_text(p),
        plain_text(q),
    ensures
        c == 'n' ==> scan_string(s, i, Seq::empty()) == StrScan::Done(p + seq!['\n'] + q, i + p.len() + 3 + q.len()),
        c == 't' ==> scan_string(s, i, Seq::empty()) == StrScan::Done(p + seq!['\t'] + q, i + p.len() + 3 + q.len()),
        c != 'n' && c != 't' ==> scan_string(s, i, Seq::empty()) == StrScan::Done(
            p + seq![c] + q,
            i + p.len() + 3 + q.len(),
        ),
        brace_free(p) && brace_free(q) ==> string_token(p + seq!['\n'] + q) == Some(
            SpecTokenKind::Str(p + seq!['\n'] + q),
        ),
{
    let j = i + p.len();
    lemma_scan_plain(s, i, Seq::empty(), p.len() as int);
    assert(Seq::<char>::empty() + s.subrange(i, j) =~= p);
    let ch = escape_char(c);
    lemma_scan_plain(s, j + 2, p.push(ch), q.len() as int);
    let e = j + 2 + q.len();
    assert(p.push(ch) + q =~= p + seq![ch] + q);
    assert(scan_string(s, e, p.push(ch) + q) == StrScan::Done(p.push(ch) + q, e + 1));
    if brace_free(p) && brace_free(q) {
        let t = p + seq!['\n'] + q;
        assert(brace_free(t)) by {
            assert forall|k: int| 0 <= k < t.len() implies #[trigger] t[k] != '{' && t[k] != '}' by {
                if k < p.len() {
                    assert(t[k] == p[k]);
                } else if k > p.len() {
                    assert(t[k] == q[k - p.len() - 1]);
                }
            }
        }
        lemma_split_plain(t, 0, Seq::empty());
        assert(Seq::<char>::empty() + t.subrange(0, t.len() as int) =~= t);
    }
}

/// A native `for` loop over a range runs a turn exactly when the
/// interpreter does: the test in its header, evaluated as the interpreter
/// evaluates that operator, holds of the loop variable `x` and the end `hi`
/// just when `x < hi`; where it fails, the interpreter's loop ends with no
/// turn, output or change; and where it holds, the loop's step (adding one,
/// as `for_step` shows the plan does) gives `x + 1`, the interpreter's next
/// value of the variable.
pub proof fn law_for_header_test(
    x: i64,
    hi: i64,
    env: Seq<Seq<VarView>>,
    var: Seq<char>,
    body: Block,
    fuel: nat,
)
    ensures
        spec_binary(for_loop_test(), SpecValue::Int(x), SpecValue::Int(hi)) == Ok::<SpecValue, Seq<char>>(
            SpecValue::Bool(x < hi),
        ),
        !(x < hi) ==> (pure_for(env, var, x, hi, body, fuel) matches Some(Ok((o, e2, f))) && o.len() == 0 && e2
            == env && f == fuel),
        x < hi ==> spec_binary(BinOp::Add, SpecValue::Int(x), SpecValue::Int(1)) == Ok::<SpecValue, Seq<char>>(
            SpecValue::Int((x + 1) as i64),
        ),
{
}

/// The tree of `lhs op rhs`, on the line of its left operand.
pub open spec fn binary_tree(op: BinOp, lhs: SExpr, rhs: SExpr) -> SExpr {
    SExpr { kind: SKind::Binary(op, Box::new(lhs), Box::new(rhs)), line: lhs.line }
}

/// Operator precedence and associativity: in `e1 op1 e2 op2 e3`, the second
/// operator takes `e2` as its left operand exactly when it binds tighter
/// than the first. So `*`, `/` and `%` bind tighter than `+` and `-`, which
/// bind tighter than the comparisons, and operators of one level associate
/// to the left.
pub proof fn law_operator_precedence(
    ts: Seq<SpecToken>,
    pos: int,
    sl: bool,
    d: nat,
    e1: SExpr,
    p1: int,
    op1: BinOp,
    e2: SExpr,
    p2: int,
    op2: BinOp,
    e3: SExpr,
    p3: int,
)
    requires
        spec_postfix(ts, pos, sl, d) == Some((e1, p1)),
        pos < p1,
        spec_binop(ts[p1].kind) == Some(op1),
        spec_postfix(ts, p1 + 1, sl, d) == Some((e2, p2)),
        p1 + 1 < p2,
        spec_binop(ts[p2].kind) == Some(op2),
        spec_postfix(ts, p2 + 1, sl, d) == Some((e3, p3)),
        p2 + 1 < p3,
        spec_binop(ts[p3].kind) is None,
    ensures
        spec_expr(ts, pos, 0, sl, d) == Some((
            if spec_infix_bp(op2).0 >= spec_infix_bp(op1).1 {
                binary_tree(op1, e1, binary_tree(op2, e2, e3))
            } else {
                binary_tree(op2, binary_tree(op1, e1, e2), e3)
            },
            p3,
        )),
        spec_infix_bp(op1).0 == spec_infix_bp(op2).0 ==> spec_expr(ts, pos, 0, sl, d) == Some(
            (binary_tree(op2, binary_tree(op1, e1, e2), e3), p3),
        ),
        spec_infix_bp(op1).0 < spec_infix_bp(op2).0 ==> spec_expr(ts, pos, 0, sl, d) == Some(
            (binary_tree(op1, e1, binary_tree(op2, e2, e3)), p3),
        ),
        spec_infix_bp(op1).0 > spec_infix_bp(op2).0 ==> spec_expr(ts, pos, 0, sl, d) == Some(
            (binary_tree(op2, binary_tree(op1, e1, e2), e3), p3),
        ),
{
    lemma_postfix_end(ts, p2 + 1, sl, d);
    let r1 = spec_infix_bp(op1).1;
    let r2 = spec_infix_bp(op2).1;
    assert(spec_infix(ts, p3, r2, sl, e3, d) == Some((e3, p3)));
    assert(spec_expr(ts, p2 + 1, r2, sl, d) == Some((e3, p3)));
    if spec_infix_bp(op2).0 >= r1 {
        let b2 = binary_tree(op2, e2, e3);
        assert(spec_infix(ts, p3, r1, sl, b2, d) == Some((b2, p3)));
        assert(spec_infix(ts, p2, r1, sl, e2, d) == Some((b2, p3)));
        assert(spec_expr(ts, p1 + 1, r1, sl, d) == Some((b2, p3)));
        let b1 = binary_tree(op1, e1, b2);
        assert(spec_infix(ts, p3, 0, sl, b1, d) == Some((b1, p3)));
        assert(spec_infix(ts, p1, 0, sl, e1, d) == Some((b1, p3)));
    } else {
        assert(spec_infix(ts, p2, r1, sl, e2, d) == Some((e2, p2)));
        assert(spec_expr(ts, p1 + 1, r1, sl, d) == Some((e2, p2)));
        let b1 = binary_tree(op1, e1, e2);
        let b2 = binary_tree(op2, b1, e3);
        assert(spec_infix(ts, p3, 0, sl, b2, d) == Some((b2, p3)));
        assert(spec_infix(ts, p2, 0, sl, b1, d) == Some((b2, p3)));
        assert(spec_infix(ts, p1, 0, sl, e1, d) == Some((b2, p3)));
    }
}

/// Unary minus and `!` bind tighter than the additive and comparison
/// operators: `-e1 op e2` (or `!e1 op e2`), with `op` one of
/// `+ - == != < <= > >=`, reads as `(-e1) op e2`, never as `-(e1 op e2)`.
pub proof fn law_unary_minus_binds_tight(
    ts: Seq<SpecToken>,
    pos: int,
    sl: bool,
    d: nat,
    e1: SExpr,
    p1: int,
    op: BinOp,
    e2: SExpr,
    p2: int,
)
    requires
        0 <= pos,
        pos + 1 < ts.len(),
        ts[pos].kind is Minus || ts[pos].kind is Bang,
        spec_postfix(ts, pos + 1, sl, d) == Some((e1, p1)),
        spec_binop(ts[p1].kind) == Some(op),
        !(op is Mul || op is Div || op is Rem),
        spec_postfix(ts, p1 + 1, sl, d) == Some((e2, p2)),
        spec_binop(ts[p2].kind) is None,
    ensures
        spec_expr(ts, pos, 0, sl, d) == Some((
            binary_tree(
                op,
                SExpr {
                    kind: SKind::Unary(if ts[pos].kind is Minus { UnOp::Neg } else { UnOp::Not }, Box::new(e1)),
                    line: ts[pos].line,
                },
                e2,
            ),
            p2,
        )),
{
    lemma_postfix_end(ts, pos + 1, sl, d);
    lemma_postfix_end(ts, p1 + 1, sl, d);
    let r = spec_infix_bp(op).1;
    assert(spec_infix(ts, p1, 7, sl, e1, d) == Some((e1, p1)));
    assert(spec_expr(ts, pos + 1, 7, sl, d) == Some((e1, p1)));
    let neg = SExpr {
        kind: SKind::Unary(if ts[pos].kind is Minus { UnOp::Neg } else { UnOp::Not }, Box::new(e1)),
        line: ts[pos].line,
    };
    assert(spec_prefix(ts, pos, sl, d) == Some((neg.kind, p1)));
    assert(spec_postfix_rest(ts, p1, neg, d) == Some((neg, p1)));
    assert(spec_postfix(ts, pos, sl, d) == Some((neg, p1)));
    assert(spec_infix(ts, p2, r, sl, e2, d) == Some((e2, p2)));
    assert(spec_expr(ts, p1 + 1, r, sl, d) == Some((e2, p2)));
    let b = binary_tree(op, neg, e2);
    assert(spec_infix(ts, p2, 0, sl, b, d) == Some((b, p2)));
    assert(spec_infix(ts, p1, 0, sl, neg, d) == Some((b, p2)));
}

/// Comparing two integers is their mathematical order, and comparing two
/// booleans orders `false` before `true`.
pub proof fn law_int_comparisons(a: i64, b: i64, x: bool, y: bool)
    ensures
        spec_binary(BinOp::Lt, SpecValue::Int(a), SpecValue::Int(b)) == Ok::<SpecValue, Seq<char>>(SpecValue::Bool(a < b)),
        spec_binary(BinOp::Le, SpecValue::Int(a), SpecValue::Int(b)) == Ok::<SpecValue, Seq<char>>(SpecValue::Bool(a <= b)),
        spec_binary(BinOp::Gt, SpecValue::Int(a), SpecValue::Int(b)) == Ok::<SpecValue, Seq<char>>(SpecValue::Bool(a > b)),
        spec_binary(BinOp::Ge, SpecValue::Int(a), SpecValue::Int(b)) == Ok::<SpecValue, Seq<char>>(SpecValue::Bool(a >= b)),
        spec_binary(BinOp::Eq, SpecValue::Int(a), SpecValue::Int(b)) == Ok::<SpecValue, Seq<char>>(SpecValue::Bool(a == b)),
        spec_binary(BinOp::Ne, SpecValue::Int(a), SpecValue::Int(b)) == Ok::<SpecValue, Seq<char>>(SpecValue::Bool(a != b)),
        spec_binary(BinOp::Lt, SpecValue::Bool(x), SpecValue::Bool(y)) == Ok::<SpecValue, Seq<char>>(SpecValue::Bool(!x && y)),
        spec_binary(BinOp::Le, SpecValue::Bool(x), SpecValue::Bool(y)) == Ok::<SpecValue, Seq<char>>(SpecValue::Bool(!x || y)),
        spec_binary(BinOp::Eq, SpecValue::Bool(x), SpecValue::Bool(y)) == Ok::<SpecValue, Seq<char>>(SpecValue::Bool(x == y)),
{
}

proof fn lemma_order_common_prefix(p: Seq<char>, a: Seq<char>, b: Seq<char>)
    ensures
        order_chars(p + a, p + b) == order_chars(a, b),
    decreases p.len(),
{
    if p.len() > 0 {
        lemma_order_common_prefix(p.drop_first(), a, b);
        assert((p + a).drop_first() =~= p.drop_first() + a);
        assert((p + b).drop_first() =~= p.drop_first() + b);
        assert((p + a)[0] == p[0]);
        assert((p + b)[0] == p[0]);
    } else {
        assert(p + a =~= a);
        assert(p + b =~= b);
    }
}

/// Strings compare lexicographically by code point: after a common prefix,
/// the first differing characters decide; a proper prefix comes first.
pub proof fn law_string_comparisons(p: Seq<char>, x: char, y: char, a: Seq<char>, b: Seq<char>)
    ensures
        x != y ==> spec_binary(BinOp::Lt, SpecValue::Str(p + seq![x] + a), SpecValue::Str(p + seq![y] + b)) == Ok::<
            SpecValue,
            Seq<char>,
        >(SpecValue::Bool((x as u32) < (y as u32))),
        spec_binary(BinOp::Lt, SpecValue::Str(p), SpecValue::Str(p + seq![x] + a)) == Ok::<SpecValue, Seq<char>>(
            SpecValue::Bool(true),
        ),
        spec_binary(BinOp::Le, SpecValue::Str(p), SpecValue::Str(p)) == Ok::<SpecValue, Seq<char>>(SpecValue::Bool(true)),
{
    assert(p + seq![x] + a =~= p + (seq![x] + a));
    assert(p + seq![y] + b =~= p + (seq![y] + b));
    lemma_order_common_prefix(p, seq![x] + a, seq![y] + b);
    assert((seq![x] + a)[0] == x);
    assert((seq![y] + b)[0] == y);
    if x != y {
        assert((x as u32) != (y as u32)) by {
            if (x as u32) == (y as u32) {
                assert(x == y);
            }
        }
    }
    assert(p =~= p + Seq::<char>::empty());
    lemma_order_common_prefix(p, Seq::<char>::empty(), seq![x] + a);
    law_string_order(p, p);
}

/// Bindings are immutable unless declared `var`: the checker rejects an
/// assignment to a `let` binding, and so does the interpreter, should such
/// a program run unchecked.
pub proof fn law_immutable_by_default(
    tenv: Seq<Seq<TyView>>,
    env: Seq<Seq<VarView>>,
    name: String,
    value: Expr,
    v: SpecValue,
)
    requires
        name@ != "self"@,
    ensures
        (tenv_find(tenv, name@) matches Some((i, j)) && !tenv[i][j].mutable) ==> pure_check_stmt(
            tenv,
            Stmt::Assign { target: AssignTarget::Var(name), value },
        ) == Some(
            Err::<(SpecTy, Seq<Seq<TyView>>), Seq<char>>(
                "cannot mutate immutable binding `"@ + name@ + "` — declare it with `var`/`متغير`/`variable`"@,
            ),
        ),
        (env_find(env, name@) matches Some((i, j)) && !env[i][j].mutable) ==> env_assign(env, name@, v) == Err::<
            Seq<Seq<VarView>>,
            Seq<char>,
        >("cannot assign to immutable binding `"@ + name@ + "` (use `var`/`متغير`)"@),
{
}

/// Conditions must be booleans, with no truthiness: the checker rejects a
/// `while` condition of another type, and the interpreter stops with an
/// error on a condition whose value is not a boolean.
pub proof fn law_conditions_are_bool(
    tenv: Seq<Seq<TyView>>,
    env: Seq<Seq<VarView>>,
    cond: Expr,
    body: Block,
    fuel: nat,
    t: SpecTy,
    v: SpecValue,
)
    ensures
        (pure_type(tenv, cond) == Some(Ok::<SpecTy, Seq<char>>(t)) && !spec_types_match(t, SpecTy::Bool)) ==> pure_check_stmt(
            tenv,
            Stmt::While { cond, body },
        ) == Some(
            Err::<(SpecTy, Seq<Seq<TyView>>), Seq<char>>(
                spec_with_line(
                    cond.line as nat,
                    "while condition: expected `bool`, found `"@ + spec_ty_text(t) + "`"@,
                ),
            ),
        ),
        (pure_eval(env, cond) == Some(Ok::<SpecValue, Seq<char>>(v)) && !(v is Bool) && fuel >= 1 + pure_cost(cond)) ==> pure_while(
            env,
            cond,
            body,
            fuel,
        ) == Some(Err::<(Seq<char>, Seq<Seq<VarView>>, nat), Seq<char>>(msg_condition(cond.line, v))),
{
    reveal_strlit("bool");
    reveal_strlit("while condition");
    reveal_strlit(": expected `");
    reveal_strlit("`, found `");
    reveal_strlit("while condition: expected `bool`, found `");
    assert("while condition"@ + ": expected `"@ + spec_ty_text(SpecTy::Bool) + "`, found `"@ + spec_ty_text(t) + "`"@
        =~= "while condition: expected `bool`, found `"@ + spec_ty_text(t) + "`"@);
}

proof fn lemma_tfirst_same(a: Seq<TyView>, b: Seq<TyView>, k: Seq<char>, i: int)
    requires
        0 <= i,
        a.len() <= b.len(),
        forall|p: int| 0 <= p < a.len() ==> (#[trigger] b[p]).name == a[p].name,
        forall|p: int| a.len() <= p < b.len() ==> (#[trigger] b[p]).name != k,
    ensures
        tfirst_in(b, k, i) == tfirst_in(a, k, i),
    decreases b.len() - i,
{
    if i < b.len() {
        lemma_tfirst_same(a, b, k, i + 1);
    }
}

proof fn lemma_tenv_find_same(a: Seq<Seq<TyView>>, b: Seq<Seq<TyView>>, k: Seq<char>)
    requires
        a.len() == b.len(),
        forall|s: int| 0 <= s < a.len() ==> (#[trigger] a[s]).len() <= b[s].len(),
        forall|s: int, p: int| 0 <= s < a.len() && 0 <= p < a[s].len() ==> (#[trigger] b[s][p]).name == a[s][p].name,
        forall|s: int, p: int| 0 <= s < a.len() && a[s].len() <= p < b[s].len() ==> (#[trigger] b[s][p]).name != k,
    ensures
        tenv_find(b, k) == tenv_find(a, k),
    decreases a.len(),
{
    if a.len() > 0 {
        let s = a.len() - 1;
        assert forall|p: int| 0 <= p < a.last().len() implies (#[trigger] b.last()[p]).name == a.last()[p].name by {
            assert(b[s][p].name == a[s][p].name);
        }
        assert forall|p: int| a.last().len() <= p < b.last().len() implies (#[trigger] b.last()[p]).name != k by {
            assert(b[s][p].name != k);
        }
        lemma_tfirst_same(a.last(), b.last(), k, 0);
        let a2 = a.drop_last();
        let b2 = b.drop_last();
        assert forall|s: int, p: int| 0 <= s < a2.len() && 0 <= p < a2[s].len() implies (#[trigger] b2[s][p]).name
            == a2[s][p].name by {
            assert(b[s][p].name == a[s][p].name);
        }
        assert forall|s: int, p: int| 0 <= s < a2.len() && a2[s].len() <= p < b2[s].len() implies (
        #[trigger] b2[s][p]).name != k by {
            assert(b[s][p].name != k);
        }
        assert forall|s: int| 0 <= s < a2.len() implies (#[trigger] a2[s]).len() <= b2[s].len() by {
            assert(a[s].len() <= b[s].len());
        }
        lemma_tenv_find_same(a2, b2, k);
    }
}

/// Ownership: binding a variable of a type that is not `Copy` to another
/// name moves it, and the checker rejects a later use of it, naming the line
/// it was moved on (`.clone()` keeps a copy).
pub proof fn law_use_after_move(env: Seq<Seq<TyView>>, s: String, t: String, m: bool, l1: usize, l2: usize)
    requires
        env.len() > 0,
        t@ != s@,
        tenv_find(env, s@) matches Some((i, j)) && env[i][j].moved is None && !spec_is_copy(env[i][j].ty),
    ensures
        pure_check_stmts(
            env,
            seq![
                Stmt::Let { name: t, mutable: m, ty_ann: None, init: Expr { kind: ExprKind::Ident(s), line: l1 } },
                Stmt::Expr(Expr { kind: ExprKind::Ident(s), line: l2 }),
            ],
        ) == Some(Err::<(SpecTy, Seq<Seq<TyView>>), Seq<char>>(spec_with_line(l2 as nat, msg_moved(s@, l1)))),
{
    let (i, j) = tenv_find(env, s@)->0;
    lemma_tenv_find_bounds(env, s@);
    let init = Expr { kind: ExprKind::Ident(s), line: l1 };
    let use_ = Expr { kind: ExprKind::Ident(s), line: l2 };
    let ty = env[i][j].ty;
    let env1 = tenv_move(env, init);
    assert(env1 == tenv_mark(env, i, j, l1));
    let env2 = tenv_bind(env1, TyView { name: t@, ty, mutable: m, moved: None });
    // The binding of `s` is found where it was, now marked moved.
    let n = env.len() - 1;
    lemma_tfirst_in_bounds(env1.last(), t@, 0);
    assert forall|x: int| 0 <= x < env.len() implies (#[trigger] env1[x]).len() == env[x].len() && forall|p: int|
        0 <= p < env[x].len() ==> (#[trigger] env1[x][p]).name == env[x][p].name by {}
    assert forall|x: int| 0 <= x < env.len() implies (#[trigger] env[x]).len() <= env2[x].len() by {
        assert(env1[x].len() == env[x].len());
    }
    assert forall|x: int, p: int| 0 <= x < env.len() && 0 <= p < env[x].len() implies (#[trigger] env2[x][p]).name
        == env[x][p].name by {
        assert(env1[x].len() == env[x].len());
        assert(env1[x][p].name == env[x][p].name);
    }
    assert forall|x: int, p: int| 0 <= x < env.len() && env[x].len() <= p < env2[x].len() implies (
    #[trigger] env2[x][p]).name != s@ by {}
    lemma_tenv_find_same(env, env2, s@);
    assert(env2[i][j].moved == Some(l1));
    let ss = seq![
        Stmt::Let { name: t, mutable: m, ty_ann: None, init },
        Stmt::Expr(use_),
    ];
    assert(ss.drop_last() =~= seq![Stmt::Let { name: t, mutable: m, ty_ann: None, init }]);
    assert(ss.drop_last().drop_last() =~= Seq::<Stmt>::empty());
    assert(pure_type(env, init) == Some(Ok::<SpecTy, Seq<char>>(ty)));
    let first = Stmt::Let { name: t, mutable: m, ty_ann: None, init };
    assert(pure_check_stmt(env, first) == Some(Ok::<(SpecTy, Seq<Seq<TyView>>), Seq<char>>((SpecTy::Unit, env2))));
    assert(pure_check_stmts(env, Seq::<Stmt>::empty()) == Some(Ok::<(SpecTy, Seq<Seq<TyView>>), Seq<char>>((SpecTy::Unit, env))));
    assert(ss.drop_last().last() == first);
    assert(pure_check_stmts(env, ss.drop_last()) == Some(Ok::<(SpecTy, Seq<Seq<TyView>>), Seq<char>>((SpecTy::Unit, env2))));
    assert(pure_type(env2, use_) == Some(Err::<SpecTy, Seq<char>>(spec_with_line(l2 as nat, msg_moved(s@, l1)))));
    assert(crate::interp::print_args(use_) is None);
    assert(ss.last() == Stmt::Expr(use_));
    assert(pure_check_stmt(env2, Stmt::Expr(use_)) == Some(
        Err::<(SpecTy, Seq<Seq<TyView>>), Seq<char>>(spec_with_line(l2 as nat, msg_moved(s@, l1))),
    ));
}

} // verus!
