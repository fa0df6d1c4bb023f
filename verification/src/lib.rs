//! `tnc`: the TN619 bootstrap compiler as a library — a trilingual lexer
//! (English, Arabic and French keywords map to one token set), a parser to a
//! language-neutral AST, a static type checker (with match exhaustiveness,
//! mutability and move checking) and a tree-walking interpreter.

use vstd::prelude::*;
use crate::ast::{prog_sview, single_entry, Program};
use crate::interp::{pure_block, Interp, STEP_BUDGET};
use crate::lexer::{bom_len, spec_tokenize, Lexer};
use crate::parser::{spec_items, Parser, MAX_INTERP_DEPTH};
use crate::typeck::{pure_check_entry, Checker};

pub mod text;
pub mod token;
pub mod chars;
pub mod lexer;
pub mod ast;
pub mod parser;
pub mod table;
pub mod types;
pub mod typeck;
pub mod value;
pub mod interp;
pub mod laws;
pub mod sound;
pub mod surface;

pub mod jit;
pub mod http;

verus! {

/// What checking and then running the program `p` gives, where `p` is one
/// entry point whose body the checker's and the interpreter's contracts
/// cover (let bindings, assignments, `print` calls, operator expressions,
/// array literals, indexing and lengths, `if`, `while`, and `for` over
/// ranges and arrays): the checker's diagnostic, or what
/// the program prints or the runtime error that stops it.
pub open spec fn checked_run(p: Program, r: Result<String, String>) -> bool {
    match single_entry(p) {
        Some(f) => match pure_check_entry(f) {
            Some(Err(m)) => r matches Err(x) && x@ == m,
            Some(Ok(_)) => match pure_block(seq![Seq::empty()], f.body, (STEP_BUDGET - 1) as nat) {
                Some(Ok((o, _, _))) => r matches Ok(x) && x@ == o,
                Some(Err(m)) => r matches Err(x) && x@ == m,
                None => true,
            },
            None => true,
        },
        None => true,
    }
}

/// Lexes, parses, type-checks and runs `src`, giving back what the program
/// printed or the first error (from the stage that raised it).
pub fn compile_and_run(src: &str) -> (r: Result<String, String>)
    requires
        src@.len() < usize::MAX,
    ensures
        spec_tokenize(src@, bom_len(src@)) matches Err(m) ==> (r matches Err(x) && x@ == m),
        spec_tokenize(src@, bom_len(src@)) matches Ok(ts) ==> (spec_items(ts, 0, true, Seq::empty(), MAX_INTERP_DEPTH as nat) matches Some(its)
            ==> exists|p: Program| #[trigger] prog_sview(p) == its && checked_run(p, r)),
{
    let mut lexer = Lexer::new(src);
    let tokens = lexer.tokenize()?;
    let mut parser = Parser::new(tokens);
    let program = parser.parse_program()?;
    Checker::new().check(&program)?;
    Interp::new().run(&program)
}

} // verus!
