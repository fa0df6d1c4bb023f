# tnc

The bootstrap compiler of TN619, a language whose keywords can be written in
English, Arabic or French, as a library verified with Verus: a trilingual
lexer, a parser to a language-neutral tree, a static checker (types, match
exhaustiveness, mutability, moves), a tree-walking interpreter with checked
arithmetic, and the planning of native code for the int/bool subset.

## Layout

- `src/` — the verified library.
  - `token.rs`, `lexer.rs`, `chars.rs`: tokens, the keyword map, and the
    lexer, specified by `spec_tokenize`.
  - `ast.rs`, `parser.rs`: the tree and the Pratt parser, specified over
    token models by `spec_expr`, `spec_stmt`, `spec_items`.
  - `types.rs`, `typeck.rs`: the checker; its statement fragment is
    specified by `pure_check_stmt` and `pure_check_entry`.
  - `value.rs`, `interp.rs`: values, operators and the interpreter; its
    statement fragment is specified by `pure_stmt` and `pure_block`, with a
    step budget.
  - `sound.rs`: a checked program fails at run time only on checked
    arithmetic, an index outside an array, or `==`/`!=` on values that
    cannot be compared (`law_checked_programs_run`). This is proved for
    programs made of a single parameterless entry function whose body is in
    the statement fragment (bindings, assignments, `print`, operator
    expressions, `if`, `while`, `for`); programs with other functions,
    calls, structs, enums, methods or `match` are not covered.
  - `surface.rs`: the spelling of a keyword does not change the tokens
    (`law_keyword_spelling`); a leading byte-order mark is skipped.
  - `laws.rs`: further properties of the language as a whole.
  - `jit.rs`: the native-code plan; `http.rs`: the playground's framing.
- `app/` — the command line, the Cranelift replay of a plan, and the
  playground's socket loop.
- `tests/` — the test suite.
