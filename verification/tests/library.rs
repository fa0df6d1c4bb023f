use tnc::ast::{BinOp, UnOp};
use tnc::http::{body_complete, content_length, find, is_run_request, reply_text, response_head};
use tnc::interp::Interp;
use tnc::jit::{plan_program, Op};
use tnc::lexer::Lexer;
use tnc::parser::{is_result_name, Parser};
use tnc::token::{array_method, is_clone_method, is_print_builtin, keyword, result_ctor, ArrayMethod};
use tnc::typeck::Checker;
use tnc::value::{arith, eval_binary, eval_unary, order_text, Value};

fn kinds(src: &str) -> Vec<String> {
    let toks = Lexer::new(src).tokenize().expect("lexes");
    toks.iter().map(|t| format!("{:?}", t.kind)).collect()
}

fn parse(src: &str) -> tnc::ast::Program {
    let toks = Lexer::new(src).tokenize().expect("lexes");
    Parser::new(toks).parse_program().expect("parses")
}

#[test]
fn keywords_map_to_one_token() {
    assert_eq!(format!("{:?}", keyword("let")), "Some(Let)");
    assert_eq!(format!("{:?}", keyword("دع")), "Some(Let)");
    assert_eq!(format!("{:?}", keyword("soit")), "Some(Let)");
    assert_eq!(format!("{:?}", keyword("implemente")), "Some(Impl)");
    assert_eq!(format!("{:?}", keyword("énum")), "Some(Enum)");
    assert_eq!(format!("{:?}", keyword("lettre")), "None");
}

#[test]
fn the_three_surfaces_lex_alike() {
    let en = kinds("fn main() { let x = 12 if x > 1 { print(x) } else { print(0) } }");
    let ar = kinds("دالة main() { دع x = ١٢ اذا x > ١ { اطبع(x) } وإلا { اطبع(٠) } }");
    let fr = kinds("fonction main() { soit x = 12 si x > 1 { affiche(x) } sinon { affiche(0) } }");
    assert_eq!(en[0], ar[0]);
    assert_eq!(en.len(), ar.len());
    assert_eq!(en.len(), fr.len());
    // Only the builtin name `print` stays an identifier of its own spelling.
    for i in 0..en.len() {
        if !en[i].contains("print") {
            assert_eq!(en[i], ar[i], "token {}", i);
            assert_eq!(en[i], fr[i], "token {}", i);
        }
    }
}

#[test]
fn arabic_punctuation_lexes_as_ascii() {
    assert_eq!(kinds("f(1، 2)؟"), kinds("f(1, 2)?"));
}

#[test]
fn lexer_reports_lines() {
    let toks = Lexer::new("let\n\nx").tokenize().unwrap();
    assert_eq!(toks[0].line, 1);
    assert_eq!(toks[1].line, 3);
    assert_eq!(format!("{:?}", toks[2].kind), "Eof");
}

#[test]
fn too_large_literal_is_rejected() {
    let e = Lexer::new("99999999999999999999").tokenize().unwrap_err();
    assert_eq!(e, "line 1: integer literal is too large");
}

#[test]
fn bidi_character_is_rejected_with_its_code() {
    let e = Lexer::new("let a = 1\nlet b\u{202E} = 2").tokenize().unwrap_err();
    assert!(e.starts_with("line 2: disallowed bidirectional control character U+202E"), "{}", e);
}

#[test]
fn builtin_names() {
    assert!(is_print_builtin("print") && is_print_builtin("اطبع") && is_print_builtin("affiche"));
    assert!(!is_print_builtin("println"));
    assert_eq!(array_method("طول"), Some(ArrayMethod::Len));
    assert_eq!(array_method("ajoute"), Some(ArrayMethod::Push));
    assert_eq!(array_method("retire"), Some(ArrayMethod::Pop));
    assert_eq!(array_method("size"), None);
    assert!(is_clone_method("انسخ") && is_clone_method("cloner") && !is_clone_method("copy"));
    assert_eq!(result_ctor("نجاح"), Some("Ok"));
    assert_eq!(result_ctor("Erreur"), Some("Err"));
    assert_eq!(result_ctor("Maybe"), None);
    assert!(is_result_name("Result") && is_result_name("نتيجة") && is_result_name("Résultat"));
    assert!(!is_result_name("Option"));
}

#[test]
fn value_printing() {
    let v = Value::Array(vec![Value::Int(1), Value::Str("a".to_string()), Value::Bool(true)]);
    assert_eq!(v.to_text(), "[1, a, true]");
    let s = Value::Struct { name: "P".to_string(), fields: vec![("x".to_string(), Value::Int(-3))] };
    assert_eq!(s.to_text(), "P { x: -3 }");
    let e = Value::Enum { enum_name: "Result".to_string(), variant: "Ok".to_string(), data: vec![Value::Unit] };
    assert_eq!(e.to_text(), "Ok(())");
    let u = Value::Enum { enum_name: "C".to_string(), variant: "Red".to_string(), data: vec![] };
    assert_eq!(u.to_text(), "Red");
}

#[test]
fn checked_arithmetic() {
    assert_eq!(arith(BinOp::Add, i64::MAX, 1), Err("integer overflow".to_string()));
    assert_eq!(arith(BinOp::Sub, i64::MIN, 1), Err("integer overflow".to_string()));
    assert_eq!(arith(BinOp::Mul, 1 << 62, 2), Err("integer overflow".to_string()));
    assert_eq!(arith(BinOp::Div, i64::MIN, -1), Err("integer overflow".to_string()));
    assert_eq!(arith(BinOp::Div, 7, 0), Err("division by zero".to_string()));
    assert_eq!(arith(BinOp::Rem, 7, 0), Err("remainder by zero".to_string()));
    assert_eq!(arith(BinOp::Div, -7, 2), Ok(-3));
    assert_eq!(arith(BinOp::Rem, -7, 2), Ok(-1));
    assert_eq!(arith(BinOp::Rem, 7, -2), Ok(1));
    assert_eq!(arith(BinOp::Rem, i64::MIN, -1), Ok(0));
    assert_eq!(arith(BinOp::Mul, -4, 5), Ok(-20));
}

fn show(r: Result<Value, String>) -> String {
    match r {
        Ok(v) => v.to_text(),
        Err(e) => format!("error: {}", e),
    }
}

#[test]
fn binary_and_unary_operators() {
    assert_eq!(show(eval_binary(BinOp::Lt, &Value::Str("abc".into()), &Value::Str("abd".into()))), "true");
    assert_eq!(show(eval_binary(BinOp::Ge, &Value::Bool(false), &Value::Bool(true))), "false");
    assert_eq!(
        show(eval_binary(BinOp::Eq, &Value::Array(vec![Value::Int(1)]), &Value::Array(vec![Value::Int(1)]))),
        "true"
    );
    assert_eq!(show(eval_binary(BinOp::Ne, &Value::Unit, &Value::Unit)), "error: cannot compare () and ()");
    assert_eq!(show(eval_binary(BinOp::Eq, &Value::Int(1), &Value::Bool(true))), "error: cannot compare 1 and true");
    assert_eq!(show(eval_binary(BinOp::Eq, &Value::Str("a".into()), &Value::Str("a".into()))), "true");
    assert_eq!(show(eval_binary(BinOp::Ne, &Value::Int(2), &Value::Int(3))), "true");
    assert_eq!(
        show(eval_binary(BinOp::Add, &Value::Int(1), &Value::Bool(true))),
        "error: arithmetic on non-ints: 1 Add true"
    );
    assert_eq!(
        show(eval_binary(BinOp::Lt, &Value::Unit, &Value::Int(1))),
        "error: cannot compare () and 1"
    );
    assert_eq!(show(eval_unary(UnOp::Neg, &Value::Int(5))), "-5");
    assert_eq!(show(eval_unary(UnOp::Neg, &Value::Int(i64::MIN))), "error: integer overflow");
    assert_eq!(show(eval_unary(UnOp::Not, &Value::Int(1))), "error: invalid unary Not on 1");
    assert_eq!(order_text("b", "ab"), 1);
    assert_eq!(order_text("ab", "abc"), -1);
    assert_eq!(order_text("سارة", "سارة"), 0);
}

#[test]
fn checker_accepts_and_rejects() {
    let good = parse("struct P { x: int }\nimpl P { fn get(&self) -> int { self.x } }\nfn main() { let p = P { x: 1 } print(p.get()) }");
    assert_eq!(Checker::new().check(&good), Ok(()));
    let bad = parse("impl Q { fn f() { } }\nfn main() { }");
    assert_eq!(Checker::new().check(&bad), Err("cannot impl unknown type `Q`".to_string()));
}

#[test]
fn interpreter_runs_a_checked_program() {
    let prog = parse("fn main() { var xs = [3] xs.push(4) print(xs, xs.len()) }");
    assert_eq!(Interp::new().run(&prog), Ok("[3, 4] 2\n".to_string()));
    let french = parse("fonction principal() { affiche(\"salut\") }");
    assert_eq!(Interp::new().run(&french), Ok("salut\n".to_string()));
}

#[test]
fn interpreter_reports_runtime_errors() {
    let prog = parse("fn main() { let xs = [1, 2] print(xs[2]) }");
    assert_eq!(
        Interp::new().run(&prog),
        Err("line 1: index 2 out of bounds for array of length 2".to_string())
    );
    let prog = parse("fn main() { var xs = [1] xs.pop() xs.pop() }");
    assert_eq!(Interp::new().run(&prog), Err("line 1: pop from an empty array".to_string()));
}

const FIB: &str = "fn fib(n: int) -> int { if n < 2 { n } else { fib(n - 1) + fib(n - 2) } }\n\
                   fn main() { print(fib(20)) var s = 0 for i in 1..101 { s = s + i } print(s) }";

#[test]
fn native_plan_for_the_int_subset() {
    let plan = plan_program(&parse(FIB)).expect("in the subset");
    assert_eq!(plan.funcs.len(), 2);
    assert_eq!(plan.entry, 1);
    assert_eq!(plan.funcs[0].name, "fib");
    assert_eq!(plan.funcs[0].params, 1);
    assert!(plan.funcs[0].has_ret);
    assert!(matches!(plan.funcs[0].ops[0], Op::Entry { block: 0 }));
    assert!(matches!(plan.funcs[0].ops[1], Op::Param { dst: 0, block: 0, index: 0 }));
    assert!(plan.funcs[1].ops.iter().any(|o| matches!(o, Op::PrintInt { .. })));
    assert!(matches!(plan.funcs[1].ops.last(), Some(Op::Return { value: None })));
}

#[test]
fn native_plan_rejects_outside_the_subset() {
    let e = plan_program(&parse("fn main() { let s = \"hello\" print(s) }")).err().unwrap();
    assert_eq!(
        e,
        "the native backend does not support strings yet — run this program with `tnc run` instead"
    );
    let e = plan_program(&parse("struct P { x: int }\nfn main() { }")).err().unwrap();
    assert!(e.contains("structs, enums, or impl blocks"), "{}", e);
    let e = plan_program(&parse("fn f(x: str) { }\nfn main() { }")).err().unwrap();
    assert!(e.contains("the type `str`"), "{}", e);
    let e = plan_program(&parse("fn helper() { }")).err().unwrap();
    assert_eq!(e, "no entry point: define `fn main()`");
    let e = plan_program(&parse("fn main(x: int) { }")).err().unwrap();
    assert_eq!(e, "the entry point must take no parameters");
}

#[test]
fn native_plan_rejects_strings() {
    let e = plan_program(&parse("fn main() { let x = 1 if x == 1 { print(\"yes\") } }")).err().unwrap();
    assert_eq!(
        e,
        "the native backend does not support strings yet — run this program with `tnc run` instead"
    );
}

#[test]
fn http_framing() {
    assert_eq!(find(b"GET / HTTP/1.1\r\n\r\nbody", b"\r\n\r\n"), Some(14));
    assert_eq!(find(b"no end", b"\r\n\r\n"), None);
    assert_eq!(content_length("POST /run HTTP/1.1\r\nHost: x\r\nContent-Length: 12"), 12);
    assert_eq!(content_length("POST /run HTTP/1.1\r\ncontent-LENGTH:   7  "), 7);
    assert_eq!(content_length("POST /run HTTP/1.1\r\nContent-Length: +5"), 5);
    assert_eq!(content_length("POST /run HTTP/1.1\r\nContent-Length: abc"), 0);
    assert_eq!(content_length("GET / HTTP/1.1\r\nHost: x"), 0);
    assert!(body_complete(30, 10, 16));
    assert!(!body_complete(30, 10, 17));
    assert!(is_run_request("POST /run HTTP/1.1\r\nHost: x"));
    assert!(!is_run_request("GET / HTTP/1.1\r\nHost: x"));
    assert!(!is_run_request("GET /run HTTP/1.1"));
    assert_eq!(reply_text(Ok(String::new())), "(program produced no output)");
    assert_eq!(reply_text(Ok("1\n".to_string())), "1\n");
    assert_eq!(reply_text(Err("boom".to_string())), "error: boom");
    assert_eq!(
        response_head("200 OK", "text/plain", 5),
        "HTTP/1.1 200 OK\r\nContent-Type: text/plain\r\nContent-Length: 5\r\nAccess-Control-Allow-Origin: *\r\nConnection: close\r\n\r\n"
    );
}

#[test]
fn checker_on_straight_line_bodies() {
    let good = parse("fn main() { let x = 1 var y = x + 2 y = y * 3 print(x, y) }");
    assert_eq!(Checker::new().check(&good), Ok(()));
    let immutable = parse("fn main() { let x = 1 x = 2 }");
    assert_eq!(
        Checker::new().check(&immutable),
        Err("cannot mutate immutable binding `x` — declare it with `var`/`متغير`/`variable`".to_string())
    );
    let wrong_type = parse("fn main() { var x = 1 x = true }");
    assert_eq!(Checker::new().check(&wrong_type), Err("cannot assign `bool` to `x` of type `int`".to_string()));
    let body_type = parse("fn main() { 1 + 2 }");
    assert_eq!(
        Checker::new().check(&body_type),
        Err("function `main`: body has type `int` but the declared return type is `unit`".to_string())
    );
    let moved = parse("fn main() { let s = \"a\" let t = s print(s) }");
    assert_eq!(
        Checker::new().check(&moved),
        Err("line 1: use of moved value `s` (moved on line 1) — use `.clone()` to keep a copy".to_string())
    );
    let revived = parse("fn main() { var s = \"a\" let t = s s = \"b\" print(s, t) }");
    assert_eq!(Checker::new().check(&revived), Ok(()));
}

#[test]
fn interpreter_assignments() {
    let prog = parse("fn main() { var x = 1 x = x + 41 print(x) }");
    assert_eq!(Interp::new().run(&prog), Ok("42\n".to_string()));
    let immutable = parse("fn main() { let x = 1 x = 2 }");
    assert_eq!(
        Interp::new().run(&immutable),
        Err("cannot assign to immutable binding `x` (use `var`/`متغير`)".to_string())
    );
    let unknown = parse("fn main() { y = 2 }");
    assert_eq!(Interp::new().run(&unknown), Err("cannot find `y` to assign".to_string()));
}

#[test]
fn checked_programs_fail_only_on_arithmetic() {
    let prog = parse("fn main() { let big = 9223372036854775807 print(\"big\", big) print(big + 1) }");
    assert_eq!(Checker::new().check(&prog), Ok(()));
    assert_eq!(Interp::new().run(&prog), Err("line 1: integer overflow".to_string()));
    let prog = parse("fn main() { var d = 0 d = 10 / d }");
    assert_eq!(Checker::new().check(&prog), Ok(()));
    assert_eq!(Interp::new().run(&prog), Err("line 1: division by zero".to_string()));
}

#[test]
fn loops_and_branches_check_and_run() {
    let prog = parse("fn main() { var i = 0 while i < 3 { print(i) i = i + 1 } }");
    assert_eq!(Checker::new().check(&prog), Ok(()));
    assert_eq!(Interp::new().run(&prog), Ok("0\n1\n2\n".to_string()));
    let prog = parse("fn main() { let x = 5 if x > 3 { print(\"big\") } else { print(\"small\") } }");
    assert_eq!(Checker::new().check(&prog), Ok(()));
    assert_eq!(Interp::new().run(&prog), Ok("big\n".to_string()));
    let prog = parse("fn main() { let x = 1 if x > 3 { print(\"big\") } else if x > 0 { print(\"some\") } }");
    assert_eq!(Interp::new().run(&prog), Ok("some\n".to_string()));
}

#[test]
fn loop_and_branch_diagnostics() {
    let prog = parse("fn main() { while 1 { } }");
    assert_eq!(
        Checker::new().check(&prog),
        Err("line 1: while condition: expected `bool`, found `int`".to_string())
    );
    let prog = parse("fn main() { let s = \"a\" var i = 0 while i < 2 { let t = s i = i + 1 } }");
    assert_eq!(
        Checker::new().check(&prog),
        Err("line 1: `s` is moved inside a loop — a later iteration would use the moved value; use `.clone()`".to_string())
    );
    let prog = parse("fn main() { if true { 1 } else { \"a\" } }");
    assert_eq!(
        Checker::new().check(&prog),
        Err("line 1: if branches have differing types: `int` vs `str`".to_string())
    );
    let prog = parse("fn main() { if 1 { print(\"x\") } }");
    assert_eq!(Interp::new().run(&prog), Err("line 1: condition must be a bool, found 1".to_string()));
}

#[test]
fn range_loops_check_and_run() {
    let prog = parse("fn main() { var s = 0 for i in 1..6 { s = s + i } print(s) }");
    assert_eq!(Checker::new().check(&prog), Ok(()));
    assert_eq!(Interp::new().run(&prog), Ok("15\n".to_string()));
    let prog = parse("fn main() { for i in 0..true { } }");
    assert_eq!(
        Checker::new().check(&prog),
        Err("line 1: for range end: expected `int`, found `bool`".to_string())
    );
    assert_eq!(Interp::new().run(&prog), Err("line 1: expected an integer, found true".to_string()));
    let prog = parse("fn main() { for i in 0..2 { i = 5 } }");
    assert_eq!(
        Checker::new().check(&prog),
        Err("cannot mutate immutable binding `i` — declare it with `var`/`متغير`/`variable`".to_string())
    );
}

#[test]
fn annotated_bindings() {
    let prog = parse("fn main() { let x: int = 5 let s: str = \"a\" var b: bool = true print(x, s, b) }");
    assert_eq!(Checker::new().check(&prog), Ok(()));
    assert_eq!(Interp::new().run(&prog), Ok("5 a true\n".to_string()));
    let prog = parse("fn main() { let x: عدد = 5 let y: entier = x + 1 print(y) }");
    assert_eq!(Checker::new().check(&prog), Ok(()));
    let prog = parse("fn main() { let x: int = true }");
    assert_eq!(
        Checker::new().check(&prog),
        Err("let `x`: annotated `int` but initializer has type `bool`".to_string())
    );
}

#[test]
fn interpolated_strings_check_and_run() {
    let prog = parse("fn main() { let n = 3 let who = \"world\" print(\"hi {who}, n = {n + 1}\") }");
    assert_eq!(Checker::new().check(&prog), Ok(()));
    assert_eq!(Interp::new().run(&prog), Ok("hi world, n = 4\n".to_string()));
    let prog = parse("fn main() { let big = 9223372036854775807 print(\"{big + 1}\") }");
    assert_eq!(Checker::new().check(&prog), Ok(()));
    assert_eq!(Interp::new().run(&prog), Err("line 1: integer overflow".to_string()));
}

#[test]
fn keyword_spelling_leaves_tokens_unchanged() {
    let lex = |s: &str| format!("{:?}", Lexer::new(s).tokenize());
    let a = "fn main() {\n    ";
    let b = " x = 1\n    print(x)\n}";
    let en = lex(&format!("{}let{}", a, b));
    assert_eq!(en, lex(&format!("{}دع{}", a, b)));
    assert_eq!(en, lex(&format!("{}soit{}", a, b)));
    // The same error, on the same line, whichever spelling is used.
    let bad = " x = 1\n    print(\"\u{202E}\")\n}";
    let en = lex(&format!("{}while{}", a, bad));
    assert!(en.contains("line 3"), "{}", en);
    assert_eq!(en, lex(&format!("{}طالما{}", a, bad)));
    assert_eq!(en, lex(&format!("{}tantque{}", a, bad)));
}

#[test]
fn operator_precedence_and_associativity() {
    let prog = parse("fn main() { print(10 - 4 - 3, 2 + 3 * 4, 20 / 2 / 5, 7 % 4 * 2, 1 + 2 < 4, 2 * 3 == 6) }");
    assert_eq!(Interp::new().run(&prog), Ok("3 14 2 6 true true\n".to_string()));
}

#[test]
fn interpolated_strings_parse_to_their_pieces() {
    let prog = parse("fn main() { print(\"a{1 + 2}b{x}\") }");
    assert_eq!(format!("{:?}", prog).matches("StrInterp").count(), 1);
    let toks = Lexer::new("fn main() { print(\"{1 +}\") }").tokenize().expect("lexes");
    assert!(Parser::new(toks).parse_program().is_err());
}

#[test]
fn arrays_check_and_run() {
    let prog = parse("fn main() { let a = [1, 2, 3] let i = 2 print(a[0] + a[i], [[1], []][0][0]) }");
    assert_eq!(Checker::new().check(&prog), Ok(()));
    assert_eq!(Interp::new().run(&prog), Ok("4 1\n".to_string()));
    // Checked programs stop only on checked faults: here, a bad index.
    let prog = parse("fn main() { let a = [1, 2] print(a[5]) }");
    assert_eq!(Checker::new().check(&prog), Ok(()));
    assert_eq!(Interp::new().run(&prog), Err("line 1: index 5 out of bounds for array of length 2".to_string()));
    let prog = parse("fn main() { let a = [1, true] }");
    assert_eq!(
        Checker::new().check(&prog),
        Err("line 1: array element: expected `int`, found `bool`".to_string())
    );
    let prog = parse("fn main() { let a = [] }");
    assert_eq!(
        Checker::new().check(&prog),
        Err("line 1: cannot infer the element type of an empty array — annotate the binding, e.g. `let v: [int] = []`".to_string())
    );
    let prog = parse("fn main() { let x = 1 print(x[0]) }");
    assert_eq!(Checker::new().check(&prog), Err("line 1: cannot index a value of type `int`".to_string()));
    let prog = parse("fn main() { let a = [1] print(a[true]) }");
    assert_eq!(
        Checker::new().check(&prog),
        Err("line 1: array index: expected `int`, found `bool`".to_string())
    );
}

#[test]
fn array_length_in_three_languages() {
    let prog = parse("fn main() { let a = [4, 5, 6] var s = 0 for i in 0..a.len() { s = s + a[i] } print(s, a.طول(), a.longueur()) }");
    assert_eq!(Checker::new().check(&prog), Ok(()));
    assert_eq!(Interp::new().run(&prog), Ok("15 3 3\n".to_string()));
    assert_eq!(
        tnc::compile_and_run("fn main() { let a = [[1, 2], [3]] print(a[0].len() + a[1].len()) }"),
        Ok("3\n".to_string())
    );
}

#[test]
fn array_iteration_checks_and_runs() {
    let prog = parse("fn main() { let a = [1, 2, 3] var s = 0 for x in a { s = s + x } print(s) }");
    assert_eq!(Checker::new().check(&prog), Ok(()));
    assert_eq!(Interp::new().run(&prog), Ok("6\n".to_string()));
    let prog = parse("fn main() { for x in 5 { } }");
    assert_eq!(Checker::new().check(&prog), Err("line 1: `for .. in` requires an array, got `int`".to_string()));
    assert_eq!(Interp::new().run(&prog), Err("line 1: `for .. in` requires an array, found 5".to_string()));
    let prog = parse("fn main() { let a = [1] for x in a { } print(a[0]) }");
    assert_eq!(
        Checker::new().check(&prog),
        Err("line 1: use of moved value `a` (moved on line 1) — use `.clone()` to keep a copy".to_string())
    );
}
