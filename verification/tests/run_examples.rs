use tnc::compile_and_run;

fn run_err(src: &str) -> String {
    match compile_and_run(src) {
        Ok(out) => panic!("expected an error, got output {:?}", out),
        Err(e) => e,
    }
}

#[test]
fn array_type_errors_are_rejected() {
    let het = run_err("fn main() { let a = [1, \"x\"] }");
    assert!(het.contains("array element"), "{}", het);

    let imm = run_err("fn main() { let a = [1] a.push(2) }");
    assert!(imm.contains("immutable"), "{}", imm);

    let empty = run_err("fn main() { let a = [] }");
    assert!(empty.contains("annotate"), "{}", empty);
}

#[test]
fn array_bounds_checked_at_runtime() {
    let oob = run_err("fn main() { let a = [1] print(a[5]) }");
    assert!(oob.contains("out of bounds"), "{}", oob);
}

#[test]
fn result_misuse_is_rejected() {
    let q = run_err("fn f() -> Result<int, str> { Ok(1) }\nfn main() { let x = f()? }");
    assert!(q.contains("function returning `Result`"), "{}", q);

    let nx = run_err("fn f() -> Result<int, str> { Ok(1) }\nfn main() { let s = match f() { Ok(v) => 1 } }");
    assert!(nx.contains("missing variant(s) Err"), "{}", nx);
}

#[test]
fn mut_self_misuse_is_rejected() {
    let imm = run_err(
        "struct C { n: int }\nimpl C { fn bump(&mut self) { self.n = self.n + 1 } }\nfn main() { let c = C { n: 0 } c.bump() }",
    );
    assert!(imm.contains("immutable binding `c`"), "{}", imm);

    let ro = run_err("struct C { n: int }\nimpl C { fn get(&self) -> int { self.n = 5 self.n } }\nfn main() { }");
    assert!(ro.contains("&mut self"), "{}", ro);
}

#[test]
fn use_after_move_is_rejected() {
    let basic = run_err("fn main() { let s = \"hi\" let t = s print(s) }");
    assert!(basic.contains("use of moved value `s`"), "{}", basic);

    let in_loop = run_err("fn eat(s: str) { print(s) }\nfn main() { let s = \"hi\" for i in 0..3 { eat(s) } }");
    assert!(in_loop.contains("moved inside a loop"), "{}", in_loop);

    let in_branch = run_err(
        "fn eat(s: str) { print(s) }\nfn main() { let s = \"hi\" if true { eat(s) } else { print(\"n\") } eat(s) }",
    );
    assert!(in_branch.contains("use of moved value `s`"), "{}", in_branch);

    let cloned = compile_and_run("fn eat(s: str) { print(s) }\nfn main() { let s = \"hi\" let t = s.clone() eat(t) eat(s) }");
    assert_eq!(cloned, Ok("hi\nhi\n".to_string()));
}

#[test]
fn utf8_bom_is_skipped() {
    assert_eq!(compile_and_run("\u{FEFF}fn main() { print(\"ok\") }"), Ok("ok\n".to_string()));
}

#[test]
fn trojan_source_is_rejected() {
    let e = run_err("fn main() {\n    // h\u{202E}idden\n    print(1)\n}");
    assert!(e.contains("bidirectional"), "{}", e);
}
