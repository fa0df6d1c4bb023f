use tnc::compile_and_run;

fn ok(src: &str) -> String {
    match compile_and_run(src) {
        Ok(out) => out,
        Err(e) => panic!("expected the program to run, got error: {}", e),
    }
}

fn err(src: &str) -> String {
    match compile_and_run(src) {
        Ok(out) => panic!("expected an error, got output {:?}", out),
        Err(e) => e,
    }
}

#[test]
fn adult_in_three_languages() {
    let en = "fn main() {\n    let age = 20\n    if age > 18 {\n        print(\"Adult\")\n    }\n}";
    let ar = "دالة رئيسي() {\n    دع العمر = ٢٠\n    اذا العمر > ١٨ {\n        اطبع(\"بالغ\")\n    }\n}";
    let fr = "fonction principal() {\n    soit âge = 20\n    si âge > 18 {\n        affiche(\"Adulte\")\n    }\n}";
    assert_eq!(ok(en), "Adult\n");
    assert_eq!(ok(ar), "بالغ\n");
    assert_eq!(ok(fr), "Adulte\n");
}

#[test]
fn loops_and_recursion() {
    let src = "fn factorial(n: int) -> int { if n <= 1 { 1 } else { n * factorial(n - 1) } }\n\
               fn main() { var s = 0 for i in 1..6 { s = s + i } print(\"sum 1..5 =\", s) print(\"factorial(5) =\", factorial(5)) }";
    assert_eq!(ok(src), "sum 1..5 = 15\nfactorial(5) = 120\n");
}

#[test]
fn structs_enums_and_match() {
    let src = "struct Point { x: int, y: int }\n\
               enum Shape { Circle(int), Rect(int, int), Dot }\n\
               fn area(s: Shape) -> int { match s { Circle(r) => 3 * r * r, Rect(w, h) => w * h, Dot => 0 } }\n\
               fn classify(n: int) -> str { match n { 0 => \"zero\", _ => \"many\" } }\n\
               fn main() {\n\
                 let p = Point { x: 3, y: 4 }\n\
                 print(\"point:\", p.x, p.y)\n\
                 print(\"area circle:\", area(Shape::Circle(5)))\n\
                 print(\"area rect:\", area(Rect(3, 4)))\n\
                 print(\"area dot:\", area(Dot))\n\
                 print(\"classify 0:\", classify(0))\n\
                 print(\"classify 7:\", classify(7))\n\
               }";
    assert_eq!(
        ok(src),
        "point: 3 4\narea circle: 75\narea rect: 12\narea dot: 0\nclassify 0: zero\nclassify 7: many\n"
    );
}

#[test]
fn methods_and_associated_functions() {
    let src = "struct Point { x: int, y: int }\n\
               impl Point {\n\
                 fn new(x: int, y: int) -> Point { Point { x: x, y: y } }\n\
                 fn sum(&self) -> int { self.x + self.y }\n\
                 fn shifted(&self, d: int) -> Point { Point { x: self.x + d, y: self.y } }\n\
               }\n\
               fn main() { let p = Point::new(3, 4) print(\"p.sum:\", p.sum()) let q = p.shifted(10) print(\"q.x:\", q.x, \"q.sum:\", q.sum()) }";
    assert_eq!(ok(src), "p.sum: 7\nq.x: 13 q.sum: 17\n");
}

#[test]
fn arrays() {
    let src = "fn main() {\n\
                 let a = [10, 20, 30]\n\
                 print(\"first:\", a[0])\n\
                 print(\"len:\", a.len())\n\
                 var s = 0\n\
                 for x in a.clone() { s = s + x }\n\
                 print(\"sum:\", s)\n\
                 var b = [1, 2]\n\
                 b.push(3)\n\
                 print(\"after push:\", b.clone())\n\
                 let last = b.pop()\n\
                 print(\"popped:\", last, \"now:\", b.clone())\n\
                 let g = [\"A\", \"B+\"]\n\
                 print(\"grades:\", g)\n\
                 print(\"arrays equal:\", [1, 2] == [1, 2])\n\
               }";
    assert_eq!(
        ok(src),
        "first: 10\nlen: 3\nsum: 60\nafter push: [1, 2, 3]\npopped: 3 now: [1, 2]\ngrades: [A, B+]\narrays equal: true\n"
    );
}

#[test]
fn arrays_in_arabic_and_french() {
    let ar = "دالة رئيسي() { متغير ب = [١، ٢] ب.أضف(٣) اطبع(ب.طول()) دع س = ب.اسحب() اطبع(س) }";
    assert_eq!(ok(ar), "3\n3\n");
    let fr = "fonction principal() { variable b = [1, 2] b.ajoute(3) affiche(b.longueur()) soit x = b.retire() affiche(x) }";
    assert_eq!(ok(fr), "3\n3\n");
}

#[test]
fn result_and_question_mark() {
    let src = "fn div(a: int, b: int) -> Result<int, str> { if b == 0 { Err(\"division by zero\") } else { Ok(a / b) } }\n\
               fn calc(a: int, b: int) -> Result<int, str> { let q = div(a, b)? Ok(q + 1) }\n\
               fn show(r: Result<int, str>) { match r { Ok(v) => print(\"ok:\", v), Err(e) => print(\"error:\", e) } }\n\
               fn main() { show(div(10, 2)) show(div(1, 0)) show(calc(4, 2)) show(calc(1, 0)) }";
    assert_eq!(ok(src), "ok: 5\nerror: division by zero\nok: 3\nerror: division by zero\n");
}

#[test]
fn result_in_arabic() {
    let src = "دالة قسمة(أ: عدد، ب: عدد) -> نتيجة<عدد، نص> { اذا ب == ٠ { فشل(\"قسمة على صفر\") } وإلا { نجاح(أ / ب) } }\n\
               دالة احسب(أ: عدد، ب: عدد) -> نتيجة<عدد، نص> { دع ق = قسمة(أ، ب)؟ نجاح(ق + ١) }\n\
               دالة اعرض(ن: نتيجة<عدد، نص>) { طابق ن { نجاح(ق) => اطبع(\"نجاح:\", ق), فشل(خ) => اطبع(\"فشل:\", خ) } }\n\
               دالة رئيسي() { اعرض(قسمة(١٠، ٢)) اعرض(احسب(١، ٠)) }";
    assert_eq!(ok(src), "نجاح: 5\nفشل: قسمة على صفر\n");
}

#[test]
fn mut_self_updates_in_place() {
    let src = "struct Counter { count: int, log: [str] }\n\
               impl Counter {\n\
                 fn bump(&mut self, by: int) { self.count = self.count + by }\n\
                 fn note(&mut self, s: str) { self.log.push(s) }\n\
               }\n\
               fn main() {\n\
                 let empty: [str] = []\n\
                 var c = Counter { count: 0, log: empty }\n\
                 c.bump(5)\n\
                 c.bump(7)\n\
                 c.note(\"after twelve\")\n\
                 print(\"count:\", c.count)\n\
                 print(\"log:\", c.log)\n\
                 c.count = 100\n\
                 print(\"set directly:\", c.count)\n\
                 var xs = [1, 2, 3]\n\
                 xs[0] = 9\n\
                 print(\"xs:\", xs)\n\
               }";
    assert_eq!(ok(src), "count: 12\nlog: [after twelve]\nset directly: 100\nxs: [9, 2, 3]\n");
}

#[test]
fn ownership_with_clone() {
    let src = "fn show(s: str) { print(\"owned:\", s) }\n\
               fn main() { let s = \"hello\" let t = s.clone() show(t) print(\"copy still valid:\", s)\n\
               let a = \"first\" let b = \"second\" print(a, \"/\", b) let c = s.clone() let d = c.clone() print(\"cloned twice:\", d) }";
    assert_eq!(ok(src), "owned: hello\ncopy still valid: hello\nfirst / second\ncloned twice: hello\n");
}

#[test]
fn mixed_surfaces_in_one_program() {
    let src = "fonction principal() {\n    let solde = 150\n    اطبع(\"solde:\", solde)\n    si solde > 100 { affiche(\"label: riche\") } sinon { print(\"label: pauvre\") }\n}";
    assert_eq!(ok(src), "solde: 150\nlabel: riche\n");
}

#[test]
fn digits_of_every_script_fold() {
    assert_eq!(ok("fn main() { print(١٢ + ۳, 4) }"), "15 4\n");
}

#[test]
fn while_else_if_and_return() {
    let src = "fn sign(n: int) -> int { if n < 0 { return -1 } else if n == 0 { return 0 } 1 }\n\
               fn main() { var i = 0 while i < 3 { i = i + 1 } print(i, sign(-5), sign(0), sign(8)) }";
    assert_eq!(ok(src), "3 -1 0 1\n");
}

#[test]
fn booleans_and_comparisons() {
    let src = "fn main() { print(!true, 1 != 2, \"abc\" < \"abd\", 3 >= 3, -7 / 2, -7 % 2) }";
    assert_eq!(ok(src), "false true true true -3 -1\n");
}

#[test]
fn overflow_is_a_runtime_error() {
    let e = err("fn main() { let x = 9223372036854775807 print(x + 1) }");
    assert!(e.contains("integer overflow"), "{}", e);
}

#[test]
fn division_by_zero_is_a_runtime_error() {
    assert_eq!(err("fn main() { print(1 / 0) }"), "line 1: division by zero");
    assert_eq!(err("fn main() { print(1 % 0) }"), "line 1: remainder by zero");
}

#[test]
fn non_bool_condition_is_rejected() {
    let e = err("fn main() { if 1 { print(\"x\") } }");
    assert!(e.contains("expected `bool`"), "{}", e);
}

#[test]
fn non_exhaustive_match_is_rejected() {
    let e = err("enum C { R, G, B }\nfn main() { let c = R match c { R => print(\"r\"), G => print(\"g\") } }");
    assert!(e.contains("non-exhaustive"), "{}", e);
    assert!(e.contains("missing variant(s) B"), "{}", e);
}

#[test]
fn duplicate_type_is_rejected() {
    let e = err("struct A { x: int }\nenum A { B }\nfn main() { }");
    assert!(e.contains("type `A` is declared more than once"), "{}", e);
}

#[test]
fn duplicate_variant_is_rejected() {
    let e = err("enum A { X }\nenum B { X }\nfn main() { }");
    assert!(e.contains("variant `X`"), "{}", e);
}

#[test]
fn missing_entry_point_is_reported() {
    assert_eq!(
        err("fn helper() { }"),
        "no entry point: define `fn main()` or `دالة رئيسي()`"
    );
}

#[test]
fn assignment_to_immutable_binding_is_rejected() {
    let e = err("fn main() { let x = 1 x = 2 }");
    assert!(e.contains("immutable"), "{}", e);
}

#[test]
fn unterminated_string_is_a_lexical_error() {
    let e = err("fn main() { print(\"abc) }");
    assert!(e.contains("unterminated string literal"), "{}", e);
}

#[test]
fn empty_source_has_no_entry_point() {
    assert!(err("").contains("no entry point"));
}

#[test]
fn program_without_output() {
    assert_eq!(ok("fn main() { let x = 1 }"), "");
}

#[test]
fn string_interpolation() {
    let src = "fn main() {\n    let name = \"Sara\"\n    let age = 20\n    print(\"Hello, {name} — you are {age}\")\n    print(\"next year you will be {age + 1}\")\n    print(\"a literal brace: {{ and }}\")\n}";
    assert_eq!(ok(src), "Hello, Sara — you are 20\nnext year you will be 21\na literal brace: { and }\n");
}

#[test]
fn string_interpolation_in_arabic() {
    let src = "دالة رئيسي() {\n    دع الاسم = \"سارة\"\n    دع العمر = ٢٠\n    اطبع(\"مرحبا، {الاسم} — عمرك {العمر}\")\n    اطبع(\"في السنة القادمة ستكون {العمر + ١}\")\n}";
    assert_eq!(ok(src), "مرحبا، سارة — عمرك 20\nفي السنة القادمة ستكون 21\n");
}

#[test]
fn unclosed_interpolation_brace_is_rejected() {
    let e = err("fn main() { print(\"a {b\") }");
    assert!(e.contains("unclosed `{`"), "{}", e);
}
