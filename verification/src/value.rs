//! Runtime values of the interpreter, their textual form, and the
//! arithmetic and comparison operators on them.

use vstd::prelude::*;
use crate::ast::{BinOp, UnOp};
use crate::text::{dec, int_text, push_dec, push_int, str_chars, string_of_str};

verus! {

broadcast use vstd::std_specs::vec::axiom_vec_index_decreases;

pub enum Value {
    Int(i64),
    Bool(bool),
    Str(String),
    Unit,
    Struct { name: String, fields: Vec<(String, Value)> },
    Enum { enum_name: String, variant: String, data: Vec<Value> },
    /// `[a, b, c]` — a growable array.
    Array(Vec<Value>),
}

/// The mathematical model of a [`Value`]: strings as character sequences and
/// collections as sequences.
pub enum SpecValue {
    Int(i64),
    Bool(bool),
    Str(Seq<char>),
    Unit,
    Struct { name: Seq<char>, fields: Seq<(Seq<char>, SpecValue)> },
    Enum { enum_name: Seq<char>, variant: Seq<char>, data: Seq<SpecValue> },
    Array(Seq<SpecValue>),
}

pub open spec fn view_value(v: Value) -> SpecValue
    decreases v, 1int,
{
    match v {
        Value::Int(n) => SpecValue::Int(n),
        Value::Bool(b) => SpecValue::Bool(b),
        Value::Str(s) => SpecValue::Str(s@),
        Value::Unit => SpecValue::Unit,
        Value::Struct { name, fields } => SpecValue::Struct { name: name@, fields: view_fields(fields@) },
        Value::Enum { enum_name, variant, data } => SpecValue::Enum {
            enum_name: enum_name@,
            variant: variant@,
            data: view_list(data@),
        },
        Value::Array(xs) => SpecValue::Array(view_list(xs@)),
    }
}

pub open spec fn view_list(s: Seq<Value>) -> Seq<SpecValue>
    decreases s, 0int,
{
    if s.len() == 0 {
        Seq::empty()
    } else {
        view_list(s.subrange(0, s.len() - 1)).push(view_value(s[s.len() - 1]))
    }
}

pub open spec fn view_fields(s: Seq<(String, Value)>) -> Seq<(Seq<char>, SpecValue)>
    decreases s, 0int,
{
    if s.len() == 0 {
        Seq::empty()
    } else {
        view_fields(s.subrange(0, s.len() - 1)).push((s[s.len() - 1].0@, view_value(s[s.len() - 1].1)))
    }
}

impl View for Value {
    type V = SpecValue;

    open spec fn view(&self) -> SpecValue {
        view_value(*self)
    }
}

/// The view of a list is taken element by element.
pub proof fn lemma_view_list(s: Seq<Value>)
    ensures
        view_list(s).len() == s.len(),
        forall|i: int| 0 <= i < s.len() ==> #[trigger] view_list(s)[i] == view_value(s[i]),
    decreases s.len(),
{
    if s.len() > 0 {
        let t = s.subrange(0, s.len() - 1);
        lemma_view_list(t);
        assert forall|i: int| 0 <= i < s.len() implies #[trigger] view_list(s)[i] == view_value(s[i]) by {
            if i < s.len() - 1 {
                assert(t[i] == s[i]);
            }
        }
    }
}

/// The view of a field list is taken entry by entry.
pub proof fn lemma_view_fields(s: Seq<(String, Value)>)
    ensures
        view_fields(s).len() == s.len(),
        forall|i: int| 0 <= i < s.len() ==> #[trigger] view_fields(s)[i] == (s[i].0@, view_value(s[i].1)),
    decreases s.len(),
{
    if s.len() > 0 {
        let t = s.subrange(0, s.len() - 1);
        lemma_view_fields(t);
        assert forall|i: int| 0 <= i < s.len() implies #[trigger] view_fields(s)[i] == (s[i].0@, view_value(s[i].1)) by {
            if i < s.len() - 1 {
                assert(t[i] == s[i]);
            }
        }
    }
}

// ---------------------------------------------------------------------------
// Display
// ---------------------------------------------------------------------------

/// How a value prints (`print`, interpolation).
pub open spec fn value_text(v: SpecValue) -> Seq<char>
    decreases v, 1int,
{
    match v {
        SpecValue::Int(n) => int_text(n as int),
        SpecValue::Bool(b) => if b { "true"@ } else { "false"@ },
        SpecValue::Str(s) => s,
        SpecValue::Unit => "()"@,
        SpecValue::Struct { name, fields } => name + " { "@ + fields_text(fields) + " }"@,
        SpecValue::Enum { variant, data, .. } => if data.len() == 0 {
            variant
        } else {
            variant + "("@ + list_text(data) + ")"@
        },
        SpecValue::Array(xs) => "["@ + list_text(xs) + "]"@,
    }
}

/// Values separated by `", "`.
pub open spec fn list_text(s: Seq<SpecValue>) -> Seq<char>
    decreases s, 0int,
{
    if s.len() == 0 {
        Seq::empty()
    } else if s.len() == 1 {
        value_text(s[0])
    } else {
        list_text(s.subrange(0, s.len() - 1)) + ", "@ + value_text(s[s.len() - 1])
    }
}

/// `k: v` pairs separated by `", "`.
pub open spec fn fields_text(s: Seq<(Seq<char>, SpecValue)>) -> Seq<char>
    decreases s, 0int,
{
    if s.len() == 0 {
        Seq::empty()
    } else if s.len() == 1 {
        s[0].0 + ": "@ + value_text(s[0].1)
    } else {
        fields_text(s.subrange(0, s.len() - 1)) + ", "@ + s[s.len() - 1].0 + ": "@ + value_text(s[s.len() - 1].1)
    }
}

/// Appends the printed form of `v`.
pub fn push_value(out: &mut String, v: &Value)
    ensures
        final(out)@ == old(out)@ + value_text(v@),
    decreases v, 1int,
{
    match v {
        Value::Int(n) => push_int(out, *n),
        Value::Bool(b) => {
            if *b {
                out.append("true");
            } else {
                out.append("false");
            }
        }
        Value::Str(s) => out.append(s.as_str()),
        Value::Unit => out.append("()"),
        Value::Struct { name, fields } => {
            out.append(name.as_str());
            out.append(" { ");
            push_fields(out, fields);
            out.append(" }");
        }
        Value::Enum { variant, data, .. } => {
            out.append(variant.as_str());
            proof {
                lemma_view_list(data@);
            }
            if data.len() > 0 {
                out.append("(");
                push_list(out, data);
                out.append(")");
            }
        }
        Value::Array(xs) => {
            out.append("[");
            push_list(out, xs);
            out.append("]");
        }
    }
    assert(final(out)@ =~= old(out)@ + value_text(v@));
}

fn push_list(out: &mut String, xs: &Vec<Value>)
    ensures
        final(out)@ == old(out)@ + list_text(view_list(xs@)),
    decreases xs, 0int,
{
    proof {
        lemma_view_list(xs@);
    }
    let ghost vs = view_list(xs@);
    let mut i: usize = 0;
    assert(vs.subrange(0, 0) =~= Seq::<SpecValue>::empty());
    while i < xs.len()
        invariant
            i <= xs.len(),
            vs == view_list(xs@),
            vs.len() == xs.len(),
            forall|k: int| 0 <= k < xs.len() ==> #[trigger] vs[k] == view_value(xs@[k]),
            out@ == old(out)@ + list_text(vs.subrange(0, i as int)),
        decreases xs.len() - i,
    {
        if i > 0 {
            out.append(", ");
        }
        push_value(out, &xs[i]);
        i = i + 1;
        assert(vs.subrange(0, i as int).subrange(0, i - 1) =~= vs.subrange(0, i - 1));
        assert(out@ =~= old(out)@ + list_text(vs.subrange(0, i as int)));
    }
    assert(vs.subrange(0, xs.len() as int) =~= vs);
}

fn push_fields(out: &mut String, fs: &Vec<(String, Value)>)
    ensures
        final(out)@ == old(out)@ + fields_text(view_fields(fs@)),
    decreases fs, 0int,
{
    proof {
        lemma_view_fields(fs@);
    }
    let ghost vs = view_fields(fs@);
    let mut i: usize = 0;
    assert(vs.subrange(0, 0) =~= Seq::<(Seq<char>, SpecValue)>::empty());
    while i < fs.len()
        invariant
            i <= fs.len(),
            vs == view_fields(fs@),
            vs.len() == fs.len(),
            forall|k: int| 0 <= k < fs.len() ==> #[trigger] vs[k] == (fs@[k].0@, view_value(fs@[k].1)),
            out@ == old(out)@ + fields_text(vs.subrange(0, i as int)),
        decreases fs.len() - i,
    {
        if i > 0 {
            out.append(", ");
        }
        out.append(fs[i].0.as_str());
        out.append(": ");
        assert(decreases_to!(fs@[i as int] => fs@[i as int].1));
        push_value(out, &fs[i].1);
        i = i + 1;
        assert(vs.subrange(0, i as int).subrange(0, i - 1) =~= vs.subrange(0, i - 1));
        assert(out@ =~= old(out)@ + fields_text(vs.subrange(0, i as int)));
    }
    assert(vs.subrange(0, fs.len() as int) =~= vs);
}

impl Value {
    /// The value as it prints.
    pub fn to_text(&self) -> (r: String)
        ensures
            r@ == value_text(self@),
    {
        let mut s = String::new();
        push_value(&mut s, self);
        assert(s@ =~= value_text(self@));
        s
    }
}

// ---------------------------------------------------------------------------
// Copy and equality
// ---------------------------------------------------------------------------

/// A deep copy of `v`.
pub fn clone_value(v: &Value) -> (r: Value)
    ensures
        r@ == v@,
    decreases v, 1int,
{
    match v {
        Value::Int(n) => Value::Int(*n),
        Value::Bool(b) => Value::Bool(*b),
        Value::Str(s) => Value::Str(s.clone()),
        Value::Unit => Value::Unit,
        Value::Struct { name, fields } => Value::Struct { name: name.clone(), fields: clone_fields(fields) },
        Value::Enum { enum_name, variant, data } => Value::Enum {
            enum_name: enum_name.clone(),
            variant: variant.clone(),
            data: clone_list(data),
        },
        Value::Array(xs) => Value::Array(clone_list(xs)),
    }
}

/// A deep copy of each value of `xs`.
pub fn clone_list(xs: &Vec<Value>) -> (r: Vec<Value>)
    ensures
        view_list(r@) == view_list(xs@),
    decreases xs, 0int,
{
    proof {
        lemma_view_list(xs@);
    }
    let mut out: Vec<Value> = Vec::new();
    let mut i: usize = 0;
    while i < xs.len()
        invariant
            i <= xs.len(),
            out@.len() == i,
            view_list(xs@).len() == xs@.len(),
            forall|k: int| 0 <= k < xs.len() ==> #[trigger] view_list(xs@)[k] == view_value(xs@[k]),
            forall|k: int| 0 <= k < i ==> view_value(#[trigger] out@[k]) == view_value(xs@[k]),
        decreases xs.len() - i,
    {
        let c = clone_value(&xs[i]);
        out.push(c);
        i = i + 1;
    }
    proof {
        lemma_view_list(out@);
        assert(view_list(out@) =~= view_list(xs@));
    }
    out
}

fn clone_fields(fs: &Vec<(String, Value)>) -> (r: Vec<(String, Value)>)
    ensures
        view_fields(r@) == view_fields(fs@),
    decreases fs, 0int,
{
    proof {
        lemma_view_fields(fs@);
    }
    let mut out: Vec<(String, Value)> = Vec::new();
    let mut i: usize = 0;
    while i < fs.len()
        invariant
            i <= fs.len(),
            out@.len() == i,
            view_fields(fs@).len() == fs@.len(),
            forall|k: int| 0 <= k < fs.len() ==> #[trigger] view_fields(fs@)[k] == (fs@[k].0@, view_value(fs@[k].1)),
            forall|k: int| 0 <= k < i ==> (#[trigger] out@[k]).0@ == fs@[k].0@ && view_value(out@[k].1) == view_value(fs@[k].1),
        decreases fs.len() - i,
    {
        assert(decreases_to!(fs@[i as int] => fs@[i as int].1));
        let c = clone_value(&fs[i].1);
        out.push((fs[i].0.clone(), c));
        i = i + 1;
    }
    proof {
        lemma_view_fields(out@);
        assert(view_fields(out@) =~= view_fields(fs@));
    }
    out
}

/// Structural equality of two values.
pub fn values_equal(a: &Value, b: &Value) -> (r: bool)
    ensures
        r == (a@ == b@),
    decreases a, 1int,
{
    match (a, b) {
        (Value::Int(x), Value::Int(y)) => *x == *y,
        (Value::Bool(x), Value::Bool(y)) => *x == *y,
        (Value::Str(x), Value::Str(y)) => crate::table::same_text(x.as_str(), y.as_str()),
        (Value::Unit, Value::Unit) => true,
        (Value::Struct { name: n1, fields: f1 }, Value::Struct { name: n2, fields: f2 }) => {
            crate::table::same_text(n1.as_str(), n2.as_str()) && fields_equal(f1, f2)
        }
        (Value::Enum { enum_name: e1, variant: v1, data: d1 }, Value::Enum { enum_name: e2, variant: v2, data: d2 }) => {
            crate::table::same_text(e1.as_str(), e2.as_str()) && crate::table::same_text(v1.as_str(), v2.as_str())
                && lists_equal(d1, d2)
        }
        (Value::Array(x), Value::Array(y)) => lists_equal(x, y),
        _ => false,
    }
}

fn lists_equal(xs: &Vec<Value>, ys: &Vec<Value>) -> (r: bool)
    ensures
        r == (view_list(xs@) == view_list(ys@)),
    decreases xs, 0int,
{
    proof {
        lemma_view_list(xs@);
        lemma_view_list(ys@);
    }
    if xs.len() != ys.len() {
        return false;
    }
    let mut i: usize = 0;
    while i < xs.len()
        invariant
            i <= xs.len(),
            xs.len() == ys.len(),
            view_list(xs@).len() == xs@.len(),
            view_list(ys@).len() == ys@.len(),
            forall|k: int| 0 <= k < xs.len() ==> #[trigger] view_list(xs@)[k] == view_value(xs@[k]),
            forall|k: int| 0 <= k < ys.len() ==> #[trigger] view_list(ys@)[k] == view_value(ys@[k]),
            forall|k: int| 0 <= k < i ==> view_value(#[trigger] xs@[k]) == view_value(ys@[k]),
        decreases xs.len() - i,
    {
        if !values_equal(&xs[i], &ys[i]) {
            assert(view_list(xs@)[i as int] != view_list(ys@)[i as int]);
            return false;
        }
        i = i + 1;
    }
    assert(view_list(xs@) =~= view_list(ys@));
    true
}

fn fields_equal(xs: &Vec<(String, Value)>, ys: &Vec<(String, Value)>) -> (r: bool)
    ensures
        r == (view_fields(xs@) == view_fields(ys@)),
    decreases xs, 0int,
{
    proof {
        lemma_view_fields(xs@);
        lemma_view_fields(ys@);
    }
    if xs.len() != ys.len() {
        return false;
    }
    let mut i: usize = 0;
    while i < xs.len()
        invariant
            i <= xs.len(),
            xs.len() == ys.len(),
            view_fields(xs@).len() == xs@.len(),
            view_fields(ys@).len() == ys@.len(),
            forall|k: int| 0 <= k < xs.len() ==> #[trigger] view_fields(xs@)[k] == (xs@[k].0@, view_value(xs@[k].1)),
            forall|k: int| 0 <= k < ys.len() ==> #[trigger] view_fields(ys@)[k] == (ys@[k].0@, view_value(ys@[k].1)),
            forall|k: int| 0 <= k < i ==> #[trigger] view_fields(xs@)[k] == view_fields(ys@)[k],
        decreases xs.len() - i,
    {
        assert(decreases_to!(xs@[i as int] => xs@[i as int].1));
        let same_key = crate::table::same_text(xs[i].0.as_str(), ys[i].0.as_str());
        if !same_key || !values_equal(&xs[i].1, &ys[i].1) {
            assert(view_fields(xs@)[i as int] != view_fields(ys@)[i as int]);
            return false;
        }
        i = i + 1;
    }
    assert(view_fields(xs@) =~= view_fields(ys@));
    true
}


// ---------------------------------------------------------------------------
// Operators
// ---------------------------------------------------------------------------

pub open spec fn abs(x: int) -> int {
    if x < 0 { -x } else { x }
}

/// Division rounding toward zero.
pub open spec fn tdiv(a: int, b: int) -> int {
    let q = abs(a) / abs(b);
    if (a < 0) != (b < 0) { -q } else { q }
}

/// The remainder of [`tdiv`]: it takes the sign of the dividend.
pub open spec fn trem(a: int, b: int) -> int {
    let r = abs(a) % abs(b);
    if a < 0 { -r } else { r }
}

pub open spec fn in_i64(x: int) -> bool {
    i64::MIN <= x <= i64::MAX
}

pub open spec fn is_arith(op: BinOp) -> bool {
    op is Add || op is Sub || op is Mul || op is Div || op is Rem
}

/// Checked integer arithmetic: the exact result when it fits in 64 bits,
/// otherwise an error — never a silent wraparound.
pub open spec fn spec_arith(op: BinOp, a: i64, b: i64) -> Result<i64, Seq<char>> {
    if op is Div && b == 0 {
        Err("division by zero"@)
    } else if op is Rem && b == 0 {
        Err("remainder by zero"@)
    } else {
        let x: int = match op {
            BinOp::Add => a + b,
            BinOp::Sub => a - b,
            BinOp::Mul => a * b,
            BinOp::Div => tdiv(a as int, b as int),
            _ => trem(a as int, b as int),
        };
        if in_i64(x) { Ok(x as i64) } else { Err("integer overflow"@) }
    }
}

/// The name of an operator in diagnostics.
pub open spec fn binop_name(op: BinOp) -> Seq<char> {
    match op {
        BinOp::Add => "Add"@,
        BinOp::Sub => "Sub"@,
        BinOp::Mul => "Mul"@,
        BinOp::Div => "Div"@,
        BinOp::Rem => "Rem"@,
        BinOp::Eq => "Eq"@,
        BinOp::Ne => "Ne"@,
        BinOp::Lt => "Lt"@,
        BinOp::Le => "Le"@,
        BinOp::Gt => "Gt"@,
        BinOp::Ge => "Ge"@,
    }
}

pub open spec fn unop_name(op: UnOp) -> Seq<char> {
    match op {
        UnOp::Neg => "Neg"@,
        UnOp::Not => "Not"@,
    }
}

/// Lexicographic order of two character sequences, by code point:
/// negative, zero or positive.
pub open spec fn order_chars(a: Seq<char>, b: Seq<char>) -> int
    decreases a.len(),
{
    if a.len() == 0 {
        if b.len() == 0 { 0 } else { -1 }
    } else if b.len() == 0 {
        1
    } else if (a[0] as u32) < (b[0] as u32) {
        -1
    } else if (a[0] as u32) > (b[0] as u32) {
        1
    } else {
        order_chars(a.drop_first(), b.drop_first())
    }
}

/// The order of two values of a comparable kind (ints, strings, booleans).
pub open spec fn spec_order(l: SpecValue, r: SpecValue) -> Option<int> {
    match (l, r) {
        (SpecValue::Int(a), SpecValue::Int(b)) => Some(if a < b { -1 } else if a == b { 0 } else { 1 }),
        (SpecValue::Str(a), SpecValue::Str(b)) => Some(order_chars(a, b)),
        (SpecValue::Bool(a), SpecValue::Bool(b)) => Some(if a == b { 0 } else if !a { -1 } else { 1 }),
        _ => None,
    }
}

/// The value of `l op r`, or the runtime error it raises.
pub open spec fn spec_binary(op: BinOp, l: SpecValue, r: SpecValue) -> Result<SpecValue, Seq<char>> {
    if is_arith(op) {
        match (l, r) {
            (SpecValue::Int(a), SpecValue::Int(b)) => match spec_arith(op, a, b) {
                Ok(x) => Ok(SpecValue::Int(x)),
                Err(m) => Err(m),
            },
            _ => Err("arithmetic on non-ints: "@ + value_text(l) + " "@ + binop_name(op) + " "@ + value_text(r)),
        }
    } else if (op is Eq || op is Ne) && l is Array && r is Array {
        Ok(SpecValue::Bool(if op is Eq { l == r } else { l != r }))
    } else {
        match spec_order(l, r) {
            Some(c) => Ok(SpecValue::Bool(
                match op {
                    BinOp::Eq => c == 0,
                    BinOp::Ne => c != 0,
                    BinOp::Lt => c < 0,
                    BinOp::Le => c <= 0,
                    BinOp::Gt => c > 0,
                    _ => c >= 0,
                },
            )),
            None => Err("cannot compare "@ + value_text(l) + " and "@ + value_text(r)),
        }
    }
}

/// The value of a unary operation, or the runtime error it raises.
pub open spec fn spec_unary(op: UnOp, v: SpecValue) -> Result<SpecValue, Seq<char>> {
    match (op, v) {
        (UnOp::Neg, SpecValue::Int(n)) => if n == i64::MIN {
            Err("integer overflow"@)
        } else {
            Ok(SpecValue::Int((-n) as i64))
        },
        (UnOp::Not, SpecValue::Bool(b)) => Ok(SpecValue::Bool(!b)),
        _ => Err("invalid unary "@ + unop_name(op) + " on "@ + value_text(v)),
    }
}

fn magnitude(a: i64) -> (r: u64)
    ensures
        r as int == abs(a as int),
{
    if a == i64::MIN {
        9223372036854775808u64
    } else if a < 0 {
        (-a) as u64
    } else {
        a as u64
    }
}

fn fit(x: i128) -> (r: Result<i64, String>)
    ensures
        in_i64(x as int) ==> r == Ok::<i64, String>(x as i64),
        !in_i64(x as int) ==> (r matches Err(m) && m@ == "integer overflow"@),
{
    if x < i64::MIN as i128 || x > i64::MAX as i128 {
        Err(string_of_str("integer overflow"))
    } else {
        Ok(x as i64)
    }
}

/// Checked integer arithmetic, exactly as [`spec_arith`] states it.
pub fn arith(op: BinOp, a: i64, b: i64) -> (r: Result<i64, String>)
    requires
        is_arith(op),
    ensures
        match spec_arith(op, a, b) {
            Ok(x) => r == Ok::<i64, String>(x),
            Err(m) => r matches Err(s) && s@ == m,
        },
{
    match op {
        BinOp::Add => fit(a as i128 + b as i128),
        BinOp::Sub => fit(a as i128 - b as i128),
        BinOp::Mul => {
            let x: i128 = a as i128;
            let y: i128 = b as i128;
            assert(-0x8000_0000_0000_0000 * 0x8000_0000_0000_0000 <= x * y <= 0x8000_0000_0000_0000 * 0x8000_0000_0000_0000)
                by (nonlinear_arith)
                requires
                    -0x8000_0000_0000_0000 <= x <= 0x7fff_ffff_ffff_ffff,
                    -0x8000_0000_0000_0000 <= y <= 0x7fff_ffff_ffff_ffff,
            ;
            fit(x * y)
        }
        BinOp::Div => {
            if b == 0 {
                return Err(string_of_str("division by zero"));
            }
            let q: u64 = magnitude(a) / magnitude(b);
            let x: i128 = if (a < 0) != (b < 0) { -(q as i128) } else { q as i128 };
            fit(x)
        }
        _ => {
            if b == 0 {
                return Err(string_of_str("remainder by zero"));
            }
            let m: u64 = magnitude(a) % magnitude(b);
            let x: i128 = if a < 0 { -(m as i128) } else { m as i128 };
            fit(x)
        }
    }
}

fn binop_text(op: BinOp) -> (r: String)
    ensures
        r@ == binop_name(op),
{
    string_of_str(
        match op {
            BinOp::Add => "Add",
            BinOp::Sub => "Sub",
            BinOp::Mul => "Mul",
            BinOp::Div => "Div",
            BinOp::Rem => "Rem",
            BinOp::Eq => "Eq",
            BinOp::Ne => "Ne",
            BinOp::Lt => "Lt",
            BinOp::Le => "Le",
            BinOp::Gt => "Gt",
            BinOp::Ge => "Ge",
        },
    )
}

/// The lexicographic order of two strings, by code point.
pub fn order_text(a: &str, b: &str) -> (r: i8)
    ensures
        r as int == order_chars(a@, b@),
{
    let x = str_chars(a);
    let y = str_chars(b);
    let mut i: usize = 0;
    assert(a@.skip(0) =~= a@);
    assert(b@.skip(0) =~= b@);
    while i < x.len() && i < y.len()
        invariant
            i <= x.len(),
            i <= y.len(),
            x@ == a@,
            y@ == b@,
            order_chars(a@, b@) == order_chars(a@.skip(i as int), b@.skip(i as int)),
        decreases x.len() - i,
    {
        let c: u32 = x[i] as u32;
        let d: u32 = y[i] as u32;
        if c < d {
            return -1;
        }
        if c > d {
            return 1;
        }
        assert(a@.skip(i as int).drop_first() =~= a@.skip(i + 1));
        assert(b@.skip(i as int).drop_first() =~= b@.skip(i + 1));
        i = i + 1;
    }
    if x.len() == y.len() {
        0
    } else if i == x.len() {
        -1
    } else {
        1
    }
}

/// Evaluates `l op r` on two runtime values.
pub fn eval_binary(op: BinOp, l: &Value, r: &Value) -> (res: Result<Value, String>)
    ensures
        match spec_binary(op, l@, r@) {
            Ok(v) => res matches Ok(x) && x@ == v,
            Err(m) => res matches Err(s) && s@ == m,
        },
{
    match op {
        BinOp::Add | BinOp::Sub | BinOp::Mul | BinOp::Div | BinOp::Rem => {
            match (l, r) {
                (Value::Int(a), Value::Int(b)) => match arith(op, *a, *b) {
                    Ok(x) => Ok(Value::Int(x)),
                    Err(m) => Err(m),
                },
                _ => {
                    let mut m = string_of_str("arithmetic on non-ints: ");
                    push_value(&mut m, l);
                    m.append(" ");
                    m.append(binop_text(op).as_str());
                    m.append(" ");
                    push_value(&mut m, r);
                    Err(m)
                }
            }
        }
        _ => {
            let both_arrays = match (l, r) {
                (Value::Array(_), Value::Array(_)) => true,
                _ => false,
            };
            let is_eq = match op {
                BinOp::Eq => true,
                _ => false,
            };
            let is_ne = match op {
                BinOp::Ne => true,
                _ => false,
            };
            if both_arrays && (is_eq || is_ne) {
                let eq = values_equal(l, r);
                return Ok(Value::Bool(if is_eq { eq } else { !eq }));
            }
            let c: i8 = match (l, r) {
                (Value::Int(a), Value::Int(b)) => if *a < *b { -1 } else if *a == *b { 0 } else { 1 },
                (Value::Str(a), Value::Str(b)) => order_text(a.as_str(), b.as_str()),
                (Value::Bool(a), Value::Bool(b)) => if *a == *b { 0 } else if !*a { -1 } else { 1 },
                _ => {
                    let mut m = string_of_str("cannot compare ");
                    push_value(&mut m, l);
                    m.append(" and ");
                    push_value(&mut m, r);
                    return Err(m);
                }
            };
            let b = match op {
                BinOp::Eq => c == 0,
                BinOp::Ne => c != 0,
                BinOp::Lt => c < 0,
                BinOp::Le => c <= 0,
                BinOp::Gt => c > 0,
                _ => c >= 0,
            };
            Ok(Value::Bool(b))
        }
    }
}

/// Evaluates a unary operation on a runtime value.
pub fn eval_unary(op: UnOp, v: &Value) -> (res: Result<Value, String>)
    ensures
        match spec_unary(op, v@) {
            Ok(x) => res matches Ok(y) && y@ == x,
            Err(m) => res matches Err(s) && s@ == m,
        },
{
    match (op, v) {
        (UnOp::Neg, Value::Int(n)) => {
            if *n == i64::MIN {
                Err(string_of_str("integer overflow"))
            } else {
                Ok(Value::Int(-*n))
            }
        }
        (UnOp::Not, Value::Bool(b)) => Ok(Value::Bool(!*b)),
        _ => {
            let mut m = string_of_str("invalid unary ");
            m.append(
                match op {
                    UnOp::Neg => "Neg",
                    UnOp::Not => "Not",
                },
            );
            m.append(" on ");
            push_value(&mut m, v);
            Err(m)
        }
    }
}


/// The element `b[i]`, or the runtime error: indexing is bounds-checked.
pub open spec fn spec_index(b: SpecValue, i: SpecValue) -> Result<SpecValue, Seq<char>> {
    match b {
        SpecValue::Array(xs) => match i {
            SpecValue::Int(k) => if 0 <= k < xs.len() {
                Ok(xs[k as int])
            } else {
                Err("index "@ + int_text(k as int) + " out of bounds for array of length "@ + dec(xs.len()))
            },
            _ => Err("array index must be an integer, found "@ + value_text(i)),
        },
        _ => Err("cannot index "@ + value_text(b)),
    }
}

/// The runtime error for an index outside an array.
pub fn out_of_bounds(k: i64, n: usize) -> (r: String)
    ensures
        r@ == "index "@ + int_text(k as int) + " out of bounds for array of length "@ + dec(n as nat),
{
    let mut m = string_of_str("index ");
    push_int(&mut m, k);
    m.append(" out of bounds for array of length ");
    push_dec(&mut m, n as u64);
    m
}

/// Evaluates `b[i]` on two runtime values.
pub fn index_value(b: &Value, i: &Value) -> (r: Result<Value, String>)
    ensures
        match spec_index(b@, i@) {
            Ok(v) => r matches Ok(x) && x@ == v,
            Err(m) => r matches Err(s) && s@ == m,
        },
{
    match b {
        Value::Array(xs) => {
            proof {
                lemma_view_list(xs@);
            }
            match i {
                Value::Int(k) => {
                    if *k < 0 || (*k as u64) >= (xs.len() as u64) {
                        Err(out_of_bounds(*k, xs.len()))
                    } else {
                        Ok(clone_value(&xs[*k as usize]))
                    }
                }
                other => {
                    let mut m = string_of_str("array index must be an integer, found ");
                    push_value(&mut m, other);
                    Err(m)
                }
            }
        }
        other => {
            let mut m = string_of_str("cannot index ");
            push_value(&mut m, other);
            Err(m)
        }
    }
}

} // verus!
