//! The web playground's HTTP framing and replies: where a request's head
//! ends, how long its body is, which page it asks for, and what is sent
//! back. The socket work is the caller's.

use vstd::prelude::*;
use crate::chars::{char_is_whitespace, is_whitespace};
use crate::text::{dec, push_dec, str_chars, string_of_chars, string_of_str};

verus! {

/// The largest request the playground reads, in bytes.
pub const MAX_REQUEST: usize = 4_000_000;

// ---------------------------------------------------------------------------
// Finding the end of the head
// ---------------------------------------------------------------------------

/// Whether `needle` occurs in `hay` at `i`.
pub open spec fn occurs_at(hay: Seq<u8>, needle: Seq<u8>, i: int) -> bool {
    0 <= i && i + needle.len() <= hay.len() && hay.subrange(i, i + needle.len()) == needle
}

/// The first position of `needle` in `hay`, if it occurs.
pub fn find(hay: &[u8], needle: &[u8]) -> (r: Option<usize>)
    requires
        needle@.len() > 0,
    ensures
        match r {
            Some(i) => occurs_at(hay@, needle@, i as int) && forall|j: int| 0 <= j < i ==> !occurs_at(hay@, needle@, j),
            None => forall|j: int| 0 <= j ==> !occurs_at(hay@, needle@, j),
        },
{
    if needle.len() > hay.len() {
        return None;
    }
    let mut i: usize = 0;
    while i <= hay.len() - needle.len()
        invariant
            needle@.len() <= hay@.len(),
            i <= hay@.len(),
            forall|j: int| 0 <= j < i ==> !occurs_at(hay@, needle@, j),
        decreases hay.len() - i,
    {
        let mut k: usize = 0;
        let mut same = true;
        while k < needle.len()
            invariant
                i + needle@.len() <= hay@.len(),
                k <= needle@.len(),
                same == forall|m: int| 0 <= m < k ==> hay@[i + m] == needle@[m],
            decreases needle.len() - k,
        {
            assert(i + k < hay.len());
            let idx: usize = i + k;
            if hay[idx] != needle[k] {
                same = false;
            }
            k = k + 1;
        }
        if same {
            assert(hay@.subrange(i as int, i + needle@.len()) =~= needle@);
            return Some(i);
        }
        assert(!occurs_at(hay@, needle@, i as int)) by {
            if occurs_at(hay@, needle@, i as int) {
                assert forall|m: int| 0 <= m < needle@.len() implies hay@[i + m] == needle@[m] by {
                    assert(hay@.subrange(i as int, i + needle@.len())[m] == hay@[i + m]);
                }
            }
        }
        i = i + 1;
    }
    None
}

/// Whether a request whose head ends at `head_end` (before its blank line)
/// holds its whole body of `body_len` bytes within `buf_len` bytes.
pub fn body_complete(buf_len: usize, head_end: usize, body_len: usize) -> (r: bool)
    ensures
        r == (buf_len >= head_end + 4 + body_len),
{
    if head_end > buf_len || buf_len - head_end < 4 {
        false
    } else {
        buf_len - head_end - 4 >= body_len
    }
}

// ---------------------------------------------------------------------------
// Content-Length
// ---------------------------------------------------------------------------

/// The index of the first `\n` at or after `i`, or the length of `s`.
pub open spec fn line_end(s: Seq<char>, i: int) -> int
    decreases s.len() - i,
{
    if i < 0 || i >= s.len() {
        s.len() as int
    } else if s[i] == '\n' {
        i
    } else {
        line_end(s, i + 1)
    }
}

/// The line from `i` to `e`, without the `\r` of a `\r\n` ending.
pub open spec fn line_at(s: Seq<char>, i: int, e: int) -> Seq<char> {
    let l = s.subrange(i, e);
    if e < s.len() && l.len() > 0 && l.last() == '\r' { l.drop_last() } else { l }
}

/// The index of the first `:` of `s` at or after `i`.
pub open spec fn colon_at(s: Seq<char>, i: int) -> Option<int>
    decreases s.len() - i,
{
    if i < 0 || i >= s.len() {
        None
    } else if s[i] == ':' {
        Some(i)
    } else {
        colon_at(s, i + 1)
    }
}

/// The number of whitespace characters that begin `s`.
pub open spec fn lead_ws(s: Seq<char>) -> nat
    decreases s.len(),
{
    if s.len() > 0 && char_is_whitespace(s[0]) { 1 + lead_ws(s.drop_first()) } else { 0 }
}

/// The number of whitespace characters that end `s`.
pub open spec fn trail_ws(s: Seq<char>) -> nat
    decreases s.len(),
{
    if s.len() > 0 && char_is_whitespace(s.last()) { 1 + trail_ws(s.drop_last()) } else { 0 }
}

/// `s` without leading and trailing whitespace.
pub open spec fn trim(s: Seq<char>) -> Seq<char> {
    let t = s.skip(lead_ws(s) as int);
    t.take(t.len() - trail_ws(t))
}

/// The ASCII lower case of `c`.
pub open spec fn ascii_lower(c: char) -> char {
    if 'A' <= c <= 'Z' { ((c as u32) + 32) as char } else { c }
}

/// Equality up to ASCII case.
pub open spec fn eq_ascii_case(a: Seq<char>, b: Seq<char>) -> bool {
    a.len() == b.len() && forall|i: int| 0 <= i < a.len() ==> ascii_lower(#[trigger] a[i]) == ascii_lower(b[i])
}

/// The value of a string of ASCII digits.
pub open spec fn ascii_value(d: Seq<char>) -> nat
    decreases d.len(),
{
    if d.len() == 0 { 0 } else { ascii_value(d.drop_last()) * 10 + ((d.last() as u32) - ('0' as u32)) as nat }
}

pub open spec fn all_ascii_digits(d: Seq<char>) -> bool {
    forall|i: int| 0 <= i < d.len() ==> '0' <= #[trigger] d[i] <= '9'
}

/// An unsigned decimal number, as `str::parse::<usize>` reads it: an
/// optional `+`, then at least one ASCII digit; too large is no number.
pub open spec fn parse_usize(s: Seq<char>) -> Option<nat> {
    let d = if s.len() > 0 && s[0] == '+' { s.drop_first() } else { s };
    if d.len() > 0 && all_ascii_digits(d) && ascii_value(d) <= usize::MAX {
        Some(ascii_value(d))
    } else {
        None
    }
}

/// For a `Content-Length` header line (the key compared without case, both
/// sides trimmed), its value — zero when it is not a number.
pub open spec fn header_length(line: Seq<char>) -> Option<nat> {
    match colon_at(line, 0) {
        Some(c) => if eq_ascii_case(trim(line.take(c)), "content-length"@) {
            Some(
                match parse_usize(trim(line.skip(c + 1))) {
                    Some(n) => n,
                    None => 0,
                },
            )
        } else {
            None
        },
        None => None,
    }
}

/// The length that the first `Content-Length` line of `s` from position
/// `i` on gives, or zero.
pub open spec fn content_length_from(s: Seq<char>, i: int) -> nat
    decreases s.len() - i,
{
    if i < 0 || i >= s.len() {
        0
    } else {
        let e = line_end(s, i);
        match header_length(line_at(s, i, e)) {
            Some(n) => n,
            None => if i <= e < s.len() { content_length_from(s, e + 1) } else { 0 },
        }
    }
}

proof fn lemma_line_end(s: Seq<char>, i: int)
    requires
        0 <= i <= s.len(),
    ensures
        i <= line_end(s, i) <= s.len(),
        line_end(s, i) < s.len() ==> s[line_end(s, i)] == '\n',
        forall|k: int| i <= k < line_end(s, i) ==> s[k] != '\n',
    decreases s.len() - i,
{
    if i < s.len() && s[i] != '\n' {
        lemma_line_end(s, i + 1);
    }
}

proof fn lemma_colon_at(s: Seq<char>, i: int)
    requires
        0 <= i <= s.len(),
    ensures
        match colon_at(s, i) {
            Some(c) => i <= c < s.len() && s[c] == ':' && forall|k: int| i <= k < c ==> s[k] != ':',
            None => forall|k: int| i <= k < s.len() ==> s[k] != ':',
        },
    decreases s.len() - i,
{
    if i < s.len() && s[i] != ':' {
        lemma_colon_at(s, i + 1);
    }
}

proof fn lemma_lead_ws(s: Seq<char>)
    ensures
        lead_ws(s) <= s.len(),
        forall|k: int| 0 <= k < lead_ws(s) ==> char_is_whitespace(#[trigger] s[k]),
        lead_ws(s) < s.len() ==> !char_is_whitespace(s[lead_ws(s) as int]),
    decreases s.len(),
{
    if s.len() > 0 && char_is_whitespace(s[0]) {
        lemma_lead_ws(s.drop_first());
        assert forall|k: int| 0 <= k < lead_ws(s) implies char_is_whitespace(#[trigger] s[k]) by {
            if k > 0 {
                assert(s.drop_first()[k - 1] == s[k]);
            }
        }
    }
}

proof fn lemma_trail_ws(s: Seq<char>)
    ensures
        trail_ws(s) <= s.len(),
        forall|k: int| s.len() - trail_ws(s) <= k < s.len() ==> char_is_whitespace(#[trigger] s[k]),
        trail_ws(s) < s.len() ==> !char_is_whitespace(s[s.len() - trail_ws(s) - 1]),
    decreases s.len(),
{
    if s.len() > 0 && char_is_whitespace(s.last()) {
        lemma_trail_ws(s.drop_last());
        assert forall|k: int| s.len() - trail_ws(s) <= k < s.len() implies char_is_whitespace(#[trigger] s[k]) by {
            if k < s.len() - 1 {
                assert(s.drop_last()[k] == s[k]);
            }
        }
    }
}

/// `s` without leading and trailing whitespace.
fn trim_chars(s: &[char]) -> (r: Vec<char>)
    ensures
        r@ == trim(s@),
{
    proof {
        lemma_lead_ws(s@);
    }
    let mut a: usize = 0;
    while a < s.len() && is_whitespace(s[a])
        invariant
            a <= s@.len(),
            forall|k: int| 0 <= k < a ==> char_is_whitespace(#[trigger] s@[k]),
        decreases s.len() - a,
    {
        a = a + 1;
    }
    proof {
        lemma_lead_ws_exact(s@, a as int);
    }
    let ghost t = s@.skip(a as int);
    proof {
        lemma_trail_ws(t);
    }
    let mut b: usize = s.len();
    while b > a && is_whitespace(s[b - 1])
        invariant
            a <= b <= s@.len(),
            t == s@.skip(a as int),
            forall|k: int| b <= k < s@.len() ==> char_is_whitespace(#[trigger] s@[k]),
        decreases b,
    {
        b = b - 1;
    }
    proof {
        assert forall|k: int| b - a <= k < t.len() implies char_is_whitespace(#[trigger] t[k]) by {
            assert(t[k] == s@[k + a]);
        }
        if b > a {
            assert(t[b - a - 1] == s@[b - 1]);
        }
        lemma_trail_ws_exact(t, (b - a) as int);
    }
    let mut out: Vec<char> = Vec::new();
    let mut k: usize = a;
    while k < b
        invariant
            a <= k <= b,
            b <= s@.len(),
            out@ == s@.subrange(a as int, k as int),
        decreases b - k,
    {
        out.push(s[k]);
        k = k + 1;
        assert(out@ =~= s@.subrange(a as int, k as int));
    }
    assert(out@ =~= trim(s@));
    out
}

proof fn lemma_lead_ws_exact(s: Seq<char>, a: int)
    requires
        0 <= a <= s.len(),
        forall|k: int| 0 <= k < a ==> char_is_whitespace(#[trigger] s[k]),
        a == s.len() || !char_is_whitespace(s[a]),
    ensures
        lead_ws(s) == a,
    decreases a,
{
    if a > 0 {
        assert forall|k: int| 0 <= k < a - 1 implies char_is_whitespace(#[trigger] s.drop_first()[k]) by {
            assert(s.drop_first()[k] == s[k + 1]);
        }
        if a < s.len() {
            assert(s.drop_first()[a - 1] == s[a]);
        }
        lemma_lead_ws_exact(s.drop_first(), a - 1);
    }
}

proof fn lemma_trail_ws_exact(t: Seq<char>, b: int)
    requires
        0 <= b <= t.len(),
        forall|k: int| b <= k < t.len() ==> char_is_whitespace(#[trigger] t[k]),
        b == 0 || !char_is_whitespace(t[b - 1]),
    ensures
        trail_ws(t) == t.len() - b,
    decreases t.len() - b,
{
    if b < t.len() {
        assert forall|k: int| b <= k < t.len() - 1 implies char_is_whitespace(#[trigger] t.drop_last()[k]) by {
            assert(t.drop_last()[k] == t[k]);
        }
        if b > 0 {
            assert(t.drop_last()[b - 1] == t[b - 1]);
        }
        lemma_trail_ws_exact(t.drop_last(), b);
    }
}

fn lower(c: char) -> (r: char)
    ensures
        r == ascii_lower(c),
{
    if 'A' <= c && c <= 'Z' {
        let x: u32 = (c as u32) + 32;
        char_from_ascii(x)
    } else {
        c
    }
}

/// The character of an ASCII code.
fn char_from_ascii(x: u32) -> (r: char)
    requires
        x < 128,
    ensures
        r == x as char,
{
    let b: u8 = x as u8;
    b as char
}

/// Whether `a` spells `b` up to ASCII case.
fn eq_ignore_case(a: &[char], b: &[char]) -> (r: bool)
    ensures
        r == eq_ascii_case(a@, b@),
{
    if a.len() != b.len() {
        return false;
    }
    let mut i: usize = 0;
    while i < a.len()
        invariant
            a@.len() == b@.len(),
            i <= a@.len(),
            forall|k: int| 0 <= k < i ==> ascii_lower(#[trigger] a@[k]) == ascii_lower(b@[k]),
        decreases a.len() - i,
    {
        if lower(a[i]) != lower(b[i]) {
            return false;
        }
        i = i + 1;
    }
    true
}

/// Reads an unsigned decimal number as `str::parse::<usize>` does.
fn parse_number(s: &[char]) -> (r: Option<usize>)
    ensures
        match parse_usize(s@) {
            Some(n) => r == Some(n as usize),
            None => r is None,
        },
{
    let start: usize = if s.len() > 0 && s[0] == '+' { 1 } else { 0 };
    let ghost d = if s@.len() > 0 && s@[0] == '+' { s@.drop_first() } else { s@ };
    assert(d =~= s@.skip(start as int));
    if start >= s.len() {
        return None;
    }
    let mut v: usize = 0;
    let mut i: usize = start;
    while i < s.len()
        invariant
            start <= i <= s@.len(),
            start as int == (if s@.len() > 0 && s@[0] == '+' { 1int } else { 0int }),
            d == (if s@.len() > 0 && s@[0] == '+' { s@.drop_first() } else { s@ }),
            d == s@.skip(start as int),
            all_ascii_digits(s@.subrange(start as int, i as int)),
            v as nat == ascii_value(s@.subrange(start as int, i as int)),
        decreases s.len() - i,
    {
        let c = s[i];
        if c < '0' || c > '9' {
            assert(!all_ascii_digits(d)) by {
                assert(d[i - start] == c);
            }
            return None;
        }
        let digit: usize = ((c as u32) - ('0' as u32)) as usize;
        let ghost pre = s@.subrange(start as int, i as int);
        let ghost next = s@.subrange(start as int, i + 1);
        assert(next.drop_last() =~= pre);
        if v > (usize::MAX - digit) / 10 {
            proof {
                assert(v * 10 + digit > usize::MAX) by (nonlinear_arith)
                    requires
                        v > (usize::MAX - digit) / 10,
                        digit <= 9,
                ;
                lemma_value_prefix(d, i + 1 - start);
                assert(d.take(i + 1 - start) =~= next);
                assert(ascii_value(next) == ascii_value(pre) * 10 + digit);
            }
            return None;
        }
        v = v * 10 + digit;
        i = i + 1;
        assert(all_ascii_digits(next));
    }
    assert(s@.subrange(start as int, s@.len() as int) =~= d);
    Some(v)
}

proof fn lemma_value_prefix(d: Seq<char>, k: int)
    requires
        0 <= k <= d.len(),
    ensures
        ascii_value(d.take(k)) <= ascii_value(d),
    decreases d.len(),
{
    if k < d.len() {
        assert(d.drop_last().take(k) =~= d.take(k));
        lemma_value_prefix(d.drop_last(), k);
    } else {
        assert(d.take(k) =~= d);
    }
}

/// The length that the first `Content-Length` header line of a request
/// head gives; zero when there is none or its value is not a number.
pub fn content_length(head: &str) -> (r: usize)
    ensures
        r as nat == content_length_from(head@, 0),
{
    let s = str_chars(head);
    let key = str_chars("content-length");
    let mut i: usize = 0;
    while i < s.len()
        invariant
            s@ == head@,
            key@ == "content-length"@,
            i <= s@.len(),
            content_length_from(s@, 0) == content_length_from(s@, i as int),
        decreases s.len() - i,
    {
        proof {
            lemma_line_end(s@, i as int);
        }
        let mut e: usize = i;
        while e < s.len() && s[e] != '\n'
            invariant
                i <= e <= s@.len(),
                line_end(s@, i as int) == line_end(s@, e as int),
            decreases s.len() - e,
        {
            e = e + 1;
        }
        let end: usize = if e < s.len() && e > i && s[e - 1] == '\r' { e - 1 } else { e };
        let line = slice_of(s.as_slice(), i, end);
        assert(line@ =~= line_at(s@, i as int, e as int));
        match header_length_of(line.as_slice(), key.as_slice()) {
            Some(n) => {
                return n;
            }
            None => {}
        }
        if e >= s.len() {
            return 0;
        }
        i = e + 1;
    }
    0
}

/// The characters of `s` from `a` to `b`.
fn slice_of(s: &[char], a: usize, b: usize) -> (r: Vec<char>)
    requires
        a <= b <= s@.len(),
    ensures
        r@ == s@.subrange(a as int, b as int),
{
    let mut out: Vec<char> = Vec::new();
    let mut k: usize = a;
    while k < b
        invariant
            a <= k <= b,
            b <= s@.len(),
            out@ == s@.subrange(a as int, k as int),
        decreases b - k,
    {
        out.push(s[k]);
        k = k + 1;
        assert(out@ =~= s@.subrange(a as int, k as int));
    }
    out
}

fn header_length_of(line: &[char], key: &[char]) -> (r: Option<usize>)
    requires
        key@ == "content-length"@,
    ensures
        match header_length(line@) {
            Some(n) => r == Some(n as usize),
            None => r is None,
        },
{
    proof {
        lemma_colon_at(line@, 0);
    }
    let mut c: usize = 0;
    while c < line.len() && line[c] != ':'
        invariant
            c <= line@.len(),
            colon_at(line@, 0) == colon_at(line@, c as int),
        decreases line.len() - c,
    {
        c = c + 1;
    }
    if c >= line.len() {
        return None;
    }
    let k = trim_chars(slice_of(line, 0, c).as_slice());
    assert(line@.subrange(0, c as int) =~= line@.take(c as int));
    if !eq_ignore_case(k.as_slice(), key) {
        return None;
    }
    let v = trim_chars(slice_of(line, c + 1, line.len()).as_slice());
    assert(line@.subrange(c + 1, line@.len() as int) =~= line@.skip(c + 1));
    match parse_number(v.as_slice()) {
        Some(n) => Some(n),
        None => Some(0),
    }
}

// ---------------------------------------------------------------------------
// Routing and replies
// ---------------------------------------------------------------------------

/// Whether `s` begins with `p`.
pub open spec fn starts_with(s: Seq<char>, p: Seq<char>) -> bool {
    p.len() <= s.len() && s.take(p.len() as int) == p
}

/// Whether `p` occurs in `s`.
pub open spec fn contains_text(s: Seq<char>, p: Seq<char>) -> bool {
    exists|i: int| 0 <= i && i + p.len() <= s.len() && #[trigger] s.subrange(i, i + p.len()) == p
}

/// The first line of a request head (empty when the head is).
pub open spec fn first_line(s: Seq<char>) -> Seq<char> {
    line_at(s, 0, line_end(s, 0))
}

/// A request runs a program when its request line is a `POST` to `/run`.
pub open spec fn spec_is_run(head: Seq<char>) -> bool {
    starts_with(first_line(head), "POST"@) && contains_text(first_line(head), " /run"@)
}

fn starts_with_chars(s: &[char], p: &[char]) -> (r: bool)
    ensures
        r == starts_with(s@, p@),
{
    if p.len() > s.len() {
        return false;
    }
    let mut i: usize = 0;
    while i < p.len()
        invariant
            p@.len() <= s@.len(),
            i <= p@.len(),
            forall|k: int| 0 <= k < i ==> s@[k] == p@[k],
        decreases p.len() - i,
    {
        if s[i] != p[i] {
            assert(s@.take(p@.len() as int)[i as int] != p@[i as int]);
            return false;
        }
        i = i + 1;
    }
    assert(s@.take(p@.len() as int) =~= p@);
    true
}

fn contains_chars(s: &[char], p: &[char]) -> (r: bool)
    ensures
        r == contains_text(s@, p@),
{
    if p.len() > s.len() {
        return false;
    }
    if p.len() == 0 {
        assert(s@.subrange(0int, 0int + p@.len()) =~= p@);
        return true;
    }
    let mut i: usize = 0;
    while i <= s.len() - p.len()
        invariant
            0 < p@.len() <= s@.len(),
            i <= s@.len() - p@.len() + 1,
            forall|j: int| 0 <= j < i ==> #[trigger] s@.subrange(j, j + p@.len()) != p@,
        decreases s.len() - i,
    {
        let w = slice_of(s, i, i + p.len());
        if crate::text::chars_eq(w.as_slice(), p) {
            return true;
        }
        i = i + 1;
    }
    assert forall|j: int| 0 <= j && j + p@.len() <= s@.len() implies #[trigger] s@.subrange(j, j + p@.len()) != p@ by {
        assert(j < i);
    }
    false
}

/// Whether a request head asks to run a program.
pub fn is_run_request(head: &str) -> (r: bool)
    ensures
        r == spec_is_run(head@),
{
    let s = str_chars(head);
    proof {
        lemma_line_end(s@, 0);
    }
    let mut e: usize = 0;
    while e < s.len() && s[e] != '\n'
        invariant
            e <= s@.len(),
            line_end(s@, 0) == line_end(s@, e as int),
        decreases s.len() - e,
    {
        e = e + 1;
    }
    let end: usize = if e < s.len() && e > 0 && s[e - 1] == '\r' { e - 1 } else { e };
    let line = slice_of(s.as_slice(), 0, end);
    assert(line@ =~= first_line(head@));
    let post = str_chars("POST");
    let run = str_chars(" /run");
    starts_with_chars(line.as_slice(), post.as_slice()) && contains_chars(line.as_slice(), run.as_slice())
}

/// What the playground shows for a run: the program's output (or a note
/// that it printed nothing), or the error.
pub open spec fn spec_reply(r: Result<Seq<char>, Seq<char>>) -> Seq<char> {
    match r {
        Ok(out) => if out.len() == 0 { "(program produced no output)"@ } else { out },
        Err(e) => "error: "@ + e,
    }
}

pub fn reply_text(r: Result<String, String>) -> (t: String)
    ensures
        t@ == spec_reply(
            match r {
                Ok(o) => Ok(o@),
                Err(e) => Err(e@),
            },
        ),
{
    match r {
        Ok(out) => {
            if out.unicode_len() == 0 {
                string_of_str("(program produced no output)")
            } else {
                out
            }
        }
        Err(e) => {
            let mut m = string_of_str("error: ");
            m.append(e.as_str());
            m
        }
    }
}

/// The status line and headers of a response whose body has `len` bytes.
pub open spec fn spec_response_head(status: Seq<char>, content_type: Seq<char>, len: nat) -> Seq<char> {
    "HTTP/1.1 "@ + status + "\r\nContent-Type: "@ + content_type + "\r\nContent-Length: "@ + dec(len)
        + "\r\nAccess-Control-Allow-Origin: *\r\nConnection: close\r\n\r\n"@
}

pub fn response_head(status: &str, content_type: &str, len: usize) -> (r: String)
    ensures
        r@ == spec_response_head(status@, content_type@, len as nat),
{
    let mut m = string_of_str("HTTP/1.1 ");
    m.append(status);
    m.append("\r\nContent-Type: ");
    m.append(content_type);
    m.append("\r\nContent-Length: ");
    push_dec(&mut m, len as u64);
    m.append("\r\nAccess-Control-Allow-Origin: *\r\nConnection: close\r\n\r\n");
    m
}

} // verus!
