//! The surface language is erased at the lexer: writing a keyword in
//! another of its spellings leaves the whole token stream unchanged.
//!
//! The proof takes the source apart at the keyword. Before it, the two
//! sources hold the same text, and every scan that stays inside that text
//! gives the same result in both. After it, they hold the same text again,
//! shifted by the difference in length of the two spellings, and every scan
//! there gives the same result shifted by as much.

use vstd::prelude::*;
use crate::lexer::{
    bom_len, comment_end, digits_end, digits_value, first_bidi, ident_end, lemma_comment_end,
    lemma_digits_end, lemma_ident_end, lemma_lex_at_advances, lemma_scan_string_end, lemma_trivia_end,
    lex_at, line_at, newlines, scan_string, spec_digit_value, spec_ident_continue, spec_ident_start,
    spec_is_bidi, spec_tokenize, string_token, symbol_at, tokens_from, trivia_end, word_token, LexStep,
    StrScan,
};
use crate::token::SpecToken;

verus! {

// ---------------------------------------------------------------------------
// Lines
// ---------------------------------------------------------------------------

proof fn lemma_newlines_concat(x: Seq<char>, z: Seq<char>)
    ensures
        newlines(x + z) == newlines(x) + newlines(z),
    decreases z.len(),
{
    if z.len() == 0 {
        assert(x + z =~= x);
    } else {
        assert((x + z).drop_last() =~= x + z.drop_last());
        assert((x + z).last() == z.last());
        lemma_newlines_concat(x, z.drop_last());
    }
}

proof fn lemma_line_shift(x: Seq<char>, c: Seq<char>, y: int)
    requires
        0 <= y <= c.len(),
    ensures
        line_at(x + c, x.len() + y) == newlines(x) + line_at(c, y),
{
    assert((x + c).take(x.len() + y) =~= x + c.take(y));
    lemma_newlines_concat(x, c.take(y));
}

// ---------------------------------------------------------------------------
// Scans after a common prefix are shifted by its length
// ---------------------------------------------------------------------------

proof fn lemma_comment_shift(x: Seq<char>, c: Seq<char>, j: int)
    requires
        0 <= j,
    ensures
        comment_end(x + c, x.len() + j) == x.len() + comment_end(c, j),
    decreases c.len() - j,
{
    if j < c.len() {
        assert((x + c)[x.len() + j] == c[j]);
        if c[j] != '\n' {
            lemma_comment_shift(x, c, j + 1);
        }
    }
}

proof fn lemma_trivia_shift(x: Seq<char>, c: Seq<char>, j: int)
    requires
        0 <= j,
    ensures
        trivia_end(x + c, x.len() + j) == x.len() + trivia_end(c, j),
    decreases c.len() - j,
{
    let s = x + c;
    if j < c.len() {
        assert(s[x.len() + j] == c[j]);
        if j + 1 < c.len() {
            assert(s[x.len() + j + 1] == c[j + 1]);
        }
        if crate::chars::char_is_whitespace(c[j]) || c[j] == ';' {
            lemma_trivia_shift(x, c, j + 1);
        } else if c[j] == '/' && j + 1 < c.len() && c[j + 1] == '/' {
            lemma_comment_end(c, j + 2);
            lemma_comment_shift(x, c, j + 2);
            lemma_trivia_shift(x, c, comment_end(c, j + 2));
        }
    }
}

proof fn lemma_ident_shift(x: Seq<char>, c: Seq<char>, j: int)
    requires
        0 <= j,
    ensures
        ident_end(x + c, x.len() + j) == x.len() + ident_end(c, j),
    decreases c.len() - j,
{
    if j < c.len() {
        assert((x + c)[x.len() + j] == c[j]);
        if spec_ident_continue(c[j]) {
            lemma_ident_shift(x, c, j + 1);
        }
    }
}

proof fn lemma_digits_shift(x: Seq<char>, c: Seq<char>, j: int)
    requires
        0 <= j,
    ensures
        digits_end(x + c, x.len() + j) == x.len() + digits_end(c, j),
    decreases c.len() - j,
{
    if j < c.len() {
        assert((x + c)[x.len() + j] == c[j]);
        if spec_digit_value(c[j]) is Some {
            lemma_digits_shift(x, c, j + 1);
        }
    }
}

proof fn lemma_scan_shift(x: Seq<char>, c: Seq<char>, j: int, acc: Seq<char>)
    requires
        0 <= j,
    ensures
        scan_string(x + c, x.len() + j, acc) == match scan_string(c, j, acc) {
            StrScan::Done(t, e) => StrScan::Done(t, x.len() + e),
            other => other,
        },
    decreases c.len() - j,
{
    let s = x + c;
    if j < c.len() {
        assert(s[x.len() + j] == c[j]);
        if c[j] != '"' {
            if c[j] == '\\' {
                if j + 1 < c.len() {
                    assert(s[x.len() + j + 1] == c[j + 1]);
                    lemma_scan_shift(x, c, j + 2, acc.push(crate::lexer::escape_char(c[j + 1])));
                }
            } else {
                lemma_scan_shift(x, c, j + 1, acc.push(c[j]));
            }
        }
    }
}

/// Two lexer steps that read the same token (with ends at the same
/// distance from where they began) or fail with the same message.
pub open spec fn same_step(s1: Seq<char>, i1: int, s2: Seq<char>, i2: int) -> bool {
    match (lex_at(s1, i1), lex_at(s2, i2)) {
        (LexStep::Tok(k1, e1), LexStep::Tok(k2, e2)) => k1 == k2 && e1 - i1 == e2 - i2,
        (LexStep::Fail(m1), LexStep::Fail(m2)) => m1 == m2,
        _ => false,
    }
}

proof fn lemma_lex_shift(x1: Seq<char>, x2: Seq<char>, c: Seq<char>, j: int)
    requires
        0 <= j < c.len(),
        newlines(x1) == newlines(x2),
    ensures
        same_step(x1 + c, x1.len() + j, x2 + c, x2.len() + j),
{
    let s1 = x1 + c;
    let s2 = x2 + c;
    let i1 = x1.len() + j;
    let i2 = x2.len() + j;
    assert(s1[i1] == c[j]);
    assert(s2[i2] == c[j]);
    if j + 1 < c.len() {
        assert(s1[i1 + 1] == c[j + 1]);
        assert(s2[i2 + 1] == c[j + 1]);
    }
    lemma_line_shift(x1, c, j);
    lemma_line_shift(x2, c, j);
    lemma_line_shift(x1, c, c.len() as int);
    lemma_line_shift(x2, c, c.len() as int);
    assert(s1.len() == x1.len() + c.len());
    assert(s2.len() == x2.len() + c.len());
    let ch = c[j];
    if spec_ident_start(ch) {
        lemma_ident_shift(x1, c, j + 1);
        lemma_ident_shift(x2, c, j + 1);
        lemma_ident_end(c, j + 1);
        let e = ident_end(c, j + 1);
        assert(s1.subrange(i1, x1.len() + e) =~= c.subrange(j, e));
        assert(s2.subrange(i2, x2.len() + e) =~= c.subrange(j, e));
    } else if spec_digit_value(ch) is Some {
        lemma_digits_shift(x1, c, j + 1);
        lemma_digits_shift(x2, c, j + 1);
        lemma_digits_end(c, j + 1);
        let e = digits_end(c, j + 1);
        assert(s1.subrange(i1, x1.len() + e) =~= c.subrange(j, e));
        assert(s2.subrange(i2, x2.len() + e) =~= c.subrange(j, e));
    } else if ch == '"' {
        lemma_scan_shift(x1, c, j + 1, Seq::empty());
        lemma_scan_shift(x2, c, j + 1, Seq::empty());
        lemma_scan_string_end(c, j + 1, Seq::empty());
        match scan_string(c, j + 1, Seq::empty()) {
            StrScan::Done(t, e) => {
                lemma_line_shift(x1, c, e);
                lemma_line_shift(x2, c, e);
            },
            _ => {},
        }
    } else {
        assert(symbol_at(s1, i1) == match symbol_at(c, j) {
            LexStep::Tok(k, e) => LexStep::Tok(k, x1.len() + e),
            LexStep::Fail(_) => LexStep::Fail(crate::lexer::msg_unexpected(line_at(s1, i1), ch)),
        });
        assert(symbol_at(s2, i2) == match symbol_at(c, j) {
            LexStep::Tok(k, e) => LexStep::Tok(k, x2.len() + e),
            LexStep::Fail(_) => LexStep::Fail(crate::lexer::msg_unexpected(line_at(s2, i2), ch)),
        });
    }
}

/// The tokens read after a common suffix begins do not depend on the text
/// before it, beyond its count of lines.
proof fn lemma_tokens_shift(x1: Seq<char>, x2: Seq<char>, c: Seq<char>, j: int, acc: Seq<SpecToken>)
    requires
        0 <= j <= c.len(),
        newlines(x1) == newlines(x2),
    ensures
        tokens_from(x1 + c, x1.len() + j, acc) == tokens_from(x2 + c, x2.len() + j, acc),
    decreases c.len() - j,
{
    let s1 = x1 + c;
    let s2 = x2 + c;
    let i1 = x1.len() + j;
    let i2 = x2.len() + j;
    lemma_trivia_shift(x1, c, j);
    lemma_trivia_shift(x2, c, j);
    lemma_trivia_end(c, j);
    let q = trivia_end(c, j);
    lemma_line_shift(x1, c, q);
    lemma_line_shift(x2, c, q);
    if q < c.len() {
        lemma_lex_shift(x1, x2, c, q);
        lemma_lex_at_advances(s1, x1.len() + q);
        match lex_at(s1, x1.len() + q) {
            LexStep::Tok(k, e1) => {
                let tok = SpecToken { kind: k, line: line_at(s1, x1.len() + q) };
                lemma_tokens_shift(x1, x2, c, e1 - x1.len(), acc.push(tok));
            },
            LexStep::Fail(_) => {},
        }
    }
}

// ---------------------------------------------------------------------------
// Scans inside a common prefix agree
// ---------------------------------------------------------------------------

/// `s` and `t` hold the same text before position `n`.
pub open spec fn agree(s: Seq<char>, t: Seq<char>, n: int) -> bool {
    &&& 0 <= n <= s.len()
    &&& n <= t.len()
    &&& forall|k: int| 0 <= k < n ==> s[k] == t[k]
}

/// Lexing `s` from `i` on, some token begins at `p` (the trivia before it
/// skipped).
pub open spec fn token_start(s: Seq<char>, i: int, p: int) -> bool
    decreases s.len() - i,
{
    if i < 0 || i > p {
        false
    } else {
        let q = trivia_end(s, i);
        if q == p {
            true
        } else if q > p || q >= s.len() || q < i {
            false
        } else {
            match lex_at(s, q) {
                LexStep::Tok(_, e) => if q < e && e <= s.len() { token_start(s, e, p) } else { false },
                LexStep::Fail(_) => false,
            }
        }
    }
}

proof fn lemma_trivia_ge(s: Seq<char>, y: int)
    requires
        0 <= y,
    ensures
        y <= trivia_end(s, y),
{
    if y <= s.len() {
        lemma_trivia_end(s, y);
    }
}

proof fn lemma_trivia_idem(s: Seq<char>, x: int)
    requires
        0 <= x <= s.len(),
    ensures
        trivia_end(s, trivia_end(s, x)) == trivia_end(s, x),
    decreases s.len() - x,
{
    if x < s.len() {
        if crate::chars::char_is_whitespace(s[x]) || s[x] == ';' {
            lemma_trivia_idem(s, x + 1);
        } else if s[x] == '/' && x + 1 < s.len() && s[x + 1] == '/' {
            lemma_comment_end(s, x + 2);
            lemma_trivia_idem(s, comment_end(s, x + 2));
        }
    }
}

proof fn lemma_comment_agree(s: Seq<char>, t: Seq<char>, n: int, x: int)
    requires
        agree(s, t, n),
        0 <= x <= n,
        comment_end(s, x) <= n,
        comment_end(t, x) <= n,
    ensures
        comment_end(s, x) == comment_end(t, x),
    decreases n - x,
{
    lemma_comment_end(s, x);
    lemma_comment_end(t, x);
    if x < n {
        assert(s[x] == t[x]);
        if s[x] != '\n' {
            lemma_comment_agree(s, t, n, x + 1);
        }
    }
}

proof fn lemma_trivia_agree(s: Seq<char>, t: Seq<char>, n: int, x: int)
    requires
        agree(s, t, n),
        0 <= x <= n,
        trivia_end(s, x) <= n,
        trivia_end(t, x) <= n,
    ensures
        trivia_end(s, x) == trivia_end(t, x),
    decreases n - x,
{
    lemma_trivia_ge(s, x);
    lemma_trivia_ge(t, x);
    if x < n {
        assert(s[x] == t[x]);
        if x + 1 < n {
            assert(s[x + 1] == t[x + 1]);
        }
        if crate::chars::char_is_whitespace(s[x]) || s[x] == ';' {
            lemma_trivia_agree(s, t, n, x + 1);
        } else if s[x] == '/' {
            if x + 1 < n {
                if s[x + 1] == '/' {
                    lemma_comment_end(s, x + 2);
                    lemma_comment_end(t, x + 2);
                    lemma_trivia_ge(s, comment_end(s, x + 2));
                    lemma_trivia_ge(t, comment_end(t, x + 2));
                    lemma_comment_agree(s, t, n, x + 2);
                    lemma_trivia_agree(s, t, n, comment_end(s, x + 2));
                }
            } else {
                if x + 1 < s.len() && s[x + 1] == '/' {
                    lemma_comment_end(s, x + 2);
                    lemma_trivia_ge(s, comment_end(s, x + 2));
                }
                if x + 1 < t.len() && t[x + 1] == '/' {
                    lemma_comment_end(t, x + 2);
                    lemma_trivia_ge(t, comment_end(t, x + 2));
                }
            }
        }
    }
}

proof fn lemma_ident_agree(s: Seq<char>, t: Seq<char>, n: int, x: int)
    requires
        agree(s, t, n),
        0 <= x <= n,
        ident_end(s, x) <= n,
        ident_end(t, x) <= n,
    ensures
        ident_end(s, x) == ident_end(t, x),
    decreases n - x,
{
    lemma_ident_end(s, x);
    lemma_ident_end(t, x);
    if x < n {
        assert(s[x] == t[x]);
        if spec_ident_continue(s[x]) {
            lemma_ident_agree(s, t, n, x + 1);
        }
    }
}

proof fn lemma_digits_agree(s: Seq<char>, t: Seq<char>, n: int, x: int)
    requires
        agree(s, t, n),
        0 <= x <= n,
        digits_end(s, x) <= n,
        digits_end(t, x) <= n,
    ensures
        digits_end(s, x) == digits_end(t, x),
    decreases n - x,
{
    lemma_digits_end(s, x);
    lemma_digits_end(t, x);
    if x < n {
        assert(s[x] == t[x]);
        if spec_digit_value(s[x]) is Some {
            lemma_digits_agree(s, t, n, x + 1);
        }
    }
}

proof fn lemma_scan_agree(s: Seq<char>, t: Seq<char>, n: int, x: int, acc: Seq<char>)
    requires
        agree(s, t, n),
        0 <= x <= n,
        scan_string(s, x, acc) matches StrScan::Done(_, e) && e <= n,
        scan_string(t, x, acc) matches StrScan::Done(_, e) && e <= n,
    ensures
        scan_string(s, x, acc) == scan_string(t, x, acc),
    decreases n - x,
{
    lemma_scan_string_end(s, x, acc);
    lemma_scan_string_end(t, x, acc);
    if x < n {
        assert(s[x] == t[x]);
        if s[x] != '"' {
            if s[x] == '\\' {
                lemma_scan_string_end(s, x + 2, acc.push(crate::lexer::escape_char(s[x + 1])));
                if x + 1 < n {
                    assert(s[x + 1] == t[x + 1]);
                    lemma_scan_agree(s, t, n, x + 2, acc.push(crate::lexer::escape_char(s[x + 1])));
                } else {
                    lemma_scan_string_end(t, x + 2, acc.push(crate::lexer::escape_char(t[x + 1])));
                }
            } else {
                lemma_scan_agree(s, t, n, x + 1, acc.push(s[x]));
            }
        }
    }
}

proof fn lemma_lex_agree(s: Seq<char>, t: Seq<char>, n: int, q: int)
    requires
        agree(s, t, n),
        0 <= q < n,
        lex_at(s, q) matches LexStep::Tok(_, e) && e <= n,
        lex_at(t, q) matches LexStep::Tok(_, e) && e <= n,
    ensures
        lex_at(s, q) == lex_at(t, q),
{
    assert(s[q] == t[q]);
    if q + 1 < n {
        assert(s[q + 1] == t[q + 1]);
    }
    let ch = s[q];
    if spec_ident_start(ch) {
        lemma_ident_end(s, q + 1);
        lemma_ident_end(t, q + 1);
        lemma_ident_agree(s, t, n, q + 1);
        let e = ident_end(s, q + 1);
        assert(s.subrange(q, e) =~= t.subrange(q, e));
    } else if spec_digit_value(ch) is Some {
        lemma_digits_end(s, q + 1);
        lemma_digits_end(t, q + 1);
        lemma_digits_agree(s, t, n, q + 1);
        let e = digits_end(s, q + 1);
        assert(s.subrange(q, e) =~= t.subrange(q, e));
    } else if ch == '"' {
        lemma_scan_agree(s, t, n, q + 1, Seq::empty());
    }
}

/// Where both sources begin a token at `n`, the tokens read before it are
/// the same.
proof fn lemma_prefix_run(s: Seq<char>, t: Seq<char>, n: int, x: int, acc: Seq<SpecToken>) -> (r: Seq<SpecToken>)
    requires
        agree(s, t, n),
        0 <= x <= n,
        n < s.len(),
        n < t.len(),
        token_start(s, x, n),
        token_start(t, x, n),
    ensures
        tokens_from(s, x, acc) == tokens_from(s, n, r),
        tokens_from(t, x, acc) == tokens_from(t, n, r),
        trivia_end(s, n) == n,
        trivia_end(t, n) == n,
    decreases n - x,
{
    let q = trivia_end(s, x);
    lemma_trivia_end(s, x);
    lemma_trivia_end(t, x);
    lemma_trivia_agree(s, t, n, x);
    assert(trivia_end(t, x) == q);
    if q == n {
        lemma_trivia_idem(s, x);
        lemma_trivia_idem(t, x);
        acc
    } else {
        lemma_lex_at_advances(s, q);
        lemma_lex_at_advances(t, q);
        let e = match lex_at(s, q) {
            LexStep::Tok(_, e) => e,
            LexStep::Fail(_) => 0,
        };
        assert(lex_at(s, q) is Tok);
        assert(token_start(s, e, n));
        let e2 = match lex_at(t, q) {
            LexStep::Tok(_, e) => e,
            LexStep::Fail(_) => 0,
        };
        assert(lex_at(t, q) is Tok);
        assert(token_start(t, e2, n));
        lemma_lex_agree(s, t, n, q);
        assert(s.take(q) =~= t.take(q));
        assert(line_at(s, q) == line_at(t, q));
        let k = match lex_at(s, q) {
            LexStep::Tok(k, _) => k,
            LexStep::Fail(_) => crate::token::SpecTokenKind::Eof,
        };
        let tok = SpecToken { kind: k, line: line_at(s, q) };
        assert(tokens_from(s, x, acc) == tokens_from(s, e, acc.push(tok)));
        assert(tokens_from(t, x, acc) == tokens_from(t, e, acc.push(tok)));
        lemma_prefix_run(s, t, n, e, acc.push(tok))
    }
}

// ---------------------------------------------------------------------------
// Bidirectional control characters
// ---------------------------------------------------------------------------

proof fn lemma_bidi_shift(x: Seq<char>, c: Seq<char>, j: int)
    requires
        0 <= j,
    ensures
        first_bidi(x + c, x.len() + j) == match first_bidi(c, j) {
            Some(k) => Some(x.len() + k),
            None => None::<int>,
        },
    decreases c.len() - j,
{
    if j < c.len() {
        assert((x + c)[x.len() + j] == c[j]);
        if !spec_is_bidi(c[j]) {
            lemma_bidi_shift(x, c, j + 1);
        }
    }
}

proof fn lemma_bidi_skip(s: Seq<char>, i: int, e: int)
    requires
        0 <= i <= e <= s.len(),
        forall|k: int| i <= k < e ==> !spec_is_bidi(#[trigger] s[k]),
    ensures
        first_bidi(s, i) == first_bidi(s, e),
    decreases e - i,
{
    if i < e {
        lemma_bidi_skip(s, i + 1, e);
    }
}

proof fn lemma_bidi_ge(s: Seq<char>, x: int)
    requires
        0 <= x,
    ensures
        first_bidi(s, x) matches Some(k) ==> x <= k < s.len(),
    decreases s.len() - x,
{
    if x < s.len() && !spec_is_bidi(s[x]) {
        lemma_bidi_ge(s, x + 1);
    }
}

proof fn lemma_bidi_agree(s: Seq<char>, t: Seq<char>, n: int, x: int)
    requires
        agree(s, t, n),
        0 <= x <= n,
    ensures
        (first_bidi(s, x) matches Some(k) && k < n) ==> first_bidi(t, x) == first_bidi(s, x),
        !(first_bidi(s, x) matches Some(k) && k < n) ==> first_bidi(s, x) == first_bidi(s, n) && first_bidi(t, x)
            == first_bidi(t, n),
    decreases n - x,
{
    lemma_bidi_ge(s, x);
    if x < n {
        assert(s[x] == t[x]);
        if !spec_is_bidi(s[x]) {
            lemma_bidi_agree(s, t, n, x + 1);
        }
    }
}

// ---------------------------------------------------------------------------
// Spelling
// ---------------------------------------------------------------------------

/// A word as the lexer reads one: a letter or `_`, then letters, digits or
/// `_`; a spelling of a keyword holds no line break and no bidirectional
/// control character.
pub open spec fn is_word(w: Seq<char>) -> bool {
    &&& w.len() > 0
    &&& spec_ident_start(w[0])
    &&& forall|k: int| 1 <= k < w.len() ==> spec_ident_continue(#[trigger] w[k])
    &&& forall|k: int| 0 <= k < w.len() ==> #[trigger] w[k] != '\n' && !spec_is_bidi(w[k])
}

proof fn lemma_newlines_none(w: Seq<char>)
    requires
        forall|k: int| 0 <= k < w.len() ==> #[trigger] w[k] != '\n',
    ensures
        newlines(w) == 0,
    decreases w.len(),
{
    if w.len() > 0 {
        lemma_newlines_none(w.drop_last());
    }
}

proof fn lemma_ident_end_at(s: Seq<char>, i: int, e: int)
    requires
        0 <= i <= e <= s.len(),
        forall|k: int| i <= k < e ==> spec_ident_continue(#[trigger] s[k]),
        e == s.len() || !spec_ident_continue(s[e]),
    ensures
        ident_end(s, i) == e,
    decreases e - i,
{
    if i < e {
        lemma_ident_end_at(s, i + 1, e);
    }
}

/// Where the word `w` stands at `n` of `s`, followed by `b` that does not
/// continue it, the lexer reads it as one word token.
proof fn lemma_read_word(a: Seq<char>, w: Seq<char>, b: Seq<char>)
    requires
        is_word(w),
        b.len() == 0 || !spec_ident_continue(b[0]),
    ensures
        lex_at(a + w + b, a.len() as int) == LexStep::Tok(word_token(w), (a.len() + w.len()) as int),
{
    let s = a + w + b;
    let n = a.len() as int;
    assert(s[n] == w[0]);
    assert forall|k: int| n + 1 <= k < n + w.len() implies spec_ident_continue(#[trigger] s[k]) by {
        assert(s[k] == w[k - n]);
    }
    if b.len() > 0 {
        assert(s[n + w.len()] == b[0]);
    }
    lemma_ident_end_at(s, n + 1, n + w.len());
    assert(s.subrange(n, n + w.len()) =~= w);
}

/// The tokens of the two spellings' sources, from the start on.
proof fn lemma_spelling_tokens(a: Seq<char>, w1: Seq<char>, w2: Seq<char>, b: Seq<char>)
    requires
        is_word(w1),
        is_word(w2),
        word_token(w1) == word_token(w2),
        b.len() == 0 || !spec_ident_continue(b[0]),
        token_start(a + w1 + b, bom_len(a + w1 + b), a.len() as int),
        token_start(a + w2 + b, bom_len(a + w2 + b), a.len() as int),
    ensures
        agree(a + w1 + b, a + w2 + b, a.len() as int),
        bom_len(a + w1 + b) == bom_len(a + w2 + b),
        tokens_from(a + w1 + b, bom_len(a + w1 + b), Seq::empty()) == tokens_from(
            a + w2 + b,
            bom_len(a + w2 + b),
            Seq::empty(),
        ),
{
    let s = a + w1 + b;
    let t = a + w2 + b;
    let n = a.len() as int;
    assert forall|k: int| 0 <= k < n implies s[k] == t[k] by {
        assert(s[k] == a[k]);
        assert(t[k] == a[k]);
    }
    assert(agree(s, t, n));
    if n > 0 {
        assert(s[0] == t[0]);
    }
    let i = bom_len(s);
    assert(i == bom_len(t));
    // Before the keyword.
    let r = lemma_prefix_run(s, t, n, i, Seq::empty());
    // The keyword.
    lemma_read_word(a, w1, b);
    lemma_read_word(a, w2, b);
    assert(s.take(n) =~= t.take(n));
    let tok = SpecToken { kind: word_token(w1), line: line_at(s, n) };
    assert(tokens_from(s, n, r) == tokens_from(s, n + w1.len(), r.push(tok)));
    assert(tokens_from(t, n, r) == tokens_from(t, n + w2.len(), r.push(tok)));
    // After it.
    let x1 = a + w1;
    let x2 = a + w2;
    lemma_newlines_none(w1);
    lemma_newlines_none(w2);
    lemma_newlines_concat(a, w1);
    lemma_newlines_concat(a, w2);
    lemma_tokens_shift(x1, x2, b, 0, r.push(tok));
}

/// The check for bidirectional control characters of the two spellings'
/// sources.
proof fn lemma_spelling_bidi(a: Seq<char>, w1: Seq<char>, w2: Seq<char>, b: Seq<char>)
    requires
        is_word(w1),
        is_word(w2),
        agree(a + w1 + b, a + w2 + b, a.len() as int),
    ensures
        match first_bidi(a + w1 + b, 0) {
            Some(k) => first_bidi(a + w2 + b, 0) matches Some(k2) && line_at(a + w1 + b, k) == line_at(a + w2 + b, k2)
                && (a + w1 + b)[k] == (a + w2 + b)[k2],
            None => first_bidi(a + w2 + b, 0) is None,
        },
{
    let s = a + w1 + b;
    let t = a + w2 + b;
    let n = a.len() as int;
    let x1 = a + w1;
    let x2 = a + w2;
    lemma_newlines_none(w1);
    lemma_newlines_none(w2);
    lemma_newlines_concat(a, w1);
    lemma_newlines_concat(a, w2);
    lemma_bidi_agree(s, t, n, 0);
    lemma_bidi_ge(s, 0);
    lemma_bidi_ge(t, 0);
    if first_bidi(s, 0) matches Some(k) && k < n {
        let k = first_bidi(s, 0)->0;
        assert(s.take(k) =~= t.take(k));
        assert(s[k] == t[k]);
    } else {
        assert forall|k: int| n <= k < n + w1.len() implies !spec_is_bidi(#[trigger] s[k]) by {
            assert(s[k] == w1[k - n]);
        }
        assert forall|k: int| n <= k < n + w2.len() implies !spec_is_bidi(#[trigger] t[k]) by {
            assert(t[k] == w2[k - n]);
        }
        lemma_bidi_skip(s, n, n + w1.len());
        lemma_bidi_skip(t, n, n + w2.len());
        lemma_bidi_shift(x1, b, 0);
        lemma_bidi_shift(x2, b, 0);
        lemma_bidi_ge(b, 0);
        assert(first_bidi(s, 0) == first_bidi(s, x1.len() as int));
        assert(first_bidi(t, 0) == first_bidi(t, x2.len() as int));
        match first_bidi(b, 0) {
            Some(k) => {
                lemma_line_shift(x1, b, k);
                lemma_line_shift(x2, b, k);
                assert(s[x1.len() + k] == b[k]);
                assert(t[x2.len() + k] == b[k]);
                assert(first_bidi(s, 0) == Some(x1.len() + k));
                assert(first_bidi(t, 0) == Some(x2.len() + k));
            },
            None => {},
        }
    }
}

/// The surface language is erased at the lexer: in a source where a
/// keyword is read as a token, writing it in another of its spellings
/// (English, Arabic or French) leaves what lexing the whole source gives
/// unchanged, the same tokens on the same lines or the same error. As
/// parsing, checking and running see only the tokens, the program and its
/// output are the same.
pub proof fn law_keyword_spelling(a: Seq<char>, w1: Seq<char>, w2: Seq<char>, b: Seq<char>)
    requires
        is_word(w1),
        is_word(w2),
        word_token(w1) == word_token(w2),
        b.len() == 0 || !spec_ident_continue(b[0]),
        token_start(a + w1 + b, bom_len(a + w1 + b), a.len() as int),
        token_start(a + w2 + b, bom_len(a + w2 + b), a.len() as int),
    ensures
        bom_len(a + w1 + b) == bom_len(a + w2 + b),
        spec_tokenize(a + w1 + b, bom_len(a + w1 + b)) == spec_tokenize(a + w2 + b, bom_len(a + w2 + b)),
{
    lemma_spelling_tokens(a, w1, w2, b);
    lemma_spelling_bidi(a, w1, w2, b);
}

/// A leading byte-order mark is tolerated: lexing a source that starts
/// with U+FEFF gives what lexing the source without it gives.
pub proof fn law_bom_tolerated(c: Seq<char>)
    requires
        c.len() == 0 || c[0] != '\u{feff}',
    ensures
        spec_tokenize(seq!['\u{feff}'] + c, bom_len(seq!['\u{feff}'] + c)) == spec_tokenize(c, bom_len(c)),
{
    let x = seq!['\u{feff}'];
    let s = x + c;
    let e: Seq<char> = Seq::empty();
    assert(e + c =~= c);
    assert(s[0] == '\u{feff}');
    assert(bom_len(s) == 1);
    assert(bom_len(c) == 0);
    assert(newlines(e) == 0);
    assert(x.drop_last() =~= e);
    assert(newlines(x) == 0);
    lemma_tokens_shift(x, e, c, 0, Seq::empty());
    lemma_bidi_shift(x, c, 0);
    lemma_bidi_shift(e, c, 0);
    assert(!spec_is_bidi(s[0]));
    assert(first_bidi(s, 0) == first_bidi(s, 1));
    lemma_bidi_ge(c, 0);
    match first_bidi(c, 0) {
        Some(k) => {
            lemma_line_shift(x, c, k);
            lemma_line_shift(e, c, k);
            assert(s[1 + k] == c[k]);
        },
        None => {},
    }
}

} // verus!
