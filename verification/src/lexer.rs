//! Hand-written trilingual lexer.
//!
//! Handles: English, Arabic and French identifiers/keywords, Arabic-Indic and
//! Extended (Persian) digit folding (`٠-٩` / `۰-۹` -> `0-9`), bilingual
//! punctuation (`،` -> Comma, `؟` -> Question), `//` line comments, and the
//! Trojan-Source defense (bidirectional control characters are rejected).
//!
//! The lexer walks the source as a sequence of characters. Its behaviour is
//! stated by the spec functions below: `spec_tokenize` gives the token list
//! (or the error message) that a source text produces.

use vstd::prelude::*;
use crate::chars::{char_is_alphabetic, char_is_alphanumeric, char_is_whitespace, is_alphabetic, is_alphanumeric, is_whitespace};
use crate::text::{dec, hex4, push_char, push_dec, push_hex4, string_of_chars, str_chars};
use crate::token::{keyword_chars, spec_keyword, SpecStrPiece, SpecToken, SpecTokenKind, StrPiece, Token, TokenKind};

verus! {

// ---------------------------------------------------------------------------
// Character classes
// ---------------------------------------------------------------------------

/// Bidirectional text-flow control characters (the Trojan Source set):
/// LRE/RLE/PDF/LRO/RLO embeddings and LRI/RLI/FSI/PDI isolates.
pub open spec fn spec_is_bidi(c: char) -> bool {
    c == '\u{202A}' || c == '\u{202B}' || c == '\u{202C}' || c == '\u{202D}' || c == '\u{202E}'
        || c == '\u{2066}' || c == '\u{2067}' || c == '\u{2068}' || c == '\u{2069}'
}

/// Numeric value of a digit: ASCII `0-9`, Arabic-Indic `٠-٩` (U+0660..U+0669)
/// and Extended Arabic-Indic / Persian `۰-۹` (U+06F0..U+06F9).
pub open spec fn spec_digit_value(c: char) -> Option<nat> {
    if '0' <= c <= '9' {
        Some((c as nat - '0' as nat) as nat)
    } else if '\u{0660}' <= c <= '\u{0669}' {
        Some((c as nat - 0x0660) as nat)
    } else if '\u{06F0}' <= c <= '\u{06F9}' {
        Some((c as nat - 0x06F0) as nat)
    } else {
        None
    }
}

/// An identifier starts with a letter or `_` (never a digit).
pub open spec fn spec_ident_start(c: char) -> bool {
    c == '_' || (char_is_alphabetic(c) && spec_digit_value(c) is None)
}

/// ...and continues with letters, digits (incl. Arabic-Indic), or `_`.
pub open spec fn spec_ident_continue(c: char) -> bool {
    c == '_' || char_is_alphanumeric(c)
}

fn is_bidi_control(c: char) -> (r: bool)
    ensures
        r == spec_is_bidi(c),
{
    c == '\u{202A}' || c == '\u{202B}' || c == '\u{202C}' || c == '\u{202D}' || c == '\u{202E}'
        || c == '\u{2066}' || c == '\u{2067}' || c == '\u{2068}' || c == '\u{2069}'
}

fn digit_value(c: char) -> (r: Option<u32>)
    ensures
        match r {
            Some(d) => spec_digit_value(c) == Some(d as nat) && d < 10,
            None => spec_digit_value(c) is None,
        },
{
    if c >= '0' && c <= '9' {
        Some(c as u32 - '0' as u32)
    } else if c >= '\u{0660}' && c <= '\u{0669}' {
        Some(c as u32 - 0x0660)
    } else if c >= '\u{06F0}' && c <= '\u{06F9}' {
        Some(c as u32 - 0x06F0)
    } else {
        None
    }
}

fn is_digit(c: char) -> (r: bool)
    ensures
        r == spec_digit_value(c) is Some,
{
    digit_value(c).is_some()
}

fn is_ident_start(c: char) -> (r: bool)
    ensures
        r == spec_ident_start(c),
{
    c == '_' || (is_alphabetic(c) && digit_value(c).is_none())
}

fn is_ident_continue(c: char) -> (r: bool)
    ensures
        r == spec_ident_continue(c),
        spec_ident_start(c) ==> r,
{
    c == '_' || is_alphanumeric(c)
}

// ---------------------------------------------------------------------------
// Lines
// ---------------------------------------------------------------------------

/// Number of newline characters in `s`.
pub open spec fn newlines(s: Seq<char>) -> nat
    decreases s.len(),
{
    if s.len() == 0 {
        0
    } else {
        newlines(s.drop_last()) + if s.last() == '\n' { 1nat } else { 0nat }
    }
}

/// The (1-based) line on which position `p` of `s` lies.
pub open spec fn line_at(s: Seq<char>, p: int) -> nat {
    1 + newlines(s.take(p))
}

pub proof fn lemma_newlines_bound(s: Seq<char>)
    ensures
        newlines(s) <= s.len(),
    decreases s.len(),
{
    if s.len() > 0 {
        lemma_newlines_bound(s.drop_last());
    }
}

pub proof fn lemma_line_step(s: Seq<char>, p: int)
    requires
        0 <= p < s.len(),
    ensures
        line_at(s, p + 1) == line_at(s, p) + if s[p] == '\n' { 1nat } else { 0nat },
        line_at(s, p + 1) <= p + 2,
{
    assert(s.take(p + 1).drop_last() =~= s.take(p));
    lemma_newlines_bound(s.take(p + 1));
}

// ---------------------------------------------------------------------------
// Scanning functions
// ---------------------------------------------------------------------------

/// The end of a `//` comment that continues at `i`: the next newline, or the end.
pub open spec fn comment_end(s: Seq<char>, i: int) -> int
    decreases s.len() - i,
{
    if i < 0 || i >= s.len() || s[i] == '\n' {
        i
    } else {
        comment_end(s, i + 1)
    }
}

pub proof fn lemma_comment_end(s: Seq<char>, i: int)
    requires
        0 <= i,
    ensures
        i <= comment_end(s, i),
        comment_end(s, i) <= s.len() || comment_end(s, i) == i,
        comment_end(s, i) < s.len() ==> s[comment_end(s, i)] == '\n',
        forall|j: int| i <= j < comment_end(s, i) ==> s[j] != '\n',
    decreases s.len() - i,
{
    if i < s.len() && s[i] != '\n' {
        lemma_comment_end(s, i + 1);
    }
}

/// Where the trivia (whitespace, `;`, `//` comments) starting at `i` ends.
pub open spec fn trivia_end(s: Seq<char>, i: int) -> int
    decreases s.len() - i,
{
    if i < 0 || i >= s.len() {
        i
    } else if char_is_whitespace(s[i]) || s[i] == ';' {
        trivia_end(s, i + 1)
    } else if s[i] == '/' && i + 1 < s.len() && s[i + 1] == '/' {
        proof {
            lemma_comment_end(s, i + 2);
        }
        trivia_end(s, comment_end(s, i + 2))
    } else {
        i
    }
}

/// The end of the identifier characters continuing at `i`.
pub open spec fn ident_end(s: Seq<char>, i: int) -> int
    decreases s.len() - i,
{
    if i < 0 || i >= s.len() || !spec_ident_continue(s[i]) {
        i
    } else {
        ident_end(s, i + 1)
    }
}

/// The end of the digits continuing at `i`.
pub open spec fn digits_end(s: Seq<char>, i: int) -> int
    decreases s.len() - i,
{
    if i < 0 || i >= s.len() || spec_digit_value(s[i]) is None {
        i
    } else {
        digits_end(s, i + 1)
    }
}

pub proof fn lemma_ident_end(s: Seq<char>, i: int)
    requires
        0 <= i <= s.len(),
    ensures
        i <= ident_end(s, i) <= s.len(),
        forall|j: int| i <= j < ident_end(s, i) ==> spec_ident_continue(#[trigger] s[j]),
    decreases s.len() - i,
{
    if i < s.len() && spec_ident_continue(s[i]) {
        lemma_ident_end(s, i + 1);
    }
}

pub proof fn lemma_digits_end(s: Seq<char>, i: int)
    requires
        0 <= i <= s.len(),
    ensures
        i <= digits_end(s, i) <= s.len(),
        forall|j: int| i <= j < digits_end(s, i) ==> (spec_digit_value(#[trigger] s[j]) is Some),
    decreases s.len() - i,
{
    if i < s.len() && spec_digit_value(s[i]) is Some {
        lemma_digits_end(s, i + 1);
    }
}

/// The value of a sequence of digits, most significant first.
pub open spec fn digits_value(d: Seq<char>) -> nat
    decreases d.len(),
{
    if d.len() == 0 {
        0
    } else {
        digits_value(d.drop_last()) * 10 + match spec_digit_value(d.last()) {
            Some(v) => v,
            None => 0,
        }
    }
}

pub proof fn lemma_digits_value_mono(d: Seq<char>, k: int)
    requires
        0 <= k <= d.len(),
    ensures
        digits_value(d.take(k)) <= digits_value(d),
    decreases d.len(),
{
    if k < d.len() {
        assert(d.drop_last().take(k) =~= d.take(k));
        lemma_digits_value_mono(d.drop_last(), k);
    } else {
        assert(d.take(k) =~= d);
    }
}

/// The character that an escape `\c` stands for.
pub open spec fn escape_char(c: char) -> char {
    if c == 'n' {
        '\n'
    } else if c == 't' {
        '\t'
    } else {
        c
    }
}

/// The outcome of scanning a string literal's body.
pub enum StrScan {
    /// The literal's text and the position after the closing quote.
    Done(Seq<char>, int),
    /// The input ended before the closing quote.
    Unterminated,
    /// The input ended right after a backslash.
    BadEscape,
}

/// Scans a string literal body from `i` (after the opening quote), with the
/// text read so far in `acc`.
pub open spec fn scan_string(s: Seq<char>, i: int, acc: Seq<char>) -> StrScan
    decreases s.len() - i,
{
    if i < 0 || i >= s.len() {
        StrScan::Unterminated
    } else if s[i] == '"' {
        StrScan::Done(acc, i + 1)
    } else if s[i] == '\\' {
        if i + 1 >= s.len() {
            StrScan::BadEscape
        } else {
            scan_string(s, i + 2, acc.push(escape_char(s[i + 1])))
        }
    } else {
        scan_string(s, i + 1, acc.push(s[i]))
    }
}

pub proof fn lemma_scan_string_end(s: Seq<char>, i: int, acc: Seq<char>)
    requires
        0 <= i,
    ensures
        scan_string(s, i, acc) matches StrScan::Done(_, e) ==> i < e <= s.len(),
    decreases s.len() - i,
{
    if 0 <= i < s.len() && s[i] != '"' {
        if s[i] == '\\' {
            if i + 1 < s.len() {
                lemma_scan_string_end(s, i + 2, acc.push(escape_char(s[i + 1])));
            }
        } else {
            lemma_scan_string_end(s, i + 1, acc.push(s[i]));
        }
    }
}

// ---------------------------------------------------------------------------
// String interpolation
// ---------------------------------------------------------------------------

/// The index of the first `}` of `t` at or after `i`.
pub open spec fn close_brace(t: Seq<char>, i: int) -> Option<int>
    decreases t.len() - i,
{
    if i < 0 || i >= t.len() {
        None
    } else if t[i] == '}' {
        Some(i)
    } else {
        close_brace(t, i + 1)
    }
}

/// `acc` with the literal text `lit` appended as a piece, unless it is empty.
pub open spec fn with_lit(acc: Seq<SpecStrPiece>, lit: Seq<char>) -> Seq<SpecStrPiece> {
    if lit.len() > 0 { acc.push(SpecStrPiece::Lit(lit)) } else { acc }
}

/// Splits a string literal's text from `i` into literal text and embedded
/// `{expression}` sources; `{{` and `}}` stand for literal braces. `lit` is
/// the literal text read since the last piece. `None` when a `{` is never
/// closed.
pub open spec fn split_pieces(t: Seq<char>, i: int, lit: Seq<char>, acc: Seq<SpecStrPiece>) -> Option<Seq<SpecStrPiece>>
    decreases t.len() - i,
{
    if i < 0 || i >= t.len() {
        Some(with_lit(acc, lit))
    } else if t[i] == '{' && i + 1 < t.len() && t[i + 1] == '{' {
        split_pieces(t, i + 2, lit.push('{'), acc)
    } else if t[i] == '}' && i + 1 < t.len() && t[i + 1] == '}' {
        split_pieces(t, i + 2, lit.push('}'), acc)
    } else if t[i] == '{' {
        match close_brace(t, i + 1) {
            Some(j) => if i < j < t.len() {
                split_pieces(t, j + 1, Seq::empty(), with_lit(acc, lit).push(SpecStrPiece::Expr(t.subrange(i + 1, j))))
            } else {
                None
            },
            None => None,
        }
    } else {
        split_pieces(t, i + 1, lit.push(t[i]), acc)
    }
}

/// The token of a string literal with text `t`: a plain string when it
/// embeds no expression, else an interpolated string. `None` when a `{` is
/// never closed.
pub open spec fn string_token(t: Seq<char>) -> Option<SpecTokenKind> {
    match split_pieces(t, 0, Seq::empty(), Seq::empty()) {
        Some(ps) => if ps.len() == 0 {
            Some(SpecTokenKind::Str(Seq::empty()))
        } else if ps.len() == 1 && ps[0] is Lit {
            Some(SpecTokenKind::Str(ps[0]->Lit_0))
        } else {
            Some(SpecTokenKind::InterpStr(ps))
        },
        None => None,
    }
}

proof fn lemma_close_brace(t: Seq<char>, i: int)
    requires
        0 <= i,
    ensures
        match close_brace(t, i) {
            Some(j) => i <= j < t.len() && t[j] == '}' && forall|k: int| i <= k < j ==> t[k] != '}',
            None => forall|k: int| i <= k < t.len() ==> t[k] != '}',
        },
    decreases t.len() - i,
{
    if i < t.len() && t[i] != '}' {
        lemma_close_brace(t, i + 1);
    }
}

fn push_lit(acc: &mut Vec<StrPiece>, lit: &Vec<char>)
    ensures
        final(acc)@.map_values(|x: StrPiece| x@) == with_lit(old(acc)@.map_values(|x: StrPiece| x@), lit@),
{
    if lit.len() > 0 {
        let ghost before = acc@;
        acc.push(StrPiece::Lit(string_of_chars(lit.as_slice())));
        assert(acc@.map_values(|x: StrPiece| x@) =~= before.map_values(|x: StrPiece| x@).push(SpecStrPiece::Lit(lit@)));
    }
}

/// Splits a string literal's text into its pieces, as [`split_pieces`]
/// states it.
fn split_interp(t: &[char]) -> (r: Option<Vec<StrPiece>>)
    ensures
        match split_pieces(t@, 0, Seq::empty(), Seq::empty()) {
            Some(ps) => r matches Some(v) && v@.map_values(|x: StrPiece| x@) == ps,
            None => r is None,
        },
{
    let mut acc: Vec<StrPiece> = Vec::new();
    let mut lit: Vec<char> = Vec::new();
    let mut i: usize = 0;
    assert(acc@.map_values(|x: StrPiece| x@) =~= Seq::<SpecStrPiece>::empty());
    assert(lit@ =~= Seq::<char>::empty());
    while i < t.len()
        invariant
            i <= t@.len(),
            split_pieces(t@, 0, Seq::empty(), Seq::empty()) == split_pieces(
                t@,
                i as int,
                lit@,
                acc@.map_values(|x: StrPiece| x@),
            ),
        decreases t.len() - i,
    {
        let c = t[i];
        if c == '{' && i + 1 < t.len() && t[i + 1] == '{' {
            lit.push('{');
            i = i + 2;
        } else if c == '}' && i + 1 < t.len() && t[i + 1] == '}' {
            lit.push('}');
            i = i + 2;
        } else if c == '{' {
            proof {
                lemma_close_brace(t@, i + 1);
            }
            let mut j: usize = i + 1;
            while j < t.len() && t[j] != '}'
                invariant
                    i + 1 <= j <= t@.len(),
                    close_brace(t@, i + 1) == close_brace(t@, j as int),
                decreases t.len() - j,
            {
                j = j + 1;
            }
            if j >= t.len() {
                return None;
            }
            let mut raw: Vec<char> = Vec::new();
            let mut k: usize = i + 1;
            while k < j
                invariant
                    i + 1 <= k <= j,
                    j < t@.len(),
                    raw@ == t@.subrange(i + 1, k as int),
                decreases j - k,
            {
                raw.push(t[k]);
                k = k + 1;
                assert(raw@ =~= t@.subrange(i + 1, k as int));
            }
            push_lit(&mut acc, &lit);
            let ghost before = acc@;
            acc.push(StrPiece::Expr(string_of_chars(raw.as_slice())));
            assert(acc@.map_values(|x: StrPiece| x@) =~= before.map_values(|x: StrPiece| x@).push(SpecStrPiece::Expr(t@.subrange(i + 1, j as int))));
            lit = Vec::new();
            assert(lit@ =~= Seq::<char>::empty());
            i = j + 1;
        } else {
            lit.push(c);
            i = i + 1;
        }
    }
    push_lit(&mut acc, &lit);
    Some(acc)
}

/// The token of a string literal with text `t`, as [`string_token`]
/// states it.
fn string_token_of(t: String) -> (r: Option<TokenKind>)
    ensures
        match string_token(t@) {
            Some(k) => r matches Some(x) && x@ == k,
            None => r is None,
        },
{
    let cs = str_chars(t.as_str());
    match split_interp(cs.as_slice()) {
        Some(mut ps) => {
            let ghost vs = ps@.map_values(|x: StrPiece| x@);
            if ps.len() == 0 {
                Some(TokenKind::Str(String::new()))
            } else if ps.len() == 1 && matches!(ps[0], StrPiece::Lit(_)) {
                match ps.pop() {
                    Some(StrPiece::Lit(x)) => {
                        assert(vs[0] == SpecStrPiece::Lit(x@));
                        Some(TokenKind::Str(x))
                    }
                    _ => None,
                }
            } else {
                Some(TokenKind::InterpStr(ps))
            }
        }
        None => None,
    }
}

// ---------------------------------------------------------------------------
// Error messages
// ---------------------------------------------------------------------------

pub open spec fn line_prefix(line: nat) -> Seq<char> {
    "line "@ + dec(line) + ": "@
}

pub open spec fn msg_bidi(line: nat, c: char) -> Seq<char> {
    line_prefix(line) + "disallowed bidirectional control character U+"@ + hex4(c as nat)
        + " (Trojan Source defense — invisible reordering characters are not allowed)"@
}

pub open spec fn msg_too_large(line: nat) -> Seq<char> {
    line_prefix(line) + "integer literal is too large"@
}

pub open spec fn msg_unterminated_string(line: nat) -> Seq<char> {
    line_prefix(line) + "unterminated string literal"@
}

pub open spec fn msg_unclosed_brace(line: nat) -> Seq<char> {
    line_prefix(line) + "unclosed `{` in string literal (write `{{` for a literal brace)"@
}

pub open spec fn msg_unterminated_escape(line: nat) -> Seq<char> {
    line_prefix(line) + "unterminated escape"@
}

pub open spec fn msg_unexpected(line: nat, c: char) -> Seq<char> {
    line_prefix(line) + "unexpected character '"@ + seq![c] + "'"@
}

// ---------------------------------------------------------------------------
// Tokens
// ---------------------------------------------------------------------------

/// The outcome of lexing one token.
pub enum LexStep {
    /// A token and the position after it.
    Tok(SpecTokenKind, int),
    /// A lexical error, with its message.
    Fail(Seq<char>),
}

/// The token that a punctuation character at `i` begins (with one character
/// of lookahead for two-character operators).
pub open spec fn symbol_at(s: Seq<char>, i: int) -> LexStep {
    let c = s[i];
    let next_is = |d: char| i + 1 < s.len() && s[i + 1] == d;
    if c == '+' {
        LexStep::Tok(SpecTokenKind::Plus, i + 1)
    } else if c == '-' {
        if next_is('>') { LexStep::Tok(SpecTokenKind::Arrow, i + 2) }
        else { LexStep::Tok(SpecTokenKind::Minus, i + 1) }
    } else if c == '*' {
        LexStep::Tok(SpecTokenKind::Star, i + 1)
    } else if c == '/' {
        LexStep::Tok(SpecTokenKind::Slash, i + 1)
    } else if c == '%' {
        LexStep::Tok(SpecTokenKind::Percent, i + 1)
    } else if c == '(' {
        LexStep::Tok(SpecTokenKind::LParen, i + 1)
    } else if c == ')' {
        LexStep::Tok(SpecTokenKind::RParen, i + 1)
    } else if c == '{' {
        LexStep::Tok(SpecTokenKind::LBrace, i + 1)
    } else if c == '}' {
        LexStep::Tok(SpecTokenKind::RBrace, i + 1)
    } else if c == '[' {
        LexStep::Tok(SpecTokenKind::LBracket, i + 1)
    } else if c == ']' {
        LexStep::Tok(SpecTokenKind::RBracket, i + 1)
    } else if c == ',' || c == '،' {
        LexStep::Tok(SpecTokenKind::Comma, i + 1)
    } else if c == '?' || c == '؟' {
        LexStep::Tok(SpecTokenKind::Question, i + 1)
    } else if c == '&' {
        LexStep::Tok(SpecTokenKind::Amp, i + 1)
    } else if c == '=' {
        if next_is('=') { LexStep::Tok(SpecTokenKind::EqEq, i + 2) }
        else if next_is('>') { LexStep::Tok(SpecTokenKind::FatArrow, i + 2) }
        else { LexStep::Tok(SpecTokenKind::Assign, i + 1) }
    } else if c == ':' {
        if next_is(':') { LexStep::Tok(SpecTokenKind::PathSep, i + 2) }
        else { LexStep::Tok(SpecTokenKind::Colon, i + 1) }
    } else if c == '!' {
        if next_is('=') { LexStep::Tok(SpecTokenKind::Ne, i + 2) }
        else { LexStep::Tok(SpecTokenKind::Bang, i + 1) }
    } else if c == '<' {
        if next_is('=') { LexStep::Tok(SpecTokenKind::Le, i + 2) }
        else { LexStep::Tok(SpecTokenKind::Lt, i + 1) }
    } else if c == '>' {
        if next_is('=') { LexStep::Tok(SpecTokenKind::Ge, i + 2) }
        else { LexStep::Tok(SpecTokenKind::Gt, i + 1) }
    } else if c == '.' {
        if next_is('.') { LexStep::Tok(SpecTokenKind::DotDot, i + 2) }
        else { LexStep::Tok(SpecTokenKind::Dot, i + 1) }
    } else {
        LexStep::Fail(msg_unexpected(line_at(s, i), c))
    }
}

/// A scanned word: a keyword in any surface language, else an identifier.
pub open spec fn word_token(w: Seq<char>) -> SpecTokenKind {
    match spec_keyword(w) {
        Some(k) => k,
        None => SpecTokenKind::Ident(w),
    }
}

/// The token that begins at `i` (a non-trivia position inside `s`).
pub open spec fn lex_at(s: Seq<char>, i: int) -> LexStep {
    let c = s[i];
    if spec_ident_start(c) {
        let e = ident_end(s, i + 1);
        LexStep::Tok(word_token(s.subrange(i, e)), e)
    } else if spec_digit_value(c) is Some {
        let e = digits_end(s, i + 1);
        let v = digits_value(s.subrange(i, e));
        if v > i64::MAX {
            LexStep::Fail(msg_too_large(line_at(s, i)))
        } else {
            LexStep::Tok(SpecTokenKind::Int(v as i64), e)
        }
    } else if c == '"' {
        match scan_string(s, i + 1, Seq::empty()) {
            StrScan::Done(t, e) => match string_token(t) {
                Some(k) => LexStep::Tok(k, e),
                None => LexStep::Fail(msg_unclosed_brace(line_at(s, e))),
            },
            StrScan::Unterminated => LexStep::Fail(msg_unterminated_string(line_at(s, s.len() as int))),
            StrScan::BadEscape => LexStep::Fail(msg_unterminated_escape(line_at(s, s.len() as int))),
        }
    } else {
        symbol_at(s, i)
    }
}

pub proof fn lemma_lex_at_advances(s: Seq<char>, i: int)
    requires
        0 <= i < s.len(),
    ensures
        lex_at(s, i) matches LexStep::Tok(_, e) ==> i < e <= s.len(),
{
    let c = s[i];
    if spec_ident_start(c) {
        lemma_ident_end(s, i + 1);
    } else if spec_digit_value(c) is Some {
        lemma_digits_end(s, i + 1);
    } else if c == '"' {
        lemma_scan_string_end(s, i + 1, Seq::empty());
    }
}

/// The tokens from position `i` on, appended to `acc`, ending with `Eof`.
pub open spec fn tokens_from(s: Seq<char>, i: int, acc: Seq<SpecToken>) -> Result<Seq<SpecToken>, Seq<char>>
    decreases s.len() - i,
{
    if i < 0 {
        Ok(acc)
    } else {
        let q = trivia_end(s, i);
        if q >= s.len() {
            Ok(acc.push(SpecToken { kind: SpecTokenKind::Eof, line: line_at(s, q) }))
        } else if q < i {
            Ok(acc)
        } else {
            proof {
                lemma_lex_at_advances(s, q);
            }
            match lex_at(s, q) {
                LexStep::Tok(k, e) => tokens_from(s, e, acc.push(SpecToken { kind: k, line: line_at(s, q) })),
                LexStep::Fail(m) => Err(m),
            }
        }
    }
}

/// The first position of `s` that holds a bidirectional control character.
pub open spec fn first_bidi(s: Seq<char>, i: int) -> Option<int>
    decreases s.len() - i,
{
    if i < 0 || i >= s.len() {
        None
    } else if spec_is_bidi(s[i]) {
        Some(i)
    } else {
        first_bidi(s, i + 1)
    }
}

/// The length of a leading byte-order mark (U+FEFF) of `s`: editors on some
/// systems prepend one, and it is skipped.
pub open spec fn bom_len(s: Seq<char>) -> int {
    if s.len() > 0 && s[0] == '\u{feff}' { 1 } else { 0 }
}

/// What lexing `s` from position `i` yields: the whole source is first
/// checked for bidirectional control characters, then tokens are read.
pub open spec fn spec_tokenize(s: Seq<char>, i: int) -> Result<Seq<SpecToken>, Seq<char>> {
    match first_bidi(s, 0) {
        Some(b) => Err(msg_bidi(line_at(s, b), s[b])),
        None => tokens_from(s, i, Seq::empty()),
    }
}


pub proof fn lemma_trivia_end(s: Seq<char>, i: int)
    requires
        0 <= i <= s.len(),
    ensures
        i <= trivia_end(s, i) <= s.len(),
    decreases s.len() - i,
{
    if i < s.len() {
        if char_is_whitespace(s[i]) || s[i] == ';' {
            lemma_trivia_end(s, i + 1);
        } else if s[i] == '/' && i + 1 < s.len() && s[i + 1] == '/' {
            lemma_comment_end(s, i + 2);
            lemma_trivia_end(s, comment_end(s, i + 2));
        }
    }
}

// ---------------------------------------------------------------------------
// The lexer
// ---------------------------------------------------------------------------

/// A lexer over one source text.
pub struct Lexer {
    src: Vec<char>,
    /// Index of the next character to read.
    pos: usize,
    /// The line of `pos` (1-based).
    line: usize,
}

fn line_prefix_text(line: usize) -> (r: String)
    ensures
        r@ == line_prefix(line as nat),
{
    let mut m = String::new();
    m.append("line ");
    push_dec(&mut m, line as u64);
    m.append(": ");
    m
}

impl Lexer {
    /// The source text being lexed.
    pub closed spec fn source(&self) -> Seq<char> {
        self.src@
    }

    /// The position of the next character to read.
    pub closed spec fn position(&self) -> int {
        self.pos as int
    }

    /// The lexer's internal invariant.
    pub closed spec fn wf(&self) -> bool {
        &&& self.pos <= self.src@.len()
        &&& self.src@.len() < usize::MAX
        &&& self.line == line_at(self.src@, self.pos as int)
        &&& self.line <= self.pos + 1
    }

    /// A lexer at the start of `src`, past a leading byte-order mark.
    pub fn new(src: &str) -> (r: Self)
        requires
            src@.len() < usize::MAX,
        ensures
            r.wf(),
            r.source() == src@,
            r.position() == bom_len(src@),
    {
        let chars = str_chars(src);
        assert(chars@.take(0) =~= Seq::<char>::empty());
        let start: usize = if chars.len() > 0 && chars[0] == '\u{feff}' {
            assert(chars@.take(1).drop_last() =~= chars@.take(0));
            assert(chars@.take(1).last() == '\u{feff}');
            assert(newlines(chars@.take(0)) == 0);
            assert(newlines(chars@.take(1)) == 0);
            1
        } else {
            0
        };
        Lexer { src: chars, pos: start, line: 1 }
    }

    /// The next char without consuming it.
    fn peek(&self) -> (r: Option<char>)
        requires
            self.wf(),
        ensures
            r == (if self.pos < self.src@.len() { Some(self.src@[self.pos as int]) } else { None::<char> }),
    {
        if self.pos < self.src.len() {
            Some(self.src[self.pos])
        } else {
            None
        }
    }

    /// The char after `peek`, without consuming.
    fn peek2(&self) -> (r: Option<char>)
        requires
            self.wf(),
        ensures
            r == (if self.pos + 1 < self.src@.len() { Some(self.src@[self.pos + 1]) } else { None::<char> }),
    {
        if self.pos + 1 < self.src.len() {
            Some(self.src[self.pos + 1])
        } else {
            None
        }
    }

    /// Consumes one character, keeping the line count.
    fn bump(&mut self) -> (c: char)
        requires
            old(self).wf(),
            old(self).pos < old(self).src@.len(),
        ensures
            final(self).wf(),
            final(self).src@ == old(self).src@,
            final(self).pos == old(self).pos + 1,
            c == old(self).src@[old(self).pos as int],
    {
        let c = self.src[self.pos];
        proof {
            lemma_line_step(self.src@, self.pos as int);
        }
        if c == '\n' {
            self.line = self.line + 1;
        }
        self.pos = self.pos + 1;
        c
    }

    /// One O(n) pre-scan rejecting bidi control characters (Trojan Source),
    /// reporting the first offender with its line and codepoint.
    fn reject_bidi_control_chars(&self) -> (r: Result<(), String>)
        requires
            self.wf(),
        ensures
            match r {
                Ok(()) => first_bidi(self.src@, 0) is None,
                Err(m) => first_bidi(self.src@, 0) matches Some(b)
                    && m@ == msg_bidi(line_at(self.src@, b), self.src@[b]),
            },
    {
        let ghost s = self.src@;
        let mut line: usize = 1;
        let mut i: usize = 0;
        assert(s.take(0) =~= Seq::<char>::empty());
        while i < self.src.len()
            invariant
                s == self.src@,
                s.len() < usize::MAX,
                i <= s.len(),
                line == line_at(s, i as int),
                line <= i + 1,
                first_bidi(s, 0) == first_bidi(s, i as int),
            decreases s.len() - i,
        {
            let c = self.src[i];
            proof {
                lemma_line_step(s, i as int);
            }
            if c == '\n' {
                line = line + 1;
            } else if is_bidi_control(c) {
                let mut m = line_prefix_text(line);
                m.append("disallowed bidirectional control character U+");
                let code: u32 = c as u32;
                push_hex4(&mut m, code);
                m.append(" (Trojan Source defense — invisible reordering characters are not allowed)");
                return Err(m);
            }
            i = i + 1;
        }
        Ok(())
    }

    /// Whitespace (incl. newlines), `;` (optional terminators), and `//` comments.
    fn skip_trivia(&mut self)
        requires
            old(self).wf(),
        ensures
            final(self).wf(),
            final(self).src@ == old(self).src@,
            final(self).pos == trivia_end(old(self).src@, old(self).pos as int),
    {
        let ghost s = self.src@;
        let ghost target = trivia_end(s, self.pos as int);
        proof {
            lemma_trivia_end(s, self.pos as int);
        }
        loop
            invariant
                self.wf(),
                self.src@ == s,
                s == old(self).src@,
                self.pos <= target,
                trivia_end(s, self.pos as int) == target,
            ensures
                self.wf(),
                self.src@ == s,
                s == old(self).src@,
                self.pos == target,
            decreases s.len() - self.pos,
        {
            match self.peek() {
                Some(c) => {
                    if is_whitespace(c) || c == ';' {
                        self.bump();
                        proof {
                            lemma_trivia_end(s, self.pos as int);
                        }
                    } else if c == '/' && self.peek2() == Some('/') {
                        let ghost start = self.pos as int;
                        proof {
                            lemma_comment_end(s, start + 2);
                            assert(s[start] == '/' && s[start + 1] == '/');
                            assert(comment_end(s, start + 1) == comment_end(s, start + 2));
                            assert(comment_end(s, start) == comment_end(s, start + 1));
                        }
                        loop
                            invariant
                                self.wf(),
                                self.src@ == s,
                                start <= self.pos <= comment_end(s, start + 2),
                                comment_end(s, self.pos as int) == comment_end(s, start + 2),
                                trivia_end(s, comment_end(s, start + 2)) == target,
                            ensures
                                self.wf(),
                                self.src@ == s,
                                self.pos == comment_end(s, start + 2),
                            decreases s.len() - self.pos,
                        {
                            match self.peek() {
                                Some(c2) => {
                                    if c2 == '\n' {
                                        break;
                                    }
                                    self.bump();
                                    proof {
                                        lemma_comment_end(s, self.pos as int);
                                    }
                                }
                                None => {
                                    break;
                                }
                            }
                        }
                        proof {
                            lemma_trivia_end(s, self.pos as int);
                        }
                    } else {
                        break;
                    }
                }
                None => {
                    break;
                }
            }
        }
    }

    /// Identifier or keyword: the scanned word is looked up in the keyword
    /// table; only `Ident` payloads are kept as strings.
    fn lex_word(&mut self) -> (k: TokenKind)
        requires
            old(self).wf(),
            old(self).pos < old(self).src@.len(),
            spec_ident_start(old(self).src@[old(self).pos as int]),
        ensures
            final(self).wf(),
            final(self).src@ == old(self).src@,
            final(self).pos == ident_end(old(self).src@, old(self).pos + 1),
            k@ == word_token(old(self).src@.subrange(old(self).pos as int, final(self).pos as int)),
    {
        let ghost s = self.src@;
        let start = self.pos;
        let mut word: Vec<char> = Vec::new();
        proof {
            lemma_ident_end(s, start + 1);
        }
        loop
            invariant
                self.wf(),
                self.src@ == s,
                s == old(self).src@,
                start <= self.pos,
                self.pos <= ident_end(s, start + 1),
                self.pos > start ==> ident_end(s, self.pos as int) == ident_end(s, start + 1),
                word@ == s.subrange(start as int, self.pos as int),
                spec_ident_start(s[start as int]),
                start < s.len(),
            ensures
                self.wf(),
                self.src@ == s,
                s == old(self).src@,
                self.pos == ident_end(s, start + 1),
                word@ == s.subrange(start as int, self.pos as int),
            decreases s.len() - self.pos,
        {
            match self.peek() {
                Some(c) => {
                    if is_ident_continue(c) {
                        let c = self.bump();
                        word.push(c);
                        proof {
                            lemma_ident_end(s, self.pos as int);
                        }
                        assert(word@ =~= s.subrange(start as int, self.pos as int));
                    } else {
                        break;
                    }
                }
                None => {
                    break;
                }
            }
        }
        match keyword_chars(word.as_slice()) {
            Some(k) => k,
            None => TokenKind::Ident(string_of_chars(word.as_slice())),
        }
    }

    /// Integer literal: folds ASCII, Arabic-Indic, and Persian digits into one
    /// `i64`; a literal that does not fit is an error.
    fn lex_number(&mut self) -> (r: Result<TokenKind, String>)
        requires
            old(self).wf(),
            old(self).pos < old(self).src@.len(),
            spec_digit_value(old(self).src@[old(self).pos as int]) is Some,
        ensures
            final(self).wf(),
            final(self).src@ == old(self).src@,
            match lex_at(old(self).src@, old(self).pos as int) {
                LexStep::Tok(k, e) => r matches Ok(t) && t@ == k && final(self).pos == e,
                LexStep::Fail(m) => r matches Err(msg) && msg@ == m,
            },
    {
        let ghost s = self.src@;
        let start = self.pos;
        let start_line = self.line;
        let ghost e = digits_end(s, start + 1);
        let mut val: i64 = 0;
        proof {
            lemma_digits_end(s, start + 1);
            assert(s.subrange(start as int, start as int) =~= Seq::<char>::empty());
            assert(!spec_ident_start(s[start as int]));
        }
        loop
            invariant
                self.wf(),
                self.src@ == s,
                s == old(self).src@,
                start <= self.pos <= e,
                self.pos > start ==> digits_end(s, self.pos as int) == e,
                e == digits_end(s, start + 1),
                start + 1 <= e <= s.len(),
                forall|j: int| start + 1 <= j < e ==> (spec_digit_value(#[trigger] s[j]) is Some),
                spec_digit_value(s[start as int]) is Some,
                0 <= val,
                val as nat == digits_value(s.subrange(start as int, self.pos as int)),
                start_line == line_at(s, start as int),
                start == old(self).pos,
            ensures
                self.wf(),
                self.src@ == s,
                s == old(self).src@,
                self.pos == e,
                val as nat == digits_value(s.subrange(start as int, e)),
            decreases s.len() - self.pos,
        {
            match self.peek() {
                Some(c) => {
                    match digit_value(c) {
                        Some(d) => {
                            let ghost p = self.pos as int;
                            proof {
                                lemma_digits_end(s, p + 1);
                                if p > start {
                                    assert(digits_end(s, p) == digits_end(s, p + 1));
                                }
                            }
                            assert(s.subrange(start as int, p + 1).drop_last() =~= s.subrange(start as int, p));
                            let nv: i128 = val as i128 * 10 + d as i128;
                            if nv > i64::MAX as i128 {
                                proof {
                                    let full = s.subrange(start as int, e);
                                    assert(full.take(p + 1 - start) =~= s.subrange(start as int, p + 1));
                                    lemma_digits_value_mono(full, p + 1 - start);
                                }
                                let mut m = line_prefix_text(start_line);
                                m.append("integer literal is too large");
                                return Err(m);
                            }
                            val = nv as i64;
                            self.bump();
                        }
                        None => {
                            break;
                        }
                    }
                }
                None => {
                    break;
                }
            }
        }
        Ok(TokenKind::Int(val))
    }

    /// String literal with `\n`, `\t`, `\"`, `\\` escapes (any other escaped
    /// character stands for itself).
    fn lex_string(&mut self) -> (r: Result<TokenKind, String>)
        requires
            old(self).wf(),
            old(self).pos < old(self).src@.len(),
            old(self).src@[old(self).pos as int] == '"',
            !spec_ident_start('"'),
            spec_digit_value('"') is None,
        ensures
            final(self).wf(),
            final(self).src@ == old(self).src@,
            match lex_at(old(self).src@, old(self).pos as int) {
                LexStep::Tok(k, e) => r matches Ok(t) && t@ == k && final(self).pos == e,
                LexStep::Fail(m) => r matches Err(msg) && msg@ == m,
            },
    {
        let ghost s = self.src@;
        let ghost start = self.pos as int;
        self.bump();
        let mut out = String::new();
        loop
            invariant_except_break
                start < self.pos,
                scan_string(s, start + 1, Seq::empty()) == scan_string(s, self.pos as int, out@),
            invariant
                self.wf(),
                self.src@ == s,
                s == old(self).src@,
                start == old(self).pos,
                s[start] == '"',
                !spec_ident_start(s[start]),
                spec_digit_value(s[start]) is None,
            ensures
                self.wf(),
                self.src@ == s,
                s == old(self).src@,
                scan_string(s, start + 1, Seq::empty()) == StrScan::Done(out@, self.pos as int),
            decreases s.len() - self.pos,
        {
            if self.pos >= self.src.len() {
                let mut m = line_prefix_text(self.line);
                m.append("unterminated string literal");
                return Err(m);
            }
            let c = self.bump();
            if c == '"' {
                break;
            } else if c == '\\' {
                if self.pos >= self.src.len() {
                    let mut m = line_prefix_text(self.line);
                    m.append("unterminated escape");
                    return Err(m);
                }
                let e = self.bump();
                if e == 'n' {
                    push_char(&mut out, '\n');
                } else if e == 't' {
                    push_char(&mut out, '\t');
                } else {
                    push_char(&mut out, e);
                }
            } else {
                push_char(&mut out, c);
            }
        }
        match string_token_of(out) {
            Some(k) => Ok(k),
            None => {
                let mut m = line_prefix_text(self.line);
                m.append("unclosed `{` in string literal (write `{{` for a literal brace)");
                Err(m)
            }
        }
    }

    /// Punctuation and operators, with one character of lookahead.
    fn lex_symbol(&mut self) -> (r: Result<TokenKind, String>)
        requires
            old(self).wf(),
            old(self).pos < old(self).src@.len(),
        ensures
            final(self).wf(),
            final(self).src@ == old(self).src@,
            match symbol_at(old(self).src@, old(self).pos as int) {
                LexStep::Tok(k, e) => r matches Ok(t) && t@ == k && final(self).pos == e,
                LexStep::Fail(m) => r matches Err(msg) && msg@ == m,
            },
    {
        let line = self.line;
        let c = self.bump();
        let kind = if c == '+' {
            TokenKind::Plus
        } else if c == '-' {
            if self.peek() == Some('>') {
                self.bump();
                TokenKind::Arrow
            } else {
                TokenKind::Minus
            }
        } else if c == '*' {
            TokenKind::Star
        } else if c == '/' {
            TokenKind::Slash
        } else if c == '%' {
            TokenKind::Percent
        } else if c == '(' {
            TokenKind::LParen
        } else if c == ')' {
            TokenKind::RParen
        } else if c == '{' {
            TokenKind::LBrace
        } else if c == '}' {
            TokenKind::RBrace
        } else if c == '[' {
            TokenKind::LBracket
        } else if c == ']' {
            TokenKind::RBracket
        } else if c == ',' || c == '،' {
            TokenKind::Comma
        } else if c == '?' || c == '؟' {
            TokenKind::Question
        } else if c == '&' {
            TokenKind::Amp
        } else if c == '=' {
            if self.peek() == Some('=') {
                self.bump();
                TokenKind::EqEq
            } else if self.peek() == Some('>') {
                self.bump();
                TokenKind::FatArrow
            } else {
                TokenKind::Assign
            }
        } else if c == ':' {
            if self.peek() == Some(':') {
                self.bump();
                TokenKind::PathSep
            } else {
                TokenKind::Colon
            }
        } else if c == '!' {
            if self.peek() == Some('=') {
                self.bump();
                TokenKind::Ne
            } else {
                TokenKind::Bang
            }
        } else if c == '<' {
            if self.peek() == Some('=') {
                self.bump();
                TokenKind::Le
            } else {
                TokenKind::Lt
            }
        } else if c == '>' {
            if self.peek() == Some('=') {
                self.bump();
                TokenKind::Ge
            } else {
                TokenKind::Gt
            }
        } else if c == '.' {
            if self.peek() == Some('.') {
                self.bump();
                TokenKind::DotDot
            } else {
                TokenKind::Dot
            }
        } else {
            let mut m = line_prefix_text(line);
            m.append("unexpected character '");
            push_char(&mut m, c);
            m.append("'");
            return Err(m);
        };
        Ok(kind)
    }

    /// Lexes the whole source from the current position: bidirectional
    /// control characters anywhere in the source are rejected first
    /// (Trojan Source, CVE-2021-42574), then tokens are read up to `Eof`.
    pub fn tokenize(&mut self) -> (r: Result<Vec<Token>, String>)
        requires
            old(self).wf(),
        ensures
            final(self).wf(),
            final(self).source() == old(self).source(),
            match spec_tokenize(old(self).source(), old(self).position()) {
                Ok(ts) => r matches Ok(v) && v@.map_values(|t: Token| t@) == ts,
                Err(m) => r matches Err(msg) && msg@ == m,
            },
            r matches Ok(v) ==> v@.len() > 0 && v@.last().kind@ is Eof,
    {
        let ghost s = self.src@;
        let ghost p0 = self.pos as int;
        self.reject_bidi_control_chars()?;
        let mut out: Vec<Token> = Vec::new();
        assert(out@.map_values(|t: Token| t@) =~= Seq::<SpecToken>::empty());
        loop
            invariant
                self.wf(),
                self.src@ == s,
                s == old(self).src@,
                p0 <= self.pos,
                p0 == old(self).pos,
                first_bidi(s, 0) is None,
                tokens_from(s, p0, Seq::empty()) == tokens_from(s, self.pos as int, out@.map_values(|t: Token| t@)),
            decreases s.len() - self.pos,
        {
            let ghost p = self.pos as int;
            let ghost acc = out@.map_values(|t: Token| t@);
            proof {
                lemma_trivia_end(s, p);
            }
            self.skip_trivia();
            let line = self.line;
            let c = match self.peek() {
                None => {
                    let ghost old_out = out@;
                    out.push(Token { kind: TokenKind::Eof, line });
                    assert(out@.map_values(|t: Token| t@) =~= acc.push(SpecToken { kind: SpecTokenKind::Eof, line: line_at(s, self.pos as int) }));
                    return Ok(out);
                }
                Some(c) => c,
            };
            let ghost q = self.pos as int;
            proof {
                lemma_lex_at_advances(s, q);
            }
            let kind = if is_ident_start(c) {
                self.lex_word()
            } else if is_digit(c) {
                self.lex_number()?
            } else if c == '"' {
                self.lex_string()?
            } else {
                self.lex_symbol()?
            };
            out.push(Token { kind, line });
            assert(out@.map_values(|t: Token| t@) =~= acc.push(SpecToken { kind: kind@, line: line_at(s, q) }));
        }
    }
}

} // verus!
