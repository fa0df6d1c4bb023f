//! Token definitions and the trilingual keyword map.
//!
//! THE CORE TRILINGUAL MECHANISM lives in `keyword()`: English, Arabic, and
//! French spellings map to the SAME language-neutral `TokenKind`. After lexing,
//! nothing downstream knows which surface language the source was written in.

use vstd::prelude::*;
use crate::text::{chars_eq, chars_eq_str, str_chars};

verus! {

#[derive(Debug, Clone)]
pub enum TokenKind {
    // Keywords (language-neutral after this point)
    Let, // let   / دع     / soit
    Var, // var   / متغير  / variable
    Fn, // fn    / دالة   / fonction
    If, // if    / اذا    / si
    Else, // else  / وإلا   / sinon
    While, // while / طالما  / tantque
    For, // for   / لكل    / pour
    In, // in    / في     / dans
    Return, // return/ أرجع   / retourne
    True, // true  / صحيح   / vrai
    False, // false / خطأ    / faux
    Struct, // struct/ هيكل   / structure
    Enum, // enum  / تعداد  / énum
    Match, // match / طابق   / selon
    Impl, // impl  / تطبيق  / implémente
    As, // as    / كـ     / comme  (numeric cast)
    // Literals
    Int(i64),
    /// A float literal, held as its IEEE-754 bit pattern.
    Float(u64),
    Str(String),
    /// An interpolated string literal: a sequence of literal text and embedded
    /// expression source, e.g. `"hi {name}"`.
    InterpStr(Vec<StrPiece>),
    Ident(String),
    // Operators and delimiters
    Plus,
    Minus,
    Star,
    Slash,
    Percent,
    EqEq,
    Ne,
    Lt,
    Le,
    Gt,
    Ge,
    Assign,
    Bang,
    LParen,
    RParen,
    LBrace,
    RBrace,
    LBracket, // [  (array literals, array types, indexing)
    RBracket, // ]
    Comma, // ,  /  ، (U+060C)
    DotDot, // .. (exclusive range, used in `for`)
    Dot, // .  (field access)
    Colon, // :  (type annotations)
    PathSep, // :: (enum variant paths)
    FatArrow, // => (match arms)
    Arrow, // -> (function return type)
    Amp, // &  (shared reference, as in &self)
    Question, // ?  / ؟ (U+061F) — error propagation
    Eof,
}

/// The mathematical model of a token kind: strings become character sequences.
pub enum SpecTokenKind {
    // Keywords (language-neutral after this point)
    Let, // let   / دع     / soit
    Var, // var   / متغير  / variable
    Fn, // fn    / دالة   / fonction
    If, // if    / اذا    / si
    Else, // else  / وإلا   / sinon
    While, // while / طالما  / tantque
    For, // for   / لكل    / pour
    In, // in    / في     / dans
    Return, // return/ أرجع   / retourne
    True, // true  / صحيح   / vrai
    False, // false / خطأ    / faux
    Struct, // struct/ هيكل   / structure
    Enum, // enum  / تعداد  / énum
    Match, // match / طابق   / selon
    Impl, // impl  / تطبيق  / implémente
    As, // as    / كـ     / comme  (numeric cast)
    // Literals
    Int(i64),
    /// A float literal, held as its IEEE-754 bit pattern.
    Float(u64),
    Str(Seq<char>),
    /// An interpolated string literal: a sequence of literal text and embedded
    /// expression source, e.g. `"hi {name}"`.
    InterpStr(Seq<SpecStrPiece>),
    Ident(Seq<char>),
    // Operators and delimiters
    Plus,
    Minus,
    Star,
    Slash,
    Percent,
    EqEq,
    Ne,
    Lt,
    Le,
    Gt,
    Ge,
    Assign,
    Bang,
    LParen,
    RParen,
    LBrace,
    RBrace,
    LBracket, // [  (array literals, array types, indexing)
    RBracket, // ]
    Comma, // ,  /  ، (U+060C)
    DotDot, // .. (exclusive range, used in `for`)
    Dot, // .  (field access)
    Colon, // :  (type annotations)
    PathSep, // :: (enum variant paths)
    FatArrow, // => (match arms)
    Arrow, // -> (function return type)
    Amp, // &  (shared reference, as in &self)
    Question, // ?  / ؟ (U+061F) — error propagation
    Eof,
}

/// One piece of an interpolated string. `Expr` holds the raw source between
/// `{` and `}`, re-parsed into an expression by the parser.
#[derive(Debug, Clone)]
pub enum StrPiece {
    Lit(String),
    Expr(String),
}

/// The model of a [`StrPiece`].
pub enum SpecStrPiece {
    Lit(Seq<char>),
    Expr(Seq<char>),
}

impl View for StrPiece {
    type V = SpecStrPiece;

    open spec fn view(&self) -> SpecStrPiece {
        match self {
            StrPiece::Lit(s) => SpecStrPiece::Lit(s@),
            StrPiece::Expr(s) => SpecStrPiece::Expr(s@),
        }
    }
}

impl View for TokenKind {
    type V = SpecTokenKind;

    open spec fn view(&self) -> SpecTokenKind {
        match self {
            TokenKind::Int(n) => SpecTokenKind::Int(*n),
            TokenKind::Float(b) => SpecTokenKind::Float(*b),
            TokenKind::Str(s) => SpecTokenKind::Str(s@),
            TokenKind::InterpStr(p) => SpecTokenKind::InterpStr(p@.map_values(|x: StrPiece| x@)),
            TokenKind::Ident(s) => SpecTokenKind::Ident(s@),
            TokenKind::Let => SpecTokenKind::Let,
            TokenKind::Var => SpecTokenKind::Var,
            TokenKind::Fn => SpecTokenKind::Fn,
            TokenKind::If => SpecTokenKind::If,
            TokenKind::Else => SpecTokenKind::Else,
            TokenKind::While => SpecTokenKind::While,
            TokenKind::For => SpecTokenKind::For,
            TokenKind::In => SpecTokenKind::In,
            TokenKind::Return => SpecTokenKind::Return,
            TokenKind::True => SpecTokenKind::True,
            TokenKind::False => SpecTokenKind::False,
            TokenKind::Struct => SpecTokenKind::Struct,
            TokenKind::Enum => SpecTokenKind::Enum,
            TokenKind::Match => SpecTokenKind::Match,
            TokenKind::Impl => SpecTokenKind::Impl,
            TokenKind::As => SpecTokenKind::As,
            TokenKind::Plus => SpecTokenKind::Plus,
            TokenKind::Minus => SpecTokenKind::Minus,
            TokenKind::Star => SpecTokenKind::Star,
            TokenKind::Slash => SpecTokenKind::Slash,
            TokenKind::Percent => SpecTokenKind::Percent,
            TokenKind::EqEq => SpecTokenKind::EqEq,
            TokenKind::Ne => SpecTokenKind::Ne,
            TokenKind::Lt => SpecTokenKind::Lt,
            TokenKind::Le => SpecTokenKind::Le,
            TokenKind::Gt => SpecTokenKind::Gt,
            TokenKind::Ge => SpecTokenKind::Ge,
            TokenKind::Assign => SpecTokenKind::Assign,
            TokenKind::Bang => SpecTokenKind::Bang,
            TokenKind::LParen => SpecTokenKind::LParen,
            TokenKind::RParen => SpecTokenKind::RParen,
            TokenKind::LBrace => SpecTokenKind::LBrace,
            TokenKind::RBrace => SpecTokenKind::RBrace,
            TokenKind::LBracket => SpecTokenKind::LBracket,
            TokenKind::RBracket => SpecTokenKind::RBracket,
            TokenKind::Comma => SpecTokenKind::Comma,
            TokenKind::DotDot => SpecTokenKind::DotDot,
            TokenKind::Dot => SpecTokenKind::Dot,
            TokenKind::Colon => SpecTokenKind::Colon,
            TokenKind::PathSep => SpecTokenKind::PathSep,
            TokenKind::FatArrow => SpecTokenKind::FatArrow,
            TokenKind::Arrow => SpecTokenKind::Arrow,
            TokenKind::Amp => SpecTokenKind::Amp,
            TokenKind::Question => SpecTokenKind::Question,
            TokenKind::Eof => SpecTokenKind::Eof,
        }
    }
}

#[derive(Debug, Clone)]
pub struct Token {
    pub kind: TokenKind,
    pub line: usize,
}

/// The model of a [`Token`].
pub struct SpecToken {
    pub kind: SpecTokenKind,
    pub line: nat,
}

impl View for Token {
    type V = SpecToken;

    open spec fn view(&self) -> SpecToken {
        SpecToken { kind: self.kind@, line: self.line as nat }
    }
}

fn piece_eq(a: &StrPiece, b: &StrPiece) -> (r: bool)
    ensures
        r == (a@ == b@),
{
    match (a, b) {
        (StrPiece::Lit(x), StrPiece::Lit(y)) => *x == *y,
        (StrPiece::Expr(x), StrPiece::Expr(y)) => *x == *y,
        _ => false,
    }
}

fn pieces_eq(a: &Vec<StrPiece>, b: &Vec<StrPiece>) -> (r: bool)
    ensures
        r == (a@.map_values(|x: StrPiece| x@) == b@.map_values(|x: StrPiece| x@)),
{
    let ghost va = a@.map_values(|x: StrPiece| x@);
    let ghost vb = b@.map_values(|x: StrPiece| x@);
    if a.len() != b.len() {
        assert(va.len() != vb.len());
        return false;
    }
    let mut i: usize = 0;
    while i < a.len()
        invariant
            a.len() == b.len(),
            i <= a.len(),
            va == a@.map_values(|x: StrPiece| x@),
            vb == b@.map_values(|x: StrPiece| x@),
            forall|j: int| 0 <= j < i ==> va[j] == vb[j],
        decreases a.len() - i,
    {
        if !piece_eq(&a[i], &b[i]) {
            assert(va[i as int] != vb[i as int]);
            return false;
        }
        i = i + 1;
    }
    assert(va =~= vb);
    true
}

/// Structural equality of token kinds.
pub fn kind_eq(a: &TokenKind, b: &TokenKind) -> (r: bool)
    ensures
        r == (a@ == b@),
{
    match (a, b) {
        (TokenKind::Int(x), TokenKind::Int(y)) => *x == *y,
        (TokenKind::Float(x), TokenKind::Float(y)) => *x == *y,
        (TokenKind::Str(x), TokenKind::Str(y)) => *x == *y,
        (TokenKind::Ident(x), TokenKind::Ident(y)) => *x == *y,
        (TokenKind::InterpStr(x), TokenKind::InterpStr(y)) => pieces_eq(x, y),
        (TokenKind::Let, TokenKind::Let) => true,
        (TokenKind::Var, TokenKind::Var) => true,
        (TokenKind::Fn, TokenKind::Fn) => true,
        (TokenKind::If, TokenKind::If) => true,
        (TokenKind::Else, TokenKind::Else) => true,
        (TokenKind::While, TokenKind::While) => true,
        (TokenKind::For, TokenKind::For) => true,
        (TokenKind::In, TokenKind::In) => true,
        (TokenKind::Return, TokenKind::Return) => true,
        (TokenKind::True, TokenKind::True) => true,
        (TokenKind::False, TokenKind::False) => true,
        (TokenKind::Struct, TokenKind::Struct) => true,
        (TokenKind::Enum, TokenKind::Enum) => true,
        (TokenKind::Match, TokenKind::Match) => true,
        (TokenKind::Impl, TokenKind::Impl) => true,
        (TokenKind::As, TokenKind::As) => true,
        (TokenKind::Plus, TokenKind::Plus) => true,
        (TokenKind::Minus, TokenKind::Minus) => true,
        (TokenKind::Star, TokenKind::Star) => true,
        (TokenKind::Slash, TokenKind::Slash) => true,
        (TokenKind::Percent, TokenKind::Percent) => true,
        (TokenKind::EqEq, TokenKind::EqEq) => true,
        (TokenKind::Ne, TokenKind::Ne) => true,
        (TokenKind::Lt, TokenKind::Lt) => true,
        (TokenKind::Le, TokenKind::Le) => true,
        (TokenKind::Gt, TokenKind::Gt) => true,
        (TokenKind::Ge, TokenKind::Ge) => true,
        (TokenKind::Assign, TokenKind::Assign) => true,
        (TokenKind::Bang, TokenKind::Bang) => true,
        (TokenKind::LParen, TokenKind::LParen) => true,
        (TokenKind::RParen, TokenKind::RParen) => true,
        (TokenKind::LBrace, TokenKind::LBrace) => true,
        (TokenKind::RBrace, TokenKind::RBrace) => true,
        (TokenKind::LBracket, TokenKind::LBracket) => true,
        (TokenKind::RBracket, TokenKind::RBracket) => true,
        (TokenKind::Comma, TokenKind::Comma) => true,
        (TokenKind::DotDot, TokenKind::DotDot) => true,
        (TokenKind::Dot, TokenKind::Dot) => true,
        (TokenKind::Colon, TokenKind::Colon) => true,
        (TokenKind::PathSep, TokenKind::PathSep) => true,
        (TokenKind::FatArrow, TokenKind::FatArrow) => true,
        (TokenKind::Arrow, TokenKind::Arrow) => true,
        (TokenKind::Amp, TokenKind::Amp) => true,
        (TokenKind::Question, TokenKind::Question) => true,
        (TokenKind::Eof, TokenKind::Eof) => true,
        _ => false,
    }
}

/// The keyword table on character sequences: the kind that a word spells,
/// if it is a keyword in any of the three surface languages.
pub open spec fn spec_keyword(w: Seq<char>) -> Option<SpecTokenKind> {
    if w == "let"@ || w == "دع"@ || w == "soit"@ {
        Some(SpecTokenKind::Let)
    } else if w == "var"@ || w == "متغير"@ || w == "variable"@ {
        Some(SpecTokenKind::Var)
    } else if w == "fn"@ || w == "دالة"@ || w == "fonction"@ {
        Some(SpecTokenKind::Fn)
    } else if w == "if"@ || w == "اذا"@ || w == "si"@ {
        Some(SpecTokenKind::If)
    } else if w == "else"@ || w == "وإلا"@ || w == "sinon"@ {
        Some(SpecTokenKind::Else)
    } else if w == "while"@ || w == "طالما"@ || w == "tantque"@ {
        Some(SpecTokenKind::While)
    } else if w == "for"@ || w == "لكل"@ || w == "pour"@ {
        Some(SpecTokenKind::For)
    } else if w == "in"@ || w == "في"@ || w == "dans"@ {
        Some(SpecTokenKind::In)
    } else if w == "return"@ || w == "أرجع"@ || w == "retourne"@ {
        Some(SpecTokenKind::Return)
    } else if w == "true"@ || w == "صحيح"@ || w == "vrai"@ {
        Some(SpecTokenKind::True)
    } else if w == "false"@ || w == "خطأ"@ || w == "faux"@ {
        Some(SpecTokenKind::False)
    } else if w == "struct"@ || w == "هيكل"@ || w == "structure"@ {
        Some(SpecTokenKind::Struct)
    } else if w == "enum"@ || w == "تعداد"@ || w == "énum"@ {
        Some(SpecTokenKind::Enum)
    } else if w == "match"@ || w == "طابق"@ || w == "selon"@ {
        Some(SpecTokenKind::Match)
    } else if w == "impl"@ || w == "تطبيق"@ || w == "implémente"@ || w == "implemente"@ {
        Some(SpecTokenKind::Impl)
    } else if w == "as"@ || w == "كـ"@ || w == "comme"@ {
        Some(SpecTokenKind::As)
    } else {
        None
    }
}

/// The keyword lookup on a scanned word.
pub fn keyword_chars(w: &[char]) -> (r: Option<TokenKind>)
    ensures
        match r {
            Some(k) => spec_keyword(w@) == Some(k@),
            None => spec_keyword(w@) is None,
        },
{
    if chars_eq_str(w, "let") || chars_eq_str(w, "دع") || chars_eq_str(w, "soit") {
        Some(TokenKind::Let)
    } else if chars_eq_str(w, "var") || chars_eq_str(w, "متغير") || chars_eq_str(w, "variable") {
        Some(TokenKind::Var)
    } else if chars_eq_str(w, "fn") || chars_eq_str(w, "دالة") || chars_eq_str(w, "fonction") {
        Some(TokenKind::Fn)
    } else if chars_eq_str(w, "if") || chars_eq_str(w, "اذا") || chars_eq_str(w, "si") {
        Some(TokenKind::If)
    } else if chars_eq_str(w, "else") || chars_eq_str(w, "وإلا") || chars_eq_str(w, "sinon") {
        Some(TokenKind::Else)
    } else if chars_eq_str(w, "while") || chars_eq_str(w, "طالما") || chars_eq_str(w, "tantque") {
        Some(TokenKind::While)
    } else if chars_eq_str(w, "for") || chars_eq_str(w, "لكل") || chars_eq_str(w, "pour") {
        Some(TokenKind::For)
    } else if chars_eq_str(w, "in") || chars_eq_str(w, "في") || chars_eq_str(w, "dans") {
        Some(TokenKind::In)
    } else if chars_eq_str(w, "return") || chars_eq_str(w, "أرجع") || chars_eq_str(w, "retourne") {
        Some(TokenKind::Return)
    } else if chars_eq_str(w, "true") || chars_eq_str(w, "صحيح") || chars_eq_str(w, "vrai") {
        Some(TokenKind::True)
    } else if chars_eq_str(w, "false") || chars_eq_str(w, "خطأ") || chars_eq_str(w, "faux") {
        Some(TokenKind::False)
    } else if chars_eq_str(w, "struct") || chars_eq_str(w, "هيكل") || chars_eq_str(w, "structure") {
        Some(TokenKind::Struct)
    } else if chars_eq_str(w, "enum") || chars_eq_str(w, "تعداد") || chars_eq_str(w, "énum") {
        Some(TokenKind::Enum)
    } else if chars_eq_str(w, "match") || chars_eq_str(w, "طابق") || chars_eq_str(w, "selon") {
        Some(TokenKind::Match)
    } else if chars_eq_str(w, "impl") || chars_eq_str(w, "تطبيق") || chars_eq_str(w, "implémente") || chars_eq_str(w, "implemente") {
        Some(TokenKind::Impl)
    } else if chars_eq_str(w, "as") || chars_eq_str(w, "كـ") || chars_eq_str(w, "comme") {
        Some(TokenKind::As)
    } else {
        None
    }
}

/// The trilingual keyword table. This single function is the entire
/// "three surfaces, one semantics" guarantee for keywords.
///
/// French spellings that carry accents also accept an accent-stripped
/// fallback (`implémente`/`implemente`) so the language stays typable on a
/// keyboard without dead keys.
pub fn keyword(word: &str) -> (r: Option<TokenKind>)
    ensures
        match r {
            Some(k) => spec_keyword(word@) == Some(k@),
            None => spec_keyword(word@) is None,
        },
{
    let w = str_chars(word);
    keyword_chars(w.as_slice())
}

/// Whether `name` is one of the spellings of the `print` builtin.
pub open spec fn spec_is_print(name: Seq<char>) -> bool {
    name == "print"@ || name == "اطبع"@ || name == "affiche"@
}

/// `print` / `اطبع` / `affiche` is a builtin function name, not a keyword —
/// all spellings resolve to the same builtin in the interpreter.
pub fn is_print_builtin(name: &str) -> (r: bool)
    ensures
        r == spec_is_print(name@),
{
    let w = str_chars(name);
    chars_eq_str(w.as_slice(), "print") || chars_eq_str(w.as_slice(), "اطبع")
        || chars_eq_str(w.as_slice(), "affiche")
}

/// Builtin array methods — the trilingual spellings map to one canonical op,
/// same mechanism as `keyword()`.
#[derive(Debug, Clone, Copy, PartialEq, Eq, Structural)]
pub enum ArrayMethod {
    Len,
    Push,
    Pop,
}

/// The array method that `name` spells, if any.
pub open spec fn spec_array_method(name: Seq<char>) -> Option<ArrayMethod> {
    if name == "len"@ || name == "طول"@ || name == "longueur"@ {
        Some(ArrayMethod::Len)
    } else if name == "push"@ || name == "أضف"@ || name == "ajoute"@ {
        Some(ArrayMethod::Push)
    } else if name == "pop"@ || name == "اسحب"@ || name == "retire"@ {
        Some(ArrayMethod::Pop)
    } else {
        None
    }
}

pub fn array_method(name: &str) -> (r: Option<ArrayMethod>)
    ensures
        r == spec_array_method(name@),
{
    let w = str_chars(name);
    let w = w.as_slice();
    if chars_eq_str(w, "len") || chars_eq_str(w, "طول") || chars_eq_str(w, "longueur") {
        Some(ArrayMethod::Len)
    } else if chars_eq_str(w, "push") || chars_eq_str(w, "أضف") || chars_eq_str(w, "ajoute") {
        Some(ArrayMethod::Push)
    } else if chars_eq_str(w, "pop") || chars_eq_str(w, "اسحب") || chars_eq_str(w, "retire") {
        Some(ArrayMethod::Pop)
    } else {
        None
    }
}

/// Whether `name` spells the `clone` method.
pub open spec fn spec_is_clone(name: Seq<char>) -> bool {
    name == "clone"@ || name == "انسخ"@ || name == "cloner"@
}

/// `.clone()` — the explicit deep-copy escape hatch of the ownership model.
pub fn is_clone_method(name: &str) -> (r: bool)
    ensures
        r == spec_is_clone(name@),
{
    let w = str_chars(name);
    chars_eq_str(w.as_slice(), "clone") || chars_eq_str(w.as_slice(), "انسخ")
        || chars_eq_str(w.as_slice(), "cloner")
}

/// The canonical `Result` constructor that `name` spells, if any.
pub open spec fn spec_result_ctor(name: Seq<char>) -> Option<Seq<char>> {
    if name == "Ok"@ || name == "نجاح"@ {
        Some("Ok"@)
    } else if name == "Err"@ || name == "فشل"@ || name == "Erreur"@ {
        Some("Err"@)
    } else {
        None
    }
}

/// Builtin `Result` constructors. All surface spellings canonicalize to
/// `"Ok"` / `"Err"` at parse time, so the checker and interpreter see one name.
pub fn result_ctor(name: &str) -> (r: Option<&'static str>)
    ensures
        match r {
            Some(s) => spec_result_ctor(name@) == Some(s@),
            None => spec_result_ctor(name@) is None,
        },
{
    let w = str_chars(name);
    let w = w.as_slice();
    if chars_eq_str(w, "Ok") || chars_eq_str(w, "نجاح") {
        Some("Ok")
    } else if chars_eq_str(w, "Err") || chars_eq_str(w, "فشل") || chars_eq_str(w, "Erreur") {
        Some("Err")
    } else {
        None
    }
}


fn clone_piece(p: &StrPiece) -> (r: StrPiece)
    ensures
        r@ == p@,
{
    match p {
        StrPiece::Lit(x) => StrPiece::Lit(x.clone()),
        StrPiece::Expr(x) => StrPiece::Expr(x.clone()),
    }
}

fn clone_pieces(v: &Vec<StrPiece>) -> (r: Vec<StrPiece>)
    ensures
        r@.map_values(|x: StrPiece| x@) == v@.map_values(|x: StrPiece| x@),
{
    let mut r: Vec<StrPiece> = Vec::new();
    let mut i: usize = 0;
    while i < v.len()
        invariant
            i <= v.len(),
            r@.len() == i,
            forall|j: int| 0 <= j < i ==> #[trigger] r@[j]@ == v@[j]@,
        decreases v.len() - i,
    {
        r.push(clone_piece(&v[i]));
        i = i + 1;
    }
    assert(r@.map_values(|x: StrPiece| x@) =~= v@.map_values(|x: StrPiece| x@));
    r
}

/// A copy of a token kind.
pub fn clone_kind(k: &TokenKind) -> (r: TokenKind)
    ensures
        r@ == k@,
{
    match k {
        TokenKind::Int(n) => TokenKind::Int(*n),
        TokenKind::Float(b) => TokenKind::Float(*b),
        TokenKind::Str(x) => TokenKind::Str(x.clone()),
        TokenKind::Ident(x) => TokenKind::Ident(x.clone()),
        TokenKind::InterpStr(p) => TokenKind::InterpStr(clone_pieces(p)),
        TokenKind::Let => TokenKind::Let,
        TokenKind::Var => TokenKind::Var,
        TokenKind::Fn => TokenKind::Fn,
        TokenKind::If => TokenKind::If,
        TokenKind::Else => TokenKind::Else,
        TokenKind::While => TokenKind::While,
        TokenKind::For => TokenKind::For,
        TokenKind::In => TokenKind::In,
        TokenKind::Return => TokenKind::Return,
        TokenKind::True => TokenKind::True,
        TokenKind::False => TokenKind::False,
        TokenKind::Struct => TokenKind::Struct,
        TokenKind::Enum => TokenKind::Enum,
        TokenKind::Match => TokenKind::Match,
        TokenKind::Impl => TokenKind::Impl,
        TokenKind::As => TokenKind::As,
        TokenKind::Plus => TokenKind::Plus,
        TokenKind::Minus => TokenKind::Minus,
        TokenKind::Star => TokenKind::Star,
        TokenKind::Slash => TokenKind::Slash,
        TokenKind::Percent => TokenKind::Percent,
        TokenKind::EqEq => TokenKind::EqEq,
        TokenKind::Ne => TokenKind::Ne,
        TokenKind::Lt => TokenKind::Lt,
        TokenKind::Le => TokenKind::Le,
        TokenKind::Gt => TokenKind::Gt,
        TokenKind::Ge => TokenKind::Ge,
        TokenKind::Assign => TokenKind::Assign,
        TokenKind::Bang => TokenKind::Bang,
        TokenKind::LParen => TokenKind::LParen,
        TokenKind::RParen => TokenKind::RParen,
        TokenKind::LBrace => TokenKind::LBrace,
        TokenKind::RBrace => TokenKind::RBrace,
        TokenKind::LBracket => TokenKind::LBracket,
        TokenKind::RBracket => TokenKind::RBracket,
        TokenKind::Comma => TokenKind::Comma,
        TokenKind::DotDot => TokenKind::DotDot,
        TokenKind::Dot => TokenKind::Dot,
        TokenKind::Colon => TokenKind::Colon,
        TokenKind::PathSep => TokenKind::PathSep,
        TokenKind::FatArrow => TokenKind::FatArrow,
        TokenKind::Arrow => TokenKind::Arrow,
        TokenKind::Amp => TokenKind::Amp,
        TokenKind::Question => TokenKind::Question,
        TokenKind::Eof => TokenKind::Eof,
    }
}

/// The text of the derived `Debug` rendering of a token kind.
pub uninterp spec fn token_debug(k: SpecTokenKind) -> Seq<char>;

/// `std`'s derived `Debug` rendering of a token kind (`format!("{:?}", k)`),
/// used in diagnostics. The text is named, not restated: it is claimed only
/// to depend on the kind alone.
#[verifier::external_body]
pub(crate) fn kind_debug(k: &TokenKind) -> (r: String)
    ensures
        r@ == token_debug(k@),
{
    format!("{:?}", k)
}

} // verus!
