//! Tokens of the language and the passes that prepare the token stream for
//! the grammar: lambda and method-call markers, type-hint `=` markers and
//! automatic statement separators at line ends.
use vstd::prelude::*;
use crate::parser::scanner::{items_agree, lex_items, scan};
use crate::text::{byte_len, lemma_byte_len_encode};

verus! {

/// A token of the language.
#[derive(Debug, Clone, PartialEq)]
pub enum Token {
    /// End of input.
    Eof,
    Newline,
    /// `;`
    Semi,
    /// `подключить`
    KwImport,
    /// `из`
    KwFrom,
    /// `функция`
    KwFunction,
    /// `библиотека`
    KwLibrary,
    /// `переменная`
    KwVariable,
    /// `класс`
    KwClass,
    /// `конструктор`
    KwConstructor,
    /// `публичный`
    KwPublic,
    /// `приватный`
    KwPrivate,
    /// `статичный`
    KwStatic,
    /// `константа`
    KwConst,
    /// `если`
    KwIf,
    /// `иначе`
    KwElse,
    /// `пока`
    KwWhile,
    /// `для`
    KwFor,
    /// `поток`
    KwThread,
    /// `попробовать`
    KwTry,
    /// `перехватить`
    KwCatch,
    /// `выбросить`
    KwRaise,
    /// `как`
    KwAs,
    /// `новый`
    KwNew,
    /// `вернуть`
    KwReturn,
    /// `и`
    KwAnd,
    /// `или`
    KwOr,
    /// `истина`
    True,
    /// `ложь`
    False,
    /// `пустота`
    Empty,
    /// `=>`
    FatArrow,
    /// `->`
    Arrow,
    /// `==`
    EqEq,
    /// `!=`
    NotEq,
    /// `<=`
    Le,
    /// `>=`
    Ge,
    /// `+=`
    PlusEq,
    /// `-=`
    MinusEq,
    /// `*=`
    StarEq,
    /// `/=`
    SlashEq,
    /// `%=`
    PercentEq,
    /// `=`
    Eq,
    TypeEq,
    /// `<`
    Lt,
    /// `>`
    Gt,
    /// `+`
    Plus,
    /// `-`
    Minus,
    /// `*`
    Star,
    /// `/`
    Slash,
    /// `%`
    Percent,
    /// `!`
    Bang,
    /// `.`
    Dot,
    MethodDot,
    /// `,`
    Comma,
    /// `:`
    Colon,
    /// `(`
    LParen,
    LambdaLParen,
    /// `)`
    RParen,
    /// `{`
    LBrace,
    /// `}`
    RBrace,
    /// `[`
    LBracket,
    /// `]`
    RBracket,
    /// A string literal, escapes decoded.
    String(String),
    /// A float literal, as written (`digits.digits`).
    Float(String),
    /// An integer literal.
    Number(i64),
    /// An identifier.
    Ident(String),
}

/// A character sequence that is not a token, with its byte range.
#[derive(Debug)]
pub struct LexicalError {
    pub start: usize,
    pub end: usize,
    pub message: String,
}

/// A token with its byte range `(start, token, end)`, or a lexical error.
pub type SpannedToken = Result<(usize, Token, usize), LexicalError>;

/// Variant index of `Newline`.
pub const KIND_NEWLINE: u8 = 1;
/// Variant index of `Semi`.
pub const KIND_SEMI: u8 = 2;
/// Variant index of `KwNew`.
pub const KIND_KW_NEW: u8 = 23;
/// Variant index of `FatArrow`.
pub const KIND_FAT_ARROW: u8 = 30;
/// Variant index of `Eq`.
pub const KIND_EQ: u8 = 41;
/// Variant index of `Dot`.
pub const KIND_DOT: u8 = 51;
/// Variant index of `Colon`.
pub const KIND_COLON: u8 = 54;
/// Variant index of `LParen`.
pub const KIND_LPAREN: u8 = 55;
/// Variant index of `RBrace`.
pub const KIND_RBRACE: u8 = 59;
/// Variant index of `Ident`.
pub const KIND_IDENT: u8 = 65;

/// Index of the variant of `t`; equal indices mean the same variant.
pub open spec fn token_kind(t: Token) -> int {
    match t {
        Token::Eof => 0,
        Token::Newline => 1,
        Token::Semi => 2,
        Token::KwImport => 3,
        Token::KwFrom => 4,
        Token::KwFunction => 5,
        Token::KwLibrary => 6,
        Token::KwVariable => 7,
        Token::KwClass => 8,
        Token::KwConstructor => 9,
        Token::KwPublic => 10,
        Token::KwPrivate => 11,
        Token::KwStatic => 12,
        Token::KwConst => 13,
        Token::KwIf => 14,
        Token::KwElse => 15,
        Token::KwWhile => 16,
        Token::KwFor => 17,
        Token::KwThread => 18,
        Token::KwTry => 19,
        Token::KwCatch => 20,
        Token::KwRaise => 21,
        Token::KwAs => 22,
        Token::KwNew => 23,
        Token::KwReturn => 24,
        Token::KwAnd => 25,
        Token::KwOr => 26,
        Token::True => 27,
        Token::False => 28,
        Token::Empty => 29,
        Token::FatArrow => 30,
        Token::Arrow => 31,
        Token::EqEq => 32,
        Token::NotEq => 33,
        Token::Le => 34,
        Token::Ge => 35,
        Token::PlusEq => 36,
        Token::MinusEq => 37,
        Token::StarEq => 38,
        Token::SlashEq => 39,
        Token::PercentEq => 40,
        Token::Eq => 41,
        Token::TypeEq => 42,
        Token::Lt => 43,
        Token::Gt => 44,
        Token::Plus => 45,
        Token::Minus => 46,
        Token::Star => 47,
        Token::Slash => 48,
        Token::Percent => 49,
        Token::Bang => 50,
        Token::Dot => 51,
        Token::MethodDot => 52,
        Token::Comma => 53,
        Token::Colon => 54,
        Token::LParen => 55,
        Token::LambdaLParen => 56,
        Token::RParen => 57,
        Token::LBrace => 58,
        Token::RBrace => 59,
        Token::LBracket => 60,
        Token::RBracket => 61,
        Token::String(_) => 62,
        Token::Float(_) => 63,
        Token::Number(_) => 64,
        Token::Ident(_) => 65,
    }
}

/// The variant index of `t`.
pub fn kind_of(t: &Token) -> (k: u8)
    ensures
        k as int == token_kind(*t),
{
    match t {
        Token::Eof => 0,
        Token::Newline => 1,
        Token::Semi => 2,
        Token::KwImport => 3,
        Token::KwFrom => 4,
        Token::KwFunction => 5,
        Token::KwLibrary => 6,
        Token::KwVariable => 7,
        Token::KwClass => 8,
        Token::KwConstructor => 9,
        Token::KwPublic => 10,
        Token::KwPrivate => 11,
        Token::KwStatic => 12,
        Token::KwConst => 13,
        Token::KwIf => 14,
        Token::KwElse => 15,
        Token::KwWhile => 16,
        Token::KwFor => 17,
        Token::KwThread => 18,
        Token::KwTry => 19,
        Token::KwCatch => 20,
        Token::KwRaise => 21,
        Token::KwAs => 22,
        Token::KwNew => 23,
        Token::KwReturn => 24,
        Token::KwAnd => 25,
        Token::KwOr => 26,
        Token::True => 27,
        Token::False => 28,
        Token::Empty => 29,
        Token::FatArrow => 30,
        Token::Arrow => 31,
        Token::EqEq => 32,
        Token::NotEq => 33,
        Token::Le => 34,
        Token::Ge => 35,
        Token::PlusEq => 36,
        Token::MinusEq => 37,
        Token::StarEq => 38,
        Token::SlashEq => 39,
        Token::PercentEq => 40,
        Token::Eq => 41,
        Token::TypeEq => 42,
        Token::Lt => 43,
        Token::Gt => 44,
        Token::Plus => 45,
        Token::Minus => 46,
        Token::Star => 47,
        Token::Slash => 48,
        Token::Percent => 49,
        Token::Bang => 50,
        Token::Dot => 51,
        Token::MethodDot => 52,
        Token::Comma => 53,
        Token::Colon => 54,
        Token::LParen => 55,
        Token::LambdaLParen => 56,
        Token::RParen => 57,
        Token::LBrace => 58,
        Token::RBrace => 59,
        Token::LBracket => 60,
        Token::RBracket => 61,
        Token::String(_) => 62,
        Token::Float(_) => 63,
        Token::Number(_) => 64,
        Token::Ident(_) => 65,
    }
}

/// A copy of a token.
pub fn clone_token(t: &Token) -> (r: Token)
    ensures
        r == *t,
{
    match t {
        Token::Eof => Token::Eof,
        Token::Newline => Token::Newline,
        Token::Semi => Token::Semi,
        Token::KwImport => Token::KwImport,
        Token::KwFrom => Token::KwFrom,
        Token::KwFunction => Token::KwFunction,
        Token::KwLibrary => Token::KwLibrary,
        Token::KwVariable => Token::KwVariable,
        Token::KwClass => Token::KwClass,
        Token::KwConstructor => Token::KwConstructor,
        Token::KwPublic => Token::KwPublic,
        Token::KwPrivate => Token::KwPrivate,
        Token::KwStatic => Token::KwStatic,
        Token::KwConst => Token::KwConst,
        Token::KwIf => Token::KwIf,
        Token::KwElse => Token::KwElse,
        Token::KwWhile => Token::KwWhile,
        Token::KwFor => Token::KwFor,
        Token::KwThread => Token::KwThread,
        Token::KwTry => Token::KwTry,
        Token::KwCatch => Token::KwCatch,
        Token::KwRaise => Token::KwRaise,
        Token::KwAs => Token::KwAs,
        Token::KwNew => Token::KwNew,
        Token::KwReturn => Token::KwReturn,
        Token::KwAnd => Token::KwAnd,
        Token::KwOr => Token::KwOr,
        Token::True => Token::True,
        Token::False => Token::False,
        Token::Empty => Token::Empty,
        Token::FatArrow => Token::FatArrow,
        Token::Arrow => Token::Arrow,
        Token::EqEq => Token::EqEq,
        Token::NotEq => Token::NotEq,
        Token::Le => Token::Le,
        Token::Ge => Token::Ge,
        Token::PlusEq => Token::PlusEq,
        Token::MinusEq => Token::MinusEq,
        Token::StarEq => Token::StarEq,
        Token::SlashEq => Token::SlashEq,
        Token::PercentEq => Token::PercentEq,
        Token::Eq => Token::Eq,
        Token::TypeEq => Token::TypeEq,
        Token::Lt => Token::Lt,
        Token::Gt => Token::Gt,
        Token::Plus => Token::Plus,
        Token::Minus => Token::Minus,
        Token::Star => Token::Star,
        Token::Slash => Token::Slash,
        Token::Percent => Token::Percent,
        Token::Bang => Token::Bang,
        Token::Dot => Token::Dot,
        Token::MethodDot => Token::MethodDot,
        Token::Comma => Token::Comma,
        Token::Colon => Token::Colon,
        Token::LParen => Token::LParen,
        Token::LambdaLParen => Token::LambdaLParen,
        Token::RParen => Token::RParen,
        Token::LBrace => Token::LBrace,
        Token::RBrace => Token::RBrace,
        Token::LBracket => Token::LBracket,
        Token::RBracket => Token::RBracket,
        Token::String(x) => Token::String(x.clone()),
        Token::Float(x) => Token::Float(x.clone()),
        Token::Number(x) => Token::Number(*x),
        Token::Ident(x) => Token::Ident(x.clone()),
    }
}

/// A copy of a token with its range, or of a lexical error.
pub fn clone_spanned(st: &SpannedToken) -> (r: SpannedToken)
    ensures
        r == *st,
{
    match st {
        Ok((start, t, end)) => Ok((*start, clone_token(t), *end)),
        Err(e) => Err(LexicalError { start: e.start, end: e.end, message: e.message.clone() }),
    }
}

/// Tokens after which a line end may close a statement.
pub open spec fn can_end(t: Token) -> bool {
    t is Ident || t is String || t is Number || t is Float || t is True || t is False || t is Empty
        || t is RParen || t is RBrace || t is RBracket
}

/// Tokens that may begin the line after a line end that closes a
/// statement: not a continuation operator or closer, and not `catch` or
/// `else` right after `}`.
pub open spec fn can_start_after_newline(previous: Option<Token>, t: Token) -> bool {
    if previous matches Some(p) && p is RBrace && (t is KwCatch || t is KwElse) {
        false
    } else {
        !(t is Dot || t is MethodDot || t is Plus || t is Minus || t is Star || t is Slash
            || t is Percent || t is EqEq || t is NotEq || t is Le || t is Ge || t is Lt || t is Gt
            || t is KwAnd || t is KwOr || t is Comma || t is RParen || t is RBracket)
    }
}

/// Whether a line end after `token` may close a statement.
pub fn can_end_statement(token: &Token) -> (b: bool)
    ensures
        b == can_end(*token),
{
    match token {
        Token::Ident(_) | Token::String(_) | Token::Number(_) | Token::Float(_) | Token::True
        | Token::False | Token::Empty | Token::RParen | Token::RBrace | Token::RBracket => true,
        _ => false,
    }
}

/// Whether `token` may start a new statement on the line after a line end
/// that follows `previous`.
pub fn can_start_statement_after_newline(previous: Option<&Token>, token: &Token) -> (b: bool)
    ensures
        b == can_start_after_newline(
            match previous {
                Some(p) => Some(*p),
                None => None,
            },
            *token,
        ),
{
    if let Some(Token::RBrace) = previous {
        if let Token::KwCatch | Token::KwElse = token {
            return false;
        }
    }
    match token {
        Token::Dot | Token::MethodDot | Token::Plus | Token::Minus | Token::Star | Token::Slash
        | Token::Percent | Token::EqEq | Token::NotEq | Token::Le | Token::Ge | Token::Lt
        | Token::Gt | Token::KwAnd | Token::KwOr | Token::Comma | Token::RParen
        | Token::RBracket => false,
        _ => true,
    }
}

/// Whether the entry is the token of kind `k`.
pub open spec fn is_tok(st: SpannedToken, k: int) -> bool {
    (st matches Ok((_, t, _)) && token_kind(t) == k)
}

/// Whether an entry is `(` or a lambda's `(`.
pub open spec fn opens_paren(st: SpannedToken) -> bool {
    (st matches Ok((_, t, _)) && (t is LParen || t is LambdaLParen))
}

/// Index of the `)` that closes the parenthesis open at depth `depth` when
/// the scan reaches index `i`; none when the scan meets a lexical error, a
/// line end at depth one, or the end of the tokens.
pub open spec fn paren_scan(ts: Seq<SpannedToken>, i: int, depth: int) -> Option<int>
    decreases ts.len() - i,
{
    if i < 0 || i >= ts.len() {
        None
    } else if opens_paren(ts[i]) {
        paren_scan(ts, i + 1, depth + 1)
    } else if (ts[i] matches Ok((_, t, _)) && t is RParen) {
        let d = if depth > 0 { depth - 1 } else { 0 };
        if d == 0 { Some(i) } else { paren_scan(ts, i + 1, d) }
    } else if (ts[i] matches Ok((_, t, _)) && t is Newline) {
        if depth == 1 { None } else { paren_scan(ts, i + 1, depth) }
    } else if ts[i] is Err {
        None
    } else {
        paren_scan(ts, i + 1, depth)
    }
}

/// Index of the `)` matching the `(` at `open_idx`.
pub fn matching_paren(tokens: &Vec<SpannedToken>, open_idx: usize) -> (r: Option<usize>)
    ensures
        match r {
            Some(c) => paren_scan(tokens@, open_idx as int, 0) == Some(c as int),
            None => paren_scan(tokens@, open_idx as int, 0) is None,
        },
{
    let mut depth: usize = 0;
    let mut idx = open_idx;
    while idx < tokens.len()
        invariant
            open_idx <= idx,
            depth <= idx - open_idx,
            paren_scan(tokens@, open_idx as int, 0) == paren_scan(tokens@, idx as int, depth as int),
        decreases tokens@.len() - idx,
    {
        match &tokens[idx] {
            Ok((_, Token::LParen, _)) | Ok((_, Token::LambdaLParen, _)) => {
                depth = depth + 1;
            },
            Ok((_, Token::RParen, _)) => {
                depth = depth.saturating_sub(1);
                if depth == 0 {
                    return Some(idx);
                }
            },
            Ok((_, Token::Newline, _)) => {
                if depth == 1 {
                    return None;
                }
            },
            Err(_) => {
                return None;
            },
            _ => {},
        }
        idx = idx + 1;
    }
    None
}

/// The entry with its token replaced by `t` (errors stay as they are).
pub open spec fn relabel(st: SpannedToken, t: Token) -> SpannedToken {
    match st {
        Ok((start, _, end)) => Ok((start, t, end)),
        Err(e) => Err(e),
    }
}

/// Whether the `(` at `idx` opens a lambda's parameters: its matching `)`
/// is followed by `=>`.
pub open spec fn lambda_start_at(ts: Seq<SpannedToken>, idx: int) -> bool {
    &&& (ts[idx] matches Ok((_, t, _)) && t is LParen)
    &&& match paren_scan(ts, idx, 0) {
        Some(c) => c + 1 < ts.len() && (ts[c + 1] matches Ok((_, f, _)) && f is FatArrow),
        None => false,
    }
}

/// Whether the `.` at `dot_idx` belongs to the qualified class name of a
/// `new` expression: going back, identifiers and dots alternate up to
/// `new`.
pub open spec fn new_type_scan(ts: Seq<SpannedToken>, idx: int, expect_ident: bool) -> bool
    decreases idx,
{
    if idx <= 0 || idx > ts.len() {
        false
    } else if expect_ident && (ts[idx - 1] matches Ok((_, t, _)) && t is Ident) {
        new_type_scan(ts, idx - 1, false)
    } else if !expect_ident && (ts[idx - 1] matches Ok((_, t, _)) && t is Dot) {
        new_type_scan(ts, idx - 1, true)
    } else if !expect_ident && (ts[idx - 1] matches Ok((_, t, _)) && t is KwNew) {
        true
    } else {
        false
    }
}

/// Whether the `.` at `idx` starts a method call `.name(`.
pub open spec fn method_dot_at(ts: Seq<SpannedToken>, idx: int) -> bool {
    &&& (ts[idx] matches Ok((_, t, _)) && t is Dot)
    &&& idx + 1 < ts.len() && (ts[idx + 1] matches Ok((_, t, _)) && t is Ident)
    &&& idx + 2 < ts.len() && (ts[idx + 2] matches Ok((_, t, _)) && t is LParen)
    &&& !new_type_scan(ts, idx, true)
}

/// Whether the `=` at `eq_idx` follows a type hint `: Type` or
/// `: Module.Type`.
pub open spec fn type_hint_scan(ts: Seq<SpannedToken>, idx: int, saw_ident: bool) -> bool
    decreases idx,
{
    if idx <= 0 || idx > ts.len() {
        false
    } else if (ts[idx - 1] matches Ok((_, t, _)) && t is Ident) {
        type_hint_scan(ts, idx - 1, true)
    } else if saw_ident && (ts[idx - 1] matches Ok((_, t, _)) && t is Dot) {
        type_hint_scan(ts, idx - 1, false)
    } else if saw_ident && (ts[idx - 1] matches Ok((_, t, _)) && t is Colon) {
        true
    } else {
        false
    }
}

/// Whether the `=` at `idx` assigns a value to a type-hinted name.
pub open spec fn type_eq_at(ts: Seq<SpannedToken>, idx: int) -> bool {
    &&& (ts[idx] matches Ok((_, t, _)) && t is Eq)
    &&& type_hint_scan(ts, idx, false)
}

/// The marking passes: lambda parentheses (0), method-call dots (1),
/// type-hint `=` (2).
pub open spec fn pass_applies(pass: int, ts: Seq<SpannedToken>, idx: int) -> bool {
    if pass == 0 {
        lambda_start_at(ts, idx)
    } else if pass == 1 {
        method_dot_at(ts, idx)
    } else {
        type_eq_at(ts, idx)
    }
}

/// The token that a pass puts in place of the ones it marks.
pub open spec fn pass_label(pass: int) -> Token {
    if pass == 0 {
        Token::LambdaLParen
    } else if pass == 1 {
        Token::MethodDot
    } else {
        Token::TypeEq
    }
}

/// The tokens after a marking pass has visited the indices below `i`, in
/// order, each decision taken on the tokens as already marked.
pub open spec fn marked(ts: Seq<SpannedToken>, i: int, pass: int) -> Seq<SpannedToken>
    decreases i,
{
    if i <= 0 || i > ts.len() {
        ts
    } else {
        let p = marked(ts, i - 1, pass);
        if pass_applies(pass, p, i - 1) {
            p.update(i - 1, relabel(p[i - 1], pass_label(pass)))
        } else {
            p
        }
    }
}

proof fn lemma_marked_len(ts: Seq<SpannedToken>, i: int, pass: int)
    ensures
        marked(ts, i, pass).len() == ts.len(),
    decreases i,
{
    if 0 < i <= ts.len() {
        lemma_marked_len(ts, i - 1, pass);
    }
}

fn is_kind_at(tokens: &Vec<SpannedToken>, idx: usize, k: u8) -> (b: bool)
    ensures
        b == (idx < tokens@.len() && is_tok(tokens@[idx as int], k as int)),
{
    if idx < tokens.len() {
        match &tokens[idx] {
            Ok((_, t, _)) => kind_of(t) == k,
            Err(_) => false,
        }
    } else {
        false
    }
}

fn relabel_at(tokens: &mut Vec<SpannedToken>, idx: usize, t: Token)
    requires
        idx < old(tokens)@.len(),
    ensures
        final(tokens)@ == old(tokens)@.update(idx as int, relabel(old(tokens)@[idx as int], t)),
{
    let replaced = match &tokens[idx] {
        Ok((start, _, end)) => Ok((*start, t, *end)),
        Err(e) => Err(LexicalError { start: e.start, end: e.end, message: e.message.clone() }),
    };
    tokens.set(idx, replaced);
}

/// Marks as `LambdaLParen` each `(` whose matching `)` is followed by `=>`.
pub fn mark_lambda_starts(tokens: Vec<SpannedToken>) -> (r: Vec<SpannedToken>)
    ensures
        r@ == marked(tokens@, tokens@.len() as int, 0),
{
    let ghost orig = tokens@;
    let mut tokens = tokens;
    let len = tokens.len();
    let mut idx: usize = 0;
    while idx < len
        invariant
            len == orig.len(),
            idx <= len,
            tokens@ == marked(orig, idx as int, 0),
        decreases len - idx,
    {
        proof {
            lemma_marked_len(orig, idx as int, 0);
        }
        if is_kind_at(&tokens, idx, KIND_LPAREN) {
            if let Some(close_idx) = matching_paren(&tokens, idx) {
                if close_idx < len - 1 && is_kind_at(&tokens, close_idx + 1, KIND_FAT_ARROW) {
                    relabel_at(&mut tokens, idx, Token::LambdaLParen);
                }
            }
        }
        idx = idx + 1;
    }
    tokens
}

/// Whether the `.` at `dot_idx` is part of the class name of a `new`
/// expression.
pub fn dot_is_in_object_creation_type(tokens: &Vec<SpannedToken>, dot_idx: usize) -> (b: bool)
    requires
        dot_idx <= tokens@.len(),
    ensures
        b == new_type_scan(tokens@, dot_idx as int, true),
{
    let mut idx = dot_idx;
    let mut expect_ident = true;
    while idx > 0
        invariant
            idx <= dot_idx <= tokens@.len(),
            new_type_scan(tokens@, dot_idx as int, true) == new_type_scan(tokens@, idx as int, expect_ident),
        decreases idx,
    {
        idx = idx - 1;
        if expect_ident && is_kind_at(tokens, idx, KIND_IDENT) {
            expect_ident = false;
        } else if !expect_ident && is_kind_at(tokens, idx, KIND_DOT) {
            expect_ident = true;
        } else if !expect_ident && is_kind_at(tokens, idx, KIND_KW_NEW) {
            return true;
        } else {
            return false;
        }
    }
    false
}

/// Marks as `MethodDot` each `.` followed by a name and `(`, unless it
/// belongs to the class name of a `new` expression.
pub fn mark_method_dots(tokens: Vec<SpannedToken>) -> (r: Vec<SpannedToken>)
    ensures
        r@ == marked(tokens@, tokens@.len() as int, 1),
{
    let ghost orig = tokens@;
    let mut tokens = tokens;
    let len = tokens.len();
    let mut idx: usize = 0;
    while idx < len
        invariant
            len == orig.len(),
            idx <= len,
            tokens@ == marked(orig, idx as int, 1),
        decreases len - idx,
    {
        proof {
            lemma_marked_len(orig, idx as int, 1);
        }
        if is_kind_at(&tokens, idx, KIND_DOT) && idx < len - 1 && is_kind_at(&tokens, idx + 1, KIND_IDENT)
            && idx < len - 2 && is_kind_at(&tokens, idx + 2, KIND_LPAREN)
            && !dot_is_in_object_creation_type(&tokens, idx) {
            relabel_at(&mut tokens, idx, Token::MethodDot);
        }
        idx = idx + 1;
    }
    tokens
}

/// Whether the `=` at `eq_idx` follows a type hint.
pub fn eq_follows_type_hint(tokens: &Vec<SpannedToken>, eq_idx: usize) -> (b: bool)
    requires
        eq_idx <= tokens@.len(),
    ensures
        b == type_hint_scan(tokens@, eq_idx as int, false),
{
    let mut idx = eq_idx;
    let mut saw_ident = false;
    while idx > 0
        invariant
            idx <= eq_idx <= tokens@.len(),
            type_hint_scan(tokens@, eq_idx as int, false) == type_hint_scan(tokens@, idx as int, saw_ident),
        decreases idx,
    {
        idx = idx - 1;
        if is_kind_at(tokens, idx, KIND_IDENT) {
            saw_ident = true;
        } else if saw_ident && is_kind_at(tokens, idx, KIND_DOT) {
            saw_ident = false;
        } else if saw_ident && is_kind_at(tokens, idx, KIND_COLON) {
            return true;
        } else {
            return false;
        }
    }
    false
}

/// Marks as `TypeEq` each `=` that follows a type hint.
pub fn mark_type_equals(tokens: Vec<SpannedToken>) -> (r: Vec<SpannedToken>)
    ensures
        r@ == marked(tokens@, tokens@.len() as int, 2),
{
    let ghost orig = tokens@;
    let mut tokens = tokens;
    let len = tokens.len();
    let mut idx: usize = 0;
    while idx < len
        invariant
            len == orig.len(),
            idx <= len,
            tokens@ == marked(orig, idx as int, 2),
        decreases len - idx,
    {
        proof {
            lemma_marked_len(orig, idx as int, 2);
        }
        if is_kind_at(&tokens, idx, KIND_EQ) && eq_follows_type_hint(&tokens, idx) {
            relabel_at(&mut tokens, idx, Token::TypeEq);
        }
        idx = idx + 1;
    }
    tokens
}

/// The first token after index `j` that is neither a line end nor a
/// lexical error.
pub open spec fn next_significant(raw: Seq<SpannedToken>, j: int) -> Option<Token>
    decreases raw.len() - j,
{
    if j < 0 || j >= raw.len() {
        None
    } else {
        match raw[j] {
            Ok((_, t, _)) => if t is Newline { next_significant(raw, j + 1) } else { Some(t) },
            Err(_) => next_significant(raw, j + 1),
        }
    }
}

/// Whether `previous` is a token after which a statement may end and that
/// is not itself a `;`.
pub open spec fn open_statement(previous: Option<Token>) -> bool {
    previous matches Some(p) && !(p is Semi) && can_end(p)
}

/// The effect of entry `i` of `raw` on the separator pass's state
/// `(output, last significant token)`: a line end becomes `;` where a
/// statement can end there and the next line cannot continue it; repeated
/// `;` collapse; a `}` closes an open statement first.
pub open spec fn separator_step(raw: Seq<SpannedToken>, i: int, st: (Seq<SpannedToken>, Option<Token>)) -> (Seq<SpannedToken>, Option<Token>) {
    let (out, prev) = st;
    match raw[i] {
        Err(e) => (out.push(raw[i]), prev),
        Ok((start, t, end)) => if t is Newline {
            if (prev matches Some(p) && can_end(p)) && (match next_significant(raw, i + 1) {
                Some(n) => can_start_after_newline(prev, n),
                None => true,
            }) {
                (out.push(Ok((start, Token::Semi, end))), Some(Token::Semi))
            } else {
                (out, prev)
            }
        } else if t is Semi {
            if prev != Some(Token::Semi) {
                (out.push(Ok((start, Token::Semi, end))), Some(Token::Semi))
            } else {
                (out, prev)
            }
        } else {
            let out1 = if t is RBrace && open_statement(prev) {
                out.push(Ok((start, Token::Semi, start)))
            } else {
                out
            };
            (out1.push(Ok((start, t, end))), Some(t))
        },
    }
}

/// The separator pass's state after the entries below `i`.
pub open spec fn separator_fold(raw: Seq<SpannedToken>, i: int) -> (Seq<SpannedToken>, Option<Token>)
    decreases i,
{
    if i <= 0 || i > raw.len() {
        (Seq::empty(), None)
    } else {
        separator_step(raw, i - 1, separator_fold(raw, i - 1))
    }
}

/// The token stream handed to the grammar: separators placed, a last `;`
/// for an open final statement, and `Eof` at byte `source_len`.
pub open spec fn separated(raw: Seq<SpannedToken>, source_len: int) -> Seq<SpannedToken> {
    let (out, prev) = separator_fold(raw, raw.len() as int);
    let closed = if open_statement(prev) {
        out.push(Ok((source_len as usize, Token::Semi, source_len as usize)))
    } else {
        out
    };
    closed.push(Ok((source_len as usize, Token::Eof, source_len as usize)))
}

fn next_significant_token(raw: &Vec<SpannedToken>, from: usize) -> (r: Option<&Token>)
    ensures
        match r {
            Some(t) => next_significant(raw@, from as int) == Some(*t),
            None => next_significant(raw@, from as int) is None,
        },
{
    let mut j = from;
    while j < raw.len()
        invariant
            from <= j,
            next_significant(raw@, from as int) == next_significant(raw@, j as int),
        decreases raw@.len() - j,
    {
        match &raw[j] {
            Ok((_, t, _)) => {
                if kind_of(t) != KIND_NEWLINE {
                    return Some(t);
                }
            },
            Err(_) => {},
        }
        j = j + 1;
    }
    None
}

fn is_semi(t: &Option<Token>) -> (b: bool)
    ensures
        b == (*t == Some(Token::Semi)),
{
    match t {
        Some(Token::Semi) => true,
        _ => false,
    }
}

fn statement_open(previous: &Option<Token>) -> (b: bool)
    ensures
        b == open_statement(*previous),
{
    match previous {
        Some(p) => !matches!(p, Token::Semi) && can_end_statement(p),
        None => false,
    }
}

/// Places statement separators: a line end becomes `;` when the previous
/// token can end a statement and the next line cannot continue it, extra
/// `;` are dropped, a `;` is put before a `}` that closes an open
/// statement and after a final open statement, and `Eof` closes the
/// stream at byte `source_len`.
pub fn insert_separators(raw: &Vec<SpannedToken>, source_len: usize) -> (r: Vec<SpannedToken>)
    ensures
        r@ == separated(raw@, source_len as int),
{
    let mut output: Vec<SpannedToken> = Vec::new();
    let mut previous: Option<Token> = None;
    let mut idx: usize = 0;
    while idx < raw.len()
        invariant
            idx <= raw@.len(),
            (output@, previous) == separator_fold(raw@, idx as int),
        decreases raw@.len() - idx,
    {
        match &raw[idx] {
            Err(_) => {
                output.push(clone_spanned(&raw[idx]));
            },
            Ok((start, token, end)) => {
                let k = kind_of(token);
                if k == KIND_NEWLINE {
                    let ends = match &previous {
                        Some(p) => can_end_statement(p),
                        None => false,
                    };
                    if ends {
                        let starts = match next_significant_token(raw, idx + 1) {
                            Some(next) => can_start_statement_after_newline(previous.as_ref(), next),
                            None => true,
                        };
                        if starts {
                            output.push(Ok((*start, Token::Semi, *end)));
                            previous = Some(Token::Semi);
                        }
                    }
                } else if k == KIND_SEMI {
                    if !is_semi(&previous) {
                        output.push(Ok((*start, Token::Semi, *end)));
                    }
                    previous = Some(Token::Semi);
                } else {
                    if k == KIND_RBRACE && statement_open(&previous) {
                        output.push(Ok((*start, Token::Semi, *start)));
                    }
                    output.push(Ok((*start, clone_token(token), *end)));
                    previous = Some(clone_token(token));
                }
            },
        }
        idx = idx + 1;
    }
    if statement_open(&previous) {
        output.push(Ok((source_len, Token::Semi, source_len)));
    }
    output.push(Ok((source_len, Token::Eof, source_len)));
    output
}


/// `stream` is the token stream of `source`: the raw tokens with lambda
/// parentheses, method-call dots and type-hint `=` marked, statement
/// separators inserted at line ends, and `Eof` at the end.
pub open spec fn lexes(source: Seq<char>, stream: Seq<SpannedToken>) -> bool {
    exists|raw: Seq<SpannedToken>|
        #![trigger items_agree(raw, lex_items(source, 0))]
        items_agree(raw, lex_items(source, 0)) && stream == separated(
            marked(marked(marked(raw, raw.len() as int, 0), raw.len() as int, 1), raw.len() as int, 2),
            byte_len(source),
        )
}

/// The token stream of `source` that the grammar reads.
pub fn lex(source: &str) -> (r: Vec<SpannedToken>)
    ensures
        lexes(source@, r@),
{
    let raw = scan(source);
    let ghost scanned = raw@;
    proof {
        lemma_byte_len_encode(source@);
        lemma_marked_len(scanned, scanned.len() as int, 0);
        lemma_marked_len(marked(scanned, scanned.len() as int, 0), scanned.len() as int, 1);
    }
    let source_len = source.as_bytes().len();
    let raw = mark_type_equals(mark_method_dots(mark_lambda_starts(raw)));
    insert_separators(&raw, source_len)
}


/// Whether `b` is `a` or `a` relabelled as `label`: same byte range, same
/// error if it is one.
pub open spec fn kept_or_relabelled(a: SpannedToken, b: SpannedToken, label: Token) -> bool {
    b == a || b == relabel(a, label)
}

/// A marking pass keeps the number of tokens, and each token keeps its
/// place in the source: it is left as it is or relabelled as the pass's
/// marker.
pub proof fn lemma_marking_keeps_places(ts: Seq<SpannedToken>, i: int, pass: int)
    requires
        0 <= i <= ts.len(),
    ensures
        marked(ts, i, pass).len() == ts.len(),
        forall|k: int| 0 <= k < ts.len() ==> kept_or_relabelled(ts[k], #[trigger] marked(ts, i, pass)[k], pass_label(pass)),
    decreases i,
{
    if i > 0 {
        lemma_marking_keeps_places(ts, i - 1, pass);
        let p = marked(ts, i - 1, pass);
        assert forall|k: int| 0 <= k < ts.len() implies kept_or_relabelled(ts[k], #[trigger] marked(ts, i, pass)[k], pass_label(pass)) by {
            assert(kept_or_relabelled(ts[k], p[k], pass_label(pass)));
            if k == i - 1 && pass_applies(pass, p, i - 1) {
                assert(marked(ts, i, pass)[k] == relabel(p[k], pass_label(pass)));
                if p[k] != ts[k] {
                    assert(p[k] == relabel(ts[k], pass_label(pass)));
                }
            }
        }
    }
}


/// The token of the last item before index `j` that is a token.
pub open spec fn last_token_before(out: Seq<SpannedToken>, j: int) -> Option<Token>
    decreases j,
{
    if j <= 0 || j > out.len() {
        None
    } else {
        match out[j - 1] {
            Ok((_, t, _)) => Some(t),
            Err(_) => last_token_before(out, j - 1),
        }
    }
}

/// Whether an item is the token `;`.
pub open spec fn is_separator(st: SpannedToken) -> bool {
    st matches Ok((_, t, _)) && t is Semi
}

/// No `;` follows another `;` with only errors between them.
pub open spec fn separators_not_doubled(out: Seq<SpannedToken>) -> bool {
    forall|j: int| 0 <= j < out.len() && #[trigger] is_separator(out[j]) ==> last_token_before(out, j) != Some(Token::Semi)
}

proof fn lemma_last_token_push(out: Seq<SpannedToken>, x: SpannedToken, j: int)
    requires
        0 <= j <= out.len(),
    ensures
        last_token_before(out.push(x), j) == last_token_before(out, j),
    decreases j,
{
    if j > 0 {
        assert(out.push(x)[j - 1] == out[j - 1]);
        lemma_last_token_push(out, x, j - 1);
    }
}

proof fn lemma_push_keeps_law(out: Seq<SpannedToken>, x: SpannedToken)
    requires
        separators_not_doubled(out),
        is_separator(x) ==> last_token_before(out, out.len() as int) != Some(Token::Semi),
    ensures
        separators_not_doubled(out.push(x)),
        last_token_before(out.push(x), out.len() + 1int) == match x {
            Ok((_, t, _)) => Some(t),
            Err(_) => last_token_before(out, out.len() as int),
        },
{
    let o = out.push(x);
    assert forall|j: int| 0 <= j < o.len() && #[trigger] is_separator(o[j]) implies last_token_before(o, j) != Some(Token::Semi) by {
        lemma_last_token_push(out, x, j);
        if j < out.len() {
            assert(o[j] == out[j]);
        }
    }
    lemma_last_token_push(out, x, out.len() as int);
}

/// After each step of separator insertion, the last token written is the
/// remembered one and no separator is doubled.
proof fn lemma_fold_keeps_law(raw: Seq<SpannedToken>, i: int)
    requires
        0 <= i <= raw.len(),
    ensures
        separators_not_doubled(separator_fold(raw, i).0),
        separator_fold(raw, i).1 == last_token_before(separator_fold(raw, i).0, separator_fold(raw, i).0.len() as int),
    decreases i,
{
    if i > 0 {
        lemma_fold_keeps_law(raw, i - 1);
        let (out, prev) = separator_fold(raw, i - 1);
        match raw[i - 1] {
            Err(e) => {
                lemma_push_keeps_law(out, raw[i - 1]);
            },
            Ok((start, t, end)) => {
                if t is Newline {
                    if (prev matches Some(p) && can_end(p)) && (match next_significant(raw, i) {
                        Some(n) => can_start_after_newline(prev, n),
                        None => true,
                    }) {
                        lemma_push_keeps_law(out, Ok((start, Token::Semi, end)));
                    }
                } else if t is Semi {
                    if prev != Some(Token::Semi) {
                        lemma_push_keeps_law(out, Ok((start, Token::Semi, end)));
                    }
                } else {
                    if t is RBrace && open_statement(prev) {
                        let out1 = out.push(Ok((start, Token::Semi, start)));
                        lemma_push_keeps_law(out, Ok((start, Token::Semi, start)));
                        lemma_push_keeps_law(out1, Ok((start, t, end)));
                    } else {
                        lemma_push_keeps_law(out, Ok((start, t, end)));
                    }
                }
            },
        }
    }
}

/// The token stream never has two statement separators in a row (errors
/// aside), and it ends with `Eof`.
pub proof fn lemma_separators_not_doubled(raw: Seq<SpannedToken>, source_len: int)
    ensures
        separators_not_doubled(separated(raw, source_len)),
        separated(raw, source_len).len() > 0,
        separated(raw, source_len).last() matches Ok((_, t, _)) && t is Eof,
{
    lemma_fold_keeps_law(raw, raw.len() as int);
    let (out, prev) = separator_fold(raw, raw.len() as int);
    let semi = Ok::<(usize, Token, usize), LexicalError>((source_len as usize, Token::Semi, source_len as usize));
    let eof = Ok::<(usize, Token, usize), LexicalError>((source_len as usize, Token::Eof, source_len as usize));
    if open_statement(prev) {
        lemma_push_keeps_law(out, semi);
        lemma_push_keeps_law(out.push(semi), eof);
    } else {
        lemma_push_keeps_law(out, eof);
    }
}

} // verus!



