//! Declarative macros: matching a call's tokens against the rules of a
//! definition, capturing fragments, and instantiating the template of the
//! first rule that consumes every token.
//!
//! Whether a token range forms an expression or a statement is the
//! grammar's verdict; the caller supplies those verdicts as a table over the
//! normalised call arguments.
use vstd::prelude::*;
use crate::ast::{ErrorData, Span};
use crate::parser::lexer::{clone_token, kind_of, token_kind, SpannedToken, Token};
use crate::parser::structs::ParseError;
use crate::parser::scanner::one_char_token;
use crate::parser::syntax::{
    MacroCall, MacroDefinition, MacroDelimiter, MacroFragmentKind, MacroMatcher, MacroRepeatOp,
    MacroRule, MacroTemplate, MacroToken,
};

verus! {

// ---------------------------------------------------------------------------
// Tokens
// ---------------------------------------------------------------------------

/// Two tokens are the same when they are the same variant with the same
/// payload.
pub open spec fn is_same_token(a: Token, b: Token) -> bool {
    match (a, b) {
        (Token::Ident(x), Token::Ident(y)) => x@ == y@,
        (Token::String(x), Token::String(y)) => x@ == y@,
        (Token::Number(x), Token::Number(y)) => x == y,
        (Token::Float(x), Token::Float(y)) => x@ == y@,
        _ => token_kind(a) == token_kind(b),
    }
}

/// Whether two tokens are the same variant with the same payload.
pub fn same_token(left: &Token, right: &Token) -> (b: bool)
    ensures
        b == is_same_token(*left, *right),
{
    match (left, right) {
        (Token::Ident(a), Token::Ident(b)) => a.eq(b),
        (Token::String(a), Token::String(b)) => a.eq(b),
        (Token::Number(a), Token::Number(b)) => *a == *b,
        (Token::Float(a), Token::Float(b)) => a.eq(b),
        _ => kind_of(left) == kind_of(right),
    }
}

/// A copy of a macro token.
pub fn clone_macro_token(t: &MacroToken) -> (r: MacroToken)
    ensures
        r == *t,
{
    MacroToken { token: clone_token(&t.token), start: t.start, end: t.end }
}

/// A copy of a token list.
pub fn clone_tokens(tokens: &[MacroToken]) -> (r: Vec<MacroToken>)
    ensures
        r@ == tokens@,
{
    let mut out: Vec<MacroToken> = Vec::new();
    let mut i: usize = 0;
    while i < tokens.len()
        invariant
            i <= tokens@.len(),
            out@ == tokens@.take(i as int),
        decreases tokens@.len() - i,
    {
        out.push(clone_macro_token(&tokens[i]));
        i = i + 1;
    }
    out
}

/// The opening and closing tokens of a delimiter.
pub open spec fn delimiter_pair(d: MacroDelimiter) -> (Token, Token) {
    match d {
        MacroDelimiter::Paren => (Token::LParen, Token::RParen),
        MacroDelimiter::Bracket => (Token::LBracket, Token::RBracket),
        MacroDelimiter::Brace => (Token::LBrace, Token::RBrace),
    }
}

/// The characters that open and close a group written with `d`: `(` and
/// `)`, `[` and `]`, `{` and `}`.
pub open spec fn delimiter_chars(d: MacroDelimiter) -> (char, char) {
    match d {
        MacroDelimiter::Paren => ('(', ')'),
        MacroDelimiter::Bracket => ('[', ']'),
        MacroDelimiter::Brace => ('{', '}'),
    }
}

/// A delimited group is bracketed by the delimiter's own pair: its opening
/// and closing tokens are the tokens the lexer produces for the
/// delimiter's characters (a brace group opens with the token of `{`).
pub proof fn lemma_delimiter_tokens_are_lexed_brackets(d: MacroDelimiter)
    ensures
        one_char_token(delimiter_chars(d).0) == Some(delimiter_pair(d).0),
        one_char_token(delimiter_chars(d).1) == Some(delimiter_pair(d).1),
{
}

/// The opening and closing tokens of a delimiter.
pub fn delimiter_tokens(delimiter: MacroDelimiter) -> (r: (Token, Token))
    ensures
        one_char_token(delimiter_chars(delimiter).0) == Some(r.0),
        one_char_token(delimiter_chars(delimiter).1) == Some(r.1),
        r == delimiter_pair(delimiter),
{
    match delimiter {
        MacroDelimiter::Paren => (Token::LParen, Token::RParen),
        MacroDelimiter::Bracket => (Token::LBracket, Token::RBracket),
        MacroDelimiter::Brace => (Token::LBrace, Token::RBrace),
    }
}

/// The variant index of the closer that matches an opening bracket.
pub open spec fn closer_of(t: Token) -> Option<u8> {
    match t {
        Token::LParen => Some(token_kind(Token::RParen) as u8),
        Token::LBracket => Some(token_kind(Token::RBracket) as u8),
        Token::LBrace => Some(token_kind(Token::RBrace) as u8),
        _ => None,
    }
}

/// Whether a token closes a bracket.
pub open spec fn is_closer(t: Token) -> bool {
    t is RParen || t is RBracket || t is RBrace
}

/// Scans `ts` from `i` with the closers still expected on `stack`: every
/// closer must match the innermost open bracket, and none may stay open.
pub open spec fn balance_scan(ts: Seq<MacroToken>, i: int, stack: Seq<u8>) -> bool
    decreases ts.len() - i,
{
    if i >= ts.len() {
        stack.len() == 0
    } else {
        let t = ts[i].token;
        match closer_of(t) {
            Some(c) => balance_scan(ts, i + 1, stack.push(c)),
            None => if is_closer(t) {
                stack.len() > 0 && stack.last() as int == token_kind(t) && balance_scan(
                    ts,
                    i + 1,
                    stack.drop_last(),
                )
            } else {
                balance_scan(ts, i + 1, stack)
            },
        }
    }
}

/// Whether the brackets of a token list are balanced and properly nested.
pub open spec fn balanced(ts: Seq<MacroToken>) -> bool {
    balance_scan(ts, 0, seq![])
}

/// Whether the brackets of `tokens` are balanced and properly nested.
pub fn delimiters_balanced(tokens: &[MacroToken]) -> (b: bool)
    ensures
        b == balanced(tokens@),
{
    let mut stack: Vec<u8> = Vec::new();
    let mut i: usize = 0;
    while i < tokens.len()
        invariant
            i <= tokens@.len(),
            balance_scan(tokens@, 0, seq![]) == balance_scan(tokens@, i as int, stack@),
        decreases tokens@.len() - i,
    {
        let t = &tokens[i].token;
        match t {
            Token::LParen => stack.push(kind_of(&Token::RParen)),
            Token::LBracket => stack.push(kind_of(&Token::RBracket)),
            Token::LBrace => stack.push(kind_of(&Token::RBrace)),
            Token::RParen | Token::RBracket | Token::RBrace => {
                let k = kind_of(t);
                match stack.pop() {
                    Some(top) => {
                        if top != k {
                            return false;
                        }
                    },
                    None => {
                        return false;
                    },
                }
            },
            _ => {},
        }
        i = i + 1;
    }
    stack.len() == 0
}

/// Whether `expected` occurs in `ts` at `pos`.
pub open spec fn matches_at(ts: Seq<MacroToken>, pos: int, expected: Seq<MacroToken>) -> bool {
    &&& (expected.len() == 0 || pos + expected.len() <= ts.len())
    &&& forall|k: int|
        0 <= k < expected.len() ==> #[trigger] is_same_token(ts[pos + k].token, expected[k].token)
}

/// Whether `expected` occurs in `tokens` at `pos`.
pub fn tokens_match_at(tokens: &[MacroToken], pos: usize, expected: &[MacroToken]) -> (b: bool)
    requires
        pos <= tokens@.len(),
    ensures
        b == matches_at(tokens@, pos as int, expected@),
        b ==> pos + expected@.len() <= tokens@.len(),
{
    let n = tokens.len();
    if expected.len() > n - pos {
        return false;
    }
    let mut k: usize = 0;
    while k < expected.len()
        invariant
            n == tokens@.len(),
            pos + expected@.len() <= tokens@.len(),
            k <= expected@.len(),
            forall|j: int|
                0 <= j < k ==> #[trigger] is_same_token(tokens@[pos + j].token, expected@[j].token),
        decreases expected@.len() - k,
    {
        if !same_token(&tokens[pos + k].token, &expected[k].token) {
            assert(!is_same_token(tokens@[pos + k].token, expected@[k as int].token));
            return false;
        }
        k = k + 1;
    }
    true
}

/// The arguments of a call with trailing `;` dropped, for brace calls.
pub open spec fn trim_semis(ts: Seq<MacroToken>) -> Seq<MacroToken>
    decreases ts.len(),
{
    if ts.len() > 0 && ts.last().token is Semi {
        trim_semis(ts.drop_last())
    } else {
        ts
    }
}

/// The tokens a call's rules are matched against.
pub open spec fn normalized_args(call: MacroCall) -> Seq<MacroToken> {
    if call.delimiter == MacroDelimiter::Brace {
        trim_semis(call.args@)
    } else {
        call.args@
    }
}

/// The tokens a call's rules are matched against: its arguments, without
/// trailing `;` when the call uses braces.
pub fn normalized_call_args(call: &MacroCall) -> (r: Vec<MacroToken>)
    ensures
        r@ == normalized_args(*call),
{
    let mut args = clone_tokens(call.args.as_slice());
    if call.delimiter == MacroDelimiter::Brace {
        while args.len() > 0 && matches!(args[args.len() - 1].token, Token::Semi)
            invariant
                trim_semis(args@) == trim_semis(call.args@),
            decreases args@.len(),
        {
            args.pop();
        }
    }
    args
}

// ---------------------------------------------------------------------------
// Fragments
// ---------------------------------------------------------------------------

/// The grammar's verdicts on the ranges of a call's normalised arguments:
/// `expr[start][end]` (and `stmt[start][end]`) tell whether the tokens
/// `start..end` parse as an expression (a statement). A range outside the
/// tables is not one.
#[derive(Debug)]
pub struct FragmentVerdicts {
    pub expr: Vec<Vec<bool>>,
    pub stmt: Vec<Vec<bool>>,
}

/// Looks a verdict up in a table; a range outside it is rejected.
pub open spec fn table_says(table: Seq<Vec<bool>>, start: int, end: int) -> bool {
    0 <= start < table.len() && 0 <= end < table[start]@.len() && table[start]@[end]
}

fn table_lookup(table: &Vec<Vec<bool>>, start: usize, end: usize) -> (b: bool)
    ensures
        b == table_says(table@, start as int, end as int),
{
    if start < table.len() && end < table[start].len() {
        table[start][end]
    } else {
        false
    }
}

/// Whether `ts[start..end]` is a fragment of the given kind.
pub open spec fn fragment_ok(
    kind: MacroFragmentKind,
    ts: Seq<MacroToken>,
    start: int,
    end: int,
    verdicts: FragmentVerdicts,
) -> bool {
    let fragment = ts.subrange(start, end);
    match kind {
        MacroFragmentKind::Ident => fragment.len() == 1 && fragment[0].token is Ident,
        MacroFragmentKind::Block => fragment.len() > 0 && fragment[0].token is LBrace
            && fragment.last().token is RBrace && balanced(fragment),
        MacroFragmentKind::Expr => table_says(verdicts.expr@, start, end),
        MacroFragmentKind::Stmt => table_says(verdicts.stmt@, start, end),
    }
}

/// Whether `tokens[start..end]` is a fragment of the given kind.
pub fn valid_fragment(
    kind: MacroFragmentKind,
    tokens: &[MacroToken],
    start: usize,
    end: usize,
    verdicts: &FragmentVerdicts,
) -> (b: bool)
    requires
        start <= end <= tokens@.len(),
    ensures
        b == fragment_ok(kind, tokens@, start as int, end as int, *verdicts),
{
    let fragment = &tokens[start..end];
    match kind {
        MacroFragmentKind::Ident => fragment.len() == 1 && matches!(fragment[0].token, Token::Ident(_)),
        MacroFragmentKind::Block => {
            fragment.len() > 0 && matches!(fragment[0].token, Token::LBrace)
                && matches!(fragment[fragment.len() - 1].token, Token::RBrace)
                && delimiters_balanced(fragment)
        },
        MacroFragmentKind::Expr => table_lookup(&verdicts.expr, start, end),
        MacroFragmentKind::Stmt => table_lookup(&verdicts.stmt, start, end),
    }
}

} // verus!

verus! {

// ---------------------------------------------------------------------------
// Captures
// ---------------------------------------------------------------------------

/// What a fragment variable captured: one token list, or one per repetition.
#[derive(Debug)]
pub enum Capture {
    Single(Vec<MacroToken>),
    Repeated(Vec<Vec<MacroToken>>),
}

/// A capture as token sequences.
pub enum CaptureView {
    One(Seq<MacroToken>),
    Many(Seq<Seq<MacroToken>>),
}

/// The token sequences of a capture.
pub open spec fn capture_view(c: Capture) -> CaptureView {
    match c {
        Capture::Single(ts) => CaptureView::One(ts@),
        Capture::Repeated(items) => CaptureView::Many(items@.map_values(|v: Vec<MacroToken>| v@)),
    }
}

/// Variables bound while matching, by name.
pub type CaptureMap = Map<Seq<char>, CaptureView>;

/// The variables captured so far, each name at most once.
#[derive(Debug)]
pub struct Captures {
    entries: Vec<(String, Capture)>,
}

/// No name occurs twice among the entries.
pub open spec fn distinct_names(e: Seq<(String, Capture)>) -> bool {
    forall|i: int, j: int| 0 <= i < e.len() && 0 <= j < e.len() && #[trigger] e[i].0@ == #[trigger] e[j].0@ ==> i == j
}

/// Whether an entry has the given name.
pub open spec fn has_name(e: Seq<(String, Capture)>, k: Seq<char>) -> bool {
    exists|i: int| 0 <= i < e.len() && #[trigger] e[i].0@ == k
}

/// The map that a list of named captures stands for.
pub open spec fn capture_map(e: Seq<(String, Capture)>) -> CaptureMap {
    Map::new(
        |k: Seq<char>| has_name(e, k),
        |k: Seq<char>| capture_view(e[choose|i: int| 0 <= i < e.len() && #[trigger] e[i].0@ == k].1),
    )
}

/// Each entry of a list without repeated names is found in its map.
pub proof fn lemma_capture_map_at(e: Seq<(String, Capture)>, i: int)
    requires
        distinct_names(e),
        0 <= i < e.len(),
    ensures
        capture_map(e).contains_key(e[i].0@),
        capture_map(e)[e[i].0@] == capture_view(e[i].1),
{
    let k = e[i].0@;
    assert(has_name(e, k));
    let j = choose|j: int| 0 <= j < e.len() && #[trigger] e[j].0@ == k;
    assert(e[j].0@ == e[i].0@);
}

/// Adding an entry with a new name inserts it in the map.
pub proof fn lemma_capture_map_push(e: Seq<(String, Capture)>, x: (String, Capture))
    requires
        distinct_names(e),
        !has_name(e, x.0@),
    ensures
        distinct_names(e.push(x)),
        capture_map(e.push(x)) =~= capture_map(e).insert(x.0@, capture_view(x.1)),
{
    let f = e.push(x);
    assert forall|i: int, j: int| 0 <= i < f.len() && 0 <= j < f.len() && #[trigger] f[i].0@ == #[trigger] f[j].0@ implies i == j by {
        if i < e.len() && j == e.len() {
            assert(e[i].0@ == x.0@);
        } else if j < e.len() && i == e.len() {
            assert(e[j].0@ == x.0@);
        } else if i < e.len() && j < e.len() {
            assert(e[i].0@ == e[j].0@);
        }
    }
    assert forall|k: Seq<char>| #[trigger] has_name(f, k) == (has_name(e, k) || k == x.0@) by {
        if has_name(e, k) {
            let i = choose|i: int| 0 <= i < e.len() && #[trigger] e[i].0@ == k;
            assert(f[i].0@ == k);
        }
        if k == x.0@ {
            assert(f[e.len() as int].0@ == k);
        }
        if has_name(f, k) {
            let i = choose|i: int| 0 <= i < f.len() && #[trigger] f[i].0@ == k;
            if i < e.len() {
                assert(e[i].0@ == k);
            }
        }
    }
    assert forall|k: Seq<char>| #[trigger] capture_map(f).contains_key(k) implies capture_map(f)[k]
        == capture_map(e).insert(x.0@, capture_view(x.1))[k] by {
        let i = choose|i: int| 0 <= i < f.len() && #[trigger] f[i].0@ == k;
        lemma_capture_map_at(f, i);
        if i < e.len() {
            assert(e[i] == f[i]);
            lemma_capture_map_at(e, i);
        }
    }
}

/// Replacing the entry of a name replaces its value in the map.
pub proof fn lemma_capture_map_update(e: Seq<(String, Capture)>, i: int, x: (String, Capture))
    requires
        distinct_names(e),
        0 <= i < e.len(),
        e[i].0@ == x.0@,
    ensures
        distinct_names(e.update(i, x)),
        capture_map(e.update(i, x)) =~= capture_map(e).insert(x.0@, capture_view(x.1)),
{
    let f = e.update(i, x);
    assert forall|a: int, b: int| 0 <= a < f.len() && 0 <= b < f.len() && #[trigger] f[a].0@ == #[trigger] f[b].0@ implies a == b by {
        assert(e[a].0@ == f[a].0@);
        assert(e[b].0@ == f[b].0@);
    }
    assert forall|k: Seq<char>| #[trigger] has_name(f, k) == has_name(e, k) by {
        if has_name(e, k) {
            let j = choose|j: int| 0 <= j < e.len() && #[trigger] e[j].0@ == k;
            assert(f[j].0@ == k);
        }
        if has_name(f, k) {
            let j = choose|j: int| 0 <= j < f.len() && #[trigger] f[j].0@ == k;
            assert(e[j].0@ == k);
        }
    }
    lemma_capture_map_at(e, i);
    assert forall|k: Seq<char>| #[trigger] capture_map(f).contains_key(k) implies capture_map(f)[k]
        == capture_map(e).insert(x.0@, capture_view(x.1))[k] by {
        let j = choose|j: int| 0 <= j < f.len() && #[trigger] f[j].0@ == k;
        lemma_capture_map_at(f, j);
        if j != i {
            assert(e[j] == f[j]);
            lemma_capture_map_at(e, j);
        }
    }
}

/// A list of named captures starts with its first entry.
pub proof fn lemma_capture_map_front(e: Seq<(String, Capture)>, k: int)
    requires
        distinct_names(e),
        0 <= k < e.len(),
    ensures
        distinct_names(e.subrange(k + 1, e.len() as int)),
        distinct_names(e.subrange(k, e.len() as int)),
        !has_name(e.subrange(k + 1, e.len() as int), e[k].0@),
        capture_map(e.subrange(k, e.len() as int)) =~= capture_map(e.subrange(k + 1, e.len() as int)).insert(
            e[k].0@,
            capture_view(e[k].1),
        ),
{
    let s = e.subrange(k, e.len() as int);
    let t = e.subrange(k + 1, e.len() as int);
    assert forall|a: int, b: int| 0 <= a < t.len() && 0 <= b < t.len() && #[trigger] t[a].0@ == #[trigger] t[b].0@ implies a == b by {
        assert(e[a + k + 1].0@ == e[b + k + 1].0@);
    }
    assert forall|a: int, b: int| 0 <= a < s.len() && 0 <= b < s.len() && #[trigger] s[a].0@ == #[trigger] s[b].0@ implies a == b by {
        assert(e[a + k].0@ == e[b + k].0@);
    }
    if has_name(t, e[k].0@) {
        let j = choose|j: int| 0 <= j < t.len() && #[trigger] t[j].0@ == e[k].0@;
        assert(e[j + k + 1].0@ == e[k].0@);
    }
    assert forall|n: Seq<char>| #[trigger] has_name(s, n) == (has_name(t, n) || n == e[k].0@) by {
        if has_name(t, n) {
            let j = choose|j: int| 0 <= j < t.len() && #[trigger] t[j].0@ == n;
            assert(s[j + 1].0@ == n);
        }
        if n == e[k].0@ {
            assert(s[0].0@ == n);
        }
        if has_name(s, n) {
            let j = choose|j: int| 0 <= j < s.len() && #[trigger] s[j].0@ == n;
            if j > 0 {
                assert(t[j - 1].0@ == n);
            }
        }
    }
    assert forall|n: Seq<char>| #[trigger] capture_map(s).contains_key(n) implies capture_map(s)[n]
        == capture_map(t).insert(e[k].0@, capture_view(e[k].1))[n] by {
        let j = choose|j: int| 0 <= j < s.len() && #[trigger] s[j].0@ == n;
        lemma_capture_map_at(s, j);
        if j > 0 {
            assert(t[j - 1] == s[j]);
            lemma_capture_map_at(t, j - 1);
        }
    }
}

impl View for Captures {
    type V = CaptureMap;

    closed spec fn view(&self) -> CaptureMap {
        capture_map(self.entries@)
    }
}

impl Captures {
    /// No name is bound twice.
    pub closed spec fn wf(&self) -> bool {
        distinct_names(self.entries@)
    }

    /// No variables.
    pub fn new() -> (r: Captures)
        ensures
            r.wf(),
            r@ == CaptureMap::empty(),
    {
        let r = Captures { entries: Vec::new() };
        assert(r@ =~= CaptureMap::empty());
        r
    }

    fn find(&self, name: &String) -> (r: Option<usize>)
        ensures
            match r {
                Some(i) => i < self.entries@.len() && self.entries@[i as int].0@ == name@,
                None => !has_name(self.entries@, name@),
            },
    {
        let mut i: usize = 0;
        while i < self.entries.len()
            invariant
                i <= self.entries@.len(),
                forall|j: int| 0 <= j < i ==> #[trigger] self.entries@[j].0@ != name@,
            decreases self.entries@.len() - i,
        {
            if self.entries[i].0.eq(name) {
                return Some(i);
            }
            i = i + 1;
        }
        None
    }

    /// The capture bound to `name`, if any.
    pub fn get(&self, name: &String) -> (r: Option<&Capture>)
        requires
            self.wf(),
        ensures
            match r {
                Some(c) => self@.contains_key(name@) && self@[name@] == capture_view(*c),
                None => !self@.contains_key(name@),
            },
    {
        match self.find(name) {
            Some(i) => {
                proof {
                    lemma_capture_map_at(self.entries@, i as int);
                }
                Some(&self.entries[i].1)
            },
            None => None,
        }
    }

    /// Binds `name` to `capture`, replacing an earlier binding.
    pub fn insert(&mut self, name: String, capture: Capture)
        requires
            old(self).wf(),
        ensures
            final(self).wf(),
            final(self)@ == old(self)@.insert(name@, capture_view(capture)),
    {
        match self.find(&name) {
            Some(i) => {
                proof {
                    lemma_capture_map_update(self.entries@, i as int, (name, capture));
                }
                self.entries.set(i, (name, capture));
            },
            None => {
                proof {
                    lemma_capture_map_push(self.entries@, (name, capture));
                }
                self.entries.push((name, capture));
            },
        }
    }
}


/// Two entry lists with the same names and captures stand for the same map.
pub proof fn lemma_capture_map_same(e: Seq<(String, Capture)>, f: Seq<(String, Capture)>)
    requires
        distinct_names(e),
        e.len() == f.len(),
        forall|j: int| 0 <= j < e.len() ==> (#[trigger] f[j]).0@ == e[j].0@ && capture_view(f[j].1) == capture_view(e[j].1),
    ensures
        distinct_names(f),
        capture_map(f) =~= capture_map(e),
{
    assert forall|a: int, b: int| 0 <= a < f.len() && 0 <= b < f.len() && #[trigger] f[a].0@ == #[trigger] f[b].0@ implies a == b by {
        assert(e[a].0@ == e[b].0@);
    }
    assert forall|k: Seq<char>| #[trigger] has_name(f, k) == has_name(e, k) by {
        if has_name(e, k) {
            let j = choose|j: int| 0 <= j < e.len() && #[trigger] e[j].0@ == k;
            assert(f[j].0@ == k);
        }
        if has_name(f, k) {
            let j = choose|j: int| 0 <= j < f.len() && #[trigger] f[j].0@ == k;
            assert(e[j].0@ == k);
        }
    }
    assert forall|k: Seq<char>| #[trigger] capture_map(f).contains_key(k) implies capture_map(f)[k]
        == capture_map(e)[k] by {
        let j = choose|j: int| 0 <= j < f.len() && #[trigger] f[j].0@ == k;
        lemma_capture_map_at(f, j);
        lemma_capture_map_at(e, j);
    }
}

/// A copy of a capture.
fn clone_capture(c: &Capture) -> (r: Capture)
    ensures
        capture_view(r) == capture_view(*c),
{
    match c {
        Capture::Single(ts) => Capture::Single(clone_tokens(ts.as_slice())),
        Capture::Repeated(items) => {
            let mut out: Vec<Vec<MacroToken>> = Vec::new();
            let mut i: usize = 0;
            while i < items.len()
                invariant
                    i <= items@.len(),
                    out@.map_values(|v: Vec<MacroToken>| v@) =~= items@.take(i as int).map_values(
                        |v: Vec<MacroToken>| v@,
                    ),
                decreases items@.len() - i,
            {
                let copy = clone_tokens(items[i].as_slice());
                let ghost before = out@;
                out.push(copy);
                proof {
                    assert(out@ == before.push(copy));
                    assert(items@.take(i + 1) =~= items@.take(i as int).push(items@[i as int]));
                    assert(out@.map_values(|v: Vec<MacroToken>| v@) =~= before.map_values(|v: Vec<MacroToken>| v@).push(copy@));
                }
                i = i + 1;
            }
            assert(items@.take(items@.len() as int) =~= items@);
            Capture::Repeated(out)
        },
    }
}

/// The repetition bindings after one more round: each single capture of
/// the round is appended to the list bound to its name.
pub open spec fn merge_step(current: CaptureMap, name: Seq<char>, value: CaptureView) -> CaptureMap {
    match value {
        CaptureView::One(ts) => current.insert(
            name,
            match current.get(name) {
                Some(CaptureView::Many(items)) => CaptureView::Many(items.push(ts)),
                _ => CaptureView::Many(seq![ts]),
            },
        ),
        CaptureView::Many(_) => current,
    }
}

/// `target` after merging the single captures of one repetition round
/// (`source`) into lists; names that `source` binds to lists are left out.
pub open spec fn merged(target: CaptureMap, source: CaptureMap) -> CaptureMap {
    Map::new(
        |k: Seq<char>| target.contains_key(k) || (source.contains_key(k) && source[k] is One),
        |k: Seq<char>|
            if source.contains_key(k) && source[k] is One {
                match target.get(k) {
                    Some(CaptureView::Many(items)) => CaptureView::Many(items.push(source[k]->One_0)),
                    _ => CaptureView::Many(seq![source[k]->One_0]),
                }
            } else {
                target[k]
            },
    )
}

/// Merging a map with one more name is one more merge step.
pub proof fn lemma_merged_insert(t: CaptureMap, s: CaptureMap, n: Seq<char>, v: CaptureView)
    requires
        !s.contains_key(n),
    ensures
        merged(t, s.insert(n, v)) =~= merge_step(merged(t, s), n, v),
{
}

impl Captures {
    /// A copy of the bindings.
    pub fn duplicate(&self) -> (r: Captures)
        requires
            self.wf(),
        ensures
            r.wf(),
            r@ == self@,
    {
        let mut out: Vec<(String, Capture)> = Vec::new();
        let mut i: usize = 0;
        while i < self.entries.len()
            invariant
                i <= self.entries@.len(),
                out@.len() == i,
                forall|j: int|
                    0 <= j < i ==> (#[trigger] out@[j]).0@ == self.entries@[j].0@ && capture_view(out@[j].1)
                        == capture_view(self.entries@[j].1),
            decreases self.entries@.len() - i,
        {
            let name = self.entries[i].0.clone();
            let capture = clone_capture(&self.entries[i].1);
            out.push((name, capture));
            i = i + 1;
        }
        proof {
            lemma_capture_map_same(self.entries@, out@);
        }
        Captures { entries: out }
    }
}

/// Appends the single captures of one repetition round (`source`) to the
/// lists in `target`, starting a list for a name seen the first time.
pub fn merge_repeated(target: &mut Captures, source: Captures)
    requires
        old(target).wf(),
        source.wf(),
    ensures
        final(target).wf(),
        final(target)@ == merged(old(target)@, source@),
{
    let mut rest = source.entries;
    let ghost all = rest@;
    proof {
        assert(all.subrange(all.len() as int, all.len() as int) =~= Seq::<(String, Capture)>::empty());
        assert(capture_map(Seq::<(String, Capture)>::empty()) =~= CaptureMap::empty());
        assert(merged(old(target)@, CaptureMap::empty()) =~= old(target)@);
        assert(all.take(all.len() as int) =~= all);
    }
    while rest.len() > 0
        invariant
            target.wf(),
            distinct_names(all),
            rest@.len() <= all.len(),
            rest@ == all.take(rest@.len() as int),
            target@ == merged(old(target)@, capture_map(all.subrange(rest@.len() as int, all.len() as int))),
        decreases rest@.len(),
    {
        let ghost k = rest@.len() - 1;
        let ghost before = target@;
        let entry = rest.pop();
        proof {
            assert(rest@ =~= all.take(k));
            lemma_capture_map_front(all, k);
            lemma_merged_insert(
                old(target)@,
                capture_map(all.subrange(k + 1, all.len() as int)),
                all[k].0@,
                capture_view(all[k].1),
            );
        }
        let (name, capture) = entry.unwrap();
        match capture {
            Capture::Single(tokens) => {
                match target.find(&name) {
                    Some(i) => {
                        proof {
                            lemma_capture_map_at(target.entries@, i as int);
                        }
                        let ghost entries = target.entries@;
                        let (stored_name, stored) = target.entries.remove(i);
                        let updated = match stored {
                            Capture::Repeated(mut items) => {
                                let ghost old_items = items@;
                                items.push(tokens);
                                proof {
                                    assert(items@.map_values(|v: Vec<MacroToken>| v@) =~= old_items.map_values(
                                        |v: Vec<MacroToken>| v@,
                                    ).push(tokens@));
                                }
                                Capture::Repeated(items)
                            },
                            Capture::Single(_) => {
                                let mut items: Vec<Vec<MacroToken>> = Vec::new();
                                items.push(tokens);
                                proof {
                                    assert(items@.map_values(|v: Vec<MacroToken>| v@) =~= seq![tokens@]);
                                }
                                Capture::Repeated(items)
                            },
                        };
                        target.entries.insert(i, (stored_name, updated));
                        proof {
                            assert(target.entries@ =~= entries.update(i as int, (stored_name, updated)));
                            lemma_capture_map_update(entries, i as int, (stored_name, updated));
                        }
                    },
                    None => {
                        let mut items: Vec<Vec<MacroToken>> = Vec::new();
                        items.push(tokens);
                        proof {
                            assert(items@.map_values(|v: Vec<MacroToken>| v@) =~= seq![tokens@]);
                            lemma_capture_map_push(target.entries@, (name, Capture::Repeated(items)));
                        }
                        target.entries.push((name, Capture::Repeated(items)));
                    },
                }
            },
            Capture::Repeated(_) => {},
        }
    }
    proof {
        assert(all.subrange(0, all.len() as int) =~= all);
    }
}

// ---------------------------------------------------------------------------
// Matching
// ---------------------------------------------------------------------------

/// Matches `m` against `ts` from `pos` with the bindings `caps`: the
/// position after the match and the bindings, or `None`. A fragment takes
/// the longest range after which the rest of the matcher still matches.
pub open spec fn match_seq(
    m: Seq<MacroMatcher>,
    ts: Seq<MacroToken>,
    pos: int,
    caps: CaptureMap,
    v: FragmentVerdicts,
) -> Option<(int, CaptureMap)>
    decreases m, 2int, 0int,
{
    if m.len() == 0 {
        Some((pos, caps))
    } else {
        match m[0] {
            MacroMatcher::Token(expected) => if 0 <= pos < ts.len() && is_same_token(expected.token, ts[pos].token) {
                match_seq(m.subrange(1, m.len() as int), ts, pos + 1, caps, v)
            } else {
                None
            },
            MacroMatcher::Fragment { .. } => match_fragment(m, ts, pos, caps, v, ts.len() as int),
            MacroMatcher::Repeat { matcher, separator, op } => {
                let (p, c, count) = repeat_state(matcher@, separator@, ts, pos, caps, 0, v);
                if op == MacroRepeatOp::OneOrMore && count == 0 {
                    None
                } else {
                    match_seq(m.subrange(1, m.len() as int), ts, p, c, v)
                }
            },
        }
    }
}

/// Tries the fragment `m[0]` on `ts[pos..end]`, then on shorter ranges.
pub open spec fn match_fragment(
    m: Seq<MacroMatcher>,
    ts: Seq<MacroToken>,
    pos: int,
    caps: CaptureMap,
    v: FragmentVerdicts,
    end: int,
) -> Option<(int, CaptureMap)>
    decreases m, 1int, end - pos,
{
    if m.len() == 0 || end <= pos {
        None
    } else {
        match m[0] {
            MacroMatcher::Fragment { name, kind } => {
                let shorter = match_fragment(m, ts, pos, caps, v, end - 1);
                if fragment_ok(kind, ts, pos, end, v) {
                    match match_seq(
                        m.subrange(1, m.len() as int),
                        ts,
                        end,
                        caps.insert(name@, CaptureView::One(ts.subrange(pos, end))),
                        v,
                    ) {
                        Some(found) => Some(found),
                        None => shorter,
                    }
                } else {
                    shorter
                }
            },
            _ => None,
        }
    }
}

/// The state `(position, bindings, rounds)` after repeating `inner` from
/// `pos`: each round matches `inner` with fresh bindings and must advance;
/// with a separator, rounds go on only while the separator follows.
pub open spec fn repeat_state(
    inner: Seq<MacroMatcher>,
    sep: Seq<MacroToken>,
    ts: Seq<MacroToken>,
    pos: int,
    caps: CaptureMap,
    count: int,
    v: FragmentVerdicts,
) -> (int, CaptureMap, int)
    decreases inner, 3int, ts.len() - pos,
{
    match match_seq(inner, ts, pos, CaptureMap::empty(), v) {
        None => (pos, caps, count),
        Some((next, local)) => if next <= pos || next > ts.len() {
            (pos, caps, count)
        } else {
            let caps2 = merged(caps, local);
            if sep.len() > 0 && matches_at(ts, next, sep) {
                repeat_state(inner, sep, ts, next + sep.len(), caps2, count + 1, v)
            } else if sep.len() > 0 {
                (next, caps2, count + 1)
            } else {
                repeat_state(inner, sep, ts, next, caps2, count + 1, v)
            }
        },
    }
}

/// Matches `matcher` against `tokens` from `pos`; returns the position
/// after the match and the bindings.
pub fn match_sequence(
    matcher: &[MacroMatcher],
    tokens: &[MacroToken],
    pos: usize,
    captures: Captures,
    verdicts: &FragmentVerdicts,
) -> (r: Option<(usize, Captures)>)
    requires
        captures.wf(),
        pos <= tokens@.len(),
    ensures
        match r {
            Some((p, c)) => {
                &&& pos <= p <= tokens@.len()
                &&& c.wf()
                &&& match_seq(matcher@, tokens@, pos as int, captures@, *verdicts) == Some((p as int, c@))
            },
            None => match_seq(matcher@, tokens@, pos as int, captures@, *verdicts) is None,
        },
    decreases matcher@,
{
    if matcher.len() == 0 {
        return Some((pos, captures));
    }
    let ghost m = matcher@;
    let ghost rest = m.subrange(1, m.len() as int);
    match &matcher[0] {
        MacroMatcher::Token(expected) => {
            if pos < tokens.len() && same_token(&expected.token, &tokens[pos].token) {
                let r = match_sequence(&matcher[1..matcher.len()], tokens, pos + 1, captures, verdicts);
                r
            } else {
                None
            }
        },
        MacroMatcher::Fragment { name, kind } => {
            let mut end = tokens.len();
            while end > pos
                invariant
                    pos <= end <= tokens@.len(),
                    captures.wf(),
                    matcher@ == m,
                    m.len() > 0,
                    m[0] == (MacroMatcher::Fragment { name: *name, kind: *kind }),
                    match_fragment(m, tokens@, pos as int, captures@, *verdicts, tokens@.len() as int)
                        == match_fragment(m, tokens@, pos as int, captures@, *verdicts, end as int),
                decreases end - pos,
            {
                if valid_fragment(*kind, tokens, pos, end, verdicts) {
                    let mut local = captures.duplicate();
                    local.insert(name.clone(), Capture::Single(clone_tokens(&tokens[pos..end])));
                    match match_sequence(&matcher[1..matcher.len()], tokens, end, local, verdicts) {
                        Some(found) => {
                            return Some(found);
                        },
                        None => {},
                    }
                }
                end = end - 1;
            }
            None
        },
        MacroMatcher::Repeat { matcher: inner, separator, op } => {
            let ghost start = pos;
            let ghost caps0 = captures@;
            let mut pos = pos;
            let mut captures = captures;
            let mut count: usize = 0;
            let mut done = false;
            let n = tokens.len();
            while !done
                invariant
                    n == tokens@.len(),
                    matcher@ == m,
                    m.len() > 0,
                    m[0] == (MacroMatcher::Repeat { matcher: *inner, separator: *separator, op: *op }),
                    start <= pos <= tokens@.len(),
                    count <= pos - start,
                    captures.wf(),
                    repeat_state(inner@, separator@, tokens@, start as int, caps0, 0, *verdicts) == if done {
                        (pos as int, captures@, count as int)
                    } else {
                        repeat_state(inner@, separator@, tokens@, pos as int, captures@, count as int, *verdicts)
                    },
                decreases tokens@.len() - pos, (if done { 0int } else { 1int }),
            {
                let local = Captures::new();
                proof {
                    assert(decreases_to!(m => m[0]));
                    assert(decreases_to!(m[0] => m[0]->matcher));
                    assert(decreases_to!(m[0]->matcher => m[0]->matcher@));
                }
                match match_sequence(inner.as_slice(), tokens, pos, local, verdicts) {
                    None => {
                        done = true;
                    },
                    Some((next_pos, local)) => {
                        if next_pos == pos {
                            done = true;
                        } else {
                            merge_repeated(&mut captures, local);
                            pos = next_pos;
                            count = count + 1;
                            if separator.len() > 0 && tokens_match_at(tokens, pos, separator.as_slice()) {
                                pos = pos + separator.len();
                            } else if separator.len() > 0 {
                                done = true;
                            }
                        }
                    },
                }
            }
            if *op == MacroRepeatOp::OneOrMore && count == 0 {
                return None;
            }
            match_sequence(&matcher[1..matcher.len()], tokens, pos, captures, verdicts)
        },
    }
}

// ---------------------------------------------------------------------------
// Templates
// ---------------------------------------------------------------------------

/// Whether `e` is a syntax error at `start..end` of the unnamed module with
/// message `msg`.
pub open spec fn is_macro_error(e: ParseError, start: int, end: int, msg: Seq<char>) -> bool {
    (e matches ParseError::InvalidSyntax(data) && data.location.start == start && data.location.end == end
        && data.location.file_id == 0 && data.message@ == msg)
}

/// A syntax error raised by macro expansion at `start..end`.
pub fn macro_error(start: usize, end: usize, message: String) -> (r: ParseError)
    ensures
        is_macro_error(r, start as int, end as int, message@),
{
    ParseError::InvalidSyntax(ErrorData::new(Span::new(start, end, 0), message))
}

/// An executable result against its specification: equal tokens, or an
/// error at `start..end` with the specified message.
pub open spec fn agrees(
    r: Result<Vec<MacroToken>, ParseError>,
    s: Result<Seq<MacroToken>, Seq<char>>,
    start: int,
    end: int,
) -> bool {
    match (r, s) {
        (Ok(v), Ok(t)) => v@ == t,
        (Err(e), Err(m)) => is_macro_error(e, start, end, m),
        _ => false,
    }
}

/// An optional index as an integer.
pub open spec fn opt_int(i: Option<usize>) -> Option<int> {
    match i {
        Some(n) => Some(n as int),
        None => None,
    }
}

/// The tokens bound to `$name`: a single capture outside repetitions, the
/// `index`-th round of a repeated one inside them.
pub open spec fn resolve(name: Seq<char>, caps: CaptureMap, index: Option<int>) -> Result<
    Seq<MacroToken>,
    Seq<char>,
> {
    if !caps.contains_key(name) {
        Err("Переменная макроса '$"@ + name + "' не найдена"@)
    } else {
        match caps[name] {
            CaptureView::One(ts) => if index is None {
                Ok(ts)
            } else {
                Err("Переменная макроса '$"@ + name + "' не является повторяемой"@)
            },
            CaptureView::Many(items) => match index {
                None => Err("Повторяемая переменная использована вне повторения"@),
                Some(i) => if 0 <= i < items.len() {
                    Ok(items[i])
                } else {
                    Err("Индекс повторения макроса вне диапазона"@)
                },
            },
        }
    }
}

/// The tokens bound to `$name` (see [`resolve`]).
pub fn resolve_capture(name: &String, captures: &Captures, index: Option<usize>) -> (r: Result<
    Vec<MacroToken>,
    ParseError,
>)
    requires
        captures.wf(),
    ensures
        agrees(r, resolve(name@, captures@, opt_int(index)), 0, 0),
{
    match captures.get(name) {
        Some(Capture::Single(tokens)) => {
            if index.is_none() {
                Ok(clone_tokens(tokens.as_slice()))
            } else {
                let mut msg = String::from_str("Переменная макроса '$");
                msg.append(name.as_str());
                msg.append("' не является повторяемой");
                Err(macro_error(0, 0, msg))
            }
        },
        Some(Capture::Repeated(items)) => {
            match index {
                None => Err(macro_error(0, 0, String::from_str("Повторяемая переменная использована вне повторения"))),
                Some(i) => {
                    if i < items.len() {
                        let r = clone_tokens(items[i].as_slice());
                        proof {
                            assert(items@.map_values(|v: Vec<MacroToken>| v@)[i as int] == items@[i as int]@);
                        }
                        Ok(r)
                    } else {
                        Err(macro_error(0, 0, String::from_str("Индекс повторения макроса вне диапазона")))
                    }
                },
            }
        },
        None => {
            let mut msg = String::from_str("Переменная макроса '$");
            msg.append(name.as_str());
            msg.append("' не найдена");
            Err(macro_error(0, 0, msg))
        },
    }
}

/// The number of rounds of the first variable bound to a repeated capture
/// in `t`, searching left to right and into nested templates.
pub open spec fn rep_len(t: Seq<MacroTemplate>, caps: CaptureMap) -> Option<int>
    decreases t,
{
    if t.len() == 0 {
        None
    } else {
        match rep_len_item(t[0], caps) {
            Some(n) => Some(n),
            None => rep_len(t.subrange(1, t.len() as int), caps),
        }
    }
}

/// [`rep_len`] of one template element.
pub open spec fn rep_len_item(item: MacroTemplate, caps: CaptureMap) -> Option<int>
    decreases item,
{
    match item {
        MacroTemplate::Variable(name) => if caps.contains_key(name@) && caps[name@] is Many {
            Some(caps[name@]->Many_0.len() as int)
        } else {
            None
        },
        MacroTemplate::Delimited { template, .. } => rep_len(template@, caps),
        MacroTemplate::Repeat { template, .. } => rep_len(template@, caps),
        MacroTemplate::Token(_) => None,
    }
}

/// The number of rounds of the first repeated variable in `template`.
pub fn repeated_len(template: &[MacroTemplate], captures: &Captures) -> (r: Option<usize>)
    requires
        captures.wf(),
    ensures
        opt_int(r) == rep_len(template@, captures@),
    decreases template@,
{
    let mut i: usize = 0;
    assert(template@.subrange(0, template@.len() as int) =~= template@);
    while i < template.len()
        invariant
            i <= template@.len(),
            captures.wf(),
            rep_len(template@, captures@) == rep_len(template@.subrange(i as int, template@.len() as int), captures@),
        decreases template@.len() - i,
    {
        let ghost t = template@.subrange(i as int, template@.len() as int);
        proof {
            assert(t[0] == template@[i as int]);
            assert(t.subrange(1, t.len() as int) =~= template@.subrange(i + 1, template@.len() as int));
        }
        match &template[i] {
            MacroTemplate::Variable(name) => {
                match captures.get(name) {
                    Some(Capture::Repeated(items)) => {
                        assert(rep_len_item(t[0], captures@) == Some(items@.len() as int));
                        return Some(items.len());
                    },
                    _ => {},
                }
            },
            MacroTemplate::Delimited { template: inner, .. } => {
                proof {
                    assert(decreases_to!(template@ => template@[i as int]));
                }
                let found = repeated_len(inner.as_slice(), captures);
                assert(rep_len_item(t[0], captures@) == opt_int(found));
                if found.is_some() {
                    return found;
                }
            },
            MacroTemplate::Repeat { template: inner, .. } => {
                proof {
                    assert(decreases_to!(template@ => template@[i as int]));
                }
                let found = repeated_len(inner.as_slice(), captures);
                assert(rep_len_item(t[0], captures@) == opt_int(found));
                if found.is_some() {
                    return found;
                }
            },
            MacroTemplate::Token(_) => {},
        }
        i = i + 1;
    }
    None
}


/// The opening token written for a delimited template at byte `start`.
pub open spec fn open_token(d: MacroDelimiter, start: usize) -> MacroToken {
    MacroToken {
        token: delimiter_pair(d).0,
        start: start,
        end: if start < usize::MAX { (start + 1) as usize } else { start },
    }
}

/// The closing token written for a delimited template ending at byte `end`.
pub open spec fn close_token(d: MacroDelimiter, end: usize) -> MacroToken {
    MacroToken { token: delimiter_pair(d).1, start: if end > 0 { (end - 1) as usize } else { end }, end: end }
}

/// The tokens of a template with the given bindings, in round `index` of
/// an enclosing repetition; the first failing variable is the error.
pub open spec fn expand_seq(t: Seq<MacroTemplate>, caps: CaptureMap, index: Option<int>) -> Result<
    Seq<MacroToken>,
    Seq<char>,
>
    decreases t, 0int,
{
    if t.len() == 0 {
        Ok(seq![])
    } else {
        match expand_seq(t.subrange(0, t.len() - 1), caps, index) {
            Err(e) => Err(e),
            Ok(prefix) => match expand_item(t[t.len() - 1], caps, index) {
                Err(e) => Err(e),
                Ok(more) => Ok(prefix + more),
            },
        }
    }
}

/// The tokens of one template element.
pub open spec fn expand_item(item: MacroTemplate, caps: CaptureMap, index: Option<int>) -> Result<
    Seq<MacroToken>,
    Seq<char>,
>
    decreases item, 0int,
{
    match item {
        MacroTemplate::Token(tok) => Ok(seq![tok]),
        MacroTemplate::Variable(name) => resolve(name@, caps, index),
        MacroTemplate::Delimited { delimiter, template, start, end } => match expand_seq(template@, caps, index) {
            Err(e) => Err(e),
            Ok(inner) => Ok(seq![open_token(delimiter, start)] + inner + seq![close_token(delimiter, end)]),
        },
        MacroTemplate::Repeat { template, separator, .. } => expand_repeat(
            template@,
            separator@,
            caps,
            match rep_len(template@, caps) {
                Some(n) => n,
                None => 0,
            },
        ),
    }
}

/// Rounds `0..n` of a repetition, separated by `sep`.
pub open spec fn expand_repeat(t: Seq<MacroTemplate>, sep: Seq<MacroToken>, caps: CaptureMap, n: int) -> Result<
    Seq<MacroToken>,
    Seq<char>,
>
    decreases t, n,
{
    if n <= 0 {
        Ok(seq![])
    } else {
        match expand_repeat(t, sep, caps, n - 1) {
            Err(e) => Err(e),
            Ok(prefix) => match expand_seq(t, caps, Some(n - 1)) {
                Err(e) => Err(e),
                Ok(round) => Ok(prefix + (if n - 1 > 0 { sep } else { seq![] }) + round),
            },
        }
    }
}

/// An error in a prefix of a template is the template's error.
pub proof fn lemma_expand_error_prefix(t: Seq<MacroTemplate>, k: int, caps: CaptureMap, index: Option<int>)
    requires
        0 <= k <= t.len(),
        expand_seq(t.subrange(0, k), caps, index) is Err,
    ensures
        expand_seq(t, caps, index) == expand_seq(t.subrange(0, k), caps, index),
    decreases t.len() - k,
{
    if k == t.len() {
        assert(t.subrange(0, k) =~= t);
    } else {
        let u = t.subrange(0, t.len() - 1);
        assert(u.subrange(0, k) =~= t.subrange(0, k));
        lemma_expand_error_prefix(u, k, caps, index);
    }
}

/// An error in an early round is the repetition's error.
pub proof fn lemma_repeat_error_prefix(t: Seq<MacroTemplate>, sep: Seq<MacroToken>, caps: CaptureMap, k: int, n: int)
    requires
        0 <= k <= n,
        expand_repeat(t, sep, caps, k) is Err,
    ensures
        expand_repeat(t, sep, caps, n) == expand_repeat(t, sep, caps, k),
    decreases n - k,
{
    if k < n {
        lemma_repeat_error_prefix(t, sep, caps, k, n - 1);
    }
}

/// Instantiates `template` with `captures`, in round `index` of an
/// enclosing repetition.
pub fn expand_template(template: &[MacroTemplate], captures: &Captures, index: Option<usize>) -> (r: Result<
    Vec<MacroToken>,
    ParseError,
>)
    requires
        captures.wf(),
    ensures
        agrees(r, expand_seq(template@, captures@, opt_int(index)), 0, 0),
    decreases template@,
{
    let mut output: Vec<MacroToken> = Vec::new();
    let mut i: usize = 0;
    assert(template@.subrange(0, 0) =~= Seq::<MacroTemplate>::empty());
    while i < template.len()
        invariant
            i <= template@.len(),
            captures.wf(),
            expand_seq(template@.subrange(0, i as int), captures@, opt_int(index)) == Ok::<Seq<MacroToken>, Seq<char>>(output@),
        decreases template@.len() - i,
    {
        let ghost t = template@.subrange(0, i + 1);
        proof {
            assert(t.subrange(0, i as int) =~= template@.subrange(0, i as int));
            assert(t[i as int] == template@[i as int]);
            assert(decreases_to!(template@ => template@[i as int]));
        }
        let ghost before = output@;
        match &template[i] {
            MacroTemplate::Token(token) => {
                output.push(clone_macro_token(token));
                proof {
                    assert(expand_item(t[i as int], captures@, opt_int(index)) == Ok::<Seq<MacroToken>, Seq<char>>(
                        seq![*token],
                    ));
                    assert(output@ =~= before + seq![*token]);
                }
            },
            MacroTemplate::Variable(name) => {
                match resolve_capture(name, captures, index) {
                    Ok(tokens) => {
                        let ghost got = tokens@;
                        let mut tokens = tokens;
                        output.append(&mut tokens);
                        proof {
                            assert(expand_item(t[i as int], captures@, opt_int(index)) == resolve(
                                name@,
                                captures@,
                                opt_int(index),
                            ));
                            assert(output@ =~= before + got);
                        }
                    },
                    Err(e) => {
                        proof {
                            assert(expand_item(t[i as int], captures@, opt_int(index)) == resolve(
                                name@,
                                captures@,
                                opt_int(index),
                            ));
                            assert(expand_seq(t, captures@, opt_int(index)) is Err);
                            lemma_expand_error_prefix(template@, i + 1, captures@, opt_int(index));
                        }
                        return Err(e);
                    },
                }
            },
            MacroTemplate::Delimited { delimiter, template: inner, start, end } => {
                let (open, close) = delimiter_tokens(*delimiter);
                match expand_template(inner.as_slice(), captures, index) {
                    Ok(tokens) => {
                        let ghost got = tokens@;
                        let open_tok = MacroToken { token: open, start: *start, end: start.saturating_add(1) };
                        let close_tok = MacroToken { token: close, start: end.saturating_sub(1), end: *end };
                        assert(open_tok == open_token(*delimiter, *start));
                        assert(close_tok == close_token(*delimiter, *end));
                        output.push(open_tok);
                        let mut tokens = tokens;
                        output.append(&mut tokens);
                        output.push(close_tok);
                        proof {
                            assert(expand_item(t[i as int], captures@, opt_int(index)) == Ok::<Seq<MacroToken>, Seq<char>>(
                                seq![open_token(*delimiter, *start)] + got + seq![close_token(*delimiter, *end)],
                            ));
                            assert(output@ =~= before + (seq![open_token(*delimiter, *start)] + got + seq![close_token(*delimiter, *end)]));
                        }
                    },
                    Err(e) => {
                        proof {
                            assert(expand_seq(t, captures@, opt_int(index)) is Err);
                            lemma_expand_error_prefix(template@, i + 1, captures@, opt_int(index));
                        }
                        return Err(e);
                    },
                }
            },
            MacroTemplate::Repeat { template: inner, separator, op } => {
                let count = match repeated_len(inner.as_slice(), captures) {
                    Some(n) => n,
                    None => 0,
                };
                let ghost base = output@;
                proof {
                    assert(output@.subrange(base.len() as int, output@.len() as int) =~= Seq::<MacroToken>::empty());
                    assert(expand_item(t[i as int], captures@, opt_int(index)) == expand_repeat(
                        inner@,
                        separator@,
                        captures@,
                        count as int,
                    ));
                }
                let mut idx: usize = 0;
                while idx < count
                    invariant
                        idx <= count,
                        captures.wf(),
                        i < template@.len(),
                        template@[i as int] == (MacroTemplate::Repeat { template: *inner, separator: *separator, op: *op }),
                        t == template@.subrange(0, i + 1),
                        t.subrange(0, i as int) == template@.subrange(0, i as int),
                        t[i as int] == template@[i as int],
                        expand_seq(template@.subrange(0, i as int), captures@, opt_int(index)) == Ok::<Seq<MacroToken>, Seq<char>>(base),
                        expand_item(t[i as int], captures@, opt_int(index)) == expand_repeat(
                            inner@,
                            separator@,
                            captures@,
                            count as int,
                        ),
                        output@.len() >= base.len(),
                        output@.subrange(0, base.len() as int) == base,
                        expand_repeat(inner@, separator@, captures@, idx as int) == Ok::<Seq<MacroToken>, Seq<char>>(
                            output@.subrange(base.len() as int, output@.len() as int),
                        ),
                    decreases count - idx,
                {
                    let ghost mid = output@;
                    if idx > 0 {
                        let mut sep = clone_tokens(separator.as_slice());
                        output.append(&mut sep);
                    }
                    let ghost with_sep = output@;
                    proof {
                        assert(with_sep =~= mid + (if idx > 0 { separator@ } else { seq![] }));
                        assert(decreases_to!(template@ => template@[i as int]));
                        assert(decreases_to!(template@[i as int] => template@[i as int]->Repeat_template));
                        assert(decreases_to!(template@[i as int]->Repeat_template => template@[i as int]->Repeat_template@));
                    }
                    match expand_template(inner.as_slice(), captures, Some(idx)) {
                        Ok(tokens) => {
                            let ghost got = tokens@;
                            let mut tokens = tokens;
                            output.append(&mut tokens);
                            proof {
                                assert(output@ =~= with_sep + got);
                                assert(output@.subrange(base.len() as int, output@.len() as int) =~= mid.subrange(
                                    base.len() as int,
                                    mid.len() as int,
                                ) + (if idx > 0 { separator@ } else { seq![] }) + got);
                                assert(output@.subrange(0, base.len() as int) =~= base);
                            }
                        },
                        Err(e) => {
                            proof {
                                lemma_repeat_error_prefix(inner@, separator@, captures@, idx + 1, count as int);
                                assert(expand_seq(t, captures@, opt_int(index)) is Err);
                                lemma_expand_error_prefix(template@, i + 1, captures@, opt_int(index));
                            }
                            return Err(e);
                        },
                    }
                    idx = idx + 1;
                }
                proof {
                    assert(output@ =~= base + output@.subrange(base.len() as int, output@.len() as int));
                    assert(expand_seq(t, captures@, opt_int(index)) == Ok::<Seq<MacroToken>, Seq<char>>(output@));
                }
            },
        }
        i = i + 1;
    }
    assert(template@.subrange(0, template@.len() as int) =~= template@);
    Ok(output)
}


// ---------------------------------------------------------------------------
// Calls
// ---------------------------------------------------------------------------

/// The latest definition of `name`.
pub open spec fn lookup(defs: Seq<MacroDefinition>, name: Seq<char>) -> Option<MacroDefinition>
    decreases defs.len(),
{
    if defs.len() == 0 {
        None
    } else if defs.last().name@ == name {
        Some(defs.last())
    } else {
        lookup(defs.drop_last(), name)
    }
}

/// The expansion by the first rule whose matcher consumes all of `args`,
/// or `None` when no rule does.
pub open spec fn first_rule(rules: Seq<MacroRule>, args: Seq<MacroToken>, v: FragmentVerdicts) -> Option<
    Result<Seq<MacroToken>, Seq<char>>,
>
    decreases rules.len(),
{
    if rules.len() == 0 {
        None
    } else {
        let found = match match_seq(rules[0].matcher@, args, 0, CaptureMap::empty(), v) {
            Some((p, caps)) => if p == args.len() {
                Some(expand_seq(rules[0].template@, caps, None))
            } else {
                None
            },
            None => None,
        };
        match found {
            Some(r) => Some(r),
            None => first_rule(rules.subrange(1, rules.len() as int), args, v),
        }
    }
}

/// The message for a call of an unknown macro.
pub open spec fn not_found_message(name: Seq<char>) -> Seq<char> {
    "Макрос '"@ + name + "' не найден"@
}

/// The message for a call that no rule matches.
pub open spec fn no_rule_message(name: Seq<char>) -> Seq<char> {
    "Аргументы не подходят ни под одно правило макроса '"@ + name + "'"@
}

/// The tokens a call expands to, or the error with its byte range.
pub open spec fn call_result(defs: Seq<MacroDefinition>, call: MacroCall, v: FragmentVerdicts) -> Result<
    Seq<MacroToken>,
    (int, int, Seq<char>),
> {
    match lookup(defs, call.name@) {
        None => Err((call.start as int, call.end as int, not_found_message(call.name@))),
        Some(def) => match first_rule(def.rules@, normalized_args(call), v) {
            None => Err((call.start as int, call.end as int, no_rule_message(call.name@))),
            Some(Ok(ts)) => Ok(ts),
            Some(Err(msg)) => Err((0, 0, msg)),
        },
    }
}

/// An executable result against a specification that carries the error's
/// byte range.
pub open spec fn agrees_at(r: Result<Vec<MacroToken>, ParseError>, s: Result<Seq<MacroToken>, (int, int, Seq<char>)>) -> bool {
    match (r, s) {
        (Ok(v), Ok(t)) => v@ == t,
        (Err(e), Err((start, end, m))) => is_macro_error(e, start, end, m),
        _ => false,
    }
}

/// The macro definitions in scope, later ones shadowing earlier ones of the
/// same name.
#[derive(Debug)]
pub struct MacroExpander {
    definitions: Vec<MacroDefinition>,
}

impl MacroExpander {
    /// The definitions in order of registration.
    pub closed spec fn defs(&self) -> Seq<MacroDefinition> {
        self.definitions@
    }

    /// No definitions.
    pub fn new() -> (r: MacroExpander)
        ensures
            r.defs() == Seq::<MacroDefinition>::empty(),
    {
        MacroExpander { definitions: Vec::new() }
    }

    /// Registers a definition; it shadows any earlier one of the same name.
    pub fn define(&mut self, definition: MacroDefinition)
        ensures
            final(self).defs() == old(self).defs().push(definition),
    {
        self.definitions.push(definition);
    }

    /// The definition in scope under `name`: the latest one so named.
    pub fn get(&self, name: &String) -> (r: Option<&MacroDefinition>)
        ensures
            match r {
                Some(d) => lookup(self.defs(), name@) == Some(*d),
                None => lookup(self.defs(), name@) is None,
            },
    {
        self.find(name)
    }

    fn find(&self, name: &String) -> (r: Option<&MacroDefinition>)
        ensures
            match r {
                Some(d) => lookup(self.defs(), name@) == Some(*d),
                None => lookup(self.defs(), name@) is None,
            },
    {
        let mut i: usize = self.definitions.len();
        assert(self.definitions@.take(i as int) =~= self.definitions@);
        while i > 0
            invariant
                i <= self.definitions@.len(),
                lookup(self.definitions@, name@) == lookup(self.definitions@.take(i as int), name@),
            decreases i,
        {
            let ghost d = self.definitions@.take(i as int);
            proof {
                assert(d.drop_last() =~= self.definitions@.take(i - 1));
                assert(d.last() == self.definitions@[i - 1]);
            }
            if self.definitions[i - 1].name.eq(name) {
                return Some(&self.definitions[i - 1]);
            }
            i = i - 1;
        }
        None
    }

    /// The tokens that `call` expands to: the template of the first rule
    /// of its definition whose matcher consumes every normalised argument.
    /// `verdicts` answers for expression and statement fragments.
    pub fn expand_call(&self, call: &MacroCall, verdicts: &FragmentVerdicts) -> (r: Result<Vec<MacroToken>, ParseError>)
        ensures
            agrees_at(r, call_result(self.defs(), *call, *verdicts)),
    {
        let args = normalized_call_args(call);
        let definition = match self.find(&call.name) {
            Some(d) => d,
            None => {
                let mut msg = String::from_str("Макрос '");
                msg.append(call.name.as_str());
                msg.append("' не найден");
                return Err(macro_error(call.start, call.end, msg));
            },
        };
        let mut i: usize = 0;
        assert(definition.rules@.subrange(0, definition.rules@.len() as int) =~= definition.rules@);
        while i < definition.rules.len()
            invariant
                i <= definition.rules@.len(),
                args@ == normalized_args(*call),
                lookup(self.defs(), call.name@) == Some(*definition),
                first_rule(definition.rules@, args@, *verdicts) == first_rule(
                    definition.rules@.subrange(i as int, definition.rules@.len() as int),
                    args@,
                    *verdicts,
                ),
            decreases definition.rules@.len() - i,
        {
            let rule = &definition.rules[i];
            let ghost rest = definition.rules@.subrange(i as int, definition.rules@.len() as int);
            proof {
                assert(rest[0] == *rule);
                assert(rest.subrange(1, rest.len() as int) =~= definition.rules@.subrange(
                    i + 1,
                    definition.rules@.len() as int,
                ));
            }
            let captures = Captures::new();
            match match_sequence(rule.matcher.as_slice(), args.as_slice(), 0, captures, verdicts) {
                Some((pos, captures)) => {
                    if pos == args.len() {
                        let r = expand_template(rule.template.as_slice(), &captures, None);
                        proof {
                            assert(match_seq(rule.matcher@, args@, 0, CaptureMap::empty(), *verdicts) == Some(
                                (pos as int, captures@),
                            ));
                            assert(first_rule(rest, args@, *verdicts) == Some(
                                expand_seq(rule.template@, captures@, None),
                            ));
                            assert(opt_int(None) == None::<int>);
                            assert(lookup(self.defs(), call.name@) == Some(*definition));
                            assert(first_rule(definition.rules@, normalized_args(*call), *verdicts) == Some(
                                expand_seq(rule.template@, captures@, None),
                            ));
                            match expand_seq(rule.template@, captures@, None) {
                                Ok(ts) => {
                                    assert(call_result(self.defs(), *call, *verdicts) == Ok::<Seq<MacroToken>, (int, int, Seq<char>)>(ts));
                                },
                                Err(m) => {
                                    assert(call_result(self.defs(), *call, *verdicts) == Err::<Seq<MacroToken>, (int, int, Seq<char>)>((0, 0, m)));
                                },
                            }
                        }
                        return r;
                    }
                },
                None => {},
            }
            i = i + 1;
        }
        let mut msg = String::from_str("Аргументы не подходят ни под одно правило макроса '");
        msg.append(call.name.as_str());
        msg.append("'");
        Err(macro_error(call.start, call.end, msg))
    }
}


// ---------------------------------------------------------------------------
// Handing an expansion to the grammar
// ---------------------------------------------------------------------------

/// The token stream of an expansion: in statement context a `;` is added
/// unless the tokens end with `;` or `}`, then `Eof`; both sit at the end
/// of the last token.
pub open spec fn stream_of(ts: Seq<MacroToken>, statement_context: bool) -> Seq<SpannedToken> {
    let end: usize = if ts.len() == 0 { 0 } else { ts.last().end };
    let closed = ts.len() > 0 && (ts.last().token is Semi || ts.last().token is RBrace);
    let with_semi = if statement_context && !closed {
        ts.push(MacroToken { token: Token::Semi, start: end, end: end })
    } else {
        ts
    };
    with_semi.push(MacroToken { token: Token::Eof, start: end, end: end }).map_values(|t: MacroToken| as_spanned(t))
}

/// A macro token as an entry of the grammar's token stream.
pub open spec fn as_spanned(t: MacroToken) -> SpannedToken {
    Ok((t.start, t.token, t.end))
}

/// The token stream that the grammar parses for an expansion.
pub fn expansion_stream(tokens: Vec<MacroToken>, statement_context: bool) -> (r: Vec<SpannedToken>)
    ensures
        r@ == stream_of(tokens@, statement_context),
{
    let ghost given = tokens@;
    let mut tokens = tokens;
    let end = if tokens.len() == 0 { 0 } else { tokens[tokens.len() - 1].end };
    let closed = tokens.len() > 0 && (matches!(tokens[tokens.len() - 1].token, Token::Semi) || matches!(
        tokens[tokens.len() - 1].token,
        Token::RBrace
    ));
    if statement_context && !closed {
        tokens.push(MacroToken { token: Token::Semi, start: end, end: end });
    }
    tokens.push(MacroToken { token: Token::Eof, start: end, end: end });
    let ghost all = tokens@;
    let mut out: Vec<SpannedToken> = Vec::new();
    let mut rest = tokens;
    let mut i: usize = 0;
    let n = rest.len();
    while i < n
        invariant
            n == rest@.len(),
            rest@ == all,
            i <= n,
            out@ =~= all.take(i as int).map_values(|t: MacroToken| as_spanned(t)),
        decreases n - i,
    {
        let t = clone_macro_token(&rest[i]);
        let ghost before = out@;
        let ghost tt = t;
        out.push(Ok((t.start, t.token, t.end)));
        proof {
            assert(tt == all[i as int]);
            assert(all.take(i + 1) =~= all.take(i as int).push(all[i as int]));
            assert(all.take(i + 1).map_values(|t: MacroToken| as_spanned(t)) =~= all.take(i as int).map_values(
                |t: MacroToken| as_spanned(t),
            ).push(as_spanned(all[i as int])));
            assert(out@ =~= before.push(as_spanned(tt)));
        }
        i = i + 1;
    }
    assert(all.take(n as int) =~= all);
    out
}

} // verus!




