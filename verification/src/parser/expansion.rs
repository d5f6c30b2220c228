//! Macro expansion of a whole program and the expansion preview.
//!
//! The generated grammar is handed in as three parsers over token streams:
//! whole programs, statements and expressions. Everything here is proved for
//! every behaviour of those parsers: where a parser's answer matters, the
//! contracts speak of "an answer the parser can give" for the stream it was
//! handed.
use vstd::prelude::*;
use crate::ast::{ErrorData, Span};
use crate::parser::lexer::{lex, lexes, LexicalError, SpannedToken, Token};
use crate::parser::printer::{format_program, show_program, token_name, token_shown};
use crate::parser::structs::ParseError;
use crate::parser::macro_expander::{
    agrees_at, call_result, clone_tokens, expansion_stream, is_macro_error, macro_error, normalized_args,
    normalized_call_args, stream_of, trim_semis, FragmentVerdicts, MacroExpander,
};
use crate::parser::syntax::{
    CallArg, Catch, Class, ClassField, ClassItem, ClassItemKind, ClassMethod, ElseBody, Expr, ExprKind, ForUpdate,
    Function, Item, ItemKind, LambdaBody, MacroCall, MacroDefinition, MacroRule, MacroToken, Program, Spanned, Stmt, StmtKind,
};
use crate::parser::utils::{char_range_at, expected_message, format_expected, token_range_at};
use crate::text::{byte_len, lemma_byte_len_encode, views};

verus! {

/// An error reported by the generated parser, with the byte offsets it
/// names.
#[derive(Debug)]
pub enum GrammarError {
    /// A token the lexer could not produce, at `location`.
    InvalidToken { location: usize },
    /// The input ended at `location`; `expected` lists what could follow.
    UnrecognizedEof { location: usize, expected: Vec<String> },
    /// An unexpected token `(start, token, end)`.
    UnrecognizedToken { token: (usize, Token, usize), expected: Vec<String> },
    /// A token after a complete parse.
    ExtraToken { token: (usize, Token, usize) },
    /// An error raised by the lexer.
    User { error: LexicalError },
}

/// The parsers the grammar generates: for whole programs, for the
/// statement that a macro may expand to, and for an expression.
pub struct Grammar<P, S, E> {
    pub program: P,
    pub statement: S,
    pub expression: E,
}

/// The parsers accept every token stream.
pub open spec fn total<P, S, E>(g: Grammar<P, S, E>) -> bool where
    P: Fn(Vec<SpannedToken>) -> Result<Program, GrammarError>,
    S: Fn(Vec<SpannedToken>) -> Result<Stmt, GrammarError>,
    E: Fn(Vec<SpannedToken>) -> Result<Expr, GrammarError>,
 {
    &&& forall|x: Vec<SpannedToken>| call_requires(g.program, (x,))
    &&& forall|x: Vec<SpannedToken>| call_requires(g.statement, (x,))
    &&& forall|x: Vec<SpannedToken>| call_requires(g.expression, (x,))
}

/// The span and message of the syntax error for a parser error on `code`.
pub open spec fn grammar_error_report(code: Seq<char>, err: GrammarError) -> (int, int, Seq<char>) {
    match err {
        GrammarError::InvalidToken { location } => {
            let (start, end) = char_range_at(code, location as int);
            (start, end, "Некорректный токен"@)
        },
        GrammarError::UnrecognizedEof { location, expected } => (
            location as int,
            location as int,
            expected_message("Неожиданный конец файла"@, views(expected@)),
        ),
        GrammarError::UnrecognizedToken { token: (start, found, end), expected } => (
            start as int,
            end as int,
            expected_message("Неожиданный токен "@ + token_shown(found), views(expected@)),
        ),
        GrammarError::ExtraToken { token: (start, found, end) } => (
            start as int,
            end as int,
            "Лишний токен "@ + token_shown(found),
        ),
        GrammarError::User { error } => (error.start as int, error.end as int, error.message@),
    }
}

/// Whether `e` is a syntax error at `start..end` of module `module` with
/// message `msg`.
pub open spec fn is_syntax_error(e: ParseError, start: int, end: int, module: usize, msg: Seq<char>) -> bool {
    (e matches ParseError::InvalidSyntax(data) && data.location.start == start && data.location.end == end
        && data.location.file_id == module && data.message@ == msg)
}

/// The syntax error for a parser error on `code` in module `module`.
pub fn convert_parse_error(code: &str, err: GrammarError, module: usize) -> (r: ParseError)
    ensures
        ({
            let (start, end, msg) = grammar_error_report(code@, err);
            is_syntax_error(r, start, end, module, msg)
        }),
{
    match err {
        GrammarError::InvalidToken { location } => {
            let (start, end) = token_range_at(code, location);
            ParseError::InvalidSyntax(
                ErrorData::new(Span::new(start, end, module), String::from_str("Некорректный токен")),
            )
        },
        GrammarError::UnrecognizedEof { location, expected } => {
            ParseError::InvalidSyntax(
                ErrorData::new(
                    Span::new(location, location, module),
                    format_expected("Неожиданный конец файла", &expected),
                ),
            )
        },
        GrammarError::UnrecognizedToken { token, expected } => {
            let (start, found, end) = token;
            let mut prefix = String::from_str("Неожиданный токен ");
            let name = token_name(&found);
            prefix.append(name.as_str());
            ParseError::InvalidSyntax(
                ErrorData::new(Span::new(start, end, module), format_expected(prefix.as_str(), &expected)),
            )
        },
        GrammarError::ExtraToken { token } => {
            let (start, found, end) = token;
            let mut msg = String::from_str("Лишний токен ");
            let name = token_name(&found);
            msg.append(name.as_str());
            ParseError::InvalidSyntax(ErrorData::new(Span::new(start, end, module), msg))
        },
        GrammarError::User { error } => {
            ParseError::InvalidSyntax(ErrorData::new(Span::new(error.start, error.end, module), error.message))
        },
    }
}

/// A program parse of the lexed `code`: the program, or the converted
/// error.
pub fn parse_program<P, S, E>(code: &str, grammar: &Grammar<P, S, E>, module: usize) -> (r: Result<Program, ParseError>) where
    P: Fn(Vec<SpannedToken>) -> Result<Program, GrammarError>,
    S: Fn(Vec<SpannedToken>) -> Result<Stmt, GrammarError>,
    E: Fn(Vec<SpannedToken>) -> Result<Expr, GrammarError>,
    requires
        total(*grammar),
    ensures
        exists|stream: Seq<SpannedToken>, a: Result<Program, GrammarError>|
            lexes(code@, stream) && #[trigger] program_answer(grammar.program, stream, a) && match (a, r) {
                (Ok(p), Ok(q)) => p == q,
                (Err(ge), Err(e)) => {
                    let (start, end, msg) = grammar_error_report(code@, ge);
                    is_syntax_error(e, start, end, module, msg)
                },
                _ => false,
            },
{
    let stream = lex(code);
    let ghost x = stream;
    let answer = (grammar.program)(stream);
    proof {
        assert(program_answer(grammar.program, x@, answer));
    }
    match answer {
        Ok(p) => Ok(p),
        Err(ge) => Err(convert_parse_error(code, ge, module)),
    }
}

// ---------------------------------------------------------------------------
// What the parsers answer
// ---------------------------------------------------------------------------

/// `a` is an answer the program parser can give for the token stream
/// `stream`.
pub open spec fn program_answer<P: Fn(Vec<SpannedToken>) -> Result<Program, GrammarError>>(
    p: P,
    stream: Seq<SpannedToken>,
    a: Result<Program, GrammarError>,
) -> bool {
    exists|x: Vec<SpannedToken>| x@ == stream && call_ensures(p, (x,), a)
}

/// `a` is an answer the statement parser can give for `stream`.
pub open spec fn statement_answer<S: Fn(Vec<SpannedToken>) -> Result<Stmt, GrammarError>>(
    p: S,
    stream: Seq<SpannedToken>,
    a: Result<Stmt, GrammarError>,
) -> bool {
    exists|x: Vec<SpannedToken>| x@ == stream && call_ensures(p, (x,), a)
}

/// `a` is an answer the expression parser can give for `stream`.
pub open spec fn expression_answer<E: Fn(Vec<SpannedToken>) -> Result<Expr, GrammarError>>(
    p: E,
    stream: Seq<SpannedToken>,
    a: Result<Expr, GrammarError>,
) -> bool {
    exists|x: Vec<SpannedToken>| x@ == stream && call_ensures(p, (x,), a)
}

/// The stream the expression parser is handed for `ts`: trailing `;`
/// dropped, no `;` added.
pub open spec fn expression_stream(ts: Seq<MacroToken>) -> Seq<SpannedToken> {
    stream_of(trim_semis(ts), false)
}

/// The stream the statement parser is handed for `ts`.
pub open spec fn statement_stream(ts: Seq<MacroToken>) -> Seq<SpannedToken> {
    stream_of(ts, true)
}

/// Whether some answer of the expression parser for `ts` succeeds or fails
/// as `ok` says.
pub open spec fn expression_verdict<E: Fn(Vec<SpannedToken>) -> Result<Expr, GrammarError>>(
    p: E,
    ts: Seq<MacroToken>,
    ok: bool,
) -> bool {
    exists|a: Result<Expr, GrammarError>| expression_answer(p, expression_stream(ts), a) && (a is Ok) == ok
}

/// Whether some answer of the statement parser for `ts` succeeds or fails
/// as `ok` says.
pub open spec fn statement_verdict<S: Fn(Vec<SpannedToken>) -> Result<Stmt, GrammarError>>(
    p: S,
    ts: Seq<MacroToken>,
    ok: bool,
) -> bool {
    exists|a: Result<Stmt, GrammarError>| statement_answer(p, statement_stream(ts), a) && (a is Ok) == ok
}

/// The verdict tables hold, for every range `s..e` of `args`, whether the
/// grammar parsed it as an expression and as a statement; ranges with
/// `s > e` are no fragments.
pub open spec fn verdicts_for<P, S, E>(g: Grammar<P, S, E>, args: Seq<MacroToken>, v: FragmentVerdicts) -> bool where
    P: Fn(Vec<SpannedToken>) -> Result<Program, GrammarError>,
    S: Fn(Vec<SpannedToken>) -> Result<Stmt, GrammarError>,
    E: Fn(Vec<SpannedToken>) -> Result<Expr, GrammarError>,
 {
    let n = args.len() as int;
    &&& v.expr@.len() == n + 1
    &&& v.stmt@.len() == n + 1
    &&& forall|s: int| 0 <= s <= n ==> (#[trigger] v.expr@[s])@.len() == n + 1
    &&& forall|s: int| 0 <= s <= n ==> (#[trigger] v.stmt@[s])@.len() == n + 1
    &&& forall|s: int, e: int|
        0 <= s <= e <= n ==> expression_verdict(g.expression, args.subrange(s, e), #[trigger] v.expr@[s]@[e])
    &&& forall|s: int, e: int|
        0 <= s <= e <= n ==> statement_verdict(g.statement, args.subrange(s, e), #[trigger] v.stmt@[s]@[e])
    &&& forall|s: int, e: int| 0 <= e < s <= n ==> !(#[trigger] v.expr@[s]@[e])
    &&& forall|s: int, e: int| 0 <= e < s <= n ==> !(#[trigger] v.stmt@[s]@[e])
}

/// Asks the expression parser whether `tokens` form an expression.
fn parses_as_expression<P, S, E>(tokens: Vec<MacroToken>, g: &Grammar<P, S, E>) -> (b: bool) where
    P: Fn(Vec<SpannedToken>) -> Result<Program, GrammarError>,
    S: Fn(Vec<SpannedToken>) -> Result<Stmt, GrammarError>,
    E: Fn(Vec<SpannedToken>) -> Result<Expr, GrammarError>,
    requires
        total(*g),
    ensures
        expression_verdict(g.expression, tokens@, b),
{
    let ghost ts = tokens@;
    let mut tokens = tokens;
    while tokens.len() > 0 && matches!(tokens[tokens.len() - 1].token, Token::Semi)
        invariant
            trim_semis(tokens@) == trim_semis(ts),
        decreases tokens@.len(),
    {
        tokens.pop();
    }
    proof {
        assert(trim_semis(tokens@) == tokens@);
    }
    let stream = expansion_stream(tokens, false);
    let ghost x = stream;
    let a = (g.expression)(stream);
    proof {
        assert(expression_answer(g.expression, expression_stream(ts), a));
    }
    a.is_ok()
}

/// Asks the statement parser whether `tokens` form a statement.
fn parses_as_statement<P, S, E>(tokens: Vec<MacroToken>, g: &Grammar<P, S, E>) -> (b: bool) where
    P: Fn(Vec<SpannedToken>) -> Result<Program, GrammarError>,
    S: Fn(Vec<SpannedToken>) -> Result<Stmt, GrammarError>,
    E: Fn(Vec<SpannedToken>) -> Result<Expr, GrammarError>,
    requires
        total(*g),
    ensures
        statement_verdict(g.statement, tokens@, b),
{
    let ghost ts = tokens@;
    let stream = expansion_stream(tokens, true);
    let ghost x = stream;
    let a = (g.statement)(stream);
    proof {
        assert(statement_answer(g.statement, statement_stream(ts), a));
    }
    a.is_ok()
}

/// The grammar's verdicts on every range of `args`.
pub fn fragment_verdicts<P, S, E>(args: &Vec<MacroToken>, g: &Grammar<P, S, E>) -> (v: FragmentVerdicts) where
    P: Fn(Vec<SpannedToken>) -> Result<Program, GrammarError>,
    S: Fn(Vec<SpannedToken>) -> Result<Stmt, GrammarError>,
    E: Fn(Vec<SpannedToken>) -> Result<Expr, GrammarError>,
    requires
        total(*g),
    ensures
        verdicts_for(*g, args@, v),
{
    let n = args.len();
    let mut expr: Vec<Vec<bool>> = Vec::new();
    let mut stmt: Vec<Vec<bool>> = Vec::new();
    let mut s: usize = 0;
    loop
        invariant_except_break
            expr@.len() == s,
        invariant
            n == args@.len(),
            s <= n,
            total(*g),
            expr@.len() == stmt@.len(),
            expr@.len() <= n + 1,
            forall|i: int| 0 <= i < expr@.len() ==> (#[trigger] expr@[i])@.len() == n + 1,
            forall|i: int| 0 <= i < expr@.len() ==> (#[trigger] stmt@[i])@.len() == n + 1,
            forall|i: int, e: int|
                0 <= i < expr@.len() && i <= e <= n ==> expression_verdict(
                    g.expression,
                    args@.subrange(i, e),
                    #[trigger] expr@[i]@[e],
                ),
            forall|i: int, e: int|
                0 <= i < expr@.len() && i <= e <= n ==> statement_verdict(
                    g.statement,
                    args@.subrange(i, e),
                    #[trigger] stmt@[i]@[e],
                ),
            forall|i: int, e: int| 0 <= i < expr@.len() && 0 <= e < i ==> !(#[trigger] expr@[i]@[e]),
            forall|i: int, e: int| 0 <= i < expr@.len() && 0 <= e < i ==> !(#[trigger] stmt@[i]@[e]),
        ensures
            expr@.len() == n + 1,
        decreases n - s,
    {
        let mut erow: Vec<bool> = Vec::new();
        let mut srow: Vec<bool> = Vec::new();
        let mut e: usize = 0;
        loop
            invariant_except_break
                erow@.len() == e,
            invariant
                n == args@.len(),
                s <= n,
                e <= n,
                total(*g),
                erow@.len() == srow@.len(),
                erow@.len() <= n + 1,
                forall|j: int| s <= j < erow@.len() ==> expression_verdict(g.expression, args@.subrange(s as int, j), #[trigger] erow@[j]),
                forall|j: int| s <= j < erow@.len() ==> statement_verdict(g.statement, args@.subrange(s as int, j), #[trigger] srow@[j]),
                forall|j: int| 0 <= j < erow@.len() && j < s ==> !(#[trigger] erow@[j]),
                forall|j: int| 0 <= j < erow@.len() && j < s ==> !(#[trigger] srow@[j]),
            ensures
                erow@.len() == n + 1,
            decreases n - e,
        {
            let ghost pe = erow@;
            let ghost ps = srow@;
            if s <= e {
                let a = clone_tokens(&args.as_slice()[s..e]);
                let b = clone_tokens(&args.as_slice()[s..e]);
                let ev = parses_as_expression(a, g);
                let sv = parses_as_statement(b, g);
                erow.push(ev);
                srow.push(sv);
            } else {
                erow.push(false);
                srow.push(false);
            }
            proof {
                assert(erow@.drop_last() =~= pe);
                assert(srow@.drop_last() =~= ps);
                assert forall|j: int| 0 <= j < erow@.len() && j < s implies !(#[trigger] erow@[j]) by {
                    if j < pe.len() {
                        assert(erow@[j] == pe[j]);
                    }
                }
                assert forall|j: int| 0 <= j < erow@.len() && j < s implies !(#[trigger] srow@[j]) by {
                    if j < ps.len() {
                        assert(srow@[j] == ps[j]);
                    }
                }
            }
            if e == n {
                break;
            }
            e = e + 1;
        }
        expr.push(erow);
        stmt.push(srow);
        if s == n {
            break;
        }
        s = s + 1;
    }
    FragmentVerdicts { expr, stmt }
}

/// The tokens `call` expands to under the definitions `defs`, with verdicts
/// the grammar can give on its arguments.
pub open spec fn call_outcome<P, S, E>(
    g: Grammar<P, S, E>,
    defs: Seq<crate::parser::syntax::MacroDefinition>,
    call: MacroCall,
    r: Result<Vec<MacroToken>, ParseError>,
) -> bool where
    P: Fn(Vec<SpannedToken>) -> Result<Program, GrammarError>,
    S: Fn(Vec<SpannedToken>) -> Result<Stmt, GrammarError>,
    E: Fn(Vec<SpannedToken>) -> Result<Expr, GrammarError>,
 {
    exists|v: FragmentVerdicts| #[trigger] verdicts_for(g, normalized_args(call), v) && agrees_at(r, call_result(defs, call, v))
}


// ---------------------------------------------------------------------------
// Expanding a tree
// ---------------------------------------------------------------------------

/// How many times the items a macro call expands to may themselves be
/// expanded inside one another.
pub const EXPANSION_DEPTH: usize = 128;

/// The message when a call's tokens do not parse as items.
pub open spec fn items_message() -> Seq<char> {
    "Макрос развернулся в некорректные элементы AST"@
}

/// The message when a call's tokens do not parse as an expression.
pub open spec fn expression_message() -> Seq<char> {
    "Макрос развернулся в некорректное выражение"@
}

/// The message when expansions nest deeper than `EXPANSION_DEPTH`.
pub open spec fn depth_message() -> Seq<char> {
    "Превышена глубина раскрытия макросов"@
}

/// The macro call that a statement consists of, if it is one.
pub open spec fn call_of(s: Stmt) -> Option<MacroCall> {
    match s.node {
        StmtKind::Expr(e) => match e.node {
            ExprKind::MacroCall(call) => Some(call),
            _ => None,
        },
        _ => None,
    }
}

/// A result paired with the definitions in scope after it.
pub open spec fn with_defs<T>(r: Result<T, ParseError>, d: Seq<MacroDefinition>) -> Result<(T, Seq<MacroDefinition>), ParseError> {
    match r {
        Ok(v) => Ok((v, d)),
        Err(e) => Err(e),
    }
}

/// Names the outcome of a part of an expansion, so that the relations
/// below can speak of the outcomes of their parts.
pub open spec fn expanded<T>(outcome: T) -> bool {
    true
}

/// `s` with its node replaced.
pub open spec fn restmt(s: Stmt, node: StmtKind) -> Stmt {
    Spanned { node, start: s.start, end: s.end }
}

/// `x` with its node replaced.
pub open spec fn reexpr(x: Expr, node: ExprKind) -> Expr {
    Spanned { node, start: x.start, end: x.end }
}

/// Expanding the items `ins` under the definitions `d`: each item in turn,
/// the definitions it registers in scope for those after it, stopping at
/// the first error.
pub open spec fn items_rel<P, S, E>(
    g: Grammar<P, S, E>,
    d: Seq<MacroDefinition>,
    ins: Seq<Item>,
    fuel: nat,
    m: usize,
    out: Result<(Vec<Item>, Seq<MacroDefinition>), ParseError>,
) -> bool where
    P: Fn(Vec<SpannedToken>) -> Result<Program, GrammarError>,
    S: Fn(Vec<SpannedToken>) -> Result<Stmt, GrammarError>,
    E: Fn(Vec<SpannedToken>) -> Result<Expr, GrammarError>,
    decreases fuel, ins,
{
    if ins.len() == 0 {
        out matches Ok((v, d1)) && v@.len() == 0 && d1 == d
    } else {
        exists|pre: Result<(Vec<Item>, Seq<MacroDefinition>), ParseError>|
            #[trigger] expanded(pre) && items_rel(g, d, ins.subrange(0, ins.len() - 1), fuel, m, pre) && match pre {
                Err(e) => out == Err::<(Vec<Item>, Seq<MacroDefinition>), ParseError>(e),
                Ok((done, d1)) => exists|step: Result<(Vec<Item>, Seq<MacroDefinition>), ParseError>|
                    #[trigger] expanded(step) && item_rel(g, d1, ins[ins.len() - 1], fuel, m, step) && match step {
                        Err(e) => out == Err::<(Vec<Item>, Seq<MacroDefinition>), ParseError>(e),
                        Ok((more, d2)) => out matches Ok((v, d3)) && v@ == done@ + more@ && d3 == d2,
                    },
            }
    }
}

/// Expanding one item: a definition is registered and dropped; a statement
/// that is a macro call becomes the items its expansion parses to, expanded
/// in turn; functions, classes and other statements are expanded inside;
/// imports and libraries stay as they are.
pub open spec fn item_rel<P, S, E>(
    g: Grammar<P, S, E>,
    d: Seq<MacroDefinition>,
    item: Item,
    fuel: nat,
    m: usize,
    out: Result<(Vec<Item>, Seq<MacroDefinition>), ParseError>,
) -> bool where
    P: Fn(Vec<SpannedToken>) -> Result<Program, GrammarError>,
    S: Fn(Vec<SpannedToken>) -> Result<Stmt, GrammarError>,
    E: Fn(Vec<SpannedToken>) -> Result<Expr, GrammarError>,
    decreases fuel, item,
{
    match item.node {
        ItemKind::MacroDefinition(def) => out matches Ok((v, d1)) && v@.len() == 0 && d1 == d.push(def),
        ItemKind::Function(f) => exists|rb: Result<(Vec<Item>, Seq<MacroDefinition>), ParseError>|
            #[trigger] expanded(rb) && items_rel(g, d, f.body@, fuel, m, rb) && match rb {
                Err(e) => out == Err::<(Vec<Item>, Seq<MacroDefinition>), ParseError>(e),
                Ok((body, d1)) => out matches Ok((v, d2)) && d2 == d1 && v@ == seq![
                    Spanned {
                        node: ItemKind::Function(
                            Function { name: f.name, params: f.params, return_type: f.return_type, body },
                        ),
                        start: item.start,
                        end: item.end,
                    },
                ],
            },
        ItemKind::Class(c) => exists|rc: Result<(Vec<ClassItem>, Seq<MacroDefinition>), ParseError>|
            #[trigger] expanded(rc) && class_items_rel(g, d, c.items@, fuel, m, rc) && match rc {
                Err(e) => out == Err::<(Vec<Item>, Seq<MacroDefinition>), ParseError>(e),
                Ok((members, d1)) => out matches Ok((v, d2)) && d2 == d1 && v@ == seq![
                    Spanned {
                        node: ItemKind::Class(Class { name: c.name, base: c.base, items: members }),
                        start: item.start,
                        end: item.end,
                    },
                ],
            },
        ItemKind::Statement(stmt) => match call_of(*stmt) {
            Some(call) => exists|cr: Result<Vec<MacroToken>, ParseError>|
                #[trigger] call_outcome(g, d, call, cr) && match cr {
                    Err(e) => out == Err::<(Vec<Item>, Seq<MacroDefinition>), ParseError>(e),
                    Ok(toks) => exists|a: Result<Program, GrammarError>|
                        #[trigger] program_answer(g.program, statement_stream(toks@), a) && match a {
                            Err(_) => out matches Err(e) && is_syntax_error(
                                e,
                                call.start as int,
                                call.end as int,
                                m,
                                items_message(),
                            ),
                            Ok(prog) => if fuel == 0 {
                                out matches Err(e) && is_syntax_error(
                                    e,
                                    call.start as int,
                                    call.end as int,
                                    m,
                                    depth_message(),
                                )
                            } else {
                                items_rel(g, d, prog.items@, (fuel - 1) as nat, m, out)
                            },
                        },
                },
            None => exists|rs: Result<(Stmt, Seq<MacroDefinition>), ParseError>|
                #[trigger] expanded(rs) && stmt_rel(g, d, *stmt, fuel, m, rs) && match rs {
                    Err(e) => out == Err::<(Vec<Item>, Seq<MacroDefinition>), ParseError>(e),
                    Ok((s2, d1)) => out matches Ok((v, d2)) && d2 == d1 && v@ == seq![
                        Spanned { node: ItemKind::Statement(Box::new(s2)), start: item.start, end: item.end },
                    ],
                },
        },
        _ => out matches Ok((v, d1)) && d1 == d && v@ == seq![item],
    }
}

/// Expanding class members, in order.
pub open spec fn class_items_rel<P, S, E>(
    g: Grammar<P, S, E>,
    d: Seq<MacroDefinition>,
    ins: Seq<ClassItem>,
    fuel: nat,
    m: usize,
    out: Result<(Vec<ClassItem>, Seq<MacroDefinition>), ParseError>,
) -> bool where
    P: Fn(Vec<SpannedToken>) -> Result<Program, GrammarError>,
    S: Fn(Vec<SpannedToken>) -> Result<Stmt, GrammarError>,
    E: Fn(Vec<SpannedToken>) -> Result<Expr, GrammarError>,
    decreases fuel, ins,
{
    if ins.len() == 0 {
        out matches Ok((v, d1)) && v@.len() == 0 && d1 == d
    } else {
        exists|pre: Result<(Vec<ClassItem>, Seq<MacroDefinition>), ParseError>|
            #[trigger] expanded(pre) && class_items_rel(g, d, ins.subrange(0, ins.len() - 1), fuel, m, pre) && match pre {
                Err(e) => out == Err::<(Vec<ClassItem>, Seq<MacroDefinition>), ParseError>(e),
                Ok((done, d1)) => exists|step: Result<(ClassItem, Seq<MacroDefinition>), ParseError>|
                    #[trigger] expanded(step) && class_item_rel(g, d1, ins[ins.len() - 1], fuel, m, step) && match step {
                        Err(e) => out == Err::<(Vec<ClassItem>, Seq<MacroDefinition>), ParseError>(e),
                        Ok((one, d2)) => out matches Ok((v, d3)) && v@ == done@.push(one) && d3 == d2,
                    },
            }
    }
}

/// Expanding a class member: the bodies of methods and constructors, the
/// default value of a field.
pub open spec fn class_item_rel<P, S, E>(
    g: Grammar<P, S, E>,
    d: Seq<MacroDefinition>,
    ci: ClassItem,
    fuel: nat,
    m: usize,
    out: Result<(ClassItem, Seq<MacroDefinition>), ParseError>,
) -> bool where
    P: Fn(Vec<SpannedToken>) -> Result<Program, GrammarError>,
    S: Fn(Vec<SpannedToken>) -> Result<Stmt, GrammarError>,
    E: Fn(Vec<SpannedToken>) -> Result<Expr, GrammarError>,
    decreases fuel, ci,
{
    match ci.node {
        ClassItemKind::Constructor(meth) => exists|rb: Result<(Vec<Item>, Seq<MacroDefinition>), ParseError>|
            #[trigger] expanded(rb) && items_rel(g, d, meth.body@, fuel, m, rb) && match rb {
                Err(e) => out == Err::<(ClassItem, Seq<MacroDefinition>), ParseError>(e),
                Ok((body, d1)) => out == Ok::<(ClassItem, Seq<MacroDefinition>), ParseError>((
                    Spanned {
                        node: ClassItemKind::Constructor(
                            ClassMethod {
                                visibility: meth.visibility,
                                is_static: meth.is_static,
                                name: meth.name,
                                params: meth.params,
                                return_type: meth.return_type,
                                body,
                            },
                        ),
                        start: ci.start,
                        end: ci.end,
                    },
                    d1,
                )),
            },
        ClassItemKind::Method(meth) => exists|rb: Result<(Vec<Item>, Seq<MacroDefinition>), ParseError>|
            #[trigger] expanded(rb) && items_rel(g, d, meth.body@, fuel, m, rb) && match rb {
                Err(e) => out == Err::<(ClassItem, Seq<MacroDefinition>), ParseError>(e),
                Ok((body, d1)) => out == Ok::<(ClassItem, Seq<MacroDefinition>), ParseError>((
                    Spanned {
                        node: ClassItemKind::Method(
                            ClassMethod {
                                visibility: meth.visibility,
                                is_static: meth.is_static,
                                name: meth.name,
                                params: meth.params,
                                return_type: meth.return_type,
                                body,
                            },
                        ),
                        start: ci.start,
                        end: ci.end,
                    },
                    d1,
                )),
            },
        ClassItemKind::Field(f) => exists|rv: Result<(Option<Expr>, Seq<MacroDefinition>), ParseError>|
            #[trigger] expanded(rv) && opt_expr_rel(g, d, f.default_value, fuel, m, rv) && match rv {
                Err(e) => out == Err::<(ClassItem, Seq<MacroDefinition>), ParseError>(e),
                Ok((value, d1)) => out == Ok::<(ClassItem, Seq<MacroDefinition>), ParseError>((
                    Spanned {
                        node: ClassItemKind::Field(
                            ClassField {
                                visibility: f.visibility,
                                is_static: f.is_static,
                                name: f.name,
                                field_type: f.field_type,
                                default_value: value,
                            },
                        ),
                        start: ci.start,
                        end: ci.end,
                    },
                    d1,
                )),
            },
    }
}

/// Expanding an optional expression.
pub open spec fn opt_expr_rel<P, S, E>(
    g: Grammar<P, S, E>,
    d: Seq<MacroDefinition>,
    x: Option<Expr>,
    fuel: nat,
    m: usize,
    out: Result<(Option<Expr>, Seq<MacroDefinition>), ParseError>,
) -> bool where
    P: Fn(Vec<SpannedToken>) -> Result<Program, GrammarError>,
    S: Fn(Vec<SpannedToken>) -> Result<Stmt, GrammarError>,
    E: Fn(Vec<SpannedToken>) -> Result<Expr, GrammarError>,
    decreases fuel, x,
{
    match x {
        None => out == Ok::<(Option<Expr>, Seq<MacroDefinition>), ParseError>((None, d)),
        Some(e) => exists|r: Result<(Expr, Seq<MacroDefinition>), ParseError>|
            #[trigger] expanded(r) && expr_rel(g, d, e, fuel, m, r) && match r {
                Err(err) => out == Err::<(Option<Expr>, Seq<MacroDefinition>), ParseError>(err),
                Ok((e2, d1)) => out == Ok::<(Option<Expr>, Seq<MacroDefinition>), ParseError>((Some(e2), d1)),
            },
    }
}

/// Expanding a statement: its expressions and blocks, left to right (the
/// `catch` clauses of a `try` before its body).
pub open spec fn stmt_rel<P, S, E>(
    g: Grammar<P, S, E>,
    d: Seq<MacroDefinition>,
    s: Stmt,
    fuel: nat,
    m: usize,
    out: Result<(Stmt, Seq<MacroDefinition>), ParseError>,
) -> bool where
    P: Fn(Vec<SpannedToken>) -> Result<Program, GrammarError>,
    S: Fn(Vec<SpannedToken>) -> Result<Stmt, GrammarError>,
    E: Fn(Vec<SpannedToken>) -> Result<Expr, GrammarError>,
    decreases fuel, s,
{
    match s.node {
        StmtKind::Assign { name, is_const, type_hint, value } => exists|r: Result<(Expr, Seq<MacroDefinition>), ParseError>|
            #[trigger] expanded(r) && expr_rel(g, d, value, fuel, m, r) && match r {
                Err(e) => out == Err::<(Stmt, Seq<MacroDefinition>), ParseError>(e),
                Ok((v2, d1)) => out == Ok::<(Stmt, Seq<MacroDefinition>), ParseError>((
                    restmt(s, StmtKind::Assign { name, is_const, type_hint, value: v2 }),
                    d1,
                )),
            },
        StmtKind::AssignTarget { target, value } => exists|r1: Result<(Expr, Seq<MacroDefinition>), ParseError>|
            #[trigger] expanded(r1) && expr_rel(g, d, target, fuel, m, r1) && match r1 {
                Err(e) => out == Err::<(Stmt, Seq<MacroDefinition>), ParseError>(e),
                Ok((t2, d1)) => exists|r2: Result<(Expr, Seq<MacroDefinition>), ParseError>|
                    #[trigger] expanded(r2) && expr_rel(g, d1, value, fuel, m, r2) && match r2 {
                        Err(e) => out == Err::<(Stmt, Seq<MacroDefinition>), ParseError>(e),
                        Ok((v2, d2)) => out == Ok::<(Stmt, Seq<MacroDefinition>), ParseError>((
                            restmt(s, StmtKind::AssignTarget { target: t2, value: v2 }),
                            d2,
                        )),
                    },
            },
        StmtKind::CompoundAssign { target, op, value } => exists|r1: Result<(Expr, Seq<MacroDefinition>), ParseError>|
            #[trigger] expanded(r1) && expr_rel(g, d, target, fuel, m, r1) && match r1 {
                Err(e) => out == Err::<(Stmt, Seq<MacroDefinition>), ParseError>(e),
                Ok((t2, d1)) => exists|r2: Result<(Expr, Seq<MacroDefinition>), ParseError>|
                    #[trigger] expanded(r2) && expr_rel(g, d1, value, fuel, m, r2) && match r2 {
                        Err(e) => out == Err::<(Stmt, Seq<MacroDefinition>), ParseError>(e),
                        Ok((v2, d2)) => out == Ok::<(Stmt, Seq<MacroDefinition>), ParseError>((
                            restmt(s, StmtKind::CompoundAssign { target: t2, op, value: v2 }),
                            d2,
                        )),
                    },
            },
        StmtKind::If { condition, then_body, else_body } => exists|r1: Result<(Expr, Seq<MacroDefinition>), ParseError>|
            #[trigger] expanded(r1) && expr_rel(g, d, condition, fuel, m, r1) && match r1 {
                Err(e) => out == Err::<(Stmt, Seq<MacroDefinition>), ParseError>(e),
                Ok((c2, d1)) => exists|r2: Result<(Vec<Item>, Seq<MacroDefinition>), ParseError>|
                    #[trigger] expanded(r2) && items_rel(g, d1, then_body@, fuel, m, r2) && match r2 {
                        Err(e) => out == Err::<(Stmt, Seq<MacroDefinition>), ParseError>(e),
                        Ok((t2, d2)) => exists|r3: Result<(Option<ElseBody>, Seq<MacroDefinition>), ParseError>|
                            #[trigger] expanded(r3) && else_rel(g, d2, else_body, fuel, m, r3) && match r3 {
                                Err(e) => out == Err::<(Stmt, Seq<MacroDefinition>), ParseError>(e),
                                Ok((e2, d3)) => out == Ok::<(Stmt, Seq<MacroDefinition>), ParseError>((
                                    restmt(s, StmtKind::If { condition: c2, then_body: t2, else_body: e2 }),
                                    d3,
                                )),
                            },
                    },
            },
        StmtKind::While { condition, body } => exists|r1: Result<(Expr, Seq<MacroDefinition>), ParseError>|
            #[trigger] expanded(r1) && expr_rel(g, d, condition, fuel, m, r1) && match r1 {
                Err(e) => out == Err::<(Stmt, Seq<MacroDefinition>), ParseError>(e),
                Ok((c2, d1)) => exists|r2: Result<(Vec<Item>, Seq<MacroDefinition>), ParseError>|
                    #[trigger] expanded(r2) && items_rel(g, d1, body@, fuel, m, r2) && match r2 {
                        Err(e) => out == Err::<(Stmt, Seq<MacroDefinition>), ParseError>(e),
                        Ok((b2, d2)) => out == Ok::<(Stmt, Seq<MacroDefinition>), ParseError>((
                            restmt(s, StmtKind::While { condition: c2, body: b2 }),
                            d2,
                        )),
                    },
            },
        StmtKind::For { variable, init, condition, update, body } => exists|r1: Result<(Expr, Seq<MacroDefinition>), ParseError>|
            #[trigger] expanded(r1) && expr_rel(g, d, init, fuel, m, r1) && match r1 {
                Err(e) => out == Err::<(Stmt, Seq<MacroDefinition>), ParseError>(e),
                Ok((i2, d1)) => exists|r2: Result<(Expr, Seq<MacroDefinition>), ParseError>|
                    #[trigger] expanded(r2) && expr_rel(g, d1, condition, fuel, m, r2) && match r2 {
                        Err(e) => out == Err::<(Stmt, Seq<MacroDefinition>), ParseError>(e),
                        Ok((c2, d2)) => exists|r3: Result<(ForUpdate, Seq<MacroDefinition>), ParseError>|
                            #[trigger] expanded(r3) && update_rel(g, d2, *update, fuel, m, r3) && match r3 {
                                Err(e) => out == Err::<(Stmt, Seq<MacroDefinition>), ParseError>(e),
                                Ok((u2, d3)) => exists|r4: Result<(Vec<Item>, Seq<MacroDefinition>), ParseError>|
                                    #[trigger] expanded(r4) && items_rel(g, d3, body@, fuel, m, r4) && match r4 {
                                        Err(e) => out == Err::<(Stmt, Seq<MacroDefinition>), ParseError>(e),
                                        Ok((b2, d4)) => out == Ok::<(Stmt, Seq<MacroDefinition>), ParseError>((
                                            restmt(
                                                s,
                                                StmtKind::For {
                                                    variable,
                                                    init: i2,
                                                    condition: c2,
                                                    update: Box::new(u2),
                                                    body: b2,
                                                },
                                            ),
                                            d4,
                                        )),
                                    },
                            },
                    },
            },
        StmtKind::ForEach { variable, iterable, body } => exists|r1: Result<(Expr, Seq<MacroDefinition>), ParseError>|
            #[trigger] expanded(r1) && expr_rel(g, d, iterable, fuel, m, r1) && match r1 {
                Err(e) => out == Err::<(Stmt, Seq<MacroDefinition>), ParseError>(e),
                Ok((i2, d1)) => exists|r2: Result<(Vec<Item>, Seq<MacroDefinition>), ParseError>|
                    #[trigger] expanded(r2) && items_rel(g, d1, body@, fuel, m, r2) && match r2 {
                        Err(e) => out == Err::<(Stmt, Seq<MacroDefinition>), ParseError>(e),
                        Ok((b2, d2)) => out == Ok::<(Stmt, Seq<MacroDefinition>), ParseError>((
                            restmt(s, StmtKind::ForEach { variable, iterable: i2, body: b2 }),
                            d2,
                        )),
                    },
            },
        StmtKind::Thread { body } => exists|r: Result<(Vec<Item>, Seq<MacroDefinition>), ParseError>|
            #[trigger] expanded(r) && items_rel(g, d, body@, fuel, m, r) && match r {
                Err(e) => out == Err::<(Stmt, Seq<MacroDefinition>), ParseError>(e),
                Ok((b2, d1)) => out == Ok::<(Stmt, Seq<MacroDefinition>), ParseError>((
                    restmt(s, StmtKind::Thread { body: b2 }),
                    d1,
                )),
            },
        StmtKind::Try { body, handlers } => exists|r1: Result<(Vec<Catch>, Seq<MacroDefinition>), ParseError>|
            #[trigger] expanded(r1) && catches_rel(g, d, handlers@, fuel, m, r1) && match r1 {
                Err(e) => out == Err::<(Stmt, Seq<MacroDefinition>), ParseError>(e),
                Ok((h2, d1)) => exists|r2: Result<(Vec<Item>, Seq<MacroDefinition>), ParseError>|
                    #[trigger] expanded(r2) && items_rel(g, d1, body@, fuel, m, r2) && match r2 {
                        Err(e) => out == Err::<(Stmt, Seq<MacroDefinition>), ParseError>(e),
                        Ok((b2, d2)) => out == Ok::<(Stmt, Seq<MacroDefinition>), ParseError>((
                            restmt(s, StmtKind::Try { body: b2, handlers: h2 }),
                            d2,
                        )),
                    },
            },
        StmtKind::Raise { error_type, message } => exists|r: Result<(Option<Expr>, Seq<MacroDefinition>), ParseError>|
            #[trigger] expanded(r) && opt_expr_rel(g, d, message, fuel, m, r) && match r {
                Err(e) => out == Err::<(Stmt, Seq<MacroDefinition>), ParseError>(e),
                Ok((m2, d1)) => out == Ok::<(Stmt, Seq<MacroDefinition>), ParseError>((
                    restmt(s, StmtKind::Raise { error_type, message: m2 }),
                    d1,
                )),
            },
        StmtKind::Return(value) => exists|r: Result<(Option<Expr>, Seq<MacroDefinition>), ParseError>|
            #[trigger] expanded(r) && opt_expr_rel(g, d, value, fuel, m, r) && match r {
                Err(e) => out == Err::<(Stmt, Seq<MacroDefinition>), ParseError>(e),
                Ok((v2, d1)) => out == Ok::<(Stmt, Seq<MacroDefinition>), ParseError>((
                    restmt(s, StmtKind::Return(v2)),
                    d1,
                )),
            },
        StmtKind::Expr(value) => exists|r: Result<(Expr, Seq<MacroDefinition>), ParseError>|
            #[trigger] expanded(r) && expr_rel(g, d, value, fuel, m, r) && match r {
                Err(e) => out == Err::<(Stmt, Seq<MacroDefinition>), ParseError>(e),
                Ok((v2, d1)) => out == Ok::<(Stmt, Seq<MacroDefinition>), ParseError>((
                    restmt(s, StmtKind::Expr(v2)),
                    d1,
                )),
            },
    }
}

/// Expanding the `else` part of an `if`.
pub open spec fn else_rel<P, S, E>(
    g: Grammar<P, S, E>,
    d: Seq<MacroDefinition>,
    eb: Option<ElseBody>,
    fuel: nat,
    m: usize,
    out: Result<(Option<ElseBody>, Seq<MacroDefinition>), ParseError>,
) -> bool where
    P: Fn(Vec<SpannedToken>) -> Result<Program, GrammarError>,
    S: Fn(Vec<SpannedToken>) -> Result<Stmt, GrammarError>,
    E: Fn(Vec<SpannedToken>) -> Result<Expr, GrammarError>,
    decreases fuel, eb,
{
    match eb {
        None => out == Ok::<(Option<ElseBody>, Seq<MacroDefinition>), ParseError>((None, d)),
        Some(ElseBody::Block(items, a, b)) => exists|r: Result<(Vec<Item>, Seq<MacroDefinition>), ParseError>|
            #[trigger] expanded(r) && items_rel(g, d, items@, fuel, m, r) && match r {
                Err(e) => out == Err::<(Option<ElseBody>, Seq<MacroDefinition>), ParseError>(e),
                Ok((v, d1)) => out == Ok::<(Option<ElseBody>, Seq<MacroDefinition>), ParseError>((
                    Some(ElseBody::Block(v, a, b)),
                    d1,
                )),
            },
        Some(ElseBody::If(st)) => exists|r: Result<(Stmt, Seq<MacroDefinition>), ParseError>|
            #[trigger] expanded(r) && stmt_rel(g, d, *st, fuel, m, r) && match r {
                Err(e) => out == Err::<(Option<ElseBody>, Seq<MacroDefinition>), ParseError>(e),
                Ok((s2, d1)) => out == Ok::<(Option<ElseBody>, Seq<MacroDefinition>), ParseError>((
                    Some(ElseBody::If(Box::new(s2))),
                    d1,
                )),
            },
    }
}

/// Expanding the bodies of `catch` clauses, in order.
pub open spec fn catches_rel<P, S, E>(
    g: Grammar<P, S, E>,
    d: Seq<MacroDefinition>,
    hs: Seq<Catch>,
    fuel: nat,
    m: usize,
    out: Result<(Vec<Catch>, Seq<MacroDefinition>), ParseError>,
) -> bool where
    P: Fn(Vec<SpannedToken>) -> Result<Program, GrammarError>,
    S: Fn(Vec<SpannedToken>) -> Result<Stmt, GrammarError>,
    E: Fn(Vec<SpannedToken>) -> Result<Expr, GrammarError>,
    decreases fuel, hs,
{
    if hs.len() == 0 {
        out matches Ok((v, d1)) && v@.len() == 0 && d1 == d
    } else {
        let h = hs[hs.len() - 1];
        exists|pre: Result<(Vec<Catch>, Seq<MacroDefinition>), ParseError>|
            #[trigger] expanded(pre) && catches_rel(g, d, hs.subrange(0, hs.len() - 1), fuel, m, pre) && match pre {
                Err(e) => out == Err::<(Vec<Catch>, Seq<MacroDefinition>), ParseError>(e),
                Ok((done, d1)) => exists|rb: Result<(Vec<Item>, Seq<MacroDefinition>), ParseError>|
                    #[trigger] expanded(rb) && items_rel(g, d1, h.body@, fuel, m, rb) && match rb {
                        Err(e) => out == Err::<(Vec<Catch>, Seq<MacroDefinition>), ParseError>(e),
                        Ok((body, d2)) => out matches Ok((v, d3)) && d3 == d2 && v@ == done@.push(
                            Catch { pattern: h.pattern, body, start: h.start, end: h.end },
                        ),
                    },
            }
    }
}

/// Expanding the update clause of a `for` loop.
pub open spec fn update_rel<P, S, E>(
    g: Grammar<P, S, E>,
    d: Seq<MacroDefinition>,
    u: ForUpdate,
    fuel: nat,
    m: usize,
    out: Result<(ForUpdate, Seq<MacroDefinition>), ParseError>,
) -> bool where
    P: Fn(Vec<SpannedToken>) -> Result<Program, GrammarError>,
    S: Fn(Vec<SpannedToken>) -> Result<Stmt, GrammarError>,
    E: Fn(Vec<SpannedToken>) -> Result<Expr, GrammarError>,
    decreases fuel, u,
{
    match u {
        ForUpdate::Assign { name, value, start, end } => exists|r: Result<(Expr, Seq<MacroDefinition>), ParseError>|
            #[trigger] expanded(r) && expr_rel(g, d, value, fuel, m, r) && match r {
                Err(e) => out == Err::<(ForUpdate, Seq<MacroDefinition>), ParseError>(e),
                Ok((v2, d1)) => out == Ok::<(ForUpdate, Seq<MacroDefinition>), ParseError>((
                    ForUpdate::Assign { name, value: v2, start, end },
                    d1,
                )),
            },
        ForUpdate::AssignTarget { target, value, start, end } => exists|r1: Result<(Expr, Seq<MacroDefinition>), ParseError>|
            #[trigger] expanded(r1) && expr_rel(g, d, target, fuel, m, r1) && match r1 {
                Err(e) => out == Err::<(ForUpdate, Seq<MacroDefinition>), ParseError>(e),
                Ok((t2, d1)) => exists|r2: Result<(Expr, Seq<MacroDefinition>), ParseError>|
                    #[trigger] expanded(r2) && expr_rel(g, d1, value, fuel, m, r2) && match r2 {
                        Err(e) => out == Err::<(ForUpdate, Seq<MacroDefinition>), ParseError>(e),
                        Ok((v2, d2)) => out == Ok::<(ForUpdate, Seq<MacroDefinition>), ParseError>((
                            ForUpdate::AssignTarget { target: t2, value: v2, start, end },
                            d2,
                        )),
                    },
            },
        ForUpdate::Compound { target, op, value, start, end } => exists|r1: Result<(Expr, Seq<MacroDefinition>), ParseError>|
            #[trigger] expanded(r1) && expr_rel(g, d, target, fuel, m, r1) && match r1 {
                Err(e) => out == Err::<(ForUpdate, Seq<MacroDefinition>), ParseError>(e),
                Ok((t2, d1)) => exists|r2: Result<(Expr, Seq<MacroDefinition>), ParseError>|
                    #[trigger] expanded(r2) && expr_rel(g, d1, value, fuel, m, r2) && match r2 {
                        Err(e) => out == Err::<(ForUpdate, Seq<MacroDefinition>), ParseError>(e),
                        Ok((v2, d2)) => out == Ok::<(ForUpdate, Seq<MacroDefinition>), ParseError>((
                            ForUpdate::Compound { target: t2, op, value: v2, start, end },
                            d2,
                        )),
                    },
            },
        ForUpdate::Expr(value) => exists|r: Result<(Expr, Seq<MacroDefinition>), ParseError>|
            #[trigger] expanded(r) && expr_rel(g, d, value, fuel, m, r) && match r {
                Err(e) => out == Err::<(ForUpdate, Seq<MacroDefinition>), ParseError>(e),
                Ok((v2, d1)) => out == Ok::<(ForUpdate, Seq<MacroDefinition>), ParseError>((ForUpdate::Expr(v2), d1)),
            },
    }
}

/// Expanding an expression: a macro call becomes the expression its
/// expansion parses to (not expanded again); other expressions are
/// expanded inside, left to right.
pub open spec fn expr_rel<P, S, E>(
    g: Grammar<P, S, E>,
    d: Seq<MacroDefinition>,
    x: Expr,
    fuel: nat,
    m: usize,
    out: Result<(Expr, Seq<MacroDefinition>), ParseError>,
) -> bool where
    P: Fn(Vec<SpannedToken>) -> Result<Program, GrammarError>,
    S: Fn(Vec<SpannedToken>) -> Result<Stmt, GrammarError>,
    E: Fn(Vec<SpannedToken>) -> Result<Expr, GrammarError>,
    decreases fuel, x,
{
    match x.node {
        ExprKind::MacroCall(call) => exists|cr: Result<Vec<MacroToken>, ParseError>|
            #[trigger] call_outcome(g, d, call, cr) && match cr {
                Err(e) => out == Err::<(Expr, Seq<MacroDefinition>), ParseError>(e),
                Ok(toks) => exists|a: Result<Expr, GrammarError>|
                    #[trigger] expression_answer(g.expression, expression_stream(toks@), a) && match a {
                        Err(_) => out matches Err(e) && is_syntax_error(
                            e,
                            call.start as int,
                            call.end as int,
                            m,
                            expression_message(),
                        ),
                        Ok(x2) => out == Ok::<(Expr, Seq<MacroDefinition>), ParseError>((x2, d)),
                    },
            },
        ExprKind::Binary { op, left, right } => exists|r1: Result<(Expr, Seq<MacroDefinition>), ParseError>|
            #[trigger] expanded(r1) && expr_rel(g, d, *left, fuel, m, r1) && match r1 {
                Err(e) => out == Err::<(Expr, Seq<MacroDefinition>), ParseError>(e),
                Ok((l2, d1)) => exists|r2: Result<(Expr, Seq<MacroDefinition>), ParseError>|
                    #[trigger] expanded(r2) && expr_rel(g, d1, *right, fuel, m, r2) && match r2 {
                        Err(e) => out == Err::<(Expr, Seq<MacroDefinition>), ParseError>(e),
                        Ok((r3, d2)) => out == Ok::<(Expr, Seq<MacroDefinition>), ParseError>((
                            reexpr(x, ExprKind::Binary { op, left: Box::new(l2), right: Box::new(r3) }),
                            d2,
                        )),
                    },
            },
        ExprKind::Unary { op, operand } => exists|r: Result<(Expr, Seq<MacroDefinition>), ParseError>|
            #[trigger] expanded(r) && expr_rel(g, d, *operand, fuel, m, r) && match r {
                Err(e) => out == Err::<(Expr, Seq<MacroDefinition>), ParseError>(e),
                Ok((o2, d1)) => out == Ok::<(Expr, Seq<MacroDefinition>), ParseError>((
                    reexpr(x, ExprKind::Unary { op, operand: Box::new(o2) }),
                    d1,
                )),
            },
        ExprKind::FunctionCall { function, args } => exists|r1: Result<(Expr, Seq<MacroDefinition>), ParseError>|
            #[trigger] expanded(r1) && expr_rel(g, d, *function, fuel, m, r1) && match r1 {
                Err(e) => out == Err::<(Expr, Seq<MacroDefinition>), ParseError>(e),
                Ok((f2, d1)) => exists|r2: Result<(Vec<CallArg>, Seq<MacroDefinition>), ParseError>|
                    #[trigger] expanded(r2) && args_rel(g, d1, args@, fuel, m, r2) && match r2 {
                        Err(e) => out == Err::<(Expr, Seq<MacroDefinition>), ParseError>(e),
                        Ok((a2, d2)) => out == Ok::<(Expr, Seq<MacroDefinition>), ParseError>((
                            reexpr(x, ExprKind::FunctionCall { function: Box::new(f2), args: a2 }),
                            d2,
                        )),
                    },
            },
        ExprKind::MethodCall { object, method, args } => exists|r1: Result<(Expr, Seq<MacroDefinition>), ParseError>|
            #[trigger] expanded(r1) && expr_rel(g, d, *object, fuel, m, r1) && match r1 {
                Err(e) => out == Err::<(Expr, Seq<MacroDefinition>), ParseError>(e),
                Ok((o2, d1)) => exists|r2: Result<(Vec<CallArg>, Seq<MacroDefinition>), ParseError>|
                    #[trigger] expanded(r2) && args_rel(g, d1, args@, fuel, m, r2) && match r2 {
                        Err(e) => out == Err::<(Expr, Seq<MacroDefinition>), ParseError>(e),
                        Ok((a2, d2)) => out == Ok::<(Expr, Seq<MacroDefinition>), ParseError>((
                            reexpr(x, ExprKind::MethodCall { object: Box::new(o2), method, args: a2 }),
                            d2,
                        )),
                    },
            },
        ExprKind::PropertyAccess { object, property } => exists|r: Result<(Expr, Seq<MacroDefinition>), ParseError>|
            #[trigger] expanded(r) && expr_rel(g, d, *object, fuel, m, r) && match r {
                Err(e) => out == Err::<(Expr, Seq<MacroDefinition>), ParseError>(e),
                Ok((o2, d1)) => out == Ok::<(Expr, Seq<MacroDefinition>), ParseError>((
                    reexpr(x, ExprKind::PropertyAccess { object: Box::new(o2), property }),
                    d1,
                )),
            },
        ExprKind::Index { object, index } => exists|r1: Result<(Expr, Seq<MacroDefinition>), ParseError>|
            #[trigger] expanded(r1) && expr_rel(g, d, *object, fuel, m, r1) && match r1 {
                Err(e) => out == Err::<(Expr, Seq<MacroDefinition>), ParseError>(e),
                Ok((o2, d1)) => exists|r2: Result<(Expr, Seq<MacroDefinition>), ParseError>|
                    #[trigger] expanded(r2) && expr_rel(g, d1, *index, fuel, m, r2) && match r2 {
                        Err(e) => out == Err::<(Expr, Seq<MacroDefinition>), ParseError>(e),
                        Ok((i2, d2)) => out == Ok::<(Expr, Seq<MacroDefinition>), ParseError>((
                            reexpr(x, ExprKind::Index { object: Box::new(o2), index: Box::new(i2) }),
                            d2,
                        )),
                    },
            },
        ExprKind::ObjectCreation { class_name, args } => exists|r: Result<(Vec<CallArg>, Seq<MacroDefinition>), ParseError>|
            #[trigger] expanded(r) && args_rel(g, d, args@, fuel, m, r) && match r {
                Err(e) => out == Err::<(Expr, Seq<MacroDefinition>), ParseError>(e),
                Ok((a2, d1)) => out == Ok::<(Expr, Seq<MacroDefinition>), ParseError>((
                    reexpr(x, ExprKind::ObjectCreation { class_name, args: a2 }),
                    d1,
                )),
            },
        ExprKind::Lambda { params, body } => match body {
            LambdaBody::Expr(b) => exists|r: Result<(Expr, Seq<MacroDefinition>), ParseError>|
                #[trigger] expanded(r) && expr_rel(g, d, *b, fuel, m, r) && match r {
                    Err(e) => out == Err::<(Expr, Seq<MacroDefinition>), ParseError>(e),
                    Ok((b2, d1)) => out == Ok::<(Expr, Seq<MacroDefinition>), ParseError>((
                        reexpr(x, ExprKind::Lambda { params, body: LambdaBody::Expr(Box::new(b2)) }),
                        d1,
                    )),
                },
            LambdaBody::Block(items, a, b) => exists|r: Result<(Vec<Item>, Seq<MacroDefinition>), ParseError>|
                #[trigger] expanded(r) && items_rel(g, d, items@, fuel, m, r) && match r {
                    Err(e) => out == Err::<(Expr, Seq<MacroDefinition>), ParseError>(e),
                    Ok((v, d1)) => out == Ok::<(Expr, Seq<MacroDefinition>), ParseError>((
                        reexpr(x, ExprKind::Lambda { params, body: LambdaBody::Block(v, a, b) }),
                        d1,
                    )),
                },
        },
        _ => out == Ok::<(Expr, Seq<MacroDefinition>), ParseError>((x, d)),
    }
}

/// Expanding call arguments, in order.
pub open spec fn args_rel<P, S, E>(
    g: Grammar<P, S, E>,
    d: Seq<MacroDefinition>,
    args: Seq<CallArg>,
    fuel: nat,
    m: usize,
    out: Result<(Vec<CallArg>, Seq<MacroDefinition>), ParseError>,
) -> bool where
    P: Fn(Vec<SpannedToken>) -> Result<Program, GrammarError>,
    S: Fn(Vec<SpannedToken>) -> Result<Stmt, GrammarError>,
    E: Fn(Vec<SpannedToken>) -> Result<Expr, GrammarError>,
    decreases fuel, args,
{
    if args.len() == 0 {
        out matches Ok((v, d1)) && v@.len() == 0 && d1 == d
    } else {
        let a = args[args.len() - 1];
        exists|pre: Result<(Vec<CallArg>, Seq<MacroDefinition>), ParseError>|
            #[trigger] expanded(pre) && args_rel(g, d, args.subrange(0, args.len() - 1), fuel, m, pre) && match pre {
                Err(e) => out == Err::<(Vec<CallArg>, Seq<MacroDefinition>), ParseError>(e),
                Ok((done, d1)) => exists|r: Result<(Expr, Seq<MacroDefinition>), ParseError>|
                    #[trigger] expanded(r) && expr_rel(g, d1, a.value, fuel, m, r) && match r {
                        Err(e) => out == Err::<(Vec<CallArg>, Seq<MacroDefinition>), ParseError>(e),
                        Ok((v2, d2)) => out matches Ok((v, d3)) && d3 == d2 && v@ == done@.push(
                            CallArg { name: a.name, value: v2 },
                        ),
                    },
            }
    }
}

impl MacroExpander {
    /// The tokens that `call` expands to, the grammar judging expression and
    /// statement fragments.
    pub fn expand_call_in<P, S, E>(&self, call: &MacroCall, g: &Grammar<P, S, E>) -> (r: Result<Vec<MacroToken>, ParseError>) where
        P: Fn(Vec<SpannedToken>) -> Result<Program, GrammarError>,
        S: Fn(Vec<SpannedToken>) -> Result<Stmt, GrammarError>,
        E: Fn(Vec<SpannedToken>) -> Result<Expr, GrammarError>,
        requires
            total(*g),
        ensures
            call_outcome(*g, self.defs(), *call, r),
    {
        let args = normalized_call_args(call);
        let verdicts = fragment_verdicts(&args, g);
        let r = self.expand_call(call, &verdicts);
        r
    }
}

/// `tokens` handed to the program parser: its items, or the error for a
/// call at `start..end` of module `m`.
pub fn parse_items<P, S, E>(
    tokens: Vec<MacroToken>,
    g: &Grammar<P, S, E>,
    m: usize,
    start: usize,
    end: usize,
) -> (r: Result<Vec<Item>, ParseError>) where
    P: Fn(Vec<SpannedToken>) -> Result<Program, GrammarError>,
    S: Fn(Vec<SpannedToken>) -> Result<Stmt, GrammarError>,
    E: Fn(Vec<SpannedToken>) -> Result<Expr, GrammarError>,
    requires
        total(*g),
    ensures
        exists|a: Result<Program, GrammarError>|
            #[trigger] program_answer(g.program, statement_stream(tokens@), a) && match a {
                Err(_) => r matches Err(e) && is_syntax_error(e, start as int, end as int, m, items_message()),
                Ok(p) => r == Ok::<Vec<Item>, ParseError>(p.items),
            },
{
    let ghost ts = tokens@;
    let stream = expansion_stream(tokens, true);
    let ghost x = stream;
    let a = (g.program)(stream);
    proof {
        assert(program_answer(g.program, statement_stream(ts), a));
    }
    match a {
        Ok(program) => Ok(program.items),
        Err(_) => Err(
            ParseError::InvalidSyntax(
                ErrorData::new(
                    Span::new(start, end, m),
                    String::from_str("Макрос развернулся в некорректные элементы AST"),
                ),
            ),
        ),
    }
}

/// `tokens` handed to the expression parser, trailing `;` dropped: the
/// expression, or the error for a call at `start..end` of module `m`.
pub fn parse_expr<P, S, E>(
    tokens: Vec<MacroToken>,
    g: &Grammar<P, S, E>,
    m: usize,
    start: usize,
    end: usize,
) -> (r: Result<Expr, ParseError>) where
    P: Fn(Vec<SpannedToken>) -> Result<Program, GrammarError>,
    S: Fn(Vec<SpannedToken>) -> Result<Stmt, GrammarError>,
    E: Fn(Vec<SpannedToken>) -> Result<Expr, GrammarError>,
    requires
        total(*g),
    ensures
        exists|a: Result<Expr, GrammarError>|
            #[trigger] expression_answer(g.expression, expression_stream(tokens@), a) && match a {
                Err(_) => r matches Err(e) && is_syntax_error(e, start as int, end as int, m, expression_message()),
                Ok(x) => r == Ok::<Expr, ParseError>(x),
            },
{
    let ghost ts = tokens@;
    let mut tokens = tokens;
    while tokens.len() > 0 && matches!(tokens[tokens.len() - 1].token, Token::Semi)
        invariant
            trim_semis(tokens@) == trim_semis(ts),
        decreases tokens@.len(),
    {
        tokens.pop();
    }
    proof {
        assert(trim_semis(tokens@) == tokens@);
    }
    let stream = expansion_stream(tokens, false);
    let ghost x = stream;
    let a = (g.expression)(stream);
    proof {
        assert(expression_answer(g.expression, expression_stream(ts), a));
    }
    match a {
        Ok(x) => Ok(x),
        Err(_) => Err(
            ParseError::InvalidSyntax(
                ErrorData::new(
                    Span::new(start, end, m),
                    String::from_str("Макрос развернулся в некорректное выражение"),
                ),
            ),
        ),
    }
}

/// Whether a statement consists of a macro call.
fn is_call_statement(s: &Stmt) -> (b: bool)
    ensures
        b == (call_of(*s) is Some),
{
    match &s.node {
        StmtKind::Expr(e) => matches!(e.node, ExprKind::MacroCall(_)),
        _ => false,
    }
}

proof fn lemma_items_error_extends<P, S, E>(
    g: Grammar<P, S, E>,
    d: Seq<MacroDefinition>,
    s: Seq<Item>,
    k: int,
    fuel: nat,
    m: usize,
    e: ParseError,
) where
    P: Fn(Vec<SpannedToken>) -> Result<Program, GrammarError>,
    S: Fn(Vec<SpannedToken>) -> Result<Stmt, GrammarError>,
    E: Fn(Vec<SpannedToken>) -> Result<Expr, GrammarError>,
    requires
        0 <= k <= s.len(),
        items_rel(g, d, s.take(k), fuel, m, Err(e)),
    ensures
        items_rel(g, d, s, fuel, m, Err(e)),
    decreases s.len() - k,
{
    if k < s.len() {
        let t = s.take(k + 1);
        assert(t.len() == k + 1);
        assert(t.subrange(0, t.len() - 1) =~= s.take(k));
        let pre = Err::<(Vec<Item>, Seq<MacroDefinition>), ParseError>(e);
        assert(expanded(pre));
        assert(items_rel(g, d, t.subrange(0, t.len() - 1), fuel, m, pre) && match pre {
            Err(e2) => Err::<(Vec<Item>, Seq<MacroDefinition>), ParseError>(e) == Err::<(Vec<Item>, Seq<MacroDefinition>), ParseError>(e2),
            Ok(_) => false,
        });
        assert(items_rel(g, d, t, fuel, m, Err(e)));
        lemma_items_error_extends(g, d, s, k + 1, fuel, m, e);
    } else {
        assert(s.take(k) =~= s);
    }
}

proof fn lemma_class_items_error_extends<P, S, E>(
    g: Grammar<P, S, E>,
    d: Seq<MacroDefinition>,
    s: Seq<ClassItem>,
    k: int,
    fuel: nat,
    m: usize,
    e: ParseError,
) where
    P: Fn(Vec<SpannedToken>) -> Result<Program, GrammarError>,
    S: Fn(Vec<SpannedToken>) -> Result<Stmt, GrammarError>,
    E: Fn(Vec<SpannedToken>) -> Result<Expr, GrammarError>,
    requires
        0 <= k <= s.len(),
        class_items_rel(g, d, s.take(k), fuel, m, Err(e)),
    ensures
        class_items_rel(g, d, s, fuel, m, Err(e)),
    decreases s.len() - k,
{
    if k < s.len() {
        let t = s.take(k + 1);
        assert(t.len() == k + 1);
        assert(t.subrange(0, t.len() - 1) =~= s.take(k));
        let pre = Err::<(Vec<ClassItem>, Seq<MacroDefinition>), ParseError>(e);
        assert(expanded(pre));
        assert(class_items_rel(g, d, t.subrange(0, t.len() - 1), fuel, m, pre) && match pre {
            Err(e2) => Err::<(Vec<ClassItem>, Seq<MacroDefinition>), ParseError>(e) == Err::<(Vec<ClassItem>, Seq<MacroDefinition>), ParseError>(e2),
            Ok(_) => false,
        });
        assert(class_items_rel(g, d, t, fuel, m, Err(e)));
        lemma_class_items_error_extends(g, d, s, k + 1, fuel, m, e);
    } else {
        assert(s.take(k) =~= s);
    }
}

proof fn lemma_catches_error_extends<P, S, E>(
    g: Grammar<P, S, E>,
    d: Seq<MacroDefinition>,
    s: Seq<Catch>,
    k: int,
    fuel: nat,
    m: usize,
    e: ParseError,
) where
    P: Fn(Vec<SpannedToken>) -> Result<Program, GrammarError>,
    S: Fn(Vec<SpannedToken>) -> Result<Stmt, GrammarError>,
    E: Fn(Vec<SpannedToken>) -> Result<Expr, GrammarError>,
    requires
        0 <= k <= s.len(),
        catches_rel(g, d, s.take(k), fuel, m, Err(e)),
    ensures
        catches_rel(g, d, s, fuel, m, Err(e)),
    decreases s.len() - k,
{
    if k < s.len() {
        let t = s.take(k + 1);
        assert(t.len() == k + 1);
        assert(t.subrange(0, t.len() - 1) =~= s.take(k));
        let pre = Err::<(Vec<Catch>, Seq<MacroDefinition>), ParseError>(e);
        assert(expanded(pre));
        assert(catches_rel(g, d, t.subrange(0, t.len() - 1), fuel, m, pre) && match pre {
            Err(e2) => Err::<(Vec<Catch>, Seq<MacroDefinition>), ParseError>(e) == Err::<(Vec<Catch>, Seq<MacroDefinition>), ParseError>(e2),
            Ok(_) => false,
        });
        assert(catches_rel(g, d, t, fuel, m, Err(e)));
        lemma_catches_error_extends(g, d, s, k + 1, fuel, m, e);
    } else {
        assert(s.take(k) =~= s);
    }
}

proof fn lemma_args_error_extends<P, S, E>(
    g: Grammar<P, S, E>,
    d: Seq<MacroDefinition>,
    s: Seq<CallArg>,
    k: int,
    fuel: nat,
    m: usize,
    e: ParseError,
) where
    P: Fn(Vec<SpannedToken>) -> Result<Program, GrammarError>,
    S: Fn(Vec<SpannedToken>) -> Result<Stmt, GrammarError>,
    E: Fn(Vec<SpannedToken>) -> Result<Expr, GrammarError>,
    requires
        0 <= k <= s.len(),
        args_rel(g, d, s.take(k), fuel, m, Err(e)),
    ensures
        args_rel(g, d, s, fuel, m, Err(e)),
    decreases s.len() - k,
{
    if k < s.len() {
        let t = s.take(k + 1);
        assert(t.len() == k + 1);
        assert(t.subrange(0, t.len() - 1) =~= s.take(k));
        let pre = Err::<(Vec<CallArg>, Seq<MacroDefinition>), ParseError>(e);
        assert(expanded(pre));
        assert(args_rel(g, d, t.subrange(0, t.len() - 1), fuel, m, pre) && match pre {
            Err(e2) => Err::<(Vec<CallArg>, Seq<MacroDefinition>), ParseError>(e) == Err::<(Vec<CallArg>, Seq<MacroDefinition>), ParseError>(e2),
            Ok(_) => false,
        });
        assert(args_rel(g, d, t, fuel, m, Err(e)));
        lemma_args_error_extends(g, d, s, k + 1, fuel, m, e);
    } else {
        assert(s.take(k) =~= s);
    }
}

impl MacroExpander {
    /// Expands the items of a block in order; see `items_rel`.
    pub fn expand_items<P, S, E>(&mut self, items: Vec<Item>, g: &Grammar<P, S, E>, m: usize, fuel: usize) -> (r: Result<
        Vec<Item>,
        ParseError,
    >) where
        P: Fn(Vec<SpannedToken>) -> Result<Program, GrammarError>,
        S: Fn(Vec<SpannedToken>) -> Result<Stmt, GrammarError>,
        E: Fn(Vec<SpannedToken>) -> Result<Expr, GrammarError>,
        requires
            total(*g),
        ensures
            items_rel(*g, old(self).defs(), items@, fuel as nat, m, with_defs(r, final(self).defs())),
            expanded(with_defs(r, final(self).defs())),
        decreases fuel, items,
    {
        let ghost orig = items@;
        let ghost d0 = self.defs();
        let n = items.len();
        let mut rest = items;
        let mut out: Vec<Item> = Vec::new();
        let mut k: usize = 0;
        assert(orig.take(0).len() == 0);
        while rest.len() > 0
            invariant
                total(*g),
                orig == items@,
                n == orig.len(),
                d0 == old(self).defs(),
                k <= orig.len(),
                rest@ == orig.skip(k as int),
                items_rel(*g, d0, orig.take(k as int), fuel as nat, m, Ok((out, self.defs()))),
            decreases rest@.len(),
        {
            let item = rest.remove(0);
            let ghost dk = self.defs();
            let ghost prev = out;
            proof {
                assert(item == orig[k as int]);
                assert(decreases_to!(items => items@));
                assert(decreases_to!(items@ => items@[k as int]));
            }
            let step = self.expand_item(item, g, m, fuel);
            let ghost t = orig.take(k + 1);
            proof {
                assert(t.subrange(0, t.len() - 1) =~= orig.take(k as int));
                assert(t[t.len() - 1] == orig[k as int]);
            }
            match step {
                Ok(more) => {
                    let ghost mv = more;
                    let mut more = more;
                    out.append(&mut more);
                    proof {
                        assert(items_rel(*g, d0, t.subrange(0, t.len() - 1), fuel as nat, m, Ok((prev, dk))));
                        assert(expanded(Ok::<(Vec<Item>, Seq<MacroDefinition>), ParseError>((prev, dk))));
                        assert(item_rel(*g, dk, t[t.len() - 1], fuel as nat, m, Ok((mv, self.defs()))));
                        assert(out@ == prev@ + mv@);
                        assert(items_rel(*g, d0, t, fuel as nat, m, Ok((out, self.defs()))));
                        assert(orig.skip(k + 1) =~= rest@);
                    }
                    k = k + 1;
                },
                Err(e) => {
                    proof {
                        assert(items_rel(*g, d0, t.subrange(0, t.len() - 1), fuel as nat, m, Ok((prev, dk))));
                        assert(expanded(Ok::<(Vec<Item>, Seq<MacroDefinition>), ParseError>((prev, dk))));
                        assert(item_rel(*g, dk, t[t.len() - 1], fuel as nat, m, Err(e)));
                        assert(items_rel(*g, d0, t, fuel as nat, m, Err(e)));
                        lemma_items_error_extends(*g, d0, orig, k + 1, fuel as nat, m, e);
                        assert(with_defs(Err::<Vec<Item>, ParseError>(e), self.defs()) == Err::<(Vec<Item>, Seq<MacroDefinition>), ParseError>(e));
                    }
                    return Err(e);
                },
            }
        }
        proof {
            assert(orig.take(k as int) =~= orig);
        }
        Ok(out)
    }

    /// Expands one item; see `item_rel`.
    fn expand_item<P, S, E>(&mut self, item: Item, g: &Grammar<P, S, E>, m: usize, fuel: usize) -> (r: Result<
        Vec<Item>,
        ParseError,
    >) where
        P: Fn(Vec<SpannedToken>) -> Result<Program, GrammarError>,
        S: Fn(Vec<SpannedToken>) -> Result<Stmt, GrammarError>,
        E: Fn(Vec<SpannedToken>) -> Result<Expr, GrammarError>,
        requires
            total(*g),
        ensures
            item_rel(*g, old(self).defs(), item, fuel as nat, m, with_defs(r, final(self).defs())),
            expanded(with_defs(r, final(self).defs())),
        decreases fuel, item,
    {
        let start = item.start;
        let end = item.end;
        match item.node {
            ItemKind::MacroDefinition(definition) => {
                self.define(definition);
                let out: Vec<Item> = Vec::new();
                assert(out@.len() == 0);
                Ok(out)
            },
            ItemKind::Function(function) => {
                let Function { name, params, return_type, body } = function;
                let body = self.expand_items(body, g, m, fuel)?;
                let out = vec![Spanned { node: ItemKind::Function(Function { name, params, return_type, body }), start, end }];
                assert(out@ == seq![Spanned { node: ItemKind::Function(Function { name, params, return_type, body }), start, end }]);
                Ok(out)
            },
            ItemKind::Class(class) => {
                let Class { name, base, items } = class;
                let items = self.expand_class_items(items, g, m, fuel)?;
                let out = vec![Spanned { node: ItemKind::Class(Class { name, base, items }), start, end }];
                assert(out@ == seq![Spanned { node: ItemKind::Class(Class { name, base, items }), start, end }]);
                Ok(out)
            },
            ItemKind::Statement(stmt) => {
                if is_call_statement(&stmt) {
                    let ghost old_stmt = stmt;
                    let stmt = *stmt;
                    match stmt.node {
                        StmtKind::Expr(e) => match e.node {
                            ExprKind::MacroCall(call) => {
                                let tokens = self.expand_call_in(&call, g)?;
                                let parsed = parse_items(tokens, g, m, call.start, call.end)?;
                                if fuel == 0 {
                                    return Err(
                                        ParseError::InvalidSyntax(
                                            ErrorData::new(
                                                Span::new(call.start, call.end, m),
                                                String::from_str("Превышена глубина раскрытия макросов"),
                                            ),
                                        ),
                                    );
                                }
                                let ghost d = self.defs();
                                let r = self.expand_items(parsed, g, m, fuel - 1);
                                proof {
                                    assert(call_of(*old_stmt) == Some(call));
                                    assert(items_rel(*g, d, parsed@, (fuel - 1) as nat, m, with_defs(r, self.defs())));
                                }
                                r
                            },
                            _ => {
                                proof {
                                    assert(false);
                                }
                                Ok(Vec::new())
                            },
                        },
                        _ => {
                            proof {
                                assert(false);
                            }
                            Ok(Vec::new())
                        },
                    }
                } else {
                    let ghost d = self.defs();
                    let ghost st = *stmt;
                    let s2 = self.expand_stmt(*stmt, g, m, fuel)?;
                    let out = vec![Spanned { node: ItemKind::Statement(Box::new(s2)), start, end }];
                    proof {
                        assert(call_of(st) is None);
                        assert(stmt_rel(*g, d, st, fuel as nat, m, with_defs(Ok::<Stmt, ParseError>(s2), self.defs())));
                        assert(out@ == seq![Spanned { node: ItemKind::Statement(Box::new(s2)), start, end }]);
                    }
                    Ok(out)
                }
            },
            ItemKind::Import(import) => {
                let out = vec![Spanned { node: ItemKind::Import(import), start, end }];
                assert(out@ == seq![item]);
                Ok(out)
            },
            ItemKind::Library(library) => {
                let out = vec![Spanned { node: ItemKind::Library(library), start, end }];
                assert(out@ == seq![item]);
                Ok(out)
            },
        }
    }

    /// Expands class members in order; see `class_items_rel`.
    fn expand_class_items<P, S, E>(
        &mut self,
        items: Vec<ClassItem>,
        g: &Grammar<P, S, E>,
        m: usize,
        fuel: usize,
    ) -> (r: Result<Vec<ClassItem>, ParseError>) where
        P: Fn(Vec<SpannedToken>) -> Result<Program, GrammarError>,
        S: Fn(Vec<SpannedToken>) -> Result<Stmt, GrammarError>,
        E: Fn(Vec<SpannedToken>) -> Result<Expr, GrammarError>,
        requires
            total(*g),
        ensures
            class_items_rel(*g, old(self).defs(), items@, fuel as nat, m, with_defs(r, final(self).defs())),
            expanded(with_defs(r, final(self).defs())),
        decreases fuel, items,
    {
        let ghost orig = items@;
        let ghost d0 = self.defs();
        let n = items.len();
        let mut rest = items;
        let mut out: Vec<ClassItem> = Vec::new();
        let mut k: usize = 0;
        assert(orig.take(0).len() == 0);
        while rest.len() > 0
            invariant
                total(*g),
                orig == items@,
                n == orig.len(),
                d0 == old(self).defs(),
                k <= orig.len(),
                rest@ == orig.skip(k as int),
                class_items_rel(*g, d0, orig.take(k as int), fuel as nat, m, Ok((out, self.defs()))),
            decreases rest@.len(),
        {
            let ci = rest.remove(0);
            let ghost dk = self.defs();
            let ghost prev = out;
            proof {
                assert(ci == orig[k as int]);
                assert(decreases_to!(items => items@));
                assert(decreases_to!(items@ => items@[k as int]));
            }
            let step = self.expand_class_item(ci, g, m, fuel);
            let ghost t = orig.take(k + 1);
            proof {
                assert(t.subrange(0, t.len() - 1) =~= orig.take(k as int));
                assert(t[t.len() - 1] == orig[k as int]);
            }
            match step {
                Ok(one) => {
                    let ghost o = one;
                    out.push(one);
                    proof {
                        assert(class_items_rel(*g, d0, t.subrange(0, t.len() - 1), fuel as nat, m, Ok((prev, dk))));
                        assert(expanded(Ok::<(Vec<ClassItem>, Seq<MacroDefinition>), ParseError>((prev, dk))));
                        assert(class_item_rel(*g, dk, t[t.len() - 1], fuel as nat, m, Ok((o, self.defs()))));
                        assert(class_items_rel(*g, d0, t, fuel as nat, m, Ok((out, self.defs()))));
                        assert(orig.skip(k + 1) =~= rest@);
                    }
                    k = k + 1;
                },
                Err(e) => {
                    proof {
                        assert(class_items_rel(*g, d0, t.subrange(0, t.len() - 1), fuel as nat, m, Ok((prev, dk))));
                        assert(expanded(Ok::<(Vec<ClassItem>, Seq<MacroDefinition>), ParseError>((prev, dk))));
                        assert(class_item_rel(*g, dk, t[t.len() - 1], fuel as nat, m, Err(e)));
                        assert(class_items_rel(*g, d0, t, fuel as nat, m, Err(e)));
                        lemma_class_items_error_extends(*g, d0, orig, k + 1, fuel as nat, m, e);
                        assert(with_defs(Err::<Vec<ClassItem>, ParseError>(e), self.defs()) == Err::<(Vec<ClassItem>, Seq<MacroDefinition>), ParseError>(e));
                    }
                    return Err(e);
                },
            }
        }
        proof {
            assert(orig.take(k as int) =~= orig);
        }
        Ok(out)
    }

    /// Expands one class member; see `class_item_rel`.
    fn expand_class_item<P, S, E>(&mut self, ci: ClassItem, g: &Grammar<P, S, E>, m: usize, fuel: usize) -> (r: Result<
        ClassItem,
        ParseError,
    >) where
        P: Fn(Vec<SpannedToken>) -> Result<Program, GrammarError>,
        S: Fn(Vec<SpannedToken>) -> Result<Stmt, GrammarError>,
        E: Fn(Vec<SpannedToken>) -> Result<Expr, GrammarError>,
        requires
            total(*g),
        ensures
            class_item_rel(*g, old(self).defs(), ci, fuel as nat, m, with_defs(r, final(self).defs())),
            expanded(with_defs(r, final(self).defs())),
        decreases fuel, ci,
    {
        let start = ci.start;
        let end = ci.end;
        match ci.node {
            ClassItemKind::Constructor(method) => {
                let ClassMethod { visibility, is_static, name, params, return_type, body } = method;
                let body = self.expand_items(body, g, m, fuel)?;
                Ok(
                    Spanned {
                        node: ClassItemKind::Constructor(
                            ClassMethod { visibility, is_static, name, params, return_type, body },
                        ),
                        start,
                        end,
                    },
                )
            },
            ClassItemKind::Method(method) => {
                let ClassMethod { visibility, is_static, name, params, return_type, body } = method;
                let body = self.expand_items(body, g, m, fuel)?;
                Ok(
                    Spanned {
                        node: ClassItemKind::Method(ClassMethod { visibility, is_static, name, params, return_type, body }),
                        start,
                        end,
                    },
                )
            },
            ClassItemKind::Field(field) => {
                let ClassField { visibility, is_static, name, field_type, default_value } = field;
                let default_value = self.expand_opt_expr(default_value, g, m, fuel)?;
                Ok(
                    Spanned {
                        node: ClassItemKind::Field(ClassField { visibility, is_static, name, field_type, default_value }),
                        start,
                        end,
                    },
                )
            },
        }
    }

    /// Expands an optional expression.
    fn expand_opt_expr<P, S, E>(&mut self, x: Option<Expr>, g: &Grammar<P, S, E>, m: usize, fuel: usize) -> (r: Result<
        Option<Expr>,
        ParseError,
    >) where
        P: Fn(Vec<SpannedToken>) -> Result<Program, GrammarError>,
        S: Fn(Vec<SpannedToken>) -> Result<Stmt, GrammarError>,
        E: Fn(Vec<SpannedToken>) -> Result<Expr, GrammarError>,
        requires
            total(*g),
        ensures
            opt_expr_rel(*g, old(self).defs(), x, fuel as nat, m, with_defs(r, final(self).defs())),
            expanded(with_defs(r, final(self).defs())),
        decreases fuel, x,
    {
        match x {
            None => Ok(None),
            Some(e) => {
                let e2 = self.expand_expr(e, g, m, fuel)?;
                Ok(Some(e2))
            },
        }
    }

    /// Expands a statement; see `stmt_rel`.
    fn expand_stmt<P, S, E>(&mut self, stmt: Stmt, g: &Grammar<P, S, E>, m: usize, fuel: usize) -> (r: Result<
        Stmt,
        ParseError,
    >) where
        P: Fn(Vec<SpannedToken>) -> Result<Program, GrammarError>,
        S: Fn(Vec<SpannedToken>) -> Result<Stmt, GrammarError>,
        E: Fn(Vec<SpannedToken>) -> Result<Expr, GrammarError>,
        requires
            total(*g),
        ensures
            stmt_rel(*g, old(self).defs(), stmt, fuel as nat, m, with_defs(r, final(self).defs())),
            expanded(with_defs(r, final(self).defs())),
        decreases fuel, stmt,
    {
        let start = stmt.start;
        let end = stmt.end;
        let node = match stmt.node {
            StmtKind::Assign { name, is_const, type_hint, value } => {
                let value = self.expand_expr(value, g, m, fuel)?;
                StmtKind::Assign { name, is_const, type_hint, value }
            },
            StmtKind::AssignTarget { target, value } => {
                let target = self.expand_expr(target, g, m, fuel)?;
                let value = self.expand_expr(value, g, m, fuel)?;
                StmtKind::AssignTarget { target, value }
            },
            StmtKind::CompoundAssign { target, op, value } => {
                let target = self.expand_expr(target, g, m, fuel)?;
                let value = self.expand_expr(value, g, m, fuel)?;
                StmtKind::CompoundAssign { target, op, value }
            },
            StmtKind::If { condition, then_body, else_body } => {
                let condition = self.expand_expr(condition, g, m, fuel)?;
                let then_body = self.expand_items(then_body, g, m, fuel)?;
                let else_body = self.expand_else(else_body, g, m, fuel)?;
                StmtKind::If { condition, then_body, else_body }
            },
            StmtKind::While { condition, body } => {
                let condition = self.expand_expr(condition, g, m, fuel)?;
                let body = self.expand_items(body, g, m, fuel)?;
                StmtKind::While { condition, body }
            },
            StmtKind::For { variable, init, condition, update, body } => {
                let init = self.expand_expr(init, g, m, fuel)?;
                let condition = self.expand_expr(condition, g, m, fuel)?;
                let update = self.expand_for_update(*update, g, m, fuel)?;
                let body = self.expand_items(body, g, m, fuel)?;
                StmtKind::For { variable, init, condition, update: Box::new(update), body }
            },
            StmtKind::ForEach { variable, iterable, body } => {
                let iterable = self.expand_expr(iterable, g, m, fuel)?;
                let body = self.expand_items(body, g, m, fuel)?;
                StmtKind::ForEach { variable, iterable, body }
            },
            StmtKind::Thread { body } => {
                let body = self.expand_items(body, g, m, fuel)?;
                StmtKind::Thread { body }
            },
            StmtKind::Try { body, handlers } => {
                let handlers = self.expand_handlers(handlers, g, m, fuel)?;
                let body = self.expand_items(body, g, m, fuel)?;
                StmtKind::Try { body, handlers }
            },
            StmtKind::Raise { error_type, message } => {
                let message = self.expand_opt_expr(message, g, m, fuel)?;
                StmtKind::Raise { error_type, message }
            },
            StmtKind::Return(value) => {
                let value = self.expand_opt_expr(value, g, m, fuel)?;
                StmtKind::Return(value)
            },
            StmtKind::Expr(value) => {
                let value = self.expand_expr(value, g, m, fuel)?;
                StmtKind::Expr(value)
            },
        };
        Ok(Spanned { node, start, end })
    }

    /// Expands the `else` part of an `if`.
    fn expand_else<P, S, E>(&mut self, eb: Option<ElseBody>, g: &Grammar<P, S, E>, m: usize, fuel: usize) -> (r: Result<
        Option<ElseBody>,
        ParseError,
    >) where
        P: Fn(Vec<SpannedToken>) -> Result<Program, GrammarError>,
        S: Fn(Vec<SpannedToken>) -> Result<Stmt, GrammarError>,
        E: Fn(Vec<SpannedToken>) -> Result<Expr, GrammarError>,
        requires
            total(*g),
        ensures
            else_rel(*g, old(self).defs(), eb, fuel as nat, m, with_defs(r, final(self).defs())),
            expanded(with_defs(r, final(self).defs())),
        decreases fuel, eb,
    {
        match eb {
            None => Ok(None),
            Some(ElseBody::Block(items, a, b)) => {
                let items = self.expand_items(items, g, m, fuel)?;
                Ok(Some(ElseBody::Block(items, a, b)))
            },
            Some(ElseBody::If(st)) => {
                let s2 = self.expand_stmt(*st, g, m, fuel)?;
                Ok(Some(ElseBody::If(Box::new(s2))))
            },
        }
    }

    /// Expands the bodies of `catch` clauses in order; see `catches_rel`.
    fn expand_handlers<P, S, E>(&mut self, handlers: Vec<Catch>, g: &Grammar<P, S, E>, m: usize, fuel: usize) -> (r: Result<
        Vec<Catch>,
        ParseError,
    >) where
        P: Fn(Vec<SpannedToken>) -> Result<Program, GrammarError>,
        S: Fn(Vec<SpannedToken>) -> Result<Stmt, GrammarError>,
        E: Fn(Vec<SpannedToken>) -> Result<Expr, GrammarError>,
        requires
            total(*g),
        ensures
            catches_rel(*g, old(self).defs(), handlers@, fuel as nat, m, with_defs(r, final(self).defs())),
            expanded(with_defs(r, final(self).defs())),
        decreases fuel, handlers,
    {
        let ghost orig = handlers@;
        let ghost d0 = self.defs();
        let n = handlers.len();
        let mut rest = handlers;
        let mut out: Vec<Catch> = Vec::new();
        let mut k: usize = 0;
        assert(orig.take(0).len() == 0);
        while rest.len() > 0
            invariant
                total(*g),
                orig == handlers@,
                n == orig.len(),
                d0 == old(self).defs(),
                k <= orig.len(),
                rest@ == orig.skip(k as int),
                catches_rel(*g, d0, orig.take(k as int), fuel as nat, m, Ok((out, self.defs()))),
            decreases rest@.len(),
        {
            let h = rest.remove(0);
            let ghost dk = self.defs();
            let ghost prev = out;
            proof {
                assert(h == orig[k as int]);
                assert(decreases_to!(handlers => handlers@));
                assert(decreases_to!(handlers@ => handlers@[k as int]));
            }
            let Catch { pattern, body, start, end } = h;
            let step = self.expand_items(body, g, m, fuel);
            let ghost t = orig.take(k + 1);
            proof {
                assert(t.subrange(0, t.len() - 1) =~= orig.take(k as int));
                assert(t[t.len() - 1] == orig[k as int]);
            }
            match step {
                Ok(body) => {
                    out.push(Catch { pattern, body, start, end });
                    proof {
                        assert(catches_rel(*g, d0, t.subrange(0, t.len() - 1), fuel as nat, m, Ok((prev, dk))));
                        assert(expanded(Ok::<(Vec<Catch>, Seq<MacroDefinition>), ParseError>((prev, dk))));
                        assert(catches_rel(*g, d0, t, fuel as nat, m, Ok((out, self.defs()))));
                        assert(orig.skip(k + 1) =~= rest@);
                    }
                    k = k + 1;
                },
                Err(e) => {
                    proof {
                        assert(catches_rel(*g, d0, t.subrange(0, t.len() - 1), fuel as nat, m, Ok((prev, dk))));
                        assert(expanded(Ok::<(Vec<Catch>, Seq<MacroDefinition>), ParseError>((prev, dk))));
                        assert(catches_rel(*g, d0, t, fuel as nat, m, Err(e)));
                        lemma_catches_error_extends(*g, d0, orig, k + 1, fuel as nat, m, e);
                        assert(with_defs(Err::<Vec<Catch>, ParseError>(e), self.defs()) == Err::<(Vec<Catch>, Seq<MacroDefinition>), ParseError>(e));
                    }
                    return Err(e);
                },
            }
        }
        proof {
            assert(orig.take(k as int) =~= orig);
        }
        Ok(out)
    }

    /// Expands the update clause of a `for` loop; see `update_rel`.
    fn expand_for_update<P, S, E>(&mut self, u: ForUpdate, g: &Grammar<P, S, E>, m: usize, fuel: usize) -> (r: Result<
        ForUpdate,
        ParseError,
    >) where
        P: Fn(Vec<SpannedToken>) -> Result<Program, GrammarError>,
        S: Fn(Vec<SpannedToken>) -> Result<Stmt, GrammarError>,
        E: Fn(Vec<SpannedToken>) -> Result<Expr, GrammarError>,
        requires
            total(*g),
        ensures
            update_rel(*g, old(self).defs(), u, fuel as nat, m, with_defs(r, final(self).defs())),
            expanded(with_defs(r, final(self).defs())),
        decreases fuel, u,
    {
        match u {
            ForUpdate::Assign { name, value, start, end } => {
                let value = self.expand_expr(value, g, m, fuel)?;
                Ok(ForUpdate::Assign { name, value, start, end })
            },
            ForUpdate::AssignTarget { target, value, start, end } => {
                let target = self.expand_expr(target, g, m, fuel)?;
                let value = self.expand_expr(value, g, m, fuel)?;
                Ok(ForUpdate::AssignTarget { target, value, start, end })
            },
            ForUpdate::Compound { target, op, value, start, end } => {
                let target = self.expand_expr(target, g, m, fuel)?;
                let value = self.expand_expr(value, g, m, fuel)?;
                Ok(ForUpdate::Compound { target, op, value, start, end })
            },
            ForUpdate::Expr(value) => {
                let value = self.expand_expr(value, g, m, fuel)?;
                Ok(ForUpdate::Expr(value))
            },
        }
    }

    /// Expands an expression; see `expr_rel`.
    fn expand_expr<P, S, E>(&mut self, x: Expr, g: &Grammar<P, S, E>, m: usize, fuel: usize) -> (r: Result<
        Expr,
        ParseError,
    >) where
        P: Fn(Vec<SpannedToken>) -> Result<Program, GrammarError>,
        S: Fn(Vec<SpannedToken>) -> Result<Stmt, GrammarError>,
        E: Fn(Vec<SpannedToken>) -> Result<Expr, GrammarError>,
        requires
            total(*g),
        ensures
            expr_rel(*g, old(self).defs(), x, fuel as nat, m, with_defs(r, final(self).defs())),
            expanded(with_defs(r, final(self).defs())),
        decreases fuel, x,
    {
        let start = x.start;
        let end = x.end;
        let node = match x.node {
            ExprKind::MacroCall(call) => {
                let tokens = self.expand_call_in(&call, g)?;
                return parse_expr(tokens, g, m, call.start, call.end);
            },
            ExprKind::Binary { op, left, right } => {
                let left = self.expand_expr(*left, g, m, fuel)?;
                let right = self.expand_expr(*right, g, m, fuel)?;
                ExprKind::Binary { op, left: Box::new(left), right: Box::new(right) }
            },
            ExprKind::Unary { op, operand } => {
                let operand = self.expand_expr(*operand, g, m, fuel)?;
                ExprKind::Unary { op, operand: Box::new(operand) }
            },
            ExprKind::FunctionCall { function, args } => {
                let function = self.expand_expr(*function, g, m, fuel)?;
                let args = self.expand_call_args(args, g, m, fuel)?;
                ExprKind::FunctionCall { function: Box::new(function), args }
            },
            ExprKind::MethodCall { object, method, args } => {
                let object = self.expand_expr(*object, g, m, fuel)?;
                let args = self.expand_call_args(args, g, m, fuel)?;
                ExprKind::MethodCall { object: Box::new(object), method, args }
            },
            ExprKind::PropertyAccess { object, property } => {
                let object = self.expand_expr(*object, g, m, fuel)?;
                ExprKind::PropertyAccess { object: Box::new(object), property }
            },
            ExprKind::Index { object, index } => {
                let object = self.expand_expr(*object, g, m, fuel)?;
                let index = self.expand_expr(*index, g, m, fuel)?;
                ExprKind::Index { object: Box::new(object), index: Box::new(index) }
            },
            ExprKind::ObjectCreation { class_name, args } => {
                let args = self.expand_call_args(args, g, m, fuel)?;
                ExprKind::ObjectCreation { class_name, args }
            },
            ExprKind::Lambda { params, body } => match body {
                LambdaBody::Expr(b) => {
                    let b2 = self.expand_expr(*b, g, m, fuel)?;
                    ExprKind::Lambda { params, body: LambdaBody::Expr(Box::new(b2)) }
                },
                LambdaBody::Block(items, a, b) => {
                    let items = self.expand_items(items, g, m, fuel)?;
                    ExprKind::Lambda { params, body: LambdaBody::Block(items, a, b) }
                },
            },
            other => other,
        };
        Ok(Spanned { node, start, end })
    }

    /// Expands call arguments in order; see `args_rel`.
    fn expand_call_args<P, S, E>(&mut self, args: Vec<CallArg>, g: &Grammar<P, S, E>, m: usize, fuel: usize) -> (r: Result<
        Vec<CallArg>,
        ParseError,
    >) where
        P: Fn(Vec<SpannedToken>) -> Result<Program, GrammarError>,
        S: Fn(Vec<SpannedToken>) -> Result<Stmt, GrammarError>,
        E: Fn(Vec<SpannedToken>) -> Result<Expr, GrammarError>,
        requires
            total(*g),
        ensures
            args_rel(*g, old(self).defs(), args@, fuel as nat, m, with_defs(r, final(self).defs())),
            expanded(with_defs(r, final(self).defs())),
        decreases fuel, args,
    {
        let ghost orig = args@;
        let ghost d0 = self.defs();
        let n = args.len();
        let mut rest = args;
        let mut out: Vec<CallArg> = Vec::new();
        let mut k: usize = 0;
        assert(orig.take(0).len() == 0);
        while rest.len() > 0
            invariant
                total(*g),
                orig == args@,
                n == orig.len(),
                d0 == old(self).defs(),
                k <= orig.len(),
                rest@ == orig.skip(k as int),
                args_rel(*g, d0, orig.take(k as int), fuel as nat, m, Ok((out, self.defs()))),
            decreases rest@.len(),
        {
            let a = rest.remove(0);
            let ghost dk = self.defs();
            let ghost prev = out;
            proof {
                assert(a == orig[k as int]);
                assert(decreases_to!(args => args@));
                assert(decreases_to!(args@ => args@[k as int]));
            }
            let CallArg { name, value } = a;
            let step = self.expand_expr(value, g, m, fuel);
            let ghost t = orig.take(k + 1);
            proof {
                assert(t.subrange(0, t.len() - 1) =~= orig.take(k as int));
                assert(t[t.len() - 1] == orig[k as int]);
            }
            match step {
                Ok(value) => {
                    out.push(CallArg { name, value });
                    proof {
                        assert(args_rel(*g, d0, t.subrange(0, t.len() - 1), fuel as nat, m, Ok((prev, dk))));
                        assert(expanded(Ok::<(Vec<CallArg>, Seq<MacroDefinition>), ParseError>((prev, dk))));
                        assert(args_rel(*g, d0, t, fuel as nat, m, Ok((out, self.defs()))));
                        assert(orig.skip(k + 1) =~= rest@);
                    }
                    k = k + 1;
                },
                Err(e) => {
                    proof {
                        assert(args_rel(*g, d0, t.subrange(0, t.len() - 1), fuel as nat, m, Ok((prev, dk))));
                        assert(expanded(Ok::<(Vec<CallArg>, Seq<MacroDefinition>), ParseError>((prev, dk))));
                        assert(args_rel(*g, d0, t, fuel as nat, m, Err(e)));
                        lemma_args_error_extends(*g, d0, orig, k + 1, fuel as nat, m, e);
                        assert(with_defs(Err::<Vec<CallArg>, ParseError>(e), self.defs()) == Err::<(Vec<CallArg>, Seq<MacroDefinition>), ParseError>(e));
                    }
                    return Err(e);
                },
            }
        }
        proof {
            assert(orig.take(k as int) =~= orig);
        }
        Ok(out)
    }
}

/// A program result paired with the definitions in scope after it.
pub open spec fn program_outcome(r: Result<Program, ParseError>, d: Seq<MacroDefinition>) -> Result<
    (Vec<Item>, Seq<MacroDefinition>),
    ParseError,
> {
    match r {
        Ok(p) => Ok((p.items, d)),
        Err(e) => Err(e),
    }
}

impl MacroExpander {
    /// Expands every macro call of `program`, registering the definitions
    /// it meets and leaving them out; see `items_rel`.
    pub fn expand_program<P, S, E>(&mut self, program: Program, g: &Grammar<P, S, E>, m: usize) -> (r: Result<
        Program,
        ParseError,
    >) where
        P: Fn(Vec<SpannedToken>) -> Result<Program, GrammarError>,
        S: Fn(Vec<SpannedToken>) -> Result<Stmt, GrammarError>,
        E: Fn(Vec<SpannedToken>) -> Result<Expr, GrammarError>,
        requires
            total(*g),
        ensures
            items_rel(
                *g,
                old(self).defs(),
                program.items@,
                EXPANSION_DEPTH as nat,
                m,
                program_outcome(r, final(self).defs()),
            ),
            expanded(program_outcome(r, final(self).defs())),
    {
        let items = self.expand_items(program.items, g, m, EXPANSION_DEPTH)?;
        Ok(Program { items })
    }
}

/// The source of `code` after macro expansion, as `format_program` writes
/// it: the program parsed with `grammar`, expanded with the definitions of
/// `expander` and those the program makes.
pub fn macro_expansion_preview<P, S, E>(
    code: &str,
    grammar: &Grammar<P, S, E>,
    module: usize,
    expander: MacroExpander,
) -> (r: Result<String, ParseError>) where
    P: Fn(Vec<SpannedToken>) -> Result<Program, GrammarError>,
    S: Fn(Vec<SpannedToken>) -> Result<Stmt, GrammarError>,
    E: Fn(Vec<SpannedToken>) -> Result<Expr, GrammarError>,
    requires
        total(*grammar),
    ensures
        exists|stream: Seq<SpannedToken>, a: Result<Program, GrammarError>|
            lexes(code@, stream) && #[trigger] program_answer(grammar.program, stream, a) && match a {
                Err(ge) => r matches Err(e) && {
                    let (start, end, msg) = grammar_error_report(code@, ge);
                    is_syntax_error(e, start, end, module, msg)
                },
                Ok(p) => exists|out: Result<(Vec<Item>, Seq<MacroDefinition>), ParseError>|
                    #[trigger] expanded(out) && items_rel(
                        *grammar,
                        expander.defs(),
                        p.items@,
                        EXPANSION_DEPTH as nat,
                        module,
                        out,
                    ) && match out {
                        Err(e) => r == Err::<String, ParseError>(e),
                        Ok((items, _)) => r matches Ok(text) && text@ == show_program(Program { items }),
                    },
            },
{
    let mut expander = expander;
    let program = parse_program(code, grammar, module)?;
    let expanded_program = expander.expand_program(program, grammar, module)?;
    Ok(format_program(&expanded_program))
}

/// The source of a built-in macro with one rule.
pub open spec fn builtin_source(name: Seq<char>, matcher: Seq<char>, template: Seq<char>) -> Seq<char> {
    "macro "@ + name + " { ("@ + matcher + ") => { "@ + template + " }; }"@
}

/// The rules of a built-in macro, each `(matcher, template)` parsed with the
/// grammar as a one-rule definition, or the error for the first that does
/// not give one.
pub open spec fn builtin_rules_rel<P, S, E>(
    g: Grammar<P, S, E>,
    name: Seq<char>,
    rules: Seq<(&str, &str)>,
    out: Result<Vec<MacroRule>, ParseError>,
) -> bool where
    P: Fn(Vec<SpannedToken>) -> Result<Program, GrammarError>,
    S: Fn(Vec<SpannedToken>) -> Result<Stmt, GrammarError>,
    E: Fn(Vec<SpannedToken>) -> Result<Expr, GrammarError>,
    decreases rules.len(),
{
    if rules.len() == 0 {
        out matches Ok(v) && v@.len() == 0
    } else {
        let (matcher, template) = rules[rules.len() - 1];
        let source = builtin_source(name, matcher@, template@);
        let n = byte_len(source);
        exists|pre: Result<Vec<MacroRule>, ParseError>|
            #[trigger] expanded(pre) && builtin_rules_rel(g, name, rules.subrange(0, rules.len() - 1), pre) && match pre {
                Err(e) => out == Err::<Vec<MacroRule>, ParseError>(e),
                Ok(done) => exists|stream: Seq<SpannedToken>, a: Result<Program, GrammarError>|
                    lexes(source, stream) && #[trigger] program_answer(g.program, stream, a) && match a {
                        Err(_) => out matches Err(e) && is_macro_error(
                            e,
                            0,
                            n,
                            "Некорректное объявление встроенного макроса"@,
                        ),
                        Ok(p) => if p.items@.len() == 0 {
                            out matches Err(e) && is_macro_error(e, 0, n, "Пустое объявление встроенного макроса"@)
                        } else {
                            match p.items@[0].node {
                                ItemKind::MacroDefinition(def) => out matches Ok(v) && v@ == done@ + def.rules@,
                                _ => out matches Err(e) && is_macro_error(e, 0, n, "Ожидалось объявление макроса"@),
                            }
                        },
                    },
            }
    }
}

impl MacroExpander {
    /// Registers the macro `name` whose rules are given as `(matcher,
    /// template)` source text, each parsed with the grammar; it shadows any
    /// earlier definition of that name.
    pub fn register_builtin<P, S, E>(&mut self, name: &str, rules: &[(&str, &str)], g: &Grammar<P, S, E>) -> (r: Result<
        (),
        ParseError,
    >) where
        P: Fn(Vec<SpannedToken>) -> Result<Program, GrammarError>,
        S: Fn(Vec<SpannedToken>) -> Result<Stmt, GrammarError>,
        E: Fn(Vec<SpannedToken>) -> Result<Expr, GrammarError>,
        requires
            total(*g),
        ensures
            exists|out: Result<Vec<MacroRule>, ParseError>|
                #[trigger] expanded(out) && builtin_rules_rel(*g, name@, rules@, out) && match out {
                    Err(e) => r == Err::<(), ParseError>(e) && final(self).defs() == old(self).defs(),
                    Ok(v) => r is Ok && final(self).defs() == old(self).defs().push(
                        MacroDefinition { name: final(self).defs().last().name, rules: v },
                    ) && final(self).defs().last().name@ == name@,
                },
    {
        let mut parsed_rules: Vec<MacroRule> = Vec::new();
        let mut i: usize = 0;
        proof {
            assert(rules@.subrange(0, 0).len() == 0);
            assert(expanded(Ok::<Vec<MacroRule>, ParseError>(parsed_rules)));
        }
        while i < rules.len()
            invariant
                total(*g),
                i <= rules@.len(),
                builtin_rules_rel(*g, name@, rules@.subrange(0, i as int), Ok(parsed_rules)),
            decreases rules@.len() - i,
        {
            let (matcher, template) = rules[i];
            let mut source = String::from_str("macro ");
            source.append(name);
            source.append(" { (");
            source.append(matcher);
            source.append(") => { ");
            source.append(template);
            source.append(" }; }");
            let ghost src = source@;
            proof {
                lemma_byte_len_encode(source@);
            }
            let n = source.as_str().as_bytes().len();
            let stream = lex(source.as_str());
            let ghost x = stream;
            let answer = (g.program)(stream);
            let ghost prev = parsed_rules;
            let ghost t = rules@.subrange(0, i + 1);
            proof {
                assert(program_answer(g.program, x@, answer));
                assert(t.subrange(0, t.len() - 1) =~= rules@.subrange(0, i as int));
                assert(t[t.len() - 1] == rules@[i as int]);
                assert(src == builtin_source(name@, matcher@, template@));
                assert(expanded(Ok::<Vec<MacroRule>, ParseError>(prev)));
            }
            let program = match answer {
                Ok(p) => p,
                Err(_) => {
                    let e = macro_error(0, n, String::from_str("Некорректное объявление встроенного макроса"));
                    proof {
                        assert(builtin_rules_rel(*g, name@, t, Err(e)));
                        lemma_builtin_error_extends(*g, name@, rules@, i + 1, e);
                        assert(expanded(Err::<Vec<MacroRule>, ParseError>(e)));
                    }
                    return Err(e);
                },
            };
            let ghost pv = program;
            let mut items = program.items;
            if items.len() == 0 {
                let e = macro_error(0, n, String::from_str("Пустое объявление встроенного макроса"));
                proof {
                    assert(builtin_rules_rel(*g, name@, t, Err(e)));
                    lemma_builtin_error_extends(*g, name@, rules@, i + 1, e);
                    assert(expanded(Err::<Vec<MacroRule>, ParseError>(e)));
                }
                return Err(e);
            }
            let first = items.remove(0);
            match first.node {
                ItemKind::MacroDefinition(definition) => {
                    let ghost dr = definition.rules@;
                    let mut more = definition.rules;
                    parsed_rules.append(&mut more);
                    proof {
                        assert(parsed_rules@ == prev@ + dr);
                        assert(builtin_rules_rel(*g, name@, t, Ok(parsed_rules)));
                    }
                },
                _ => {
                    let e = macro_error(0, n, String::from_str("Ожидалось объявление макроса"));
                    proof {
                        assert(builtin_rules_rel(*g, name@, t, Err(e)));
                        lemma_builtin_error_extends(*g, name@, rules@, i + 1, e);
                        assert(expanded(Err::<Vec<MacroRule>, ParseError>(e)));
                    }
                    return Err(e);
                },
            }
            i = i + 1;
        }
        proof {
            assert(rules@.subrange(0, i as int) =~= rules@);
            assert(expanded(Ok::<Vec<MacroRule>, ParseError>(parsed_rules)));
        }
        self.define(MacroDefinition { name: String::from_str(name), rules: parsed_rules });
        Ok(())
    }
}

proof fn lemma_builtin_error_extends<P, S, E>(
    g: Grammar<P, S, E>,
    name: Seq<char>,
    rules: Seq<(&str, &str)>,
    k: int,
    e: ParseError,
) where
    P: Fn(Vec<SpannedToken>) -> Result<Program, GrammarError>,
    S: Fn(Vec<SpannedToken>) -> Result<Stmt, GrammarError>,
    E: Fn(Vec<SpannedToken>) -> Result<Expr, GrammarError>,
    requires
        0 <= k <= rules.len(),
        builtin_rules_rel(g, name, rules.subrange(0, k), Err(e)),
    ensures
        builtin_rules_rel(g, name, rules, Err(e)),
    decreases rules.len() - k,
{
    if k < rules.len() {
        let t = rules.subrange(0, k + 1);
        assert(t.len() == k + 1);
        assert(t.subrange(0, t.len() - 1) =~= rules.subrange(0, k));
        let pre = Err::<Vec<MacroRule>, ParseError>(e);
        assert(expanded(pre));
        assert(builtin_rules_rel(g, name, t, Err(e)));
        lemma_builtin_error_extends(g, name, rules, k + 1, e);
    } else {
        assert(rules.subrange(0, k) =~= rules);
    }
}

// ---------------------------------------------------------------------------
// What expansion guarantees
// ---------------------------------------------------------------------------

/// No item of `v` is a macro definition.
pub open spec fn no_definitions(v: Seq<Item>) -> bool {
    forall|i: int| 0 <= i < v.len() ==> !(#[trigger] v[i].node is MacroDefinition)
}

/// Expansion leaves no macro definition among the items it returns: each
/// definition is registered and dropped, also among the items a macro call
/// expands to.
pub proof fn lemma_expansion_leaves_no_definitions<P, S, E>(
    g: Grammar<P, S, E>,
    d: Seq<MacroDefinition>,
    ins: Seq<Item>,
    fuel: nat,
    m: usize,
    out: Result<(Vec<Item>, Seq<MacroDefinition>), ParseError>,
) where
    P: Fn(Vec<SpannedToken>) -> Result<Program, GrammarError>,
    S: Fn(Vec<SpannedToken>) -> Result<Stmt, GrammarError>,
    E: Fn(Vec<SpannedToken>) -> Result<Expr, GrammarError>,
    requires
        items_rel(g, d, ins, fuel, m, out),
    ensures
        out matches Ok((v, _)) ==> no_definitions(v@),
    decreases fuel, ins,
{
    if ins.len() > 0 {
        let sub = ins.subrange(0, ins.len() - 1);
        let last = ins[ins.len() - 1];
        let pre = choose|pre: Result<(Vec<Item>, Seq<MacroDefinition>), ParseError>|
            #[trigger] expanded(pre) && items_rel(g, d, ins.subrange(0, ins.len() - 1), fuel, m, pre) && match pre {
                Err(e) => out == Err::<(Vec<Item>, Seq<MacroDefinition>), ParseError>(e),
                Ok((done, d1)) => exists|step: Result<(Vec<Item>, Seq<MacroDefinition>), ParseError>|
                    #[trigger] expanded(step) && item_rel(g, d1, ins[ins.len() - 1], fuel, m, step) && match step {
                        Err(e) => out == Err::<(Vec<Item>, Seq<MacroDefinition>), ParseError>(e),
                        Ok((more, d2)) => out matches Ok((v, d3)) && v@ == done@ + more@ && d3 == d2,
                    },
            };
        lemma_expansion_leaves_no_definitions(g, d, sub, fuel, m, pre);
        if let Ok((done, d1)) = pre {
            let step = choose|step: Result<(Vec<Item>, Seq<MacroDefinition>), ParseError>|
                #[trigger] expanded(step) && item_rel(g, d1, ins[ins.len() - 1], fuel, m, step) && match step {
                    Err(e) => out == Err::<(Vec<Item>, Seq<MacroDefinition>), ParseError>(e),
                    Ok((more, d2)) => out matches Ok((v, d3)) && v@ == done@ + more@ && d3 == d2,
                };
            lemma_item_leaves_no_definitions(g, d1, last, fuel, m, step);
            if let Ok((more, _)) = step {
                if let Ok((v, _)) = out {
                    assert forall|i: int| 0 <= i < v@.len() implies !(#[trigger] v@[i].node is MacroDefinition) by {
                        if i < done@.len() {
                            assert(v@[i] == done@[i]);
                        } else {
                            assert(v@[i] == more@[i - done@.len()]);
                        }
                    }
                }
            }
        }
    }
}

/// The items one item expands to hold no macro definition.
pub proof fn lemma_item_leaves_no_definitions<P, S, E>(
    g: Grammar<P, S, E>,
    d: Seq<MacroDefinition>,
    item: Item,
    fuel: nat,
    m: usize,
    out: Result<(Vec<Item>, Seq<MacroDefinition>), ParseError>,
) where
    P: Fn(Vec<SpannedToken>) -> Result<Program, GrammarError>,
    S: Fn(Vec<SpannedToken>) -> Result<Stmt, GrammarError>,
    E: Fn(Vec<SpannedToken>) -> Result<Expr, GrammarError>,
    requires
        item_rel(g, d, item, fuel, m, out),
    ensures
        out matches Ok((v, _)) ==> no_definitions(v@),
    decreases fuel, item,
{
    match item.node {
        ItemKind::Statement(stmt) => match call_of(*stmt) {
            Some(call) => {
                let cr = choose|cr: Result<Vec<MacroToken>, ParseError>|
                    #[trigger] call_outcome(g, d, call, cr) && match cr {
                        Err(e) => out == Err::<(Vec<Item>, Seq<MacroDefinition>), ParseError>(e),
                        Ok(toks) => exists|a: Result<Program, GrammarError>|
                            #[trigger] program_answer(g.program, statement_stream(toks@), a) && match a {
                                Err(_) => out matches Err(e) && is_syntax_error(
                                    e,
                                    call.start as int,
                                    call.end as int,
                                    m,
                                    items_message(),
                                ),
                                Ok(prog) => if fuel == 0 {
                                    out matches Err(e) && is_syntax_error(
                                        e,
                                        call.start as int,
                                        call.end as int,
                                        m,
                                        depth_message(),
                                    )
                                } else {
                                    items_rel(g, d, prog.items@, (fuel - 1) as nat, m, out)
                                },
                            },
                    };
                if let Ok(toks) = cr {
                    let a = choose|a: Result<Program, GrammarError>|
                        #[trigger] program_answer(g.program, statement_stream(toks@), a) && match a {
                            Err(_) => out matches Err(e) && is_syntax_error(
                                e,
                                call.start as int,
                                call.end as int,
                                m,
                                items_message(),
                            ),
                            Ok(prog) => if fuel == 0 {
                                out matches Err(e) && is_syntax_error(
                                    e,
                                    call.start as int,
                                    call.end as int,
                                    m,
                                    depth_message(),
                                )
                            } else {
                                items_rel(g, d, prog.items@, (fuel - 1) as nat, m, out)
                            },
                        };
                    if let Ok(prog) = a {
                        if fuel > 0 {
                            lemma_expansion_leaves_no_definitions(g, d, prog.items@, (fuel - 1) as nat, m, out);
                        }
                    }
                }
            },
            None => {},
        },
        _ => {},
    }
}

/// No macro call or definition occurs in `ins`, where expansion looks.
pub open spec fn macro_free_items(ins: Seq<Item>) -> bool
    decreases ins,
{
    ins.len() == 0 || (macro_free_items(ins.subrange(0, ins.len() - 1)) && macro_free_item(ins[ins.len() - 1]))
}

/// No macro call or definition occurs in `item`, where expansion looks.
pub open spec fn macro_free_item(item: Item) -> bool
    decreases item,
{
    match item.node {
        ItemKind::MacroDefinition(_) => false,
        ItemKind::Function(f) => macro_free_items(f.body@),
        ItemKind::Class(c) => macro_free_class_items(c.items@),
        ItemKind::Statement(s) => macro_free_stmt(*s),
        _ => true,
    }
}

/// No macro call or definition occurs in the class members `ins`.
pub open spec fn macro_free_class_items(ins: Seq<ClassItem>) -> bool
    decreases ins,
{
    ins.len() == 0 || (macro_free_class_items(ins.subrange(0, ins.len() - 1)) && match ins[ins.len() - 1].node {
        ClassItemKind::Constructor(meth) => macro_free_items(meth.body@),
        ClassItemKind::Method(meth) => macro_free_items(meth.body@),
        ClassItemKind::Field(f) => macro_free_opt(f.default_value),
    })
}

/// No macro call occurs in `x`, if present.
pub open spec fn macro_free_opt(x: Option<Expr>) -> bool
    decreases x,
{
    match x {
        None => true,
        Some(e) => macro_free_expr(e),
    }
}

/// No macro call or definition occurs in `s`.
pub open spec fn macro_free_stmt(s: Stmt) -> bool
    decreases s,
{
    match s.node {
        StmtKind::Assign { value, .. } => macro_free_expr(value),
        StmtKind::AssignTarget { target, value } => macro_free_expr(target) && macro_free_expr(value),
        StmtKind::CompoundAssign { target, value, .. } => macro_free_expr(target) && macro_free_expr(value),
        StmtKind::If { condition, then_body, else_body } => macro_free_expr(condition) && macro_free_items(then_body@)
            && match else_body {
            None => true,
            Some(ElseBody::Block(items, _, _)) => macro_free_items(items@),
            Some(ElseBody::If(st)) => macro_free_stmt(*st),
        },
        StmtKind::While { condition, body } => macro_free_expr(condition) && macro_free_items(body@),
        StmtKind::For { init, condition, update, body, .. } => macro_free_expr(init) && macro_free_expr(condition)
            && match *update {
            ForUpdate::Assign { value, .. } => macro_free_expr(value),
            ForUpdate::AssignTarget { target, value, .. } => macro_free_expr(target) && macro_free_expr(value),
            ForUpdate::Compound { target, value, .. } => macro_free_expr(target) && macro_free_expr(value),
            ForUpdate::Expr(value) => macro_free_expr(value),
        } && macro_free_items(body@),
        StmtKind::ForEach { iterable, body, .. } => macro_free_expr(iterable) && macro_free_items(body@),
        StmtKind::Thread { body } => macro_free_items(body@),
        StmtKind::Try { body, handlers } => macro_free_catches(handlers@) && macro_free_items(body@),
        StmtKind::Raise { message, .. } => macro_free_opt(message),
        StmtKind::Return(value) => macro_free_opt(value),
        StmtKind::Expr(value) => macro_free_expr(value),
    }
}

/// No macro call or definition occurs in the bodies of `hs`.
pub open spec fn macro_free_catches(hs: Seq<Catch>) -> bool
    decreases hs,
{
    hs.len() == 0 || (macro_free_catches(hs.subrange(0, hs.len() - 1)) && macro_free_items(hs[hs.len() - 1].body@))
}

/// No macro call occurs in `x`, where expansion looks.
pub open spec fn macro_free_expr(x: Expr) -> bool
    decreases x,
{
    match x.node {
        ExprKind::MacroCall(_) => false,
        ExprKind::Binary { left, right, .. } => macro_free_expr(*left) && macro_free_expr(*right),
        ExprKind::Unary { operand, .. } => macro_free_expr(*operand),
        ExprKind::FunctionCall { function, args } => macro_free_expr(*function) && macro_free_args(args@),
        ExprKind::MethodCall { object, args, .. } => macro_free_expr(*object) && macro_free_args(args@),
        ExprKind::PropertyAccess { object, .. } => macro_free_expr(*object),
        ExprKind::Index { object, index } => macro_free_expr(*object) && macro_free_expr(*index),
        ExprKind::ObjectCreation { args, .. } => macro_free_args(args@),
        ExprKind::Lambda { body, .. } => match body {
            LambdaBody::Expr(b) => macro_free_expr(*b),
            LambdaBody::Block(items, _, _) => macro_free_items(items@),
        },
        _ => true,
    }
}

/// No macro call occurs in the values of `args`.
pub open spec fn macro_free_args(args: Seq<CallArg>) -> bool
    decreases args,
{
    args.len() == 0 || (macro_free_args(args.subrange(0, args.len() - 1)) && macro_free_expr(args[args.len() - 1].value))
}


/// `a` and `b` are the same items, lists compared by their contents.
pub open spec fn same_items(a: Seq<Item>, b: Seq<Item>) -> bool
    decreases a,
{
    a.len() == b.len() && (a.len() == 0 || (same_items(a.subrange(0, a.len() - 1), b.subrange(0, b.len() - 1))
        && same_item(a[a.len() - 1], b[b.len() - 1])))
}

/// `a` and `b` are the same item, lists compared by their contents.
pub open spec fn same_item(a: Item, b: Item) -> bool
    decreases a,
{
    a.start == b.start && a.end == b.end && match a.node {
        ItemKind::Function(f) => match b.node {
            ItemKind::Function(h) => f.name == h.name && f.params == h.params && f.return_type == h.return_type
                && same_items(f.body@, h.body@),
            _ => false,
        },
        ItemKind::Class(c) => match b.node {
            ItemKind::Class(k) => c.name == k.name && c.base == k.base && same_class_items(c.items@, k.items@),
            _ => false,
        },
        ItemKind::Statement(st) => match b.node {
            ItemKind::Statement(t) => same_stmt(*st, *t),
            _ => false,
        },
        _ => a.node == b.node,
    }
}

/// `a` and `b` are the same class members, lists compared by their
/// contents.
pub open spec fn same_class_items(a: Seq<ClassItem>, b: Seq<ClassItem>) -> bool
    decreases a,
{
    a.len() == b.len() && (a.len() == 0 || (same_class_items(a.subrange(0, a.len() - 1), b.subrange(0, b.len() - 1))
        && same_class_item(a[a.len() - 1], b[b.len() - 1])))
}

/// `a` and `b` are the same class member.
pub open spec fn same_class_item(a: ClassItem, b: ClassItem) -> bool
    decreases a,
{
    a.start == b.start && a.end == b.end && match a.node {
        ClassItemKind::Constructor(x) => match b.node {
            ClassItemKind::Constructor(y) => x.visibility == y.visibility && x.is_static == y.is_static && x.name
                == y.name && x.params == y.params && x.return_type == y.return_type && same_items(x.body@, y.body@),
            _ => false,
        },
        ClassItemKind::Method(x) => match b.node {
            ClassItemKind::Method(y) => x.visibility == y.visibility && x.is_static == y.is_static && x.name == y.name
                && x.params == y.params && x.return_type == y.return_type && same_items(x.body@, y.body@),
            _ => false,
        },
        ClassItemKind::Field(x) => match b.node {
            ClassItemKind::Field(y) => x.visibility == y.visibility && x.is_static == y.is_static && x.name == y.name
                && x.field_type == y.field_type && same_opt(x.default_value, y.default_value),
            _ => false,
        },
    }
}

/// `a` and `b` are both absent or the same expression.
pub open spec fn same_opt(a: Option<Expr>, b: Option<Expr>) -> bool
    decreases a,
{
    match a {
        None => b is None,
        Some(x) => match b {
            Some(y) => same_expr(x, y),
            None => false,
        },
    }
}

/// `a` and `b` are the same statement, lists compared by their contents.
pub open spec fn same_stmt(a: Stmt, b: Stmt) -> bool
    decreases a,
{
    a.start == b.start && a.end == b.end && match a.node {
        StmtKind::Assign { name, is_const, type_hint, value } => match b.node {
            StmtKind::Assign { name: n2, is_const: c2, type_hint: t2, value: v2 } => name == n2 && is_const == c2
                && type_hint == t2 && same_expr(value, v2),
            _ => false,
        },
        StmtKind::AssignTarget { target, value } => match b.node {
            StmtKind::AssignTarget { target: t2, value: v2 } => same_expr(target, t2) && same_expr(value, v2),
            _ => false,
        },
        StmtKind::CompoundAssign { target, op, value } => match b.node {
            StmtKind::CompoundAssign { target: t2, op: o2, value: v2 } => op == o2 && same_expr(target, t2)
                && same_expr(value, v2),
            _ => false,
        },
        StmtKind::If { condition, then_body, else_body } => match b.node {
            StmtKind::If { condition: c2, then_body: t2, else_body: e2 } => same_expr(condition, c2) && same_items(
                then_body@,
                t2@,
            ) && same_else(else_body, e2),
            _ => false,
        },
        StmtKind::While { condition, body } => match b.node {
            StmtKind::While { condition: c2, body: b2 } => same_expr(condition, c2) && same_items(body@, b2@),
            _ => false,
        },
        StmtKind::For { variable, init, condition, update, body } => match b.node {
            StmtKind::For { variable: x2, init: i2, condition: c2, update: u2, body: b2 } => variable == x2
                && same_expr(init, i2) && same_expr(condition, c2) && same_update(*update, *u2) && same_items(
                body@,
                b2@,
            ),
            _ => false,
        },
        StmtKind::ForEach { variable, iterable, body } => match b.node {
            StmtKind::ForEach { variable: x2, iterable: i2, body: b2 } => variable == x2 && same_expr(iterable, i2)
                && same_items(body@, b2@),
            _ => false,
        },
        StmtKind::Thread { body } => match b.node {
            StmtKind::Thread { body: b2 } => same_items(body@, b2@),
            _ => false,
        },
        StmtKind::Try { body, handlers } => match b.node {
            StmtKind::Try { body: b2, handlers: h2 } => same_items(body@, b2@) && same_catches(handlers@, h2@),
            _ => false,
        },
        StmtKind::Raise { error_type, message } => match b.node {
            StmtKind::Raise { error_type: t2, message: m2 } => error_type == t2 && same_opt(message, m2),
            _ => false,
        },
        StmtKind::Return(value) => match b.node {
            StmtKind::Return(v2) => same_opt(value, v2),
            _ => false,
        },
        StmtKind::Expr(value) => match b.node {
            StmtKind::Expr(v2) => same_expr(value, v2),
            _ => false,
        },
    }
}

/// `a` and `b` are the same `else` part.
pub open spec fn same_else(a: Option<ElseBody>, b: Option<ElseBody>) -> bool
    decreases a,
{
    match a {
        None => b is None,
        Some(ElseBody::Block(items, s, e)) => match b {
            Some(ElseBody::Block(i2, s2, e2)) => s == s2 && e == e2 && same_items(items@, i2@),
            _ => false,
        },
        Some(ElseBody::If(st)) => match b {
            Some(ElseBody::If(t)) => same_stmt(*st, *t),
            _ => false,
        },
    }
}

/// `a` and `b` are the same `catch` clauses.
pub open spec fn same_catches(a: Seq<Catch>, b: Seq<Catch>) -> bool
    decreases a,
{
    a.len() == b.len() && (a.len() == 0 || (same_catches(a.subrange(0, a.len() - 1), b.subrange(0, b.len() - 1)) && {
        let x = a[a.len() - 1];
        let y = b[b.len() - 1];
        x.pattern == y.pattern && x.start == y.start && x.end == y.end && same_items(x.body@, y.body@)
    }))
}

/// `a` and `b` are the same `for` update clause.
pub open spec fn same_update(a: ForUpdate, b: ForUpdate) -> bool
    decreases a,
{
    match a {
        ForUpdate::Assign { name, value, start, end } => match b {
            ForUpdate::Assign { name: n2, value: v2, start: s2, end: e2 } => name == n2 && start == s2 && end == e2
                && same_expr(value, v2),
            _ => false,
        },
        ForUpdate::AssignTarget { target, value, start, end } => match b {
            ForUpdate::AssignTarget { target: t2, value: v2, start: s2, end: e2 } => start == s2 && end == e2
                && same_expr(target, t2) && same_expr(value, v2),
            _ => false,
        },
        ForUpdate::Compound { target, op, value, start, end } => match b {
            ForUpdate::Compound { target: t2, op: o2, value: v2, start: s2, end: e2 } => op == o2 && start == s2 && end
                == e2 && same_expr(target, t2) && same_expr(value, v2),
            _ => false,
        },
        ForUpdate::Expr(value) => match b {
            ForUpdate::Expr(v2) => same_expr(value, v2),
            _ => false,
        },
    }
}

/// `a` and `b` are the same expression, lists compared by their contents.
pub open spec fn same_expr(a: Expr, b: Expr) -> bool
    decreases a,
{
    a.start == b.start && a.end == b.end && match a.node {
        ExprKind::Binary { op, left, right } => match b.node {
            ExprKind::Binary { op: o2, left: l2, right: r2 } => op == o2 && same_expr(*left, *l2) && same_expr(
                *right,
                *r2,
            ),
            _ => false,
        },
        ExprKind::Unary { op, operand } => match b.node {
            ExprKind::Unary { op: o2, operand: x2 } => op == o2 && same_expr(*operand, *x2),
            _ => false,
        },
        ExprKind::FunctionCall { function, args } => match b.node {
            ExprKind::FunctionCall { function: f2, args: a2 } => same_expr(*function, *f2) && same_args(args@, a2@),
            _ => false,
        },
        ExprKind::MethodCall { object, method, args } => match b.node {
            ExprKind::MethodCall { object: o2, method: m2, args: a2 } => method == m2 && same_expr(*object, *o2)
                && same_args(args@, a2@),
            _ => false,
        },
        ExprKind::PropertyAccess { object, property } => match b.node {
            ExprKind::PropertyAccess { object: o2, property: p2 } => property == p2 && same_expr(*object, *o2),
            _ => false,
        },
        ExprKind::Index { object, index } => match b.node {
            ExprKind::Index { object: o2, index: i2 } => same_expr(*object, *o2) && same_expr(*index, *i2),
            _ => false,
        },
        ExprKind::ObjectCreation { class_name, args } => match b.node {
            ExprKind::ObjectCreation { class_name: c2, args: a2 } => class_name == c2 && same_args(args@, a2@),
            _ => false,
        },
        ExprKind::Lambda { params, body } => match b.node {
            ExprKind::Lambda { params: p2, body: b2 } => params == p2 && match body {
                LambdaBody::Expr(x) => match b2 {
                    LambdaBody::Expr(y) => same_expr(*x, *y),
                    _ => false,
                },
                LambdaBody::Block(items, s, e) => match b2 {
                    LambdaBody::Block(i2, s2, e2) => s == s2 && e == e2 && same_items(items@, i2@),
                    _ => false,
                },
            },
            _ => false,
        },
        _ => a.node == b.node,
    }
}

/// `a` and `b` are the same call arguments.
pub open spec fn same_args(a: Seq<CallArg>, b: Seq<CallArg>) -> bool
    decreases a,
{
    a.len() == b.len() && (a.len() == 0 || (same_args(a.subrange(0, a.len() - 1), b.subrange(0, b.len() - 1)) && {
        let x = a[a.len() - 1];
        let y = b[b.len() - 1];
        x.name == y.name && same_expr(x.value, y.value)
    }))
}

/// Expansion leaves items without macro calls or definitions as they are,
/// and registers no definition.
pub proof fn lemma_expansion_keeps_macro_free_items<P, S, E>(
    g: Grammar<P, S, E>,
    d: Seq<MacroDefinition>,
    ins: Seq<Item>,
    fuel: nat,
    m: usize,
    out: Result<(Vec<Item>, Seq<MacroDefinition>), ParseError>,
) where
    P: Fn(Vec<SpannedToken>) -> Result<Program, GrammarError>,
    S: Fn(Vec<SpannedToken>) -> Result<Stmt, GrammarError>,
    E: Fn(Vec<SpannedToken>) -> Result<Expr, GrammarError>,
    requires
        macro_free_items(ins),
        items_rel(g, d, ins, fuel, m, out),
    ensures
        out matches Ok((v, d1)) && same_items(v@, ins) && d1 == d,
{
    lemma_items_identity(g, d, ins, fuel, m);
    assert(expanded(out));
}

/// Expanding an expression without macro calls gives it back, the
/// definitions unchanged.
pub proof fn lemma_expr_identity<P, S, E>(g: Grammar<P, S, E>, d: Seq<MacroDefinition>, x: Expr, fuel: nat, m: usize) where
    P: Fn(Vec<SpannedToken>) -> Result<Program, GrammarError>,
    S: Fn(Vec<SpannedToken>) -> Result<Stmt, GrammarError>,
    E: Fn(Vec<SpannedToken>) -> Result<Expr, GrammarError>,
    requires
        macro_free_expr(x),
    ensures
        forall|o: Result<(Expr, Seq<MacroDefinition>), ParseError>|
            #[trigger] expanded(o) && expr_rel(g, d, x, fuel, m, o) ==> (o matches Ok((y, d1)) && same_expr(y, x) && d1 == d),
    decreases x,
{
    match x.node {
        ExprKind::Binary { left, right, .. } => {
            lemma_expr_identity(g, d, *left, fuel, m);
            lemma_expr_identity(g, d, *right, fuel, m);
        },
        ExprKind::Unary { operand, .. } => {
            lemma_expr_identity(g, d, *operand, fuel, m);
        },
        ExprKind::FunctionCall { function, args } => {
            lemma_expr_identity(g, d, *function, fuel, m);
            lemma_args_identity(g, d, args@, fuel, m);
        },
        ExprKind::MethodCall { object, args, .. } => {
            lemma_expr_identity(g, d, *object, fuel, m);
            lemma_args_identity(g, d, args@, fuel, m);
        },
        ExprKind::PropertyAccess { object, .. } => {
            lemma_expr_identity(g, d, *object, fuel, m);
        },
        ExprKind::Index { object, index } => {
            lemma_expr_identity(g, d, *object, fuel, m);
            lemma_expr_identity(g, d, *index, fuel, m);
        },
        ExprKind::ObjectCreation { args, .. } => {
            lemma_args_identity(g, d, args@, fuel, m);
        },
        ExprKind::Lambda { body, .. } => match body {
            LambdaBody::Expr(b) => {
                lemma_expr_identity(g, d, *b, fuel, m);
            },
            LambdaBody::Block(items, _, _) => {
                lemma_items_identity(g, d, items@, fuel, m);
            },
        },
        _ => {},
    }
}

/// Expanding call arguments without macro calls gives them back.
pub proof fn lemma_args_identity<P, S, E>(g: Grammar<P, S, E>, d: Seq<MacroDefinition>, args: Seq<CallArg>, fuel: nat, m: usize) where
    P: Fn(Vec<SpannedToken>) -> Result<Program, GrammarError>,
    S: Fn(Vec<SpannedToken>) -> Result<Stmt, GrammarError>,
    E: Fn(Vec<SpannedToken>) -> Result<Expr, GrammarError>,
    requires
        macro_free_args(args),
    ensures
        forall|o: Result<(Vec<CallArg>, Seq<MacroDefinition>), ParseError>|
            #[trigger] expanded(o) && args_rel(g, d, args, fuel, m, o) ==> (o matches Ok((v, d1)) && same_args(v@, args) && d1 == d),
    decreases args,
{
    if args.len() > 0 {
        let sub = args.subrange(0, args.len() - 1);
        let a = args[args.len() - 1];
        lemma_args_identity(g, d, sub, fuel, m);
        lemma_expr_identity(g, d, a.value, fuel, m);
        assert forall|done: Seq<CallArg>, x: CallArg|
            same_args(done, sub) && x.name == a.name && same_expr(x.value, a.value) implies #[trigger] same_args(
            done.push(x),
            args,
        ) by {
            assert(done.push(x).subrange(0, done.len() as int) =~= done);
            assert(args.subrange(0, args.len() - 1) =~= sub);
        }
    }
}

/// Expanding items without macro calls or definitions gives them back.
pub proof fn lemma_items_identity<P, S, E>(g: Grammar<P, S, E>, d: Seq<MacroDefinition>, ins: Seq<Item>, fuel: nat, m: usize) where
    P: Fn(Vec<SpannedToken>) -> Result<Program, GrammarError>,
    S: Fn(Vec<SpannedToken>) -> Result<Stmt, GrammarError>,
    E: Fn(Vec<SpannedToken>) -> Result<Expr, GrammarError>,
    requires
        macro_free_items(ins),
    ensures
        forall|o: Result<(Vec<Item>, Seq<MacroDefinition>), ParseError>|
            #[trigger] expanded(o) && items_rel(g, d, ins, fuel, m, o) ==> (o matches Ok((v, d1)) && same_items(v@, ins) && d1 == d),
    decreases ins,
{
    if ins.len() > 0 {
        let sub = ins.subrange(0, ins.len() - 1);
        lemma_items_identity(g, d, sub, fuel, m);
        lemma_item_identity(g, d, ins[ins.len() - 1], fuel, m);
        assert forall|done: Seq<Item>, more: Seq<Item>|
            same_items(done, sub) && more.len() == 1 && same_item(more[0], ins[ins.len() - 1]) implies #[trigger] same_items(
            done + more,
            ins,
        ) by {
            assert((done + more).subrange(0, done.len() as int) =~= done);
            assert((done + more)[done.len() as int] == more[0]);
        }
    }
}

/// Expanding an item without macro calls or definitions gives it back.
pub proof fn lemma_item_identity<P, S, E>(g: Grammar<P, S, E>, d: Seq<MacroDefinition>, item: Item, fuel: nat, m: usize) where
    P: Fn(Vec<SpannedToken>) -> Result<Program, GrammarError>,
    S: Fn(Vec<SpannedToken>) -> Result<Stmt, GrammarError>,
    E: Fn(Vec<SpannedToken>) -> Result<Expr, GrammarError>,
    requires
        macro_free_item(item),
    ensures
        forall|o: Result<(Vec<Item>, Seq<MacroDefinition>), ParseError>|
            #[trigger] expanded(o) && item_rel(g, d, item, fuel, m, o) ==> (o matches Ok((v, d1)) && v@.len() == 1 && same_item(v@[0], item) && d1 == d),
    decreases item,
{
    match item.node {
        ItemKind::Function(f) => {
            lemma_items_identity(g, d, f.body@, fuel, m);
            assert forall|body: Vec<Item>| same_items(body@, f.body@) implies #[trigger] same_item(
                Spanned {
                    node: ItemKind::Function(
                        Function { name: f.name, params: f.params, return_type: f.return_type, body },
                    ),
                    start: item.start,
                    end: item.end,
                },
                item,
            ) by {}
        },
        ItemKind::Class(c) => {
            lemma_class_items_identity(g, d, c.items@, fuel, m);
            assert forall|members: Vec<ClassItem>| same_class_items(members@, c.items@) implies #[trigger] same_item(
                Spanned {
                    node: ItemKind::Class(Class { name: c.name, base: c.base, items: members }),
                    start: item.start,
                    end: item.end,
                },
                item,
            ) by {}
        },
        ItemKind::Statement(st) => {
            lemma_stmt_identity(g, d, *st, fuel, m);
            assert(macro_free_stmt(*st));
            if let StmtKind::Expr(e) = st.node {
                assert(macro_free_expr(e));
            }
            assert(call_of(*st) is None);
            assert forall|s2: Stmt| same_stmt(s2, *st) implies #[trigger] same_item(
                Spanned { node: ItemKind::Statement(Box::new(s2)), start: item.start, end: item.end },
                item,
            ) by {}
        },
        _ => {
            assert(same_item(item, item));
        },
    }
}

/// Expanding class members without macro calls or definitions gives them
/// back.
pub proof fn lemma_class_items_identity<P, S, E>(
    g: Grammar<P, S, E>,
    d: Seq<MacroDefinition>,
    ins: Seq<ClassItem>,
    fuel: nat,
    m: usize,
) where
    P: Fn(Vec<SpannedToken>) -> Result<Program, GrammarError>,
    S: Fn(Vec<SpannedToken>) -> Result<Stmt, GrammarError>,
    E: Fn(Vec<SpannedToken>) -> Result<Expr, GrammarError>,
    requires
        macro_free_class_items(ins),
    ensures
        forall|o: Result<(Vec<ClassItem>, Seq<MacroDefinition>), ParseError>|
            #[trigger] expanded(o) && class_items_rel(g, d, ins, fuel, m, o) ==> (o matches Ok((v, d1))
                && same_class_items(v@, ins) && d1 == d),
    decreases ins,
{
    if ins.len() > 0 {
        let sub = ins.subrange(0, ins.len() - 1);
        let ci = ins[ins.len() - 1];
        lemma_class_items_identity(g, d, sub, fuel, m);
        assert forall|done: Seq<ClassItem>, x: ClassItem|
            same_class_items(done, sub) && same_class_item(x, ci) implies #[trigger] same_class_items(done.push(x), ins) by {
            assert(done.push(x).subrange(0, done.len() as int) =~= done);
        }
        lemma_class_item_identity(g, d, ci, fuel, m);
    }
}

/// Expanding a class member without macro calls or definitions gives it
/// back.
pub proof fn lemma_class_item_identity<P, S, E>(g: Grammar<P, S, E>, d: Seq<MacroDefinition>, ci: ClassItem, fuel: nat, m: usize) where
    P: Fn(Vec<SpannedToken>) -> Result<Program, GrammarError>,
    S: Fn(Vec<SpannedToken>) -> Result<Stmt, GrammarError>,
    E: Fn(Vec<SpannedToken>) -> Result<Expr, GrammarError>,
    requires
        match ci.node {
            ClassItemKind::Constructor(meth) => macro_free_items(meth.body@),
            ClassItemKind::Method(meth) => macro_free_items(meth.body@),
            ClassItemKind::Field(f) => macro_free_opt(f.default_value),
        },
    ensures
        forall|o: Result<(ClassItem, Seq<MacroDefinition>), ParseError>|
            #[trigger] expanded(o) && class_item_rel(g, d, ci, fuel, m, o) ==> (o matches Ok((x, d1)) && same_class_item(x, ci)
                && d1 == d),
    decreases ci,
{
    match ci.node {
        ClassItemKind::Constructor(meth) => {
            lemma_items_identity(g, d, meth.body@, fuel, m);
            assert forall|body: Vec<Item>| same_items(body@, meth.body@) implies #[trigger] same_class_item(
                Spanned {
                    node: ClassItemKind::Constructor(
                        ClassMethod {
                            visibility: meth.visibility,
                            is_static: meth.is_static,
                            name: meth.name,
                            params: meth.params,
                            return_type: meth.return_type,
                            body,
                        },
                    ),
                    start: ci.start,
                    end: ci.end,
                },
                ci,
            ) by {}
        },
        ClassItemKind::Method(meth) => {
            lemma_items_identity(g, d, meth.body@, fuel, m);
            assert forall|body: Vec<Item>| same_items(body@, meth.body@) implies #[trigger] same_class_item(
                Spanned {
                    node: ClassItemKind::Method(
                        ClassMethod {
                            visibility: meth.visibility,
                            is_static: meth.is_static,
                            name: meth.name,
                            params: meth.params,
                            return_type: meth.return_type,
                            body,
                        },
                    ),
                    start: ci.start,
                    end: ci.end,
                },
                ci,
            ) by {}
        },
        ClassItemKind::Field(f) => {
            lemma_opt_identity(g, d, f.default_value, fuel, m);
            assert forall|value: Option<Expr>| same_opt(value, f.default_value) implies #[trigger] same_class_item(
                Spanned {
                    node: ClassItemKind::Field(
                        ClassField {
                            visibility: f.visibility,
                            is_static: f.is_static,
                            name: f.name,
                            field_type: f.field_type,
                            default_value: value,
                        },
                    ),
                    start: ci.start,
                    end: ci.end,
                },
                ci,
            ) by {}
        },
    }
}

/// Expanding an optional expression without macro calls gives it back.
pub proof fn lemma_opt_identity<P, S, E>(g: Grammar<P, S, E>, d: Seq<MacroDefinition>, x: Option<Expr>, fuel: nat, m: usize) where
    P: Fn(Vec<SpannedToken>) -> Result<Program, GrammarError>,
    S: Fn(Vec<SpannedToken>) -> Result<Stmt, GrammarError>,
    E: Fn(Vec<SpannedToken>) -> Result<Expr, GrammarError>,
    requires
        macro_free_opt(x),
    ensures
        forall|o: Result<(Option<Expr>, Seq<MacroDefinition>), ParseError>|
            #[trigger] expanded(o) && opt_expr_rel(g, d, x, fuel, m, o) ==> (o matches Ok((y, d1)) && same_opt(y, x) && d1 == d),
    decreases x,
{
    if let Some(e) = x {
        lemma_expr_identity(g, d, e, fuel, m);
    }
}

/// Expanding `catch` clauses without macro calls or definitions gives them
/// back.
pub proof fn lemma_catches_identity<P, S, E>(g: Grammar<P, S, E>, d: Seq<MacroDefinition>, hs: Seq<Catch>, fuel: nat, m: usize) where
    P: Fn(Vec<SpannedToken>) -> Result<Program, GrammarError>,
    S: Fn(Vec<SpannedToken>) -> Result<Stmt, GrammarError>,
    E: Fn(Vec<SpannedToken>) -> Result<Expr, GrammarError>,
    requires
        macro_free_catches(hs),
    ensures
        forall|o: Result<(Vec<Catch>, Seq<MacroDefinition>), ParseError>|
            #[trigger] expanded(o) && catches_rel(g, d, hs, fuel, m, o) ==> (o matches Ok((v, d1)) && same_catches(v@, hs) && d1 == d),
    decreases hs,
{
    if hs.len() > 0 {
        let sub = hs.subrange(0, hs.len() - 1);
        let h = hs[hs.len() - 1];
        lemma_catches_identity(g, d, sub, fuel, m);
        lemma_items_identity(g, d, h.body@, fuel, m);
        assert forall|done: Seq<Catch>, x: Catch|
            same_catches(done, sub) && x.pattern == h.pattern && x.start == h.start && x.end == h.end && same_items(
                x.body@,
                h.body@,
            ) implies #[trigger] same_catches(done.push(x), hs) by {
            assert(done.push(x).subrange(0, done.len() as int) =~= done);
        }
    }
}

/// Expanding a statement without macro calls or definitions gives it back.
pub proof fn lemma_stmt_identity<P, S, E>(g: Grammar<P, S, E>, d: Seq<MacroDefinition>, s: Stmt, fuel: nat, m: usize) where
    P: Fn(Vec<SpannedToken>) -> Result<Program, GrammarError>,
    S: Fn(Vec<SpannedToken>) -> Result<Stmt, GrammarError>,
    E: Fn(Vec<SpannedToken>) -> Result<Expr, GrammarError>,
    requires
        macro_free_stmt(s),
    ensures
        forall|o: Result<(Stmt, Seq<MacroDefinition>), ParseError>|
            #[trigger] expanded(o) && stmt_rel(g, d, s, fuel, m, o) ==> (o matches Ok((y, d1)) && same_stmt(y, s) && d1 == d),
    decreases s,
{
    match s.node {
        StmtKind::Assign { value, .. } => {
            lemma_expr_identity(g, d, value, fuel, m);
        },
        StmtKind::AssignTarget { target, value } => {
            lemma_expr_identity(g, d, target, fuel, m);
            lemma_expr_identity(g, d, value, fuel, m);
        },
        StmtKind::CompoundAssign { target, value, .. } => {
            lemma_expr_identity(g, d, target, fuel, m);
            lemma_expr_identity(g, d, value, fuel, m);
        },
        StmtKind::If { condition, then_body, else_body } => {
            lemma_expr_identity(g, d, condition, fuel, m);
            lemma_items_identity(g, d, then_body@, fuel, m);
            match else_body {
                None => {},
                Some(ElseBody::Block(items, _, _)) => {
                    lemma_items_identity(g, d, items@, fuel, m);
                },
                Some(ElseBody::If(st)) => {
                    lemma_stmt_identity(g, d, *st, fuel, m);
                },
            }
        },
        StmtKind::While { condition, body } => {
            lemma_expr_identity(g, d, condition, fuel, m);
            lemma_items_identity(g, d, body@, fuel, m);
        },
        StmtKind::For { init, condition, update, body, .. } => {
            lemma_expr_identity(g, d, init, fuel, m);
            lemma_expr_identity(g, d, condition, fuel, m);
            match *update {
                ForUpdate::Assign { value, .. } => {
                    lemma_expr_identity(g, d, value, fuel, m);
                },
                ForUpdate::AssignTarget { target, value, .. } => {
                    lemma_expr_identity(g, d, target, fuel, m);
                    lemma_expr_identity(g, d, value, fuel, m);
                },
                ForUpdate::Compound { target, value, .. } => {
                    lemma_expr_identity(g, d, target, fuel, m);
                    lemma_expr_identity(g, d, value, fuel, m);
                },
                ForUpdate::Expr(value) => {
                    lemma_expr_identity(g, d, value, fuel, m);
                },
            }
            lemma_items_identity(g, d, body@, fuel, m);
        },
        StmtKind::ForEach { iterable, body, .. } => {
            lemma_expr_identity(g, d, iterable, fuel, m);
            lemma_items_identity(g, d, body@, fuel, m);
        },
        StmtKind::Thread { body } => {
            lemma_items_identity(g, d, body@, fuel, m);
        },
        StmtKind::Try { body, handlers } => {
            lemma_catches_identity(g, d, handlers@, fuel, m);
            lemma_items_identity(g, d, body@, fuel, m);
        },
        StmtKind::Raise { message, .. } => {
            lemma_opt_identity(g, d, message, fuel, m);
        },
        StmtKind::Return(value) => {
            lemma_opt_identity(g, d, value, fuel, m);
        },
        StmtKind::Expr(value) => {
            lemma_expr_identity(g, d, value, fuel, m);
        },
    }
}

} // verus!
