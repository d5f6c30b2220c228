//! The syntax tree that the grammar produces and macro expansion rewrites,
//! with byte spans into the source.
use vstd::prelude::*;
use crate::parser::lexer::Token;

verus! {

/// A node with its byte range `[start, end)`.
#[derive(Debug)]
pub struct Spanned<T> {
    pub node: T,
    pub start: usize,
    pub end: usize,
}

impl<T> Spanned<T> {
    /// A node with its byte range.
    pub fn new(node: T, start: usize, end: usize) -> (r: Self)
        ensures
            r.node == node,
            r.start == start,
            r.end == end,
    {
        Spanned { node, start, end }
    }
}

/// A whole module.
#[derive(Debug)]
pub struct Program {
    pub items: Vec<Item>,
}

/// A top-level or block item.
pub type Item = Spanned<ItemKind>;

/// A statement.
pub type Stmt = Spanned<StmtKind>;

/// An expression.
pub type Expr = Spanned<ExprKind>;

/// The kinds of items.
#[derive(Debug)]
pub enum ItemKind {
    Import(Import),
    Function(Function),
    Class(Class),
    Library(Library),
    MacroDefinition(MacroDefinition),
    Statement(Box<Stmt>),
}

/// `macro name { rules }`.
#[derive(Debug)]
pub struct MacroDefinition {
    pub name: String,
    pub rules: Vec<MacroRule>,
}

/// `(matcher) => { template }`.
#[derive(Debug)]
pub struct MacroRule {
    pub matcher: Vec<MacroMatcher>,
    pub template: Vec<MacroTemplate>,
}

/// One element of a macro rule's matcher.
#[derive(Debug)]
pub enum MacroMatcher {
    /// A token that must appear as is.
    Token(MacroToken),
    /// `$name:kind`.
    Fragment { name: String, kind: MacroFragmentKind },
    /// `$( matcher ) separator op`.
    Repeat { matcher: Vec<MacroMatcher>, separator: Vec<MacroToken>, op: MacroRepeatOp },
}

/// One element of a macro rule's template.
#[derive(Debug)]
pub enum MacroTemplate {
    /// A token copied to the output.
    Token(MacroToken),
    /// `$name`.
    Variable(String),
    /// A template between delimiters, with the byte range of the delimiters.
    Delimited { delimiter: MacroDelimiter, template: Vec<MacroTemplate>, start: usize, end: usize },
    /// `$( template ) separator op`.
    Repeat { template: Vec<MacroTemplate>, separator: Vec<MacroToken>, op: MacroRepeatOp },
}

/// What a fragment matches.
#[derive(Debug, Clone, Copy, PartialEq, Eq, Structural)]
pub enum MacroFragmentKind {
    Expr,
    Ident,
    Block,
    Stmt,
}

/// `*` or `+`.
#[derive(Debug, Clone, Copy, PartialEq, Eq, Structural)]
pub enum MacroRepeatOp {
    ZeroOrMore,
    OneOrMore,
}

/// A token inside a macro definition or call, with its byte range.
#[derive(Debug)]
pub struct MacroToken {
    pub token: Token,
    pub start: usize,
    pub end: usize,
}

/// `name!(args)`, `name![args]` or `name!{args}`.
#[derive(Debug)]
pub struct MacroCall {
    pub name: String,
    pub args: Vec<MacroToken>,
    pub delimiter: MacroDelimiter,
    pub start: usize,
    pub end: usize,
}

/// The brackets around macro arguments.
#[derive(Debug, Clone, Copy, PartialEq, Eq, Structural)]
pub enum MacroDelimiter {
    Paren,
    Bracket,
    Brace,
}

/// `import "path" as alias`.
#[derive(Debug)]
pub struct Import {
    pub path: String,
    pub alias: String,
}

/// A function declaration.
#[derive(Debug)]
pub struct Function {
    pub name: String,
    pub params: Vec<Param>,
    pub return_type: Option<String>,
    pub body: Vec<Item>,
}

/// A parameter, with optional type and default value.
#[derive(Debug)]
pub struct Param {
    pub name: String,
    pub type_hint: Option<String>,
    pub default_value: Option<Expr>,
    pub start: usize,
    pub end: usize,
}

/// A class declaration.
#[derive(Debug)]
pub struct Class {
    pub name: String,
    pub base: Option<String>,
    pub items: Vec<ClassItem>,
}

/// A class member.
pub type ClassItem = Spanned<ClassItemKind>;

/// The kinds of class members.
#[derive(Debug)]
pub enum ClassItemKind {
    Field(ClassField),
    Constructor(ClassMethod),
    Method(ClassMethod),
}

/// A field declaration.
#[derive(Debug)]
pub struct ClassField {
    pub visibility: Option<Visibility>,
    pub is_static: bool,
    pub name: String,
    pub field_type: String,
    pub default_value: Option<Expr>,
}

/// A method or constructor declaration.
#[derive(Debug)]
pub struct ClassMethod {
    pub visibility: Option<Visibility>,
    pub is_static: bool,
    pub name: String,
    pub params: Vec<Param>,
    pub return_type: Option<String>,
    pub body: Vec<Item>,
}

/// Member visibility.
#[derive(Debug, Clone, Copy, PartialEq, Eq, Structural)]
pub enum Visibility {
    Public,
    Private,
}

/// A native library declaration.
#[derive(Debug)]
pub struct Library {
    pub path: String,
    pub items: Vec<LibraryItem>,
}

/// A native library member.
pub type LibraryItem = Spanned<LibraryItemKind>;

/// The kinds of native library members.
#[derive(Debug)]
pub enum LibraryItemKind {
    Function(LibraryFunction),
    Global(LibraryGlobal),
}

/// A native function signature.
#[derive(Debug)]
pub struct LibraryFunction {
    pub name: String,
    pub params: Vec<LibraryParam>,
    pub return_type: Option<String>,
}

/// A native function parameter.
#[derive(Debug)]
pub struct LibraryParam {
    pub name: String,
    pub param_type: String,
    pub start: usize,
    pub end: usize,
}

/// A native global variable.
#[derive(Debug)]
pub struct LibraryGlobal {
    pub name: String,
    pub global_type: String,
}

/// The kinds of statements.
#[derive(Debug)]
pub enum StmtKind {
    Assign { name: String, is_const: bool, type_hint: Option<String>, value: Expr },
    AssignTarget { target: Expr, value: Expr },
    CompoundAssign { target: Expr, op: CompoundOp, value: Expr },
    If { condition: Expr, then_body: Vec<Item>, else_body: Option<ElseBody> },
    While { condition: Expr, body: Vec<Item> },
    For { variable: String, init: Expr, condition: Expr, update: Box<ForUpdate>, body: Vec<Item> },
    ForEach { variable: String, iterable: Expr, body: Vec<Item> },
    Thread { body: Vec<Item> },
    Try { body: Vec<Item>, handlers: Vec<Catch> },
    Raise { error_type: String, message: Option<Expr> },
    Return(Option<Expr>),
    Expr(Expr),
}

/// `else { ... }` or `else if ...`.
#[derive(Debug)]
pub enum ElseBody {
    Block(Vec<Item>, usize, usize),
    If(Box<Stmt>),
}

/// A `catch` clause.
#[derive(Debug)]
pub struct Catch {
    pub pattern: Option<CatchPattern>,
    pub body: Vec<Item>,
    pub start: usize,
    pub end: usize,
}

/// What a `catch` clause names: the message variable, the error class, or
/// both.
#[derive(Debug)]
pub enum CatchPattern {
    Text(String, usize, usize),
    Type(String, usize, usize),
    TypeAndText { type_hint: String, type_start: usize, type_end: usize, text_name: String, text_start: usize, text_end: usize },
}

/// The update clause of a `for` loop.
#[derive(Debug)]
pub enum ForUpdate {
    Assign { name: String, value: Expr, start: usize, end: usize },
    AssignTarget { target: Expr, value: Expr, start: usize, end: usize },
    Compound { target: Expr, op: CompoundOp, value: Expr, start: usize, end: usize },
    Expr(Expr),
}

/// `+=`, `-=`, `*=`, `/=`, `%=`.
#[derive(Debug, Clone, Copy, PartialEq, Eq, Structural)]
pub enum CompoundOp {
    Add,
    Sub,
    Mul,
    Div,
    Mod,
}

/// The kinds of expressions.
#[derive(Debug)]
pub enum ExprKind {
    Number(i64),
    /// A float literal, as written.
    Float(String),
    Text(String),
    Boolean(bool),
    Empty,
    Identifier(String),
    Binary { op: BinaryOp, left: Box<Expr>, right: Box<Expr> },
    Unary { op: UnaryOp, operand: Box<Expr> },
    FunctionCall { function: Box<Expr>, args: Vec<CallArg> },
    MethodCall { object: Box<Expr>, method: String, args: Vec<CallArg> },
    PropertyAccess { object: Box<Expr>, property: String },
    Index { object: Box<Expr>, index: Box<Expr> },
    ObjectCreation { class_name: String, args: Vec<CallArg> },
    Lambda { params: Vec<Param>, body: LambdaBody },
    MacroCall(MacroCall),
}

/// The body of a lambda: an expression or a block.
#[derive(Debug)]
pub enum LambdaBody {
    Expr(Box<Expr>),
    Block(Vec<Item>, usize, usize),
}

/// A call argument, positional or named.
#[derive(Debug)]
pub struct CallArg {
    pub name: Option<String>,
    pub value: Expr,
}

/// Binary operators.
#[derive(Debug, Clone, Copy, PartialEq, Eq, Structural)]
pub enum BinaryOp {
    Add,
    Sub,
    Mul,
    Div,
    Mod,
    Eq,
    Ne,
    Lt,
    Le,
    Gt,
    Ge,
    And,
    Or,
}

/// Unary operators.
#[derive(Debug, Clone, Copy, PartialEq, Eq, Structural)]
pub enum UnaryOp {
    Negative,
    Not,
}

/// A postfix operation in a chain such as `f(x).y[0]`, with the byte range
/// of the operation itself.
#[derive(Debug)]
pub enum PostfixOp {
    FunctionCall(Vec<CallArg>, usize, usize),
    MethodCall(String, Vec<CallArg>, usize, usize),
    PropertyAccess(String, usize, usize),
    Index(Expr, usize, usize),
}

/// `e` with one postfix operation applied: the new node starts where `e`
/// starts and ends where the operation ends.
pub open spec fn postfix_one(e: Expr, op: PostfixOp) -> Expr {
    match op {
        PostfixOp::FunctionCall(args, _, end) => Spanned {
            node: ExprKind::FunctionCall { function: Box::new(e), args },
            start: e.start,
            end,
        },
        PostfixOp::MethodCall(method, args, _, end) => Spanned {
            node: ExprKind::MethodCall { object: Box::new(e), method, args },
            start: e.start,
            end,
        },
        PostfixOp::PropertyAccess(property, _, end) => Spanned {
            node: ExprKind::PropertyAccess { object: Box::new(e), property },
            start: e.start,
            end,
        },
        PostfixOp::Index(index, _, end) => Spanned {
            node: ExprKind::Index { object: Box::new(e), index: Box::new(index) },
            start: e.start,
            end,
        },
    }
}

/// `e` with the operations `ops` applied from first to last.
pub open spec fn postfixed(e: Expr, ops: Seq<PostfixOp>) -> Expr
    decreases ops.len(),
{
    if ops.len() == 0 {
        e
    } else {
        postfix_one(postfixed(e, ops.drop_last()), ops.last())
    }
}

/// Applies postfix operations to an expression, first to last.
pub fn apply_postfix(expr: Expr, ops: Vec<PostfixOp>) -> (r: Expr)
    ensures
        r == postfixed(expr, ops@),
{
    let ghost all = ops@;
    let mut expr = expr;
    let ghost base = expr;
    let mut rest = ops;
    let mut i: usize = 0;
    let n = rest.len();
    assert(all.take(0) =~= Seq::<PostfixOp>::empty());
    while rest.len() > 0
        invariant
            n == all.len(),
            i <= n,
            rest@ == all.skip(i as int),
            expr == postfixed(base, all.take(i as int)),
        decreases rest@.len(),
    {
        let op = rest.remove(0);
        proof {
            assert(op == all[i as int]);
            assert(all.take(i + 1).drop_last() =~= all.take(i as int));
        }
        let start = expr.start;
        expr = match op {
            PostfixOp::FunctionCall(args, _, end) => Spanned::new(
                ExprKind::FunctionCall { function: Box::new(expr), args },
                start,
                end,
            ),
            PostfixOp::MethodCall(method, args, _, end) => Spanned::new(
                ExprKind::MethodCall { object: Box::new(expr), method, args },
                start,
                end,
            ),
            PostfixOp::PropertyAccess(property, _, end) => Spanned::new(
                ExprKind::PropertyAccess { object: Box::new(expr), property },
                start,
                end,
            ),
            PostfixOp::Index(index, _, end) => Spanned::new(
                ExprKind::Index { object: Box::new(expr), index: Box::new(index) },
                start,
                end,
            ),
        };
        proof {
            assert(all.skip(i + 1) =~= rest@);
        }
        i = i + 1;
    }
    proof {
        assert(all.take(i as int) =~= all);
    }
    expr
}

} // verus!
