//! The source form of a syntax tree, as shown by the macro expansion
//! preview: one statement per line, four spaces per block level, and
//! expressions parenthesised only where precedence requires it.
use vstd::prelude::*;
use crate::formatter::{sat_add, spaces};
use crate::parser::lexer::Token;
use crate::parser::syntax::{
    BinaryOp, CallArg, Catch, CatchPattern, Class, ClassItem, ClassItemKind, ClassMethod, CompoundOp,
    ElseBody, Expr, ExprKind, ForUpdate, Function, Item, ItemKind, LambdaBody, Library,
    LibraryItemKind, MacroCall, MacroDelimiter, Param, Program, Stmt, StmtKind, UnaryOp, Visibility,
};
use crate::text::{int_text, int_to_text, join, join_strings, push_char, views};

verus! {

/// What `format!("{:?}", s)` writes for a string: `s` quoted, with the
/// escapes of `str`'s `Debug`.
pub uninterp spec fn debug_quoted(s: Seq<char>) -> Seq<char>;

/// `format!("{:?}", value)` for a string.
#[verifier::external_body]
fn string_literal(value: &str) -> (r: String)
    ensures
        r@ == debug_quoted(value@),
{
    format!("{value:?}")
}

/// The `Debug` name of a token that carries no value.
pub open spec fn token_debug_name(t: Token) -> Seq<char> {
    match t {
        Token::Eof => "Eof"@,
        Token::Newline => "Newline"@,
        Token::Semi => "Semi"@,
        Token::KwImport => "KwImport"@,
        Token::KwFrom => "KwFrom"@,
        Token::KwFunction => "KwFunction"@,
        Token::KwLibrary => "KwLibrary"@,
        Token::KwVariable => "KwVariable"@,
        Token::KwClass => "KwClass"@,
        Token::KwConstructor => "KwConstructor"@,
        Token::KwPublic => "KwPublic"@,
        Token::KwPrivate => "KwPrivate"@,
        Token::KwStatic => "KwStatic"@,
        Token::KwConst => "KwConst"@,
        Token::KwIf => "KwIf"@,
        Token::KwElse => "KwElse"@,
        Token::KwWhile => "KwWhile"@,
        Token::KwFor => "KwFor"@,
        Token::KwThread => "KwThread"@,
        Token::KwTry => "KwTry"@,
        Token::KwCatch => "KwCatch"@,
        Token::KwRaise => "KwRaise"@,
        Token::KwAs => "KwAs"@,
        Token::KwNew => "KwNew"@,
        Token::KwReturn => "KwReturn"@,
        Token::KwAnd => "KwAnd"@,
        Token::KwOr => "KwOr"@,
        Token::True => "True"@,
        Token::False => "False"@,
        Token::Empty => "Empty"@,
        Token::FatArrow => "FatArrow"@,
        Token::Arrow => "Arrow"@,
        Token::EqEq => "EqEq"@,
        Token::NotEq => "NotEq"@,
        Token::Le => "Le"@,
        Token::Ge => "Ge"@,
        Token::PlusEq => "PlusEq"@,
        Token::MinusEq => "MinusEq"@,
        Token::StarEq => "StarEq"@,
        Token::SlashEq => "SlashEq"@,
        Token::PercentEq => "PercentEq"@,
        Token::Eq => "Eq"@,
        Token::TypeEq => "TypeEq"@,
        Token::Lt => "Lt"@,
        Token::Gt => "Gt"@,
        Token::Plus => "Plus"@,
        Token::Minus => "Minus"@,
        Token::Star => "Star"@,
        Token::Slash => "Slash"@,
        Token::Percent => "Percent"@,
        Token::Bang => "Bang"@,
        Token::Dot => "Dot"@,
        Token::MethodDot => "MethodDot"@,
        Token::Comma => "Comma"@,
        Token::Colon => "Colon"@,
        Token::LParen => "LParen"@,
        Token::LambdaLParen => "LambdaLParen"@,
        Token::RParen => "RParen"@,
        Token::LBrace => "LBrace"@,
        Token::RBrace => "RBrace"@,
        Token::LBracket => "LBracket"@,
        Token::RBracket => "RBracket"@,
        _ => seq![],
    }
}

/// How a token is written in a macro call's argument list.
pub open spec fn token_shown(t: Token) -> Seq<char> {
    match t {
        Token::Ident(v) => seq!['\''] + v@ + seq!['\''],
        Token::String(v) => seq!['"'] + v@ + seq!['"'],
        Token::Number(n) => int_text(n as int),
        Token::Float(v) => v@,
        _ => token_debug_name(t),
    }
}

fn debug_name(t: &Token) -> (r: &'static str)
    requires
        !(t is Ident || t is String || t is Number || t is Float),
    ensures
        r@ == token_debug_name(*t),
{
    match t {
        Token::Eof => "Eof",
        Token::Newline => "Newline",
        Token::Semi => "Semi",
        Token::KwImport => "KwImport",
        Token::KwFrom => "KwFrom",
        Token::KwFunction => "KwFunction",
        Token::KwLibrary => "KwLibrary",
        Token::KwVariable => "KwVariable",
        Token::KwClass => "KwClass",
        Token::KwConstructor => "KwConstructor",
        Token::KwPublic => "KwPublic",
        Token::KwPrivate => "KwPrivate",
        Token::KwStatic => "KwStatic",
        Token::KwConst => "KwConst",
        Token::KwIf => "KwIf",
        Token::KwElse => "KwElse",
        Token::KwWhile => "KwWhile",
        Token::KwFor => "KwFor",
        Token::KwThread => "KwThread",
        Token::KwTry => "KwTry",
        Token::KwCatch => "KwCatch",
        Token::KwRaise => "KwRaise",
        Token::KwAs => "KwAs",
        Token::KwNew => "KwNew",
        Token::KwReturn => "KwReturn",
        Token::KwAnd => "KwAnd",
        Token::KwOr => "KwOr",
        Token::True => "True",
        Token::False => "False",
        Token::Empty => "Empty",
        Token::FatArrow => "FatArrow",
        Token::Arrow => "Arrow",
        Token::EqEq => "EqEq",
        Token::NotEq => "NotEq",
        Token::Le => "Le",
        Token::Ge => "Ge",
        Token::PlusEq => "PlusEq",
        Token::MinusEq => "MinusEq",
        Token::StarEq => "StarEq",
        Token::SlashEq => "SlashEq",
        Token::PercentEq => "PercentEq",
        Token::Eq => "Eq",
        Token::TypeEq => "TypeEq",
        Token::Lt => "Lt",
        Token::Gt => "Gt",
        Token::Plus => "Plus",
        Token::Minus => "Minus",
        Token::Star => "Star",
        Token::Slash => "Slash",
        Token::Percent => "Percent",
        Token::Bang => "Bang",
        Token::Dot => "Dot",
        Token::MethodDot => "MethodDot",
        Token::Comma => "Comma",
        Token::Colon => "Colon",
        Token::LParen => "LParen",
        Token::LambdaLParen => "LambdaLParen",
        Token::RParen => "RParen",
        Token::LBrace => "LBrace",
        Token::RBrace => "RBrace",
        Token::LBracket => "LBracket",
        Token::RBracket => "RBracket",
        _ => "",
    }
}

/// How a token is written in a macro call's argument list.
pub fn token_name(t: &Token) -> (r: String)
    ensures
        r@ == token_shown(*t),
{
    match t {
        Token::Ident(v) => {
            let mut s = String::new();
            push_char(&mut s, '\'');
            s.append(v.as_str());
            push_char(&mut s, '\'');
            s
        },
        Token::String(v) => {
            let mut s = String::new();
            push_char(&mut s, '"');
            s.append(v.as_str());
            push_char(&mut s, '"');
            s
        },
        Token::Number(n) => int_to_text(*n),
        Token::Float(v) => v.clone(),
        _ => debug_name(t).to_string(),
    }
}

/// Binding strength of a binary operator (higher binds tighter).
pub open spec fn spec_binary_prec(op: BinaryOp) -> int {
    match op {
        BinaryOp::Or => 1,
        BinaryOp::And => 2,
        BinaryOp::Eq | BinaryOp::Ne | BinaryOp::Lt | BinaryOp::Le | BinaryOp::Gt | BinaryOp::Ge => 3,
        BinaryOp::Add | BinaryOp::Sub => 4,
        BinaryOp::Mul | BinaryOp::Div | BinaryOp::Mod => 5,
    }
}

/// Binding strength of a binary operator.
pub fn binary_prec(op: BinaryOp) -> (r: u8)
    ensures
        r as int == spec_binary_prec(op),
{
    match op {
        BinaryOp::Or => 1,
        BinaryOp::And => 2,
        BinaryOp::Eq | BinaryOp::Ne | BinaryOp::Lt | BinaryOp::Le | BinaryOp::Gt | BinaryOp::Ge => 3,
        BinaryOp::Add | BinaryOp::Sub => 4,
        BinaryOp::Mul | BinaryOp::Div | BinaryOp::Mod => 5,
    }
}

/// The written form of a binary operator.
pub open spec fn binary_text(op: BinaryOp) -> Seq<char> {
    match op {
        BinaryOp::Add => "+"@,
        BinaryOp::Sub => "-"@,
        BinaryOp::Mul => "*"@,
        BinaryOp::Div => "/"@,
        BinaryOp::Mod => "%"@,
        BinaryOp::Eq => "=="@,
        BinaryOp::Ne => "!="@,
        BinaryOp::Lt => "<"@,
        BinaryOp::Le => "<="@,
        BinaryOp::Gt => ">"@,
        BinaryOp::Ge => ">="@,
        BinaryOp::And => "and"@,
        BinaryOp::Or => "or"@,
    }
}

/// The written form of a binary operator.
pub fn binary_op(op: BinaryOp) -> (r: &'static str)
    ensures
        r@ == binary_text(op),
{
    match op {
        BinaryOp::Add => "+",
        BinaryOp::Sub => "-",
        BinaryOp::Mul => "*",
        BinaryOp::Div => "/",
        BinaryOp::Mod => "%",
        BinaryOp::Eq => "==",
        BinaryOp::Ne => "!=",
        BinaryOp::Lt => "<",
        BinaryOp::Le => "<=",
        BinaryOp::Gt => ">",
        BinaryOp::Ge => ">=",
        BinaryOp::And => "and",
        BinaryOp::Or => "or",
    }
}

/// The written form of a unary operator.
pub open spec fn unary_text(op: UnaryOp) -> Seq<char> {
    match op {
        UnaryOp::Negative => "-"@,
        UnaryOp::Not => "!"@,
    }
}

/// The written form of a unary operator.
pub fn unary_op(op: UnaryOp) -> (r: &'static str)
    ensures
        r@ == unary_text(op),
{
    match op {
        UnaryOp::Negative => "-",
        UnaryOp::Not => "!",
    }
}

/// The written form of a compound assignment operator.
pub open spec fn compound_text(op: CompoundOp) -> Seq<char> {
    match op {
        CompoundOp::Add => "+="@,
        CompoundOp::Sub => "-="@,
        CompoundOp::Mul => "*="@,
        CompoundOp::Div => "/="@,
        CompoundOp::Mod => "%="@,
    }
}

/// The written form of a compound assignment operator.
pub fn compound_op(op: CompoundOp) -> (r: &'static str)
    ensures
        r@ == compound_text(op),
{
    match op {
        CompoundOp::Add => "+=",
        CompoundOp::Sub => "-=",
        CompoundOp::Mul => "*=",
        CompoundOp::Div => "/=",
        CompoundOp::Mod => "%=",
    }
}

/// Binding strength of an expression: its operator's for a binary
/// expression, 6 for unary, 7 for calls, member access and indexing, 8 for
/// the rest.
pub open spec fn spec_expr_prec(e: Expr) -> int {
    match e.node {
        ExprKind::Binary { op, .. } => spec_binary_prec(op),
        ExprKind::Unary { .. } => 6,
        ExprKind::FunctionCall { .. } | ExprKind::MethodCall { .. } | ExprKind::PropertyAccess { .. }
        | ExprKind::Index { .. } => 7,
        _ => 8,
    }
}

/// Binding strength of an expression.
pub fn expr_prec(e: &Expr) -> (r: u8)
    ensures
        r as int == spec_expr_prec(*e),
{
    match &e.node {
        ExprKind::Binary { op, .. } => binary_prec(*op),
        ExprKind::Unary { .. } => 6,
        ExprKind::FunctionCall { .. } | ExprKind::MethodCall { .. } | ExprKind::PropertyAccess { .. }
        | ExprKind::Index { .. } => 7,
        _ => 8,
    }
}

/// Whether a subexpression of binding strength `own` needs parentheses
/// under a parent of strength `parent`, on the parent's right when
/// `is_right`.
pub open spec fn needs_parens(own: int, parent: int, is_right: bool) -> bool {
    own < parent || (is_right && own == parent && own < 8)
}

/// ` -> type` for a declared return type.
pub open spec fn show_return(t: Option<String>) -> Seq<char> {
    match t {
        Some(ty) => " -> "@ + ty@,
        None => seq![],
    }
}

/// `(args)` of a macro call, tokens separated by spaces.
pub open spec fn show_macro_args(call: MacroCall) -> Seq<char> {
    let (open, close) = match call.delimiter {
        MacroDelimiter::Paren => ('(', ')'),
        MacroDelimiter::Bracket => ('[', ']'),
        MacroDelimiter::Brace => ('{', '}'),
    };
    seq![open] + join(call.args@.map_values(|t: crate::parser::syntax::MacroToken| token_shown(t.token)), " "@) + seq![close]
}

/// An expression written under a parent of strength `parent`.
pub open spec fn show_expr_prec(e: Expr, parent: int, is_right: bool) -> Seq<char>
    decreases e, 0int,
{
    let own = spec_expr_prec(e);
    let rendered = match e.node {
        ExprKind::Number(n) => int_text(n as int),
        ExprKind::Float(v) => v@,
        ExprKind::Text(v) => debug_quoted(v@),
        ExprKind::Boolean(b) => if b { "true"@ } else { "false"@ },
        ExprKind::Empty => "void"@,
        ExprKind::Identifier(name) => name@,
        ExprKind::Binary { op, left, right } => {
            let p = spec_binary_prec(op);
            show_expr_prec(*left, p, false) + " "@ + binary_text(op) + " "@ + show_expr_prec(*right, p, true)
        },
        ExprKind::Unary { op, operand } => unary_text(op) + show_expr_prec(*operand, own, false),
        ExprKind::FunctionCall { function, args } => show_expr_prec(*function, own, false) + "("@
            + join(show_args(args@), ", "@) + ")"@,
        ExprKind::MethodCall { object, method, args } => show_expr_prec(*object, own, false) + "."@
            + method@ + "("@ + join(show_args(args@), ", "@) + ")"@,
        ExprKind::PropertyAccess { object, property } => show_expr_prec(*object, own, false) + "."@
            + property@,
        ExprKind::Index { object, index } => show_expr_prec(*object, own, false) + "["@
            + show_expr_prec(*index, 0, false) + "]"@,
        ExprKind::ObjectCreation { class_name, args } => "new "@ + class_name@ + "("@ + join(
            show_args(args@),
            ", "@,
        ) + ")"@,
        ExprKind::Lambda { params, body } => "lambda("@ + join(show_params(params@), ", "@) + ") => "@
            + match body {
            LambdaBody::Expr(value) => show_expr_prec(*value, 0, false),
            LambdaBody::Block(items, _, _) => "{\n"@ + show_items(items@, 1) + "}"@,
        },
        ExprKind::MacroCall(call) => call.name@ + "!"@ + show_macro_args(call),
    };
    if needs_parens(own, parent, is_right) {
        "("@ + rendered + ")"@
    } else {
        rendered
    }
}

/// An expression written at top level.
pub open spec fn show_expr(e: Expr) -> Seq<char> {
    show_expr_prec(e, 0, false)
}

/// The group of a binary operator in the language's precedence table,
/// loosest first: `or`; `and`; the comparisons; `+ -`; `* / %`.
pub open spec fn operator_group(op: BinaryOp) -> int {
    if op == BinaryOp::Or {
        0
    } else if op == BinaryOp::And {
        1
    } else if op == BinaryOp::Add || op == BinaryOp::Sub {
        3
    } else if op == BinaryOp::Mul || op == BinaryOp::Div || op == BinaryOp::Mod {
        4
    } else {
        2
    }
}

/// The printer's binding strengths order the operators as the language's
/// precedence table does: one binds tighter than another exactly when its
/// group comes later (so `and` binds tighter than `or`).
pub proof fn lemma_precedence_follows_table(a: BinaryOp, b: BinaryOp)
    ensures
        spec_binary_prec(a) < spec_binary_prec(b) <==> operator_group(a) < operator_group(b),
        spec_binary_prec(a) == spec_binary_prec(b) <==> operator_group(a) == operator_group(b),
{
}

/// An operand whose operator binds more loosely than its parent's is
/// printed in parentheses, on either side, so that reading the text back
/// gives the same tree: an `or` under an `and` is always parenthesised.
pub proof fn lemma_looser_operand_parenthesised(e: Expr, parent: BinaryOp, is_right: bool)
    requires
        e.node is Binary,
        operator_group(e.node->Binary_op) < operator_group(parent),
    ensures
        show_expr_prec(e, spec_binary_prec(parent), is_right) == "("@ + show_expr(e) + ")"@,
{
    lemma_precedence_follows_table(e.node->Binary_op, parent);
}

/// An operand whose operator binds more tightly than its parent's is
/// printed bare, on either side.
pub proof fn lemma_tighter_operand_bare(e: Expr, parent: BinaryOp, is_right: bool)
    requires
        e.node is Binary,
        operator_group(parent) < operator_group(e.node->Binary_op),
    ensures
        show_expr_prec(e, spec_binary_prec(parent), is_right) == show_expr(e),
{
    lemma_precedence_follows_table(e.node->Binary_op, parent);
}

/// Operators of one group associate to the left: an operand of the same
/// group is bare on the left and parenthesised on the right.
pub proof fn lemma_same_group_left_associative(e: Expr, parent: BinaryOp, is_right: bool)
    requires
        e.node is Binary,
        operator_group(parent) == operator_group(e.node->Binary_op),
    ensures
        show_expr_prec(e, spec_binary_prec(parent), is_right) == if is_right {
            "("@ + show_expr(e) + ")"@
        } else {
            show_expr(e)
        },
{
    lemma_precedence_follows_table(e.node->Binary_op, parent);
}

/// Call arguments, each written as `value` or `name = value`.
pub open spec fn show_args(args: Seq<CallArg>) -> Seq<Seq<char>>
    decreases args, 0int,
{
    if args.len() == 0 {
        seq![]
    } else {
        let a = args[args.len() - 1];
        show_args(args.subrange(0, args.len() - 1)).push(
            match a.name {
                Some(n) => n@ + " = "@ + show_expr_prec(a.value, 0, false),
                None => show_expr_prec(a.value, 0, false),
            },
        )
    }
}

/// Parameters, each written as `name`, `name: type` and/or `= default`.
pub open spec fn show_params(params: Seq<Param>) -> Seq<Seq<char>>
    decreases params, 0int,
{
    if params.len() == 0 {
        seq![]
    } else {
        let p = params[params.len() - 1];
        show_params(params.subrange(0, params.len() - 1)).push(
            p.name@ + match p.type_hint {
                Some(t) => ": "@ + t@,
                None => seq![],
            } + match p.default_value {
                Some(v) => " = "@ + show_expr_prec(v, 0, false),
                None => seq![],
            },
        )
    }
}

/// Items written at indentation level `ind`.
pub open spec fn show_items(items: Seq<Item>, ind: int) -> Seq<char>
    decreases items, 0int,
{
    if items.len() == 0 {
        seq![]
    } else {
        show_items(items.subrange(0, items.len() - 1), ind) + show_item(items[items.len() - 1], ind)
    }
}

/// A line: indentation, text, line end.
pub open spec fn show_line(ind: int, text: Seq<char>) -> Seq<char> {
    spaces(ind) + text + seq!['\n']
}

/// An item written at indentation level `ind`.
pub open spec fn show_item(item: Item, ind: int) -> Seq<char>
    decreases item, 0int,
{
    match item.node {
        ItemKind::Import(import) => show_line(ind, "import "@ + debug_quoted(import.path@) + " as "@ + import.alias@),
        ItemKind::Function(f) => show_line(ind, "function "@ + f.name@ + "("@ + join(show_params(f.params@), ", "@)
            + ")"@ + show_return(f.return_type) + " {"@) + show_items(f.body@, sat_add(ind, 1))
            + show_line(ind, "}"@),
        ItemKind::Class(c) => show_line(ind, "class "@ + c.name@ + match c.base {
            Some(b) => "("@ + b@ + ")"@,
            None => seq![],
        } + " {"@) + show_class_items(c.items@, sat_add(ind, 1)) + show_line(ind, "}"@),
        ItemKind::Library(l) => show_line(ind, "library "@ + debug_quoted(l.path@) + " {"@)
            + show_library_items(l.items@, sat_add(ind, 1)) + show_line(ind, "}"@),
        ItemKind::MacroDefinition(_) => seq![],
        ItemKind::Statement(stmt) => show_stmt(*stmt, ind),
    }
}

/// `public`/`private` and `static`, as present.
pub open spec fn show_modifiers(visibility: Option<Visibility>, is_static: bool) -> Seq<Seq<char>> {
    let v: Seq<Seq<char>> = match visibility {
        Some(Visibility::Public) => seq!["public"@],
        Some(Visibility::Private) => seq!["private"@],
        None => seq![],
    };
    if is_static { v.push("static"@) } else { v }
}

/// Class members written at level `ind`.
pub open spec fn show_class_items(items: Seq<ClassItem>, ind: int) -> Seq<char>
    decreases items, 0int,
{
    if items.len() == 0 {
        seq![]
    } else {
        show_class_items(items.subrange(0, items.len() - 1), ind) + show_class_item(items[items.len() - 1], ind)
    }
}

/// A class member written at level `ind`.
pub open spec fn show_class_item(item: ClassItem, ind: int) -> Seq<char>
    decreases item, 0int,
{
    match item.node {
        ClassItemKind::Field(f) => show_line(
            ind,
            join(show_modifiers(f.visibility, f.is_static).push(f.name@ + ": "@ + f.field_type@), " "@)
                + match f.default_value {
                Some(v) => " = "@ + show_expr_prec(v, 0, false),
                None => seq![],
            },
        ),
        ClassItemKind::Constructor(m) => show_class_method("constructor"@, m, ind),
        ClassItemKind::Method(m) => show_class_method("function"@, m, ind),
    }
}

/// A method or constructor written at level `ind`.
pub open spec fn show_class_method(keyword: Seq<char>, m: ClassMethod, ind: int) -> Seq<char>
    decreases m, 0int,
{
    show_line(
        ind,
        join(
            show_modifiers(m.visibility, m.is_static).push(
                keyword + " "@ + m.name@ + "("@ + join(show_params(m.params@), ", "@) + ")"@ + show_return(
                    m.return_type,
                ),
            ),
            " "@,
        ) + " {"@,
    ) + show_items(m.body@, sat_add(ind, 1)) + show_line(ind, "}"@)
}

/// Native library members written at level `ind`.
pub open spec fn show_library_items(items: Seq<crate::parser::syntax::LibraryItem>, ind: int) -> Seq<char>
    decreases items.len(),
{
    if items.len() == 0 {
        seq![]
    } else {
        show_library_items(items.subrange(0, items.len() - 1), ind) + match items[items.len() - 1].node {
            LibraryItemKind::Function(f) => show_line(
                ind,
                "function "@ + f.name@ + "("@ + join(
                    f.params@.map_values(|p: crate::parser::syntax::LibraryParam| p.name@ + ": "@ + p.param_type@),
                    ", "@,
                ) + ")"@ + show_return(f.return_type),
            ),
            LibraryItemKind::Global(g) => show_line(ind, "variable "@ + g.name@ + ": "@ + g.global_type@),
        }
    }
}

/// The pattern of a `catch` clause.
pub open spec fn show_catch_pattern(p: Option<CatchPattern>) -> Seq<char> {
    match p {
        None => seq![],
        Some(CatchPattern::Text(name, _, _)) => " (as "@ + name@ + ")"@,
        Some(CatchPattern::Type(name, _, _)) => " ("@ + name@ + ")"@,
        Some(CatchPattern::TypeAndText { type_hint, text_name, .. }) => " ("@ + type_hint@ + " as "@
            + text_name@ + ")"@,
    }
}

/// The update clause of a `for` loop.
pub open spec fn show_for_update(u: ForUpdate) -> Seq<char>
    decreases u, 0int,
{
    match u {
        ForUpdate::Assign { name, value, .. } => name@ + " = "@ + show_expr_prec(value, 0, false),
        ForUpdate::AssignTarget { target, value, .. } => show_expr_prec(target, 0, false) + " = "@
            + show_expr_prec(value, 0, false),
        ForUpdate::Compound { target, op, value, .. } => show_expr_prec(target, 0, false) + " "@
            + compound_text(op) + " "@ + show_expr_prec(value, 0, false),
        ForUpdate::Expr(value) => show_expr_prec(value, 0, false),
    }
}

/// `catch` clauses written at level `ind`.
pub open spec fn show_handlers(handlers: Seq<Catch>, ind: int) -> Seq<char>
    decreases handlers, 0int,
{
    if handlers.len() == 0 {
        seq![]
    } else {
        let h = handlers[handlers.len() - 1];
        show_handlers(handlers.subrange(0, handlers.len() - 1), ind) + show_line(
            ind,
            "catch"@ + show_catch_pattern(h.pattern) + " {"@,
        ) + show_items(h.body@, sat_add(ind, 1)) + show_line(ind, "}"@)
    }
}

/// A block body at level `ind + 1` closed by `}` at level `ind`.
pub open spec fn show_block(body: Seq<Item>, ind: int) -> Seq<char>
    decreases body, 1int,
{
    show_items(body, sat_add(ind, 1)) + show_line(ind, "}"@)
}

/// What follows the `then` body of an `if` at level `ind`.
pub open spec fn show_else(else_body: Option<ElseBody>, ind: int) -> Seq<char>
    decreases else_body, 0int,
{
    match else_body {
        Some(ElseBody::Block(body, _, _)) => show_line(ind, "} else {"@) + show_block(body@, ind),
        Some(ElseBody::If(stmt)) => spaces(ind) + "} else "@ + show_inline_if(*stmt, ind),
        None => show_line(ind, "}"@),
    }
}

/// An `if` that continues an `else` line.
pub open spec fn show_inline_if(stmt: Stmt, ind: int) -> Seq<char>
    decreases stmt, 1int,
{
    match stmt.node {
        StmtKind::If { condition, then_body, else_body } => "if ("@ + show_expr_prec(condition, 0, false)
            + ") {\n"@ + show_items(then_body@, sat_add(ind, 1)) + show_else(else_body, ind),
        _ => "\n"@ + show_stmt(stmt, ind),
    }
}

/// A statement written at level `ind`.
pub open spec fn show_stmt(stmt: Stmt, ind: int) -> Seq<char>
    decreases stmt, 0int,
{
    match stmt.node {
        StmtKind::Assign { name, is_const, type_hint, value } => show_line(
            ind,
            (if is_const { "const "@ } else { seq![] }) + name@ + match type_hint {
                Some(t) => ": "@ + t@,
                None => seq![],
            } + " = "@ + show_expr_prec(value, 0, false),
        ),
        StmtKind::AssignTarget { target, value } => show_line(
            ind,
            show_expr_prec(target, 0, false) + " = "@ + show_expr_prec(value, 0, false),
        ),
        StmtKind::CompoundAssign { target, op, value } => show_line(
            ind,
            show_expr_prec(target, 0, false) + " "@ + compound_text(op) + " "@ + show_expr_prec(value, 0, false),
        ),
        StmtKind::If { condition, then_body, else_body } => show_line(
            ind,
            "if ("@ + show_expr_prec(condition, 0, false) + ") {"@,
        ) + show_items(then_body@, sat_add(ind, 1)) + show_else(else_body, ind),
        StmtKind::While { condition, body } => show_line(
            ind,
            "while ("@ + show_expr_prec(condition, 0, false) + ") {"@,
        ) + show_block(body@, ind),
        StmtKind::For { variable, init, condition, update, body } => show_line(
            ind,
            "for ("@ + variable@ + " = "@ + show_expr_prec(init, 0, false) + ", "@ + show_expr_prec(
                condition,
                0,
                false,
            ) + ", "@ + show_for_update(*update) + ") {"@,
        ) + show_block(body@, ind),
        StmtKind::ForEach { variable, iterable, body } => show_line(
            ind,
            "for "@ + variable@ + " from "@ + show_expr_prec(iterable, 0, false) + " {"@,
        ) + show_block(body@, ind),
        StmtKind::Thread { body } => show_line(ind, "thread {"@) + show_block(body@, ind),
        StmtKind::Try { body, handlers } => show_line(ind, "try {"@) + show_block(body@, ind)
            + show_handlers(handlers@, ind),
        StmtKind::Raise { error_type, message } => show_line(
            ind,
            match message {
                Some(m) => "raise "@ + error_type@ + "("@ + show_expr_prec(m, 0, false) + ")"@,
                None => "raise "@ + error_type@,
            },
        ),
        StmtKind::Return(value) => show_line(
            ind,
            match value {
                Some(v) => "return "@ + show_expr_prec(v, 0, false),
                None => "return"@,
            },
        ),
        StmtKind::Expr(value) => show_line(ind, show_expr_prec(value, 0, false)),
    }
}

/// The source form of a whole program.
pub open spec fn show_program(p: Program) -> Seq<char> {
    show_items(p.items@, 0)
}

/// Appends `4 * level` spaces.
fn push_indent(out: &mut String, level: usize)
    ensures
        final(out)@ == old(out)@ + spaces(level as int),
{
    let mut n: usize = 0;
    while n < level
        invariant
            n <= level,
            out@ == old(out)@ + spaces(n as int),
        decreases level - n,
    {
        out.append("    ");
        proof {
            reveal_strlit("    ");
        }
        n = n + 1;
        assert(out@ == old(out)@ + spaces(n as int));
    }
}

/// The return-type suffix ` -> type`.
fn return_suffix(t: &Option<String>) -> (r: String)
    ensures
        r@ == show_return(*t),
{
    match t {
        Some(ty) => {
            let mut s = String::from_str(" -> ");
            s.append(ty.as_str());
            s
        },
        None => String::new(),
    }
}

/// The arguments of a macro call, as written.
fn macro_call_args(call: &MacroCall) -> (r: String)
    ensures
        r@ == show_macro_args(*call),
{
    let (open, close) = match call.delimiter {
        MacroDelimiter::Paren => ('(', ')'),
        MacroDelimiter::Bracket => ('[', ']'),
        MacroDelimiter::Brace => ('{', '}'),
    };
    let mut names: Vec<String> = Vec::new();
    let mut i: usize = 0;
    while i < call.args.len()
        invariant
            i <= call.args@.len(),
            views(names@) == call.args@.take(i as int).map_values(|t: crate::parser::syntax::MacroToken| token_shown(t.token)),
        decreases call.args@.len() - i,
    {
        let ghost before = names@;
        let shown = token_name(&call.args[i].token);
        names.push(shown);
        proof {
            let f = |t: crate::parser::syntax::MacroToken| token_shown(t.token);
            assert(views(names@) =~= views(before).push(shown@));
            assert(call.args@.take(i + 1) =~= call.args@.take(i as int).push(call.args@[i as int]));
            assert(call.args@.take(i + 1).map_values(f) =~= call.args@.take(i as int).map_values(f).push(
                f(call.args@[i as int]),
            ));
        }
        i = i + 1;
    }
    assert(call.args@.take(call.args@.len() as int) == call.args@);
    let joined = join_strings(&names, " ");
    let mut out = String::new();
    push_char(&mut out, open);
    out.append(joined.as_str());
    push_char(&mut out, close);
    out
}

/// An expression written at top level.
fn expr(value: &Expr) -> (r: String)
    ensures
        r@ == show_expr_prec(*value, 0, false),
    decreases *value, 2int,
{
    expr_with_parent_prec(value, 0, false)
}

/// An expression written under a parent of binding strength
/// `parent_prec`, parenthesised when it binds less tightly (or equally,
/// on the parent's right).
fn expr_with_parent_prec(value: &Expr, parent_prec: u8, is_right: bool) -> (r: String)
    ensures
        r@ == show_expr_prec(*value, parent_prec as int, is_right),
    decreases *value, 1int,
{
    let own_prec = expr_prec(value);
    let rendered: String = match &value.node {
        ExprKind::Number(n) => int_to_text(*n),
        ExprKind::Float(v) => v.clone(),
        ExprKind::Text(v) => string_literal(v.as_str()),
        ExprKind::Boolean(b) => if *b { String::from_str("true") } else { String::from_str("false") },
        ExprKind::Empty => String::from_str("void"),
        ExprKind::Identifier(name) => name.clone(),
        ExprKind::Binary { op, left, right } => {
            let prec = binary_prec(*op);
            let mut s = expr_with_parent_prec(left, prec, false);
            s.append(" ");
            s.append(binary_op(*op));
            s.append(" ");
            let r = expr_with_parent_prec(right, prec, true);
            s.append(r.as_str());
            s
        },
        ExprKind::Unary { op, operand } => {
            let mut s = String::from_str(unary_op(*op));
            let r = expr_with_parent_prec(operand, own_prec, false);
            s.append(r.as_str());
            s
        },
        ExprKind::FunctionCall { function, args } => {
            let mut s = expr_with_parent_prec(function, own_prec, false);
            s.append("(");
            let a = format_args(args);
            s.append(a.as_str());
            s.append(")");
            s
        },
        ExprKind::MethodCall { object, method, args } => {
            let mut s = expr_with_parent_prec(object, own_prec, false);
            s.append(".");
            s.append(method.as_str());
            s.append("(");
            let a = format_args(args);
            s.append(a.as_str());
            s.append(")");
            s
        },
        ExprKind::PropertyAccess { object, property } => {
            let mut s = expr_with_parent_prec(object, own_prec, false);
            s.append(".");
            s.append(property.as_str());
            s
        },
        ExprKind::Index { object, index } => {
            let mut s = expr_with_parent_prec(object, own_prec, false);
            s.append("[");
            let i = expr(index);
            s.append(i.as_str());
            s.append("]");
            s
        },
        ExprKind::ObjectCreation { class_name, args } => {
            let mut s = String::from_str("new ");
            s.append(class_name.as_str());
            s.append("(");
            let a = format_args(args);
            s.append(a.as_str());
            s.append(")");
            s
        },
        ExprKind::Lambda { params, body } => {
            let body_text = match body {
                LambdaBody::Expr(v) => expr(v),
                LambdaBody::Block(items, _, _) => lambda_block(items),
            };
            let mut s = String::from_str("lambda(");
            let p = format_params(params);
            s.append(p.as_str());
            s.append(") => ");
            s.append(body_text.as_str());
            s
        },
        ExprKind::MacroCall(call) => {
            let mut s = call.name.clone();
            s.append("!");
            let a = macro_call_args(call);
            s.append(a.as_str());
            s
        },
    };
    if own_prec < parent_prec || (is_right && own_prec == parent_prec && own_prec < 8) {
        let mut wrapped = String::from_str("(");
        wrapped.append(rendered.as_str());
        wrapped.append(")");
        wrapped
    } else {
        rendered
    }
}

/// The braced block of a lambda: its statements one level in.
fn lambda_block(items: &Vec<Item>) -> (r: String)
    ensures
        r@ == "{\n"@ + show_items(items@, 1) + "}"@,
    decreases items@, 2int,
{
    let mut formatter = SourceFormatter { output: String::from_str("{\n"), indent: 1 };
    formatter.items(items.as_slice());
    formatter.output.append("}");
    formatter.finish()
}

/// Call arguments, comma separated.
fn format_args(args: &Vec<CallArg>) -> (r: String)
    ensures
        r@ == join(show_args(args@), ", "@),
    decreases args@, 1int,
{
    let mut parts: Vec<String> = Vec::new();
    let mut i: usize = 0;
    while i < args.len()
        invariant
            i <= args@.len(),
            views(parts@) == show_args(args@.take(i as int)),
        decreases args@.len() - i,
    {
        let arg = &args[i];
        let part = match &arg.name {
            Some(name) => {
                let mut s = name.clone();
                s.append(" = ");
                let v = expr(&arg.value);
                s.append(v.as_str());
                s
            },
            None => expr(&arg.value),
        };
        parts.push(part);
        proof {
            assert(args@.take(i + 1).subrange(0, i as int) == args@.take(i as int));
            assert(views(parts@) == views(parts@.drop_last()).push(part@));
        }
        i = i + 1;
    }
    assert(args@.take(args@.len() as int) == args@);
    join_strings(&parts, ", ")
}

/// Parameters, comma separated.
fn format_params(params: &Vec<Param>) -> (r: String)
    ensures
        r@ == join(show_params(params@), ", "@),
    decreases params@, 1int,
{
    let mut parts: Vec<String> = Vec::new();
    let mut i: usize = 0;
    while i < params.len()
        invariant
            i <= params@.len(),
            views(parts@) == show_params(params@.take(i as int)),
        decreases params@.len() - i,
    {
        let param = &params[i];
        let hint = match &param.type_hint {
            Some(t) => {
                let mut h = String::from_str(": ");
                h.append(t.as_str());
                h
            },
            None => String::new(),
        };
        let default = match &param.default_value {
            Some(v) => {
                let mut d = String::from_str(" = ");
                let e = expr(v);
                d.append(e.as_str());
                d
            },
            None => String::new(),
        };
        let mut part = param.name.clone();
        part.append(hint.as_str());
        part.append(default.as_str());
        parts.push(part);
        proof {
            assert(params@.take(i + 1).subrange(0, i as int) == params@.take(i as int));
            assert(views(parts@) == views(parts@.drop_last()).push(part@));
        }
        i = i + 1;
    }
    assert(params@.take(params@.len() as int) == params@);
    join_strings(&parts, ", ")
}

/// Builds the source form line by line.
struct SourceFormatter {
    output: String,
    indent: usize,
}

impl SourceFormatter {
    fn new() -> (r: Self)
        ensures
            r.output@ == Seq::<char>::empty(),
            r.indent == 0,
    {
        SourceFormatter { output: String::new(), indent: 0 }
    }

    fn finish(self) -> (r: String)
        ensures
            r@ == self.output@,
    {
        self.output
    }

    fn line(&mut self, text: &str)
        ensures
            final(self).output@ == old(self).output@ + show_line(old(self).indent as int, text@),
            final(self).indent == old(self).indent,
    {
        push_indent(&mut self.output, self.indent);
        self.output.append(text);
        push_char(&mut self.output, '\n');
    }

    fn items(&mut self, items: &[Item])
        ensures
            final(self).output@ == old(self).output@ + show_items(items@, old(self).indent as int),
            final(self).indent == old(self).indent,
        decreases items@, 1int,
    {
        let mut i: usize = 0;
        while i < items.len()
            invariant
                i <= items@.len(),
                self.indent == old(self).indent,
                self.output@ == old(self).output@ + show_items(items@.take(i as int), self.indent as int),
            decreases items@.len() - i,
        {
            self.item(&items[i]);
            proof {
                assert(items@.take(i + 1).subrange(0, i as int) == items@.take(i as int));
            }
            i = i + 1;
        }
        assert(items@.take(items@.len() as int) == items@);
    }

    fn nested(&mut self, body: &Vec<Item>)
        ensures
            final(self).output@ == old(self).output@ + show_items(body@, sat_add(old(self).indent as int, 1)),
            final(self).indent == old(self).indent,
        decreases body@, 2int,
    {
        let saved = self.indent;
        self.indent = saved.saturating_add(1);
        self.items(body.as_slice());
        self.indent = saved;
    }

    fn item(&mut self, item: &Item)
        ensures
            final(self).output@ == old(self).output@ + show_item(*item, old(self).indent as int),
            final(self).indent == old(self).indent,
        decreases *item, 0int,
    {
        match &item.node {
            ItemKind::Import(import) => {
                let mut text = String::from_str("import ");
                let p = string_literal(import.path.as_str());
                text.append(p.as_str());
                text.append(" as ");
                text.append(import.alias.as_str());
                self.line(text.as_str());
            },
            ItemKind::Function(function) => self.function(function),
            ItemKind::Class(class) => self.class(class),
            ItemKind::Library(library) => self.library(library),
            ItemKind::MacroDefinition(_) => {},
            ItemKind::Statement(stmt) => self.stmt(stmt),
        }
    }

    fn function(&mut self, function: &Function)
        ensures
            final(self).output@ == old(self).output@ + show_line(old(self).indent as int, "function "@ + function.name@ + "("@
                + join(show_params(function.params@), ", "@) + ")"@ + show_return(function.return_type) + " {"@)
                + show_items(function.body@, sat_add(old(self).indent as int, 1)) + show_line(old(self).indent as int, "}"@),
            final(self).indent == old(self).indent,
        decreases *function, 0int,
    {
        let mut text = String::from_str("function ");
        text.append(function.name.as_str());
        text.append("(");
        let p = format_params(&function.params);
        text.append(p.as_str());
        text.append(")");
        let r = return_suffix(&function.return_type);
        text.append(r.as_str());
        text.append(" {");
        self.line(text.as_str());
        self.nested(&function.body);
        self.line("}");
    }
    fn class(&mut self, class: &Class)
        ensures
            final(self).output@ == old(self).output@ + show_line(old(self).indent as int, "class "@ + class.name@ + match class.base {
                Some(b) => "("@ + b@ + ")"@,
                None => seq![],
            } + " {"@) + show_class_items(class.items@, sat_add(old(self).indent as int, 1)) + show_line(old(self).indent as int, "}"@),
            final(self).indent == old(self).indent,
        decreases *class, 0int,
    {
        let mut text = String::from_str("class ");
        text.append(class.name.as_str());
        match &class.base {
            Some(b) => {
                text.append("(");
                text.append(b.as_str());
                text.append(")");
            },
            None => {},
        }
        text.append(" {");
        self.line(text.as_str());
        let ghost head = self.output@;
        let saved = self.indent;
        self.indent = saved.saturating_add(1);
        let mut i: usize = 0;
        while i < class.items.len()
            invariant
                i <= class.items@.len(),
                self.indent == sat_add(saved as int, 1),
                self.output@ == head + show_class_items(class.items@.take(i as int), self.indent as int),
            decreases class.items@.len() - i,
        {
            self.class_item(&class.items[i]);
            proof {
                assert(class.items@.take(i + 1).subrange(0, i as int) == class.items@.take(i as int));
            }
            i = i + 1;
        }
        assert(class.items@.take(class.items@.len() as int) == class.items@);
        self.indent = saved;
        self.line("}");
    }

    fn class_item(&mut self, item: &ClassItem)
        ensures
            final(self).output@ == old(self).output@ + show_class_item(*item, old(self).indent as int),
            final(self).indent == old(self).indent,
        decreases *item, 0int,
    {
        match &item.node {
            ClassItemKind::Field(field) => {
                let mut parts = modifiers(field.visibility, field.is_static);
                let mut last = field.name.clone();
                last.append(": ");
                last.append(field.field_type.as_str());
                let ghost before = parts@;
                parts.push(last);
                assert(views(parts@) =~= views(before).push(last@));
                let default = match &field.default_value {
                    Some(v) => {
                        let mut d = String::from_str(" = ");
                        let e = expr(v);
                        d.append(e.as_str());
                        d
                    },
                    None => String::new(),
                };
                let mut text = join_strings(&parts, " ");
                text.append(default.as_str());
                self.line(text.as_str());
            },
            ClassItemKind::Constructor(method) => {
                self.class_method("constructor", method);
            },
            ClassItemKind::Method(method) => {
                self.class_method("function", method);
            },
        }
    }

    fn class_method(&mut self, keyword: &str, method: &ClassMethod)
        ensures
            final(self).output@ == old(self).output@ + show_class_method(keyword@, *method, old(self).indent as int),
            final(self).indent == old(self).indent,
        decreases *method, 0int,
    {
        let mut parts = modifiers(method.visibility, method.is_static);
        let mut last = String::from_str(keyword);
        last.append(" ");
        last.append(method.name.as_str());
        last.append("(");
        let p = format_params(&method.params);
        last.append(p.as_str());
        last.append(")");
        let r = return_suffix(&method.return_type);
        last.append(r.as_str());
        let ghost before = parts@;
        parts.push(last);
        assert(views(parts@) == views(before).push(last@));
        let mut text = join_strings(&parts, " ");
        text.append(" {");
        self.line(text.as_str());
        self.nested(&method.body);
        self.line("}");
    }

    fn library(&mut self, library: &Library)
        ensures
            final(self).output@ == old(self).output@ + show_line(old(self).indent as int, "library "@ + debug_quoted(library.path@) + " {"@)
                + show_library_items(library.items@, sat_add(old(self).indent as int, 1)) + show_line(old(self).indent as int, "}"@),
            final(self).indent == old(self).indent,
    {
        let mut text = String::from_str("library ");
        let p = string_literal(library.path.as_str());
        text.append(p.as_str());
        text.append(" {");
        self.line(text.as_str());
        let ghost head = self.output@;
        let saved = self.indent;
        self.indent = saved.saturating_add(1);
        let mut i: usize = 0;
        while i < library.items.len()
            invariant
                i <= library.items@.len(),
                self.indent == sat_add(saved as int, 1),
                self.output@ == head + show_library_items(library.items@.take(i as int), self.indent as int),
            decreases library.items@.len() - i,
        {
            let item = &library.items[i];
            match &item.node {
                LibraryItemKind::Function(function) => {
                    let mut names: Vec<String> = Vec::new();
                    let mut j: usize = 0;
                    while j < function.params.len()
                        invariant
                            j <= function.params@.len(),
                            views(names@) == function.params@.take(j as int).map_values(|p: crate::parser::syntax::LibraryParam| p.name@ + ": "@ + p.param_type@),
                        decreases function.params@.len() - j,
                    {
                        let param = &function.params[j];
                        let mut t = param.name.clone();
                        t.append(": ");
                        t.append(param.param_type.as_str());
                        let ghost before = names@;
                        names.push(t);
                        proof {
                            let f = |p: crate::parser::syntax::LibraryParam| p.name@ + ": "@ + p.param_type@;
                            assert(views(names@) =~= views(before).push(t@));
                            assert(function.params@.take(j + 1) =~= function.params@.take(j as int).push(
                                function.params@[j as int],
                            ));
                            assert(function.params@.take(j + 1).map_values(f) =~= function.params@.take(
                                j as int,
                            ).map_values(f).push(f(function.params@[j as int])));
                        }
                        j = j + 1;
                    }
                    assert(function.params@.take(function.params@.len() as int) == function.params@);
                    let params = join_strings(&names, ", ");
                    let mut line = String::from_str("function ");
                    line.append(function.name.as_str());
                    line.append("(");
                    line.append(params.as_str());
                    line.append(")");
                    let r = return_suffix(&function.return_type);
                    line.append(r.as_str());
                    self.line(line.as_str());
                },
                LibraryItemKind::Global(global) => {
                    let mut line = String::from_str("variable ");
                    line.append(global.name.as_str());
                    line.append(": ");
                    line.append(global.global_type.as_str());
                    self.line(line.as_str());
                },
            }
            proof {
                assert(library.items@.take(i + 1).subrange(0, i as int) == library.items@.take(i as int));
            }
            i = i + 1;
        }
        assert(library.items@.take(library.items@.len() as int) == library.items@);
        self.indent = saved;
        self.line("}");
    }

    fn block(&mut self, body: &Vec<Item>)
        ensures
            final(self).output@ == old(self).output@ + show_block(body@, old(self).indent as int),
            final(self).indent == old(self).indent,
        decreases body@, 3int,
    {
        self.nested(body);
        self.line("}");
    }

    fn else_part(&mut self, else_body: &Option<ElseBody>)
        ensures
            final(self).output@ == old(self).output@ + show_else(*else_body, old(self).indent as int),
            final(self).indent == old(self).indent,
        decreases *else_body, 0int,
    {
        match else_body {
            Some(ElseBody::Block(body, _, _)) => {
                self.line("} else {");
                self.block(body);
            },
            Some(ElseBody::If(stmt)) => {
                push_indent(&mut self.output, self.indent);
                self.output.append("} else ");
                self.inline_if(stmt);
            },
            None => self.line("}"),
        }
    }

    fn inline_if(&mut self, stmt: &Stmt)
        ensures
            final(self).output@ == old(self).output@ + show_inline_if(*stmt, old(self).indent as int),
            final(self).indent == old(self).indent,
        decreases *stmt, 1int,
    {
        match &stmt.node {
            StmtKind::If { condition, then_body, else_body } => {
                self.output.append("if (");
                let c = expr(condition);
                self.output.append(c.as_str());
                self.output.append(") {\n");
                self.nested(then_body);
                self.else_part(else_body);
            },
            _ => {
                proof {
                    reveal_strlit("\n");
                }
                push_char(&mut self.output, '\n');
                self.stmt(stmt);
            },
        }
    }

    fn handlers(&mut self, handlers: &Vec<Catch>)
        ensures
            final(self).output@ == old(self).output@ + show_handlers(handlers@, old(self).indent as int),
            final(self).indent == old(self).indent,
        decreases handlers@, 0int,
    {
        let mut i: usize = 0;
        while i < handlers.len()
            invariant
                i <= handlers@.len(),
                self.indent == old(self).indent,
                self.output@ == old(self).output@ + show_handlers(handlers@.take(i as int), self.indent as int),
            decreases handlers@.len() - i,
        {
            let handler = &handlers[i];
            let mut text = String::from_str("catch");
            let p = catch_pattern(&handler.pattern);
            text.append(p.as_str());
            text.append(" {");
            self.line(text.as_str());
            proof {
                assert(decreases_to!(handlers@ => handlers@[i as int]));
                assert(decreases_to!(handlers@[i as int] => handlers@[i as int].body));
                assert(decreases_to!(handlers@[i as int].body => handlers@[i as int].body@));
            }
            self.block(&handler.body);
            proof {
                assert(handlers@.take(i + 1).subrange(0, i as int) == handlers@.take(i as int));
            }
            i = i + 1;
        }
        assert(handlers@.take(handlers@.len() as int) == handlers@);
    }

    #[verifier::rlimit(40)]
    fn stmt(&mut self, stmt: &Stmt)
        ensures
            final(self).output@ == old(self).output@ + show_stmt(*stmt, old(self).indent as int),
            final(self).indent == old(self).indent,
        decreases *stmt, 0int,
    {
        match &stmt.node {
            StmtKind::Assign { name, is_const, type_hint, value } => {
                let mut text = if *is_const { String::from_str("const ") } else { String::new() };
                text.append(name.as_str());
                match type_hint {
                    Some(t) => {
                        text.append(": ");
                        text.append(t.as_str());
                    },
                    None => {},
                }
                text.append(" = ");
                let v = expr(value);
                text.append(v.as_str());
                self.line(text.as_str());
            },
            StmtKind::AssignTarget { target, value } => {
                let mut text = expr(target);
                text.append(" = ");
                let v = expr(value);
                text.append(v.as_str());
                self.line(text.as_str());
            },
            StmtKind::CompoundAssign { target, op, value } => {
                let mut text = expr(target);
                text.append(" ");
                text.append(compound_op(*op));
                text.append(" ");
                let v = expr(value);
                text.append(v.as_str());
                self.line(text.as_str());
            },
            StmtKind::If { condition, then_body, else_body } => {
                let mut text = String::from_str("if (");
                let c = expr(condition);
                text.append(c.as_str());
                text.append(") {");
                self.line(text.as_str());
                self.nested(then_body);
                self.else_part(else_body);
            },
            StmtKind::While { condition, body } => {
                let mut text = String::from_str("while (");
                let c = expr(condition);
                text.append(c.as_str());
                text.append(") {");
                self.line(text.as_str());
                self.block(body);
            },
            StmtKind::For { variable, init, condition, update, body } => {
                let mut text = String::from_str("for (");
                text.append(variable.as_str());
                text.append(" = ");
                let i = expr(init);
                text.append(i.as_str());
                text.append(", ");
                let c = expr(condition);
                text.append(c.as_str());
                text.append(", ");
                let u = for_update(update);
                text.append(u.as_str());
                text.append(") {");
                self.line(text.as_str());
                self.block(body);
            },
            StmtKind::ForEach { variable, iterable, body } => {
                let mut text = String::from_str("for ");
                text.append(variable.as_str());
                text.append(" from ");
                let it = expr(iterable);
                text.append(it.as_str());
                text.append(" {");
                self.line(text.as_str());
                self.block(body);
            },
            StmtKind::Thread { body } => {
                self.line("thread {");
                self.block(body);
            },
            StmtKind::Try { body, handlers } => {
                self.line("try {");
                self.block(body);
                self.handlers(handlers);
            },
            StmtKind::Raise { error_type, message } => {
                let mut text = String::from_str("raise ");
                text.append(error_type.as_str());
                match message {
                    Some(m) => {
                        text.append("(");
                        let e = expr(m);
                        text.append(e.as_str());
                        text.append(")");
                    },
                    None => {},
                }
                self.line(text.as_str());
            },
            StmtKind::Return(value) => {
                match value {
                    Some(v) => {
                        let mut text = String::from_str("return ");
                        let e = expr(v);
                        text.append(e.as_str());
                        self.line(text.as_str());
                    },
                    None => self.line("return"),
                }
            },
            StmtKind::Expr(value) => {
                let e = expr(value);
                self.line(e.as_str());
            },
        }
    }
}

/// `public`/`private` and `static`, as present.
fn modifiers(visibility: Option<Visibility>, is_static: bool) -> (r: Vec<String>)
    ensures
        views(r@) == show_modifiers(visibility, is_static),
{
    let mut parts: Vec<String> = Vec::new();
    match visibility {
        Some(Visibility::Public) => parts.push(String::from_str("public")),
        Some(Visibility::Private) => parts.push(String::from_str("private")),
        None => {},
    }
    let ghost before = parts@;
    if is_static {
        parts.push(String::from_str("static"));
        assert(views(parts@) == views(before).push("static"@));
    }
    parts
}

/// The pattern of a `catch` clause.
fn catch_pattern(pattern: &Option<CatchPattern>) -> (r: String)
    ensures
        r@ == show_catch_pattern(*pattern),
{
    match pattern {
        None => String::new(),
        Some(CatchPattern::Text(name, _, _)) => {
            let mut s = String::from_str(" (as ");
            s.append(name.as_str());
            s.append(")");
            s
        },
        Some(CatchPattern::Type(name, _, _)) => {
            let mut s = String::from_str(" (");
            s.append(name.as_str());
            s.append(")");
            s
        },
        Some(CatchPattern::TypeAndText { type_hint, text_name, .. }) => {
            let mut s = String::from_str(" (");
            s.append(type_hint.as_str());
            s.append(" as ");
            s.append(text_name.as_str());
            s.append(")");
            s
        },
    }
}

/// The update clause of a `for` loop.
fn for_update(update: &ForUpdate) -> (r: String)
    ensures
        r@ == show_for_update(*update),
    decreases *update, 0int,
{
    match update {
        ForUpdate::Assign { name, value, .. } => {
            let mut s = name.clone();
            s.append(" = ");
            let v = expr(value);
            s.append(v.as_str());
            s
        },
        ForUpdate::AssignTarget { target, value, .. } => {
            let mut s = expr(target);
            s.append(" = ");
            let v = expr(value);
            s.append(v.as_str());
            s
        },
        ForUpdate::Compound { target, op, value, .. } => {
            let mut s = expr(target);
            s.append(" ");
            s.append(compound_op(*op));
            s.append(" ");
            let v = expr(value);
            s.append(v.as_str());
            s
        },
        ForUpdate::Expr(value) => expr(value),
    }
}

/// The source form of a program after macro expansion: one statement per
/// line, blocks indented by four spaces, macro definitions left out.
pub fn format_program(program: &Program) -> (r: String)
    ensures
        r@ == show_program(*program),
{
    let mut formatter = SourceFormatter::new();
    formatter.items(program.items.as_slice());
    formatter.finish()
}

} // verus!
