use goida::parser::lexer::Token;
use goida::parser::printer::format_program;
use goida::parser::syntax::{
    BinaryOp, CallArg, ElseBody, Expr, ExprKind, Function, Item, ItemKind, MacroCall, MacroDefinition,
    MacroDelimiter, MacroToken, Param, Program, Spanned, Stmt, StmtKind, UnaryOp,
};

fn e(node: ExprKind) -> Expr {
    Spanned::new(node, 0, 0)
}

fn num(n: i64) -> Expr {
    e(ExprKind::Number(n))
}

fn ident(name: &str) -> Expr {
    e(ExprKind::Identifier(name.to_string()))
}

fn bin(op: BinaryOp, left: Expr, right: Expr) -> Expr {
    e(ExprKind::Binary { op, left: Box::new(left), right: Box::new(right) })
}

fn stmt(node: StmtKind) -> Item {
    let s: Stmt = Spanned::new(node, 0, 0);
    Spanned::new(ItemKind::Statement(Box::new(s)), 0, 0)
}

fn assign(name: &str, value: Expr) -> Item {
    stmt(StmtKind::Assign { name: name.to_string(), is_const: false, type_hint: None, value })
}

#[test]
fn expanded_program_prints_without_macro_definitions() {
    let definition = Spanned::new(
        ItemKind::MacroDefinition(MacroDefinition { name: "twice".to_string(), rules: vec![] }),
        0,
        0,
    );
    let program = Program { items: vec![definition, assign("value", bin(BinaryOp::Add, num(2), num(2)))] };
    let preview = format_program(&program);
    assert!(preview.contains("value = 2 + 2"));
    assert!(!preview.contains("macro twice"));
    assert_eq!(preview, "value = 2 + 2\n");
}

#[test]
fn parentheses_only_where_precedence_needs_them() {
    let left_assoc = bin(BinaryOp::Sub, bin(BinaryOp::Sub, ident("a"), ident("b")), ident("c"));
    let right_nested = bin(BinaryOp::Sub, ident("a"), bin(BinaryOp::Sub, ident("b"), ident("c")));
    let mixed = bin(BinaryOp::Mul, bin(BinaryOp::Add, ident("a"), ident("b")), ident("c"));
    let program = Program {
        items: vec![
            stmt(StmtKind::Expr(left_assoc)),
            stmt(StmtKind::Expr(right_nested)),
            stmt(StmtKind::Expr(mixed)),
            stmt(StmtKind::Expr(e(ExprKind::Unary { op: UnaryOp::Not, operand: Box::new(ident("x")) }))),
            stmt(StmtKind::Expr(bin(BinaryOp::And, ident("p"), bin(BinaryOp::Or, ident("q"), ident("r"))))),
        ],
    };
    assert_eq!(format_program(&program), "a - b - c\na - (b - c)\n(a + b) * c\n!x\np and (q or r)\n");
}

#[test]
fn blocks_are_indented_and_else_if_chains_stay_on_one_line() {
    let inner_if: Stmt = Spanned::new(
        StmtKind::If {
            condition: ident("b"),
            then_body: vec![assign("y", num(2))],
            else_body: Some(ElseBody::Block(vec![assign("y", num(3))], 0, 0)),
        },
        0,
        0,
    );
    let program = Program {
        items: vec![stmt(StmtKind::If {
            condition: ident("a"),
            then_body: vec![assign("y", num(1))],
            else_body: Some(ElseBody::If(Box::new(inner_if))),
        })],
    };
    assert_eq!(
        format_program(&program),
        "if (a) {\n    y = 1\n} else if (b) {\n    y = 2\n} else {\n    y = 3\n}\n"
    );
}

#[test]
fn functions_calls_strings_and_macro_calls() {
    let call = e(ExprKind::FunctionCall {
        function: Box::new(ident("print")),
        args: vec![
            CallArg { name: None, value: e(ExprKind::Text("hi \"there\"".to_string())) },
            CallArg { name: Some("end".to_string()), value: e(ExprKind::Boolean(true)) },
        ],
    });
    let macro_call = e(ExprKind::MacroCall(MacroCall {
        name: "twice".to_string(),
        args: vec![
            MacroToken { token: Token::Ident("x".to_string()), start: 0, end: 1 },
            MacroToken { token: Token::Plus, start: 2, end: 3 },
            MacroToken { token: Token::Number(1), start: 4, end: 5 },
        ],
        delimiter: MacroDelimiter::Paren,
        start: 0,
        end: 0,
    }));
    let function = Function {
        name: "main".to_string(),
        params: vec![Param { name: "n".to_string(), type_hint: Some("number".to_string()), default_value: Some(num(3)), start: 0, end: 0 }],
        return_type: Some("void".to_string()),
        body: vec![stmt(StmtKind::Expr(call)), stmt(StmtKind::Return(Some(macro_call)))],
    };
    let program = Program { items: vec![Spanned::new(ItemKind::Function(function), 0, 0)] };
    assert_eq!(
        format_program(&program),
        "function main(n: number = 3) -> void {\n    print(\"hi \\\"there\\\"\", end = true)\n    return twice!('x' Plus 1)\n}\n"
    );
}

#[test]
fn negative_numbers_print_with_their_sign() {
    let program = Program { items: vec![assign("v", num(-42)), assign("w", num(i64::MIN))] };
    assert_eq!(format_program(&program), "v = -42\nw = -9223372036854775808\n");
}
