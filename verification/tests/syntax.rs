use goida::parser::printer::format_program;
use goida::parser::syntax::{
    apply_postfix, CallArg, ExprKind, ItemKind, PostfixOp, Program, Spanned, StmtKind,
};

type Expr = goida::parser::syntax::Expr;

fn ident(name: &str, start: usize, end: usize) -> Expr {
    Spanned { node: ExprKind::Identifier(name.to_string()), start, end }
}

#[test]
fn postfix_chain_applies_operations_left_to_right() {
    let ops = vec![
        PostfixOp::FunctionCall(vec![CallArg { name: None, value: ident("x", 2, 3) }], 1, 4),
        PostfixOp::PropertyAccess("y".to_string(), 4, 6),
        PostfixOp::Index(Spanned { node: ExprKind::Number(0), start: 7, end: 8 }, 6, 9),
        PostfixOp::MethodCall("m".to_string(), vec![], 9, 13),
    ];
    let e = apply_postfix(ident("f", 0, 1), ops);
    assert_eq!((e.start, e.end), (0, 13));
    let stmt = Spanned { node: StmtKind::Expr(e), start: 0, end: 13 };
    let program = Program { items: vec![Spanned { node: ItemKind::Statement(Box::new(stmt)), start: 0, end: 13 }] };
    assert_eq!(format_program(&program), "f(x).y[0].m()\n");
}

#[test]
fn postfix_chain_without_operations_is_the_expression() {
    let e = apply_postfix(ident("a", 3, 4), vec![]);
    assert_eq!((e.start, e.end), (3, 4));
    assert!(matches!(e.node, ExprKind::Identifier(ref n) if n == "a"));
}
