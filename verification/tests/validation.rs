use goida::ast::Span;
use goida::parser::program::{
    CallArgument, ClassDefinition, ClassField, ExpressionKind, FunctionDefinition, Handler, LiteralValue,
    Module, NameTable, Parameter, StatementKind,
};
use goida::parser::structs::ParseError;
use goida::parser::validation::{
    is_name_known, known_builtin_names, validate_expression_names, validate_module_names, validate_statement_names,
};

fn span(start: usize, end: usize) -> Span {
    Span::new(start, end, 0)
}

fn message(r: Result<(), ParseError>) -> (usize, usize, String) {
    match r {
        Err(ParseError::InvalidSyntax(d)) => (d.location.start, d.location.end, d.message),
        other => panic!("expected a syntax error, got {:?}", other),
    }
}

#[test]
fn unknown_identifier_is_reported_with_its_span() {
    let mut names = NameTable::new();
    let x = names.intern("x");
    let mut module = Module::new();
    let e = module.add_expression(ExpressionKind::Identifier(x), span(3, 4));
    let s = module.add_statement(StatementKind::Expression(e), span(3, 5));
    let mut scopes = vec![vec![]];
    let r = validate_statement_names(&module, &names, s, &mut scopes);
    assert_eq!(message(r), (3, 4, "Имя 'x' не найдено".to_string()));
}

#[test]
fn identifier_in_scope_is_accepted() {
    let mut names = NameTable::new();
    let x = names.intern("x");
    let mut module = Module::new();
    let e = module.add_expression(ExpressionKind::Identifier(x), span(0, 1));
    let mut scopes = vec![vec![x], vec![]];
    assert!(validate_expression_names(&module, &names, &scopes, e).is_ok());
    let s = module.add_statement(StatementKind::Expression(e), span(0, 1));
    assert!(validate_statement_names(&module, &names, s, &mut scopes).is_ok());
    assert_eq!(scopes, vec![vec![x], vec![]]);
}

#[test]
fn assignment_adds_its_name_to_the_innermost_scope() {
    let mut names = NameTable::new();
    let a = names.intern("a");
    let mut module = Module::new();
    let one = module.add_expression(ExpressionKind::Literal(LiteralValue::Number(1)), span(4, 5));
    let assign = module.add_statement(StatementKind::Assign { name: a, is_const: false, value: one }, span(0, 5));
    let use_a = module.add_expression(ExpressionKind::Identifier(a), span(6, 7));
    let use_stmt = module.add_statement(StatementKind::Expression(use_a), span(6, 7));
    let mut scopes = vec![vec![], vec![]];
    assert!(validate_statement_names(&module, &names, assign, &mut scopes).is_ok());
    assert_eq!(scopes, vec![vec![], vec![a]]);
    assert!(validate_statement_names(&module, &names, use_stmt, &mut scopes).is_ok());
}

#[test]
fn block_scope_is_closed_after_the_block() {
    let mut names = NameTable::new();
    let a = names.intern("a");
    let mut module = Module::new();
    let one = module.add_expression(ExpressionKind::Literal(LiteralValue::Number(1)), span(0, 1));
    let assign = module.add_statement(StatementKind::Assign { name: a, is_const: false, value: one }, span(0, 1));
    let use_a = module.add_expression(ExpressionKind::Identifier(a), span(2, 3));
    let inner_use = module.add_statement(StatementKind::Expression(use_a), span(2, 3));
    let block = module.add_statement(StatementKind::Block(vec![assign, inner_use]), span(0, 4));
    let outer_use = module.add_statement(StatementKind::Expression(use_a), span(2, 3));
    let mut scopes = vec![vec![]];
    assert!(validate_statement_names(&module, &names, block, &mut scopes).is_ok());
    assert_eq!(scopes, vec![Vec::<usize>::new()]);
    let r = validate_statement_names(&module, &names, outer_use, &mut scopes);
    assert_eq!(message(r), (2, 3, "Имя 'a' не найдено".to_string()));
}

#[test]
fn dotted_name_resolves_through_an_imported_module() {
    let mut names = NameTable::new();
    let lib = names.intern("мат");
    let sqrt = names.intern("корень");
    let dotted = names.intern("мат.корень");
    let missing = names.intern("мат.синус");
    let mut module = Module::new();
    module.module_members.push(sqrt);
    let scopes = vec![vec![lib]];
    assert!(is_name_known(&module, &names, &scopes, dotted));
    assert!(!is_name_known(&module, &names, &scopes, missing));
    let no_module = vec![vec![]];
    assert!(!is_name_known(&module, &names, &no_module, dotted));
}

#[test]
fn unknown_class_is_reported() {
    let mut names = NameTable::new();
    let k = names.intern("Точка");
    let mut module = Module::new();
    let e = module.add_expression(ExpressionKind::ObjectCreation { class_name: k, args: vec![] }, span(5, 15));
    let scopes = vec![vec![]];
    let r = validate_expression_names(&module, &names, &scopes, e);
    assert_eq!(message(r), (5, 15, "Класс 'Точка' не найден".to_string()));
}

#[test]
fn first_unknown_argument_is_reported() {
    let mut names = NameTable::new();
    let f = names.intern("f");
    let b = names.intern("b");
    let c = names.intern("c");
    let mut module = Module::new();
    let callee = module.add_expression(ExpressionKind::Identifier(f), span(0, 1));
    let arg_b = module.add_expression(ExpressionKind::Identifier(b), span(2, 3));
    let arg_c = module.add_expression(ExpressionKind::Identifier(c), span(5, 6));
    let call = module.add_expression(
        ExpressionKind::FunctionCall {
            function: callee,
            args: vec![CallArgument { name: None, value: arg_b }, CallArgument { name: None, value: arg_c }],
        },
        span(0, 7),
    );
    let scopes = vec![vec![f]];
    let r = validate_expression_names(&module, &names, &scopes, call);
    assert_eq!(message(r), (2, 3, "Имя 'b' не найдено".to_string()));
}

#[test]
fn function_parameters_are_known_in_its_body() {
    let mut names = NameTable::new();
    let f = names.intern("f");
    let p = names.intern("p");
    let q = names.intern("q");
    let mut module = Module::new();
    let use_p = module.add_expression(ExpressionKind::Identifier(p), span(10, 11));
    let body_stmt = module.add_statement(StatementKind::Return(Some(use_p)), span(10, 11));
    let body = module.add_statement(StatementKind::Block(vec![body_stmt]), span(9, 12));
    let default_q = module.add_expression(ExpressionKind::Identifier(q), span(4, 5));
    let def = FunctionDefinition {
        name: f,
        params: vec![Parameter { name: p, default_value: None }],
        body,
        span: span(0, 12),
    };
    let s = module.add_statement(StatementKind::FunctionDefinition(def), span(0, 12));
    let mut scopes = vec![vec![]];
    assert!(validate_statement_names(&module, &names, s, &mut scopes).is_ok());
    assert_eq!(scopes, vec![vec![f]]);
    let bad = FunctionDefinition {
        name: f,
        params: vec![Parameter { name: p, default_value: Some(default_q) }],
        body,
        span: span(0, 12),
    };
    let s2 = module.add_statement(StatementKind::FunctionDefinition(bad), span(0, 12));
    let r = validate_statement_names(&module, &names, s2, &mut scopes);
    assert_eq!(message(r), (4, 5, "Имя 'q' не найдено".to_string()));
}

#[test]
fn for_variable_and_handler_text_are_scoped() {
    let mut names = NameTable::new();
    let i = names.intern("i");
    let err = names.intern("ошибка");
    let mut module = Module::new();
    let zero = module.add_expression(ExpressionKind::Literal(LiteralValue::Number(0)), span(0, 1));
    let use_i = module.add_expression(ExpressionKind::Identifier(i), span(2, 3));
    let body_stmt = module.add_statement(StatementKind::Expression(use_i), span(2, 3));
    let body = module.add_statement(StatementKind::Block(vec![body_stmt]), span(2, 4));
    let for_stmt = module.add_statement(
        StatementKind::For { variable: i, init: zero, condition: use_i, update: use_i, body },
        span(0, 5),
    );
    let mut scopes = vec![vec![]];
    assert!(validate_statement_names(&module, &names, for_stmt, &mut scopes).is_ok());
    assert_eq!(scopes, vec![Vec::<usize>::new()]);

    let use_err = module.add_expression(ExpressionKind::Identifier(err), span(8, 14));
    let handler_stmt = module.add_statement(StatementKind::Expression(use_err), span(8, 14));
    let handler_body = module.add_statement(StatementKind::Block(vec![handler_stmt]), span(7, 15));
    let try_body = module.add_statement(StatementKind::Block(vec![]), span(0, 2));
    let with_text = module.add_statement(
        StatementKind::Try {
            body: try_body,
            handlers: vec![Handler { error_type: None, error_text: Some(err), body: handler_body }],
        },
        span(0, 15),
    );
    assert!(validate_statement_names(&module, &names, with_text, &mut scopes).is_ok());
    let without_text = module.add_statement(
        StatementKind::Try {
            body: try_body,
            handlers: vec![Handler { error_type: None, error_text: None, body: handler_body }],
        },
        span(0, 15),
    );
    let r = validate_statement_names(&module, &names, without_text, &mut scopes);
    assert_eq!(message(r), (8, 14, "Имя 'ошибка' не найдено".to_string()));
}

#[test]
fn class_field_values_are_checked() {
    let mut names = NameTable::new();
    let k = names.intern("К");
    let field = names.intern("поле");
    let v = names.intern("значение");
    let mut module = Module::new();
    let init = module.add_expression(ExpressionKind::Identifier(v), span(20, 28));
    let class = ClassDefinition {
        name: k,
        fields: vec![ClassField { name: field, value: Some(init) }],
        methods: vec![],
        constructor: None,
    };
    let s = module.add_statement(StatementKind::ClassDefinition(class), span(0, 30));
    let mut scopes = vec![vec![]];
    let r = validate_statement_names(&module, &names, s, &mut scopes);
    assert_eq!(message(r), (20, 28, "Имя 'значение' не найдено".to_string()));
}

#[test]
fn name_table_interns_once() {
    let mut names = NameTable::new();
    let a = names.intern("a");
    let b = names.intern("b");
    assert_eq!(names.intern("a"), a);
    assert_ne!(a, b);
    assert_eq!(names.find("b"), Some(b));
    assert_eq!(names.find("c"), None);
    assert_eq!(names.resolve(b), "b");
    assert_eq!(names.resolve(99), "");
}

#[test]
fn builtin_names_are_interned_once() {
    let mut names = NameTable::new();
    let print = names.intern("печать");
    let symbols = known_builtin_names(&mut names);
    assert_eq!(symbols.len(), 22);
    assert!(symbols.contains(&print));
    assert_eq!(names.len(), 22);
    let again = known_builtin_names(&mut names);
    assert_eq!(again, symbols);
    assert_eq!(names.resolve(symbols[21]), "ДатаВремя");
}

#[test]
fn module_body_sees_later_top_level_assignments_and_builtins() {
    let mut names = NameTable::new();
    let print = names.intern("печать");
    let later = names.intern("позже");
    let f = names.intern("f");
    let mut module = Module::new();
    let callee = module.add_expression(ExpressionKind::Identifier(print), span(0, 6));
    let arg = module.add_expression(ExpressionKind::Identifier(later), span(7, 12));
    let call = module.add_expression(
        ExpressionKind::FunctionCall { function: callee, args: vec![CallArgument { name: None, value: arg }] },
        span(0, 13),
    );
    let first = module.add_statement(StatementKind::Expression(call), span(0, 13));
    let one = module.add_expression(ExpressionKind::Literal(LiteralValue::Number(1)), span(20, 21));
    let second = module.add_statement(StatementKind::Assign { name: later, is_const: false, value: one }, span(14, 21));
    let body = vec![first, second];
    assert!(validate_module_names(&module, &mut names, &vec![], &body).is_ok());

    let use_f = module.add_expression(ExpressionKind::Identifier(f), span(30, 31));
    let third = module.add_statement(StatementKind::Expression(use_f), span(30, 31));
    let body = vec![first, second, third];
    let r = validate_module_names(&module, &mut names, &vec![], &body);
    assert_eq!(message(r), (30, 31, "Имя 'f' не найдено".to_string()));
    assert!(validate_module_names(&module, &mut names, &vec![f], &body).is_ok());
}
