use goida::ast::Span;
use goida::parser::builder::{build_target_assignment, catch_bindings, check_parameter_order, resolve_error_class};
use goida::parser::program::{ExpressionKind, LiteralValue, Module, NameTable, StatementKind};
use goida::parser::structs::ParseError;
use goida::parser::syntax::{CatchPattern, ExprKind, Param, Spanned};

fn span(start: usize, end: usize) -> Span {
    Span::new(start, end, 0)
}

#[test]
fn property_target_becomes_property_assignment() {
    let mut names = NameTable::new();
    let obj = names.intern("obj");
    let field = names.intern("поле");
    let mut module = Module::new();
    let object = module.add_expression(ExpressionKind::Identifier(obj), span(0, 3));
    let target = module.add_expression(ExpressionKind::PropertyAccess { object, property: field }, span(0, 8));
    let value = module.add_expression(ExpressionKind::Literal(LiteralValue::Number(5)), span(11, 12));
    let id = build_target_assignment(&mut module, target, value, span(0, 12)).unwrap();
    assert_eq!(id, 0);
    match &module.statements[id].kind {
        StatementKind::PropertyAssign { object: o, property, value: v } => {
            assert_eq!((*o, *property, *v), (object, field, value));
        }
        other => panic!("unexpected {:?}", other),
    }
}

#[test]
fn index_target_becomes_index_assignment() {
    let mut names = NameTable::new();
    let list = names.intern("список");
    let mut module = Module::new();
    let object = module.add_expression(ExpressionKind::Identifier(list), span(0, 6));
    let index = module.add_expression(ExpressionKind::Literal(LiteralValue::Number(0)), span(7, 8));
    let target = module.add_expression(ExpressionKind::Index { object, index }, span(0, 9));
    let value = module.add_expression(ExpressionKind::Literal(LiteralValue::Number(1)), span(12, 13));
    let id = build_target_assignment(&mut module, target, value, span(0, 13)).unwrap();
    assert!(matches!(module.statements[id].kind, StatementKind::IndexAssign { .. }));
}

#[test]
fn other_targets_are_rejected() {
    let mut module = Module::new();
    let target = module.add_expression(ExpressionKind::Literal(LiteralValue::Number(1)), span(0, 1));
    let value = module.add_expression(ExpressionKind::Literal(LiteralValue::Number(2)), span(4, 5));
    match build_target_assignment(&mut module, target, value, span(0, 5)) {
        Err(ParseError::InvalidSyntax(d)) => {
            assert_eq!(
                d.message,
                "Левая часть присваивания должна быть переменной, полем объекта или индексом списка"
            );
            assert_eq!((d.location.start, d.location.end), (0, 5));
        }
        other => panic!("unexpected {:?}", other),
    }
    assert!(module.statements.is_empty());
    match build_target_assignment(&mut module, 99, value, span(0, 5)) {
        Err(ParseError::InvalidSyntax(d)) => assert_eq!(d.message, "Не найдена нода для выражения"),
        other => panic!("unexpected {:?}", other),
    }
}

#[test]
fn raise_of_unknown_error_class_is_a_type_error() {
    let mut names = NameTable::new();
    let known = names.intern("ОшибкаЗначения");
    let classes = vec![known];
    assert_eq!(resolve_error_class(&classes, &mut names, "ОшибкаЗначения", span(0, 5)).unwrap(), known);
    match resolve_error_class(&classes, &mut names, "НетТакой", span(6, 14)) {
        Err(ParseError::TypeError(d)) => {
            assert_eq!(d.message, "Класс ошибки 'НетТакой' не найден");
            assert_eq!((d.location.start, d.location.end), (6, 14));
        }
        other => panic!("unexpected {:?}", other),
    }
    assert_eq!(names.resolve(1), "НетТакой");
}

#[test]
fn catch_patterns_bind_class_or_text() {
    let mut names = NameTable::new();
    let err = names.intern("Ошибка");
    let classes = vec![err];
    let text = CatchPattern::Text("e".to_string(), 0, 1);
    let (c, t) = catch_bindings(&classes, &mut names, &text, 0).unwrap();
    assert_eq!((c, t.map(|s| names.resolve(s).to_string())), (None, Some("e".to_string())));

    let class_only = CatchPattern::Type("Ошибка".to_string(), 0, 6);
    assert_eq!(catch_bindings(&classes, &mut names, &class_only, 0).unwrap(), (Some(err), None));

    let not_a_class = CatchPattern::Type("сообщение".to_string(), 0, 9);
    let (c, t) = catch_bindings(&classes, &mut names, &not_a_class, 0).unwrap();
    assert_eq!(c, None);
    assert_eq!(names.resolve(t.unwrap()), "сообщение");

    let both = CatchPattern::TypeAndText {
        type_hint: "Ошибка".to_string(),
        type_start: 0,
        type_end: 6,
        text_name: "текст".to_string(),
        text_start: 7,
        text_end: 12,
    };
    let (c, t) = catch_bindings(&classes, &mut names, &both, 0).unwrap();
    assert_eq!(c, Some(err));
    assert_eq!(names.resolve(t.unwrap()), "текст");

    let unknown = CatchPattern::TypeAndText {
        type_hint: "Чужая".to_string(),
        type_start: 3,
        type_end: 8,
        text_name: "текст".to_string(),
        text_start: 9,
        text_end: 14,
    };
    match catch_bindings(&classes, &mut names, &unknown, 2) {
        Err(ParseError::TypeError(d)) => {
            assert_eq!(d.message, "Класс ошибки 'Чужая' не найден");
            assert_eq!((d.location.start, d.location.end, d.location.file_id), (3, 8, 2));
        }
        other => panic!("unexpected {:?}", other),
    }
}

fn param(name: &str, default: bool, start: usize) -> Param {
    Param {
        name: name.to_string(),
        type_hint: None,
        default_value: if default { Some(Spanned::new(ExprKind::Number(1), start, start + 1)) } else { None },
        start,
        end: start + 1,
    }
}

#[test]
fn required_parameter_after_default_is_rejected() {
    let ok = vec![param("a", false, 0), param("b", true, 2), param("c", true, 4)];
    assert!(check_parameter_order(&ok, 0).is_ok());
    let bad = vec![param("a", true, 0), param("b", false, 2), param("c", false, 4)];
    match check_parameter_order(&bad, 1) {
        Err(ParseError::TypeError(d)) => {
            assert_eq!(
                d.message,
                "Обязательный параметр 'b' не может следовать за параметром со значением по умолчанию"
            );
            assert_eq!((d.location.start, d.location.end, d.location.file_id), (2, 3, 1));
        }
        other => panic!("unexpected {:?}", other),
    }
}
