//! The decisions the program-tree builder makes while it turns the syntax
//! tree into a module: which assignment a target makes, whether an error
//! class exists, what a `catch` pattern binds, and whether the parameters
//! keep their defaults last.
use vstd::prelude::*;
use crate::ast::{Span, ErrorData};
use crate::parser::structs::ParseError;
use crate::parser::syntax::{CatchPattern, Param};
use crate::parser::program::{
    NameTable, Module, Symbol, ExprId, StmtId, ExpressionKind, StatementKind, Statement,
    expression_children_below,
};
use crate::parser::validation::vec_contains;

verus! {

/// The message for a target that cannot be assigned to.
pub open spec fn bad_target_message() -> Seq<char> {
    "Левая часть присваивания должна быть переменной, полем объекта или индексом списка"@
}

/// The message for a target that is not in the arena.
pub open spec fn missing_node_message() -> Seq<char> {
    "Не найдена нода для выражения"@
}

/// The statement that assigning `value` to expression `target` makes: a
/// property assignment for a property access, an index assignment for an
/// index, none for anything else.
pub open spec fn target_assignment(target: ExpressionKind, value: ExprId) -> Option<StatementKind> {
    match target {
        ExpressionKind::PropertyAccess { object, property } => Some(
            StatementKind::PropertyAssign { object, property, value },
        ),
        ExpressionKind::Index { object, index } => Some(StatementKind::IndexAssign { object, index, value }),
        _ => None,
    }
}

/// `r` is a syntax error at `span` with message `msg`.
pub open spec fn is_syntax_error(r: Result<StmtId, ParseError>, span: Span, msg: Seq<char>) -> bool {
    match r {
        Err(ParseError::InvalidSyntax(d)) => d.location == span && d.message@ == msg,
        _ => false,
    }
}

/// Adds the statement that assigns `value` to the expression `target`, or
/// reports that the target cannot be assigned to.
pub fn build_target_assignment(module: &mut Module, target: ExprId, value: ExprId, span: Span) -> (r: Result<
    StmtId,
    ParseError,
>)
    requires
        old(module).wf(),
        value < old(module).expressions@.len(),
    ensures
        final(module).wf(),
        final(module).expressions@ == old(module).expressions@,
        final(module).module_members@ == old(module).module_members@,
        target >= old(module).expressions@.len() ==> final(module).statements@ == old(module).statements@
            && is_syntax_error(r, span, missing_node_message()),
        target < old(module).expressions@.len() ==> match target_assignment(
            old(module).expressions@[target as int].kind,
            value,
        ) {
            Some(kind) => r == Ok::<StmtId, ParseError>(old(module).statements@.len() as StmtId)
                && final(module).statements@ == old(module).statements@.push(Statement { kind, span }),
            None => final(module).statements@ == old(module).statements@ && is_syntax_error(
                r,
                span,
                bad_target_message(),
            ),
        },
{
    if target >= module.expressions.len() {
        return Err(
            ParseError::InvalidSyntax(
                ErrorData::new(span, String::from_str("Не найдена нода для выражения")),
            ),
        );
    }
    proof {
        assert(expression_children_below(module.expressions@[target as int].kind, target as int));
    }
    let kind = match &module.expressions[target].kind {
        ExpressionKind::PropertyAccess { object, property } => Some(
            StatementKind::PropertyAssign { object: *object, property: *property, value },
        ),
        ExpressionKind::Index { object, index } => Some(
            StatementKind::IndexAssign { object: *object, index: *index, value },
        ),
        _ => None,
    };
    match kind {
        Some(kind) => Ok(module.add_statement(kind, span)),
        None => Err(
            ParseError::InvalidSyntax(
                ErrorData::new(
                    span,
                    String::from_str(
                        "Левая часть присваивания должна быть переменной, полем объекта или индексом списка",
                    ),
                ),
            ),
        ),
    }
}

/// The message for an unknown error class.
pub open spec fn unknown_error_class_message(n: Seq<char>) -> Seq<char> {
    "Класс ошибки '"@ + n + "' не найден"@
}

/// `after` is `before` with `name` interned.
pub open spec fn interned(before: Seq<Seq<char>>, after: Seq<Seq<char>>, name: Seq<char>) -> bool {
    if before.contains(name) {
        after == before
    } else {
        after == before.push(name)
    }
}

/// The symbol of `name` in `names`.
pub open spec fn symbol_of(names: Seq<Seq<char>>, name: Seq<char>, s: Symbol) -> bool {
    s < names.len() && names[s as int] == name
}

/// Interns the name of an error class and accepts it only if `classes`
/// holds its symbol, as `raise` and a typed `catch` require.
pub fn resolve_error_class(classes: &Vec<Symbol>, names: &mut NameTable, name: &str, span: Span) -> (r: Result<
    Symbol,
    ParseError,
>)
    requires
        old(names).wf(),
        old(names)@.len() < crate::parser::program::name_capacity(),
    ensures
        final(names).wf(),
        interned(old(names)@, final(names)@, name@),
        match r {
            Ok(s) => symbol_of(final(names)@, name@, s) && classes@.contains(s),
            Err(ParseError::TypeError(d)) => d.location == span && d.message@
                == unknown_error_class_message(name@) && forall|s: Symbol|
                symbol_of(final(names)@, name@, s) ==> !classes@.contains(s),
            _ => false,
        },
{
    let s = names.intern(name);
    if vec_contains(classes, s) {
        return Ok(s);
    }
    proof {
        assert forall|t: Symbol| symbol_of(names@, name@, t) implies !classes@.contains(t) by {
            assert(t == s);
        }
    }
    let mut msg = String::from_str("Класс ошибки '");
    msg.append(name);
    msg.append("' не найден");
    Err(ParseError::TypeError(ErrorData::new(span, msg)))
}

/// What a `catch` pattern binds: the error class and the name of the error
/// text. A single name is the class if `classes` holds it and the text name
/// otherwise; with both, the class must exist.
pub fn catch_bindings(
    classes: &Vec<Symbol>,
    names: &mut NameTable,
    pattern: &CatchPattern,
    file_id: usize,
) -> (r: Result<(Option<Symbol>, Option<Symbol>), ParseError>)
    requires
        old(names).wf(),
        old(names)@.len() + 2 <= crate::parser::program::name_capacity(),
    ensures
        final(names).wf(),
        match *pattern {
            CatchPattern::Text(name, _, _) => interned(old(names)@, final(names)@, name@) && (
            r matches Ok((None, Some(t))) && symbol_of(final(names)@, name@, t)),
            CatchPattern::Type(name, _, _) => interned(old(names)@, final(names)@, name@) && match r {
                Ok((Some(c), None)) => symbol_of(final(names)@, name@, c) && classes@.contains(c),
                Ok((None, Some(t))) => symbol_of(final(names)@, name@, t) && !classes@.contains(t),
                _ => false,
            },
            CatchPattern::TypeAndText { type_hint, type_start, type_end, text_name, .. } => match r {
                Ok((Some(c), Some(t))) => symbol_of(final(names)@, type_hint@, c) && classes@.contains(c)
                    && symbol_of(final(names)@, text_name@, t) && exists|mid: Seq<Seq<char>>|
                    interned(old(names)@, mid, type_hint@) && interned(mid, final(names)@, text_name@),
                Err(ParseError::TypeError(d)) => interned(old(names)@, final(names)@, type_hint@)
                    && d.location == Span { start: type_start, end: type_end, file_id }
                    && d.message@ == unknown_error_class_message(type_hint@) && forall|s: Symbol|
                    symbol_of(final(names)@, type_hint@, s) ==> !classes@.contains(s),
                _ => false,
            },
        },
{
    match pattern {
        CatchPattern::Text(name, _, _) => {
            let t = names.intern(name.as_str());
            Ok((None, Some(t)))
        },
        CatchPattern::Type(name, _, _) => {
            let s = names.intern(name.as_str());
            if vec_contains(classes, s) {
                Ok((Some(s), None))
            } else {
                Ok((None, Some(s)))
            }
        },
        CatchPattern::TypeAndText { type_hint, type_start, type_end, text_name, .. } => {
            let c = resolve_error_class(
                classes,
                names,
                type_hint.as_str(),
                Span::new(*type_start, *type_end, file_id),
            );
            match c {
                Ok(c) => {
                    let ghost mid = names@;
                    let t = names.intern(text_name.as_str());
                    assert(names@[c as int] == mid[c as int]);
                    Ok((Some(c), Some(t)))
                },
                Err(e) => Err(e),
            }
        },
    }
}

/// Parameter `k` has no default value and follows one that has.
pub open spec fn misplaced_required(params: Seq<Param>, k: int) -> bool {
    &&& 0 <= k < params.len()
    &&& params[k].default_value is None
    &&& exists|j: int| 0 <= j < k && (#[trigger] params[j].default_value) is Some
}

/// The message for a required parameter after a defaulted one.
pub open spec fn misplaced_required_message(name: Seq<char>) -> Seq<char> {
    "Обязательный параметр '"@ + name
        + "' не может следовать за параметром со значением по умолчанию"@
}

/// Checks that no parameter without a default value follows one with a
/// default value, and reports the first that does at its span.
pub fn check_parameter_order(params: &Vec<Param>, file_id: usize) -> (r: Result<(), ParseError>)
    ensures
        match r {
            Ok(()) => forall|k: int| !misplaced_required(params@, k),
            Err(ParseError::TypeError(d)) => exists|k: int|
                #[trigger] misplaced_required(params@, k) && (forall|i: int|
                    0 <= i < k ==> !misplaced_required(params@, i)) && d.location == Span {
                    start: params@[k].start,
                    end: params@[k].end,
                    file_id,
                } && d.message@ == misplaced_required_message(params@[k].name@),
            _ => false,
        },
{
    let mut saw_default = false;
    let mut i: usize = 0;
    while i < params.len()
        invariant
            i <= params@.len(),
            saw_default <==> exists|j: int| 0 <= j < i && (#[trigger] params@[j].default_value) is Some,
            forall|k: int| 0 <= k < i ==> !misplaced_required(params@, k),
        decreases params@.len() - i,
    {
        let p = &params[i];
        if p.default_value.is_some() {
            saw_default = true;
        } else if saw_default {
            assert(misplaced_required(params@, i as int));
            let mut msg = String::from_str("Обязательный параметр '");
            msg.append(p.name.as_str());
            msg.append("' не может следовать за параметром со значением по умолчанию");
            return Err(ParseError::TypeError(ErrorData::new(Span::new(p.start, p.end, file_id), msg)));
        }
        i = i + 1;
    }
    Ok(())
}

} // verus!
