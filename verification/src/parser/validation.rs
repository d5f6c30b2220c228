//! Name checks over a module's program tree: every identifier and every
//! created class must be known in the scopes around its use.
use vstd::prelude::*;
use crate::ast::{Span, ErrorData};
use crate::parser::structs::ParseError;
use crate::parser::program::{
    NameTable, Module, Symbol, ExprId, StmtId, ExpressionKind, StatementKind, CallArgument,
    Parameter, ClassField, FunctionDefinition, Handler, resolved, expression_children_below,
    statement_children_below, function_below, opt_below,
};
use crate::text::{chars_of, sub_chars, string_from_chars};

verus! {

/// A name error: where it is, and its message.
pub type NameError = (Span, Seq<char>);

/// The scopes as sets of symbols, innermost last.
pub open spec fn scope_sets(scopes: Seq<Vec<Symbol>>) -> Seq<Set<Symbol>> {
    Seq::new(scopes.len(), |i: int| scopes[i]@.to_set())
}

/// Some scope holds `s`.
pub open spec fn in_scopes(sc: Seq<Set<Symbol>>, s: Symbol) -> bool {
    exists|i: int| 0 <= i < sc.len() && #[trigger] sc[i].contains(s)
}

/// `k` is the position of the first `.` in `n`.
pub open spec fn first_dot(n: Seq<char>, k: int) -> bool {
    &&& 0 <= k < n.len()
    &&& n[k] == '.'
    &&& forall|j: int| 0 <= j < k ==> n[j] != '.'
}

/// Symbol `p` stands for `text`.
pub open spec fn interned_as(names: Seq<Seq<char>>, text: Seq<char>, p: int) -> bool {
    0 <= p < names.len() && names[p] == text
}

/// A dotted name `module.member`, split at its first dot, is known when
/// `module` is in scope and an imported module defines `member`.
pub open spec fn dotted_known(
    names: Seq<Seq<char>>,
    members: Seq<Symbol>,
    sc: Seq<Set<Symbol>>,
    n: Seq<char>,
) -> bool {
    exists|k: int|
        #![trigger first_dot(n, k)]
        first_dot(n, k) && (exists|p: int| #[trigger]
            interned_as(names, n.take(k), p) && in_scopes(sc, p as Symbol)) && (exists|q: int|
            #[trigger] interned_as(names, n.skip(k + 1), q) && members.contains(q as Symbol))
}

/// A name is known when some scope holds it or it is a known dotted name.
pub open spec fn name_known(
    names: Seq<Seq<char>>,
    members: Seq<Symbol>,
    sc: Seq<Set<Symbol>>,
    s: Symbol,
) -> bool {
    in_scopes(sc, s) || (s < names.len() && dotted_known(names, members, sc, names[s as int]))
}

/// The message for an unknown name.
pub open spec fn unknown_name_message(n: Seq<char>) -> Seq<char> {
    "Имя '"@ + n + "' не найдено"@
}

/// The message for the creation of an unknown class.
pub open spec fn unknown_class_message(n: Seq<char>) -> Seq<char> {
    "Класс '"@ + n + "' не найден"@
}

/// The first of two errors.
pub open spec fn first_error(a: Option<NameError>, b: Option<NameError>) -> Option<NameError> {
    if a is Some {
        a
    } else {
        b
    }
}

/// The first name error in expression `e`, children left to right.
pub open spec fn expr_error(
    m: Module,
    names: Seq<Seq<char>>,
    sc: Seq<Set<Symbol>>,
    e: ExprId,
) -> Option<NameError>
    decreases e as int + 1, 0int,
{
    if e >= m.expressions@.len() {
        None
    } else {
        let x = m.expressions@[e as int];
        match x.kind {
            ExpressionKind::Identifier(s) => if name_known(names, m.module_members@, sc, s) {
                None
            } else {
                Some((x.span, unknown_name_message(resolved(names, s))))
            },
            ExpressionKind::Binary { left, right, .. } => if left < e && right < e {
                first_error(expr_error(m, names, sc, left), expr_error(m, names, sc, right))
            } else {
                None
            },
            ExpressionKind::Unary { operand, .. } => if operand < e {
                expr_error(m, names, sc, operand)
            } else {
                None
            },
            ExpressionKind::FunctionCall { function, args } => if function < e {
                first_error(expr_error(m, names, sc, function), args_error(m, names, sc, args@, e))
            } else {
                None
            },
            ExpressionKind::Index { object, index } => if object < e && index < e {
                first_error(expr_error(m, names, sc, object), expr_error(m, names, sc, index))
            } else {
                None
            },
            ExpressionKind::PropertyAccess { object, .. } => if object < e {
                expr_error(m, names, sc, object)
            } else {
                None
            },
            ExpressionKind::MethodCall { object, args, .. } => if object < e {
                first_error(expr_error(m, names, sc, object), args_error(m, names, sc, args@, e))
            } else {
                None
            },
            ExpressionKind::ObjectCreation { class_name, args } => if name_known(
                names,
                m.module_members@,
                sc,
                class_name,
            ) {
                args_error(m, names, sc, args@, e)
            } else {
                Some((x.span, unknown_class_message(resolved(names, class_name))))
            },
            _ => None,
        }
    }
}

/// The first name error in the values of `args`, each below `bound`.
pub open spec fn args_error(
    m: Module,
    names: Seq<Seq<char>>,
    sc: Seq<Set<Symbol>>,
    args: Seq<CallArgument>,
    bound: ExprId,
) -> Option<NameError>
    decreases bound as int, args.len() as int,
{
    if args.len() == 0 {
        None
    } else if args[0].value >= bound {
        None
    } else {
        first_error(
            expr_error(m, names, sc, args[0].value),
            args_error(m, names, sc, args.drop_first(), bound),
        )
    }
}

/// The scopes with `name` added to the innermost one.
pub open spec fn insert_innermost(sc: Seq<Set<Symbol>>, name: Symbol) -> Seq<Set<Symbol>> {
    sc.update(sc.len() - 1, sc.last().insert(name))
}

/// The scopes after a check that reported `err`, or `sc` where none did.
pub open spec fn lift(err: Option<NameError>, sc: Seq<Set<Symbol>>) -> Result<Seq<Set<Symbol>>, NameError> {
    match err {
        Some(x) => Err(x),
        None => Ok(sc),
    }
}

/// The first name error in an optional expression.
pub open spec fn opt_error(
    m: Module,
    names: Seq<Seq<char>>,
    sc: Seq<Set<Symbol>>,
    e: Option<ExprId>,
) -> Option<NameError> {
    match e {
        Some(x) => expr_error(m, names, sc, x),
        None => None,
    }
}

/// The first name error in the default values of `params`.
pub open spec fn defaults_error(
    m: Module,
    names: Seq<Seq<char>>,
    sc: Seq<Set<Symbol>>,
    params: Seq<Parameter>,
) -> Option<NameError>
    decreases params.len(),
{
    if params.len() == 0 {
        None
    } else {
        first_error(
            opt_error(m, names, sc, params[0].default_value),
            defaults_error(m, names, sc, params.drop_first()),
        )
    }
}

/// The first name error in the initial values of `fields`.
pub open spec fn fields_error(
    m: Module,
    names: Seq<Seq<char>>,
    sc: Seq<Set<Symbol>>,
    fields: Seq<ClassField>,
) -> Option<NameError>
    decreases fields.len(),
{
    if fields.len() == 0 {
        None
    } else {
        first_error(
            opt_error(m, names, sc, fields[0].value),
            fields_error(m, names, sc, fields.drop_first()),
        )
    }
}

/// The names of `params`.
pub open spec fn param_names(params: Seq<Parameter>) -> Set<Symbol> {
    params.map_values(|p: Parameter| p.name).to_set()
}

/// The scopes after checking statement `s` in `sc`, or its first name
/// error. Blocks, loops, handlers and function bodies open a scope of their
/// own and close it again; an assignment or a function definition adds its
/// name to the innermost scope.
pub open spec fn stmt_result(
    m: Module,
    names: Seq<Seq<char>>,
    sc: Seq<Set<Symbol>>,
    s: StmtId,
) -> Result<Seq<Set<Symbol>>, NameError>
    decreases s as int + 1, 0int,
{
    if s >= m.statements@.len() {
        Ok(sc)
    } else {
        match m.statements@[s as int].kind {
            StatementKind::Expression(e) => lift(expr_error(m, names, sc, e), sc),
            StatementKind::Assign { name, value, .. } => lift(
                expr_error(m, names, sc, value),
                insert_innermost(sc, name),
            ),
            StatementKind::IndexAssign { object, index, value } => lift(
                first_error(
                    expr_error(m, names, sc, object),
                    first_error(expr_error(m, names, sc, index), expr_error(m, names, sc, value)),
                ),
                sc,
            ),
            StatementKind::PropertyAssign { object, value, .. } => lift(
                first_error(expr_error(m, names, sc, object), expr_error(m, names, sc, value)),
                sc,
            ),
            StatementKind::If { condition, then_body, else_body } => match expr_error(
                m,
                names,
                sc,
                condition,
            ) {
                Some(x) => Err(x),
                None => if then_body < s {
                    match stmt_result(m, names, sc, then_body) {
                        Err(x) => Err(x),
                        Ok(s1) => match else_body {
                            Some(b) => if b < s {
                                stmt_result(m, names, s1, b)
                            } else {
                                Ok(s1)
                            },
                            None => Ok(s1),
                        },
                    }
                } else {
                    Ok(sc)
                },
            },
            StatementKind::While { condition, body } => match expr_error(m, names, sc, condition) {
                Some(x) => Err(x),
                None => if body < s {
                    stmt_result(m, names, sc, body)
                } else {
                    Ok(sc)
                },
            },
            StatementKind::For { variable, init, condition, update, body } => {
                let inner = sc.push(set![variable]);
                match first_error(
                    expr_error(m, names, sc, init),
                    first_error(
                        expr_error(m, names, inner, condition),
                        expr_error(m, names, inner, update),
                    ),
                ) {
                    Some(x) => Err(x),
                    None => if body < s {
                        match stmt_result(m, names, inner, body) {
                            Ok(s2) => Ok(s2.drop_last()),
                            Err(x) => Err(x),
                        }
                    } else {
                        Ok(sc)
                    },
                }
            },
            StatementKind::Try { body, handlers } => if body < s {
                match stmt_result(m, names, sc, body) {
                    Err(x) => Err(x),
                    Ok(s1) => handlers_result(m, names, s1, handlers@, s),
                }
            } else {
                Ok(sc)
            },
            StatementKind::Raise { message, .. } => lift(opt_error(m, names, sc, message), sc),
            StatementKind::Block(ids) => match list_result(
                m,
                names,
                sc.push(Set::empty()),
                ids@,
                s,
            ) {
                Ok(s2) => Ok(s2.drop_last()),
                Err(x) => Err(x),
            },
            StatementKind::Return(e) => lift(opt_error(m, names, sc, e), sc),
            StatementKind::FunctionDefinition(f) => function_result(
                m,
                names,
                insert_innermost(sc, f.name),
                f,
                s,
            ),
            StatementKind::ClassDefinition(c) => match fields_error(m, names, sc, c.fields@) {
                Some(x) => Err(x),
                None => match methods_result(m, names, sc, c.methods@, s) {
                    Err(x) => Err(x),
                    Ok(s1) => match c.constructor {
                        Some(f) => function_result(m, names, s1, f, s),
                        None => Ok(s1),
                    },
                },
            },
            _ => Ok(sc),
        }
    }
}

/// The scopes after checking a function's default values in `sc` and its
/// body in a scope of its parameters.
pub open spec fn function_result(
    m: Module,
    names: Seq<Seq<char>>,
    sc: Seq<Set<Symbol>>,
    f: FunctionDefinition,
    bound: StmtId,
) -> Result<Seq<Set<Symbol>>, NameError>
    decreases bound as int, 1int,
{
    match defaults_error(m, names, sc, f.params@) {
        Some(x) => Err(x),
        None => if f.body < bound {
            match stmt_result(m, names, sc.push(param_names(f.params@)), f.body) {
                Ok(s2) => Ok(s2.drop_last()),
                Err(x) => Err(x),
            }
        } else {
            Ok(sc)
        },
    }
}

/// The scopes after checking the methods in order.
pub open spec fn methods_result(
    m: Module,
    names: Seq<Seq<char>>,
    sc: Seq<Set<Symbol>>,
    methods: Seq<FunctionDefinition>,
    bound: StmtId,
) -> Result<Seq<Set<Symbol>>, NameError>
    decreases bound as int, methods.len() + 1,
{
    if methods.len() == 0 {
        Ok(sc)
    } else {
        match function_result(m, names, sc, methods[0], bound) {
            Err(x) => Err(x),
            Ok(s1) => methods_result(m, names, s1, methods.drop_first(), bound),
        }
    }
}

/// The scopes after checking the handlers in order; one that binds the
/// error text checks its body in a scope holding that name.
pub open spec fn handlers_result(
    m: Module,
    names: Seq<Seq<char>>,
    sc: Seq<Set<Symbol>>,
    handlers: Seq<Handler>,
    bound: StmtId,
) -> Result<Seq<Set<Symbol>>, NameError>
    decreases bound as int, handlers.len() as int,
{
    if handlers.len() == 0 {
        Ok(sc)
    } else if handlers[0].body >= bound {
        Ok(sc)
    } else {
        let h = handlers[0];
        let r = match h.error_text {
            Some(t) => match stmt_result(m, names, sc.push(set![t]), h.body) {
                Ok(s2) => Ok(s2.drop_last()),
                Err(x) => Err(x),
            },
            None => stmt_result(m, names, sc, h.body),
        };
        match r {
            Err(x) => Err(x),
            Ok(s1) => handlers_result(m, names, s1, handlers.drop_first(), bound),
        }
    }
}

/// The scopes after checking the statements `ids` in order.
pub open spec fn list_result(
    m: Module,
    names: Seq<Seq<char>>,
    sc: Seq<Set<Symbol>>,
    ids: Seq<StmtId>,
    bound: StmtId,
) -> Result<Seq<Set<Symbol>>, NameError>
    decreases bound as int, ids.len() as int,
{
    if ids.len() == 0 {
        Ok(sc)
    } else if ids[0] >= bound {
        Ok(sc)
    } else {
        match stmt_result(m, names, sc, ids[0]) {
            Err(x) => Err(x),
            Ok(s1) => list_result(m, names, s1, ids.drop_first(), bound),
        }
    }
}

/// Whether a result and the scopes after it agree with the expected one.
pub open spec fn result_agrees(
    r: Result<(), ParseError>,
    expected: Result<Seq<Set<Symbol>>, NameError>,
    after: Seq<Set<Symbol>>,
) -> bool {
    match (r, expected) {
        (Ok(()), Ok(s)) => after == s,
        (Err(ParseError::InvalidSyntax(d)), Err((span, msg))) => d.location == span && d.message@
            == msg,
        _ => false,
    }
}

/// `after` differs from `sc` only by names added to its innermost scope.
pub open spec fn grows_innermost(sc: Seq<Set<Symbol>>, after: Seq<Set<Symbol>>) -> bool {
    &&& after.len() == sc.len()
    &&& forall|i: int| 0 <= i < sc.len() - 1 ==> after[i] == sc[i]
    &&& sc.last().subset_of(after.last())
}

proof fn lemma_grows_refl(sc: Seq<Set<Symbol>>)
    ensures
        grows_innermost(sc, sc),
{
}

proof fn lemma_grows_trans(a: Seq<Set<Symbol>>, b: Seq<Set<Symbol>>, c: Seq<Set<Symbol>>)
    requires
        grows_innermost(a, b),
        grows_innermost(b, c),
    ensures
        grows_innermost(a, c),
{
}

proof fn lemma_grows_closed(sc: Seq<Set<Symbol>>, opened: Set<Symbol>, after: Seq<Set<Symbol>>)
    requires
        grows_innermost(sc.push(opened), after),
    ensures
        after.drop_last() == sc,
{
    assert forall|i: int| 0 <= i < sc.len() implies after.drop_last()[i] == sc[i] by {
        assert(sc.push(opened)[i] == sc[i]);
    }
    assert(after.drop_last() =~= sc);
}

proof fn lemma_grows_insert(sc: Seq<Set<Symbol>>, name: Symbol)
    requires
        sc.len() > 0,
    ensures
        grows_innermost(sc, insert_innermost(sc, name)),
{
}

/// Checking a statement that succeeds leaves every scope as it was, but
/// for names added to the innermost one.
pub proof fn lemma_statement_grows_innermost(
    m: Module,
    names: Seq<Seq<char>>,
    sc: Seq<Set<Symbol>>,
    s: StmtId,
)
    requires
        sc.len() > 0,
    ensures
        stmt_result(m, names, sc, s) matches Ok(after) ==> grows_innermost(sc, after),
    decreases s as int + 1, 0int,
{
    if s < m.statements@.len() {
        match m.statements@[s as int].kind {
            StatementKind::Assign { name, .. } => lemma_grows_insert(sc, name),
            StatementKind::If { then_body, else_body, .. } => {
                if then_body < s {
                    lemma_statement_grows_innermost(m, names, sc, then_body);
                    if let Ok(s1) = stmt_result(m, names, sc, then_body) {
                        if let Some(b) = else_body {
                            if b < s {
                                lemma_statement_grows_innermost(m, names, s1, b);
                                if let Ok(s2) = stmt_result(m, names, s1, b) {
                                    lemma_grows_trans(sc, s1, s2);
                                }
                            }
                        }
                    }
                }
            },
            StatementKind::While { body, .. } => {
                if body < s {
                    lemma_statement_grows_innermost(m, names, sc, body);
                }
            },
            StatementKind::For { variable, body, .. } => {
                if body < s {
                    lemma_statement_grows_innermost(m, names, sc.push(set![variable]), body);
                    if let Ok(s2) = stmt_result(m, names, sc.push(set![variable]), body) {
                        lemma_grows_closed(sc, set![variable], s2);
                    }
                }
            },
            StatementKind::Try { body, handlers } => {
                if body < s {
                    lemma_statement_grows_innermost(m, names, sc, body);
                    if let Ok(s1) = stmt_result(m, names, sc, body) {
                        lemma_handlers_grow_innermost(m, names, s1, handlers@, s);
                        if let Ok(s2) = handlers_result(m, names, s1, handlers@, s) {
                            lemma_grows_trans(sc, s1, s2);
                        }
                    }
                }
            },
            StatementKind::Block(ids) => {
                lemma_list_grows_innermost(m, names, sc.push(Set::empty()), ids@, s);
                if let Ok(s2) = list_result(m, names, sc.push(Set::empty()), ids@, s) {
                    lemma_grows_closed(sc, Set::empty(), s2);
                }
            },
            StatementKind::FunctionDefinition(f) => {
                let s1 = insert_innermost(sc, f.name);
                lemma_grows_insert(sc, f.name);
                lemma_function_grows_innermost(m, names, s1, f, s);
                if let Ok(s2) = function_result(m, names, s1, f, s) {
                    lemma_grows_trans(sc, s1, s2);
                }
            },
            StatementKind::ClassDefinition(c) => {
                lemma_methods_grow_innermost(m, names, sc, c.methods@, s);
                if let Ok(s1) = methods_result(m, names, sc, c.methods@, s) {
                    if let Some(f) = c.constructor {
                        lemma_function_grows_innermost(m, names, s1, f, s);
                        if let Ok(s2) = function_result(m, names, s1, f, s) {
                            lemma_grows_trans(sc, s1, s2);
                        }
                    }
                }
            },
            _ => {},
        }
    }
}

proof fn lemma_function_grows_innermost(
    m: Module,
    names: Seq<Seq<char>>,
    sc: Seq<Set<Symbol>>,
    f: FunctionDefinition,
    bound: StmtId,
)
    requires
        sc.len() > 0,
    ensures
        function_result(m, names, sc, f, bound) matches Ok(after) ==> grows_innermost(sc, after),
    decreases bound as int, 1int,
{
    if f.body < bound {
        let inner = sc.push(param_names(f.params@));
        lemma_statement_grows_innermost(m, names, inner, f.body);
        if let Ok(s2) = stmt_result(m, names, inner, f.body) {
            lemma_grows_closed(sc, param_names(f.params@), s2);
        }
    }
}

proof fn lemma_methods_grow_innermost(
    m: Module,
    names: Seq<Seq<char>>,
    sc: Seq<Set<Symbol>>,
    methods: Seq<FunctionDefinition>,
    bound: StmtId,
)
    requires
        sc.len() > 0,
    ensures
        methods_result(m, names, sc, methods, bound) matches Ok(after) ==> grows_innermost(sc, after),
    decreases bound as int, methods.len() + 1,
{
    if methods.len() > 0 {
        lemma_function_grows_innermost(m, names, sc, methods[0], bound);
        if let Ok(s1) = function_result(m, names, sc, methods[0], bound) {
            lemma_methods_grow_innermost(m, names, s1, methods.drop_first(), bound);
            if let Ok(s2) = methods_result(m, names, s1, methods.drop_first(), bound) {
                lemma_grows_trans(sc, s1, s2);
            }
        }
    }
}

proof fn lemma_handlers_grow_innermost(
    m: Module,
    names: Seq<Seq<char>>,
    sc: Seq<Set<Symbol>>,
    handlers: Seq<Handler>,
    bound: StmtId,
)
    requires
        sc.len() > 0,
    ensures
        handlers_result(m, names, sc, handlers, bound) matches Ok(after) ==> grows_innermost(sc, after),
    decreases bound as int, handlers.len() as int,
{
    if handlers.len() > 0 && handlers[0].body < bound {
        let h = handlers[0];
        let r = match h.error_text {
            Some(t) => match stmt_result(m, names, sc.push(set![t]), h.body) {
                Ok(s2) => Ok(s2.drop_last()),
                Err(x) => Err(x),
            },
            None => stmt_result(m, names, sc, h.body),
        };
        match h.error_text {
            Some(t) => {
                lemma_statement_grows_innermost(m, names, sc.push(set![t]), h.body);
                if let Ok(s2) = stmt_result(m, names, sc.push(set![t]), h.body) {
                    lemma_grows_closed(sc, set![t], s2);
                }
            },
            None => lemma_statement_grows_innermost(m, names, sc, h.body),
        }
        if let Ok(s1) = r {
            lemma_handlers_grow_innermost(m, names, s1, handlers.drop_first(), bound);
            if let Ok(s2) = handlers_result(m, names, s1, handlers.drop_first(), bound) {
                lemma_grows_trans(sc, s1, s2);
            }
        }
    }
}

proof fn lemma_list_grows_innermost(
    m: Module,
    names: Seq<Seq<char>>,
    sc: Seq<Set<Symbol>>,
    ids: Seq<StmtId>,
    bound: StmtId,
)
    requires
        sc.len() > 0,
    ensures
        list_result(m, names, sc, ids, bound) matches Ok(after) ==> grows_innermost(sc, after),
    decreases bound as int, ids.len() as int,
{
    if ids.len() > 0 && ids[0] < bound {
        lemma_statement_grows_innermost(m, names, sc, ids[0]);
        if let Ok(s1) = stmt_result(m, names, sc, ids[0]) {
            lemma_list_grows_innermost(m, names, s1, ids.drop_first(), bound);
            if let Ok(s2) = list_result(m, names, s1, ids.drop_first(), bound) {
                lemma_grows_trans(sc, s1, s2);
            }
        }
    }
}

/// Every argument value of `args` passes the name check.
pub open spec fn args_pass(m: Module, names: Seq<Seq<char>>, sc: Seq<Set<Symbol>>, args: Seq<CallArgument>) -> bool {
    forall|k: int| 0 <= k < args.len() ==> (#[trigger] expr_error(m, names, sc, args[k].value)) is None
}

proof fn lemma_args_pass(
    m: Module,
    names: Seq<Seq<char>>,
    sc: Seq<Set<Symbol>>,
    args: Seq<CallArgument>,
    bound: ExprId,
)
    requires
        crate::parser::program::args_below(args, bound as int),
        args_error(m, names, sc, args, bound) is None,
    ensures
        args_pass(m, names, sc, args),
    decreases args.len(),
{
    if args.len() > 0 {
        assert(args[0].value < bound);
        assert forall|k: int| 0 <= k < args.drop_first().len() implies #[trigger] args.drop_first()[k].value < bound by {
            assert(args.drop_first()[k] == args[k + 1]);
        }
        lemma_args_pass(m, names, sc, args.drop_first(), bound);
        assert forall|k: int| 0 <= k < args.len() implies (#[trigger] expr_error(m, names, sc, args[k].value)) is None by {
            if k > 0 {
                assert(args.drop_first()[k - 1] == args[k]);
            }
        }
    }
}

/// An expression that passes the name check uses only known names: an
/// identifier is known in the scopes in force, a created class is known,
/// and every operand, callee, object and argument passes the check too.
pub proof fn lemma_expression_ok_checks_parts(m: Module, names: Seq<Seq<char>>, sc: Seq<Set<Symbol>>, e: ExprId)
    requires
        m.wf(),
        e < m.expressions@.len(),
        expr_error(m, names, sc, e) is None,
    ensures
        match m.expressions@[e as int].kind {
            ExpressionKind::Identifier(x) => name_known(names, m.module_members@, sc, x),
            ExpressionKind::Binary { left, right, .. } => expr_error(m, names, sc, left) is None && expr_error(
                m,
                names,
                sc,
                right,
            ) is None,
            ExpressionKind::Unary { operand, .. } => expr_error(m, names, sc, operand) is None,
            ExpressionKind::FunctionCall { function, args } => expr_error(m, names, sc, function) is None
                && args_pass(m, names, sc, args@),
            ExpressionKind::Index { object, index } => expr_error(m, names, sc, object) is None && expr_error(
                m,
                names,
                sc,
                index,
            ) is None,
            ExpressionKind::PropertyAccess { object, .. } => expr_error(m, names, sc, object) is None,
            ExpressionKind::MethodCall { object, args, .. } => expr_error(m, names, sc, object) is None
                && args_pass(m, names, sc, args@),
            ExpressionKind::ObjectCreation { class_name, args } => name_known(
                names,
                m.module_members@,
                sc,
                class_name,
            ) && args_pass(m, names, sc, args@),
            _ => true,
        },
{
    assert(expression_children_below(m.expressions@[e as int].kind, e as int));
    match m.expressions@[e as int].kind {
        ExpressionKind::FunctionCall { function, args } => lemma_args_pass(m, names, sc, args@, e),
        ExpressionKind::MethodCall { object, args, .. } => lemma_args_pass(m, names, sc, args@, e),
        ExpressionKind::ObjectCreation { class_name, args } => lemma_args_pass(m, names, sc, args@, e),
        _ => {},
    }
}

/// A statement that passes the name check has every part checked in the
/// scopes in force there: its expressions pass, and each statement nested
/// in it (a branch, a loop body, a block's statements, a function body)
/// passes in the scopes it is checked in.
pub proof fn lemma_statement_ok_checks_parts(m: Module, names: Seq<Seq<char>>, sc: Seq<Set<Symbol>>, s: StmtId)
    requires
        m.wf(),
        s < m.statements@.len(),
        stmt_result(m, names, sc, s) is Ok,
    ensures
        match m.statements@[s as int].kind {
            StatementKind::Expression(e) => expr_error(m, names, sc, e) is None,
            StatementKind::Assign { value, .. } => expr_error(m, names, sc, value) is None,
            StatementKind::IndexAssign { object, index, value } => expr_error(m, names, sc, object) is None
                && expr_error(m, names, sc, index) is None && expr_error(m, names, sc, value) is None,
            StatementKind::PropertyAssign { object, value, .. } => expr_error(m, names, sc, object) is None
                && expr_error(m, names, sc, value) is None,
            StatementKind::If { condition, then_body, else_body } => expr_error(m, names, sc, condition)
                is None && stmt_result(m, names, sc, then_body) is Ok && (else_body matches Some(b)
                ==> stmt_result(m, names, stmt_result(m, names, sc, then_body)->Ok_0, b) is Ok),
            StatementKind::While { condition, body } => expr_error(m, names, sc, condition) is None
                && stmt_result(m, names, sc, body) is Ok,
            StatementKind::For { variable, init, condition, update, body } => expr_error(m, names, sc, init)
                is None && expr_error(m, names, sc.push(set![variable]), condition) is None && expr_error(
                m,
                names,
                sc.push(set![variable]),
                update,
            ) is None && stmt_result(m, names, sc.push(set![variable]), body) is Ok,
            StatementKind::Try { body, handlers } => stmt_result(m, names, sc, body) is Ok
                && handlers_result(m, names, stmt_result(m, names, sc, body)->Ok_0, handlers@, s) is Ok,
            StatementKind::Raise { message, .. } => opt_error(m, names, sc, message) is None,
            StatementKind::Block(ids) => list_result(m, names, sc.push(Set::empty()), ids@, s) is Ok,
            StatementKind::Return(e) => opt_error(m, names, sc, e) is None,
            StatementKind::FunctionDefinition(f) => function_result(
                m,
                names,
                insert_innermost(sc, f.name),
                f,
                s,
            ) is Ok,
            StatementKind::ClassDefinition(c) => fields_error(m, names, sc, c.fields@) is None
                && methods_result(m, names, sc, c.methods@, s) is Ok,
            _ => true,
        },
{
    assert(statement_children_below(
        m.statements@[s as int].kind,
        s as int,
        m.expressions@.len() as int,
    ));
}

/// The statements of a list that passes are checked one after the other:
/// the first passes in the scopes given, and the rest in the scopes it
/// leaves.
pub proof fn lemma_list_ok_checks_each(
    m: Module,
    names: Seq<Seq<char>>,
    sc: Seq<Set<Symbol>>,
    ids: Seq<StmtId>,
    bound: StmtId,
)
    requires
        ids.len() > 0,
        ids[0] < bound,
        list_result(m, names, sc, ids, bound) is Ok,
    ensures
        stmt_result(m, names, sc, ids[0]) is Ok,
        list_result(m, names, stmt_result(m, names, sc, ids[0])->Ok_0, ids.drop_first(), bound) is Ok,
{
}

/// A function passes only if its default values pass in the scopes around
/// it and its body passes in a scope of its parameters.
pub proof fn lemma_function_ok_checks_body(
    m: Module,
    names: Seq<Seq<char>>,
    sc: Seq<Set<Symbol>>,
    f: FunctionDefinition,
    bound: StmtId,
)
    requires
        f.body < bound,
        function_result(m, names, sc, f, bound) is Ok,
    ensures
        defaults_error(m, names, sc, f.params@) is None,
        stmt_result(m, names, sc.push(param_names(f.params@)), f.body) is Ok,
{
}

/// The handlers of a `try` that pass are checked one after the other: the
/// first handler's body passes (in a scope of the error text's name when it
/// binds one), and the rest pass in the scopes it leaves.
pub proof fn lemma_handlers_ok_check_each(
    m: Module,
    names: Seq<Seq<char>>,
    sc: Seq<Set<Symbol>>,
    handlers: Seq<Handler>,
    bound: StmtId,
)
    requires
        handlers.len() > 0,
        handlers[0].body < bound,
        handlers_result(m, names, sc, handlers, bound) is Ok,
    ensures
        match handlers[0].error_text {
            Some(t) => stmt_result(m, names, sc.push(set![t]), handlers[0].body) is Ok,
            None => stmt_result(m, names, sc, handlers[0].body) is Ok,
        },
{
}

/// The methods of a class that pass are checked one after the other.
pub proof fn lemma_methods_ok_check_each(
    m: Module,
    names: Seq<Seq<char>>,
    sc: Seq<Set<Symbol>>,
    methods: Seq<FunctionDefinition>,
    bound: StmtId,
)
    requires
        methods.len() > 0,
        methods_result(m, names, sc, methods, bound) is Ok,
    ensures
        function_result(m, names, sc, methods[0], bound) is Ok,
        methods_result(m, names, function_result(m, names, sc, methods[0], bound)->Ok_0, methods.drop_first(), bound) is Ok,
{
}

/// Default values and field values that pass have no unknown name, each
/// of them.
pub proof fn lemma_defaults_and_fields_ok(
    m: Module,
    names: Seq<Seq<char>>,
    sc: Seq<Set<Symbol>>,
    params: Seq<Parameter>,
    fields: Seq<ClassField>,
)
    ensures
        defaults_error(m, names, sc, params) is None ==> forall|k: int|
            0 <= k < params.len() ==> opt_error(m, names, sc, #[trigger] params[k].default_value) is None,
        fields_error(m, names, sc, fields) is None ==> forall|k: int|
            0 <= k < fields.len() ==> opt_error(m, names, sc, #[trigger] fields[k].value) is None,
    decreases params.len() + fields.len(),
{
    if params.len() > 0 {
        lemma_defaults_and_fields_ok(m, names, sc, params.drop_first(), fields);
        assert forall|k: int| 0 < k < params.len() implies params[k] == params.drop_first()[k - 1] by {}
    }
    if fields.len() > 0 {
        lemma_defaults_and_fields_ok(m, names, sc, params, fields.drop_first());
        assert forall|k: int| 0 < k < fields.len() implies fields[k] == fields.drop_first()[k - 1] by {}
    }
}

/// What it is for a name to be known: any name that some scope holds is
/// known, and a name that no scope holds is unknown unless it is a dotted
/// `module.member` name.
pub proof fn lemma_name_known_meaning(
    names: Seq<Seq<char>>,
    members: Seq<Symbol>,
    sc: Seq<Set<Symbol>>,
    x: Symbol,
)
    ensures
        (exists|i: int| 0 <= i < sc.len() && sc[i].contains(x)) ==> name_known(names, members, sc, x),
        !(exists|i: int| 0 <= i < sc.len() && sc[i].contains(x)) && (x >= names.len() || !names[x as int].contains('.'))
            ==> !name_known(names, members, sc, x),
{
    if !(exists|i: int| 0 <= i < sc.len() && sc[i].contains(x)) && x < names.len() && !names[x as int].contains('.') {
        if dotted_known(names, members, sc, names[x as int]) {
            let k = choose|k: int| #[trigger] first_dot(names[x as int], k);
            assert(names[x as int][k] == '.');
        }
    }
    if exists|i: int| 0 <= i < sc.len() && sc[i].contains(x) {
        let i = choose|i: int| 0 <= i < sc.len() && sc[i].contains(x);
        assert(sc[i].contains(x));
    }
}

/// Whether a result agrees with the expected first error.
pub open spec fn error_agrees(r: Result<(), ParseError>, expected: Option<NameError>) -> bool {
    match (r, expected) {
        (Ok(()), None) => true,
        (Err(ParseError::InvalidSyntax(d)), Some((span, msg))) => d.location == span && d.message@
            == msg,
        _ => false,
    }
}

/// Whether `v` holds `x`.
pub(crate) fn vec_contains(v: &Vec<Symbol>, x: Symbol) -> (r: bool)
    ensures
        r == v@.contains(x),
{
    let mut i: usize = 0;
    while i < v.len()
        invariant
            i <= v@.len(),
            forall|j: int| 0 <= j < i ==> v@[j] != x,
        decreases v@.len() - i,
    {
        if v[i] == x {
            return true;
        }
        i = i + 1;
    }
    false
}

/// Whether some scope holds `s`.
fn scopes_contain(scopes: &Vec<Vec<Symbol>>, s: Symbol) -> (r: bool)
    ensures
        r == in_scopes(scope_sets(scopes@), s),
{
    let mut i: usize = 0;
    while i < scopes.len()
        invariant
            i <= scopes@.len(),
            forall|j: int| 0 <= j < i ==> !(#[trigger] scope_sets(scopes@)[j]).contains(s),
        decreases scopes@.len() - i,
    {
        if vec_contains(&scopes[i], s) {
            assert(scope_sets(scopes@)[i as int].contains(s));
            return true;
        }
        i = i + 1;
    }
    false
}

/// Whether `s` is known in `scopes`: held by a scope, or a dotted name
/// whose module is in scope and whose member an imported module defines.
pub fn is_name_known(module: &Module, names: &NameTable, scopes: &Vec<Vec<Symbol>>, s: Symbol) -> (r: bool)
    requires
        names.wf(),
    ensures
        r == name_known(names@, module.module_members@, scope_sets(scopes@), s),
{
    let ghost sc = scope_sets(scopes@);
    let ghost members = module.module_members@;
    if scopes_contain(scopes, s) {
        return true;
    }
    if s >= names.len() {
        return false;
    }
    let text = chars_of(names.resolve(s));
    let ghost n = names@[s as int];
    assert(text@ == n);
    let mut k: usize = 0;
    while k < text.len() && text[k] != '.'
        invariant
            k <= text@.len(),
            forall|j: int| 0 <= j < k ==> text@[j] != '.',
        decreases text@.len() - k,
    {
        k = k + 1;
    }
    if k == text.len() {
        assert(!dotted_known(names@, members, sc, n)) by {
            if dotted_known(names@, members, sc, n) {
                let k2 = choose|k2: int| #[trigger] first_dot(n, k2);
                assert(text@[k2] == '.');
            }
        }
        return false;
    }
    assert(first_dot(n, k as int));
    assert forall|k2: int| #[trigger] first_dot(n, k2) implies k2 == k by {
        if k2 < k {
            assert(text@[k2] != '.');
        } else if k2 > k {
            assert(n[k as int] != '.');
        }
    }
    let prefix = string_from_chars(&sub_chars(&text, 0, k));
    let suffix = string_from_chars(&sub_chars(&text, k + 1, text.len()));
    assert(prefix@ == n.take(k as int));
    assert(suffix@ == n.skip(k + 1));
    let r = match names.find(prefix.as_str()) {
        None => {
            assert(!dotted_known(names@, members, sc, n)) by {
                if dotted_known(names@, members, sc, n) {
                    let p = choose|p: int| #[trigger]
                        interned_as(names@, n.take(k as int), p) && in_scopes(sc, p as Symbol);
                    assert(names@[p] == prefix@);
                }
            }
            false
        },
        Some(p) => {
            if !scopes_contain(scopes, p) {
                assert(!dotted_known(names@, members, sc, n)) by {
                    if dotted_known(names@, members, sc, n) {
                        let p2 = choose|p2: int| #[trigger]
                            interned_as(names@, n.take(k as int), p2) && in_scopes(sc, p2 as Symbol);
                        assert(p2 == p);
                    }
                }
                false
            } else {
                assert(interned_as(names@, n.take(k as int), p as int));
                match names.find(suffix.as_str()) {
                    None => {
                        assert(!dotted_known(names@, members, sc, n)) by {
                            if dotted_known(names@, members, sc, n) {
                                let q = choose|q: int| #[trigger]
                                    interned_as(names@, n.skip(k + 1), q) && members.contains(
                                        q as Symbol,
                                    );
                                assert(names@[q] == suffix@);
                            }
                        }
                        false
                    },
                    Some(q) => {
                        let found = vec_contains(&module.module_members, q);
                        assert(interned_as(names@, n.skip(k + 1), q as int));
                        if found {
                            assert(first_dot(n, k as int));
                        } else {
                            assert(!dotted_known(names@, members, sc, n)) by {
                                if dotted_known(names@, members, sc, n) {
                                    let q2 = choose|q2: int| #[trigger]
                                        interned_as(names@, n.skip(k + 1), q2)
                                            && members.contains(q2 as Symbol);
                                    assert(q2 == q);
                                }
                            }
                        }
                        found
                    },
                }
            }
        },
    };
    r
}

/// The error for an unknown name or class at `span`.
fn name_error(span: Span, name: &str, class: bool) -> (r: ParseError)
    ensures
        r matches ParseError::InvalidSyntax(d) && d.location == span && d.message@ == (if class {
            unknown_class_message(name@)
        } else {
            unknown_name_message(name@)
        }),
{
    let msg = if class {
        let mut msg = String::from_str("Класс '");
        msg.append(name);
        msg.append("' не найден");
        msg
    } else {
        let mut msg = String::from_str("Имя '");
        msg.append(name);
        msg.append("' не найдено");
        msg
    };
    ParseError::InvalidSyntax(ErrorData::new(span, msg))
}

/// Checks the names used by expression `e`, children left to right, and
/// reports the first unknown one.
pub fn validate_expression_names(
    module: &Module,
    names: &NameTable,
    scopes: &Vec<Vec<Symbol>>,
    e: ExprId,
) -> (r: Result<(), ParseError>)
    requires
        module.wf(),
        names.wf(),
        e < module.expressions@.len(),
    ensures
        error_agrees(r, expr_error(*module, names@, scope_sets(scopes@), e)),
    decreases e, 1int,
{
    let ghost sc = scope_sets(scopes@);
    let x = &module.expressions[e];
    proof {
        assert(expression_children_below(module.expressions@[e as int].kind, e as int));
    }
    match &x.kind {
        ExpressionKind::Identifier(s) => {
            if is_name_known(module, names, scopes, *s) {
                Ok(())
            } else {
                Err(name_error(x.span, names.resolve(*s), false))
            }
        },
        ExpressionKind::Binary { left, right, .. } => {
            let r = validate_expression_names(module, names, scopes, *left);
            if r.is_err() {
                return r;
            }
            validate_expression_names(module, names, scopes, *right)
        },
        ExpressionKind::Unary { operand, .. } => validate_expression_names(module, names, scopes, *operand),
        ExpressionKind::FunctionCall { function, args } => {
            let r = validate_expression_names(module, names, scopes, *function);
            if r.is_err() {
                return r;
            }
            validate_argument_names(module, names, scopes, args, e)
        },
        ExpressionKind::Index { object, index } => {
            let r = validate_expression_names(module, names, scopes, *object);
            if r.is_err() {
                return r;
            }
            validate_expression_names(module, names, scopes, *index)
        },
        ExpressionKind::PropertyAccess { object, .. } => validate_expression_names(
            module,
            names,
            scopes,
            *object,
        ),
        ExpressionKind::MethodCall { object, args, .. } => {
            let r = validate_expression_names(module, names, scopes, *object);
            if r.is_err() {
                return r;
            }
            validate_argument_names(module, names, scopes, args, e)
        },
        ExpressionKind::ObjectCreation { class_name, args } => {
            if !is_name_known(module, names, scopes, *class_name) {
                return Err(name_error(x.span, names.resolve(*class_name), true));
            }
            validate_argument_names(module, names, scopes, args, e)
        },
        _ => Ok(()),
    }
}

/// Checks the argument values in order, each an expression below `bound`.
fn validate_argument_names(
    module: &Module,
    names: &NameTable,
    scopes: &Vec<Vec<Symbol>>,
    args: &Vec<CallArgument>,
    bound: ExprId,
) -> (r: Result<(), ParseError>)
    requires
        module.wf(),
        names.wf(),
        bound < module.expressions@.len(),
        crate::parser::program::args_below(args@, bound as int),
    ensures
        error_agrees(r, args_error(*module, names@, scope_sets(scopes@), args@, bound)),
    decreases bound, 0int,
{
    let ghost sc = scope_sets(scopes@);
    let mut i: usize = 0;
    assert(args@.skip(0) =~= args@);
    while i < args.len()
        invariant
            i <= args@.len(),
            module.wf(),
            names.wf(),
            bound < module.expressions@.len(),
            crate::parser::program::args_below(args@, bound as int),
            sc == scope_sets(scopes@),
            args_error(*module, names@, sc, args@, bound) == args_error(
                *module,
                names@,
                sc,
                args@.skip(i as int),
                bound,
            ),
        decreases args@.len() - i,
    {
        let v = args[i].value;
        assert(args@.skip(i as int)[0] == args@[i as int]);
        assert(args@.skip(i as int).drop_first() =~= args@.skip(i + 1));
        let r = validate_expression_names(module, names, scopes, v);
        if r.is_err() {
            return r;
        }
        i = i + 1;
    }
    Ok(())
}

/// Adds `name` to the innermost scope.
fn insert_into_innermost(scopes: &mut Vec<Vec<Symbol>>, name: Symbol)
    requires
        old(scopes)@.len() > 0,
    ensures
        final(scopes)@.len() == old(scopes)@.len(),
        scope_sets(final(scopes)@) == insert_innermost(scope_sets(old(scopes)@), name),
{
    let ghost before = scope_sets(scopes@);
    let mut last = scopes.pop().unwrap();
    let ghost l0 = last@;
    last.push(name);
    scopes.push(last);
    proof {
        l0.lemma_push_to_set_commute(name);
        assert(scope_sets(scopes@) =~= insert_innermost(before, name));
    }
}

/// Opens a scope holding `initial`.
fn open_scope(scopes: &mut Vec<Vec<Symbol>>, initial: Vec<Symbol>)
    ensures
        final(scopes)@.len() == old(scopes)@.len() + 1,
        scope_sets(final(scopes)@) == scope_sets(old(scopes)@).push(initial@.to_set()),
{
    let ghost before = scope_sets(scopes@);
    scopes.push(initial);
    assert(scope_sets(scopes@) =~= before.push(initial@.to_set()));
}

/// Closes the innermost scope.
fn close_scope(scopes: &mut Vec<Vec<Symbol>>)
    requires
        old(scopes)@.len() > 0,
    ensures
        final(scopes)@.len() == old(scopes)@.len() - 1,
        scope_sets(final(scopes)@) == scope_sets(old(scopes)@).drop_last(),
{
    let ghost before = scope_sets(scopes@);
    let _ = scopes.pop();
    assert(scope_sets(scopes@) =~= before.drop_last());
}

/// Checks the names in statement `stmt` in `scopes`, and on success leaves
/// `scopes` as the statement leaves them: only the innermost scope gains
/// the names it assigns or defines.
pub fn validate_statement_names(
    module: &Module,
    names: &NameTable,
    stmt: StmtId,
    scopes: &mut Vec<Vec<Symbol>>,
) -> (r: Result<(), ParseError>)
    requires
        module.wf(),
        names.wf(),
        module.has_statement(stmt),
        old(scopes)@.len() > 0,
    ensures
        result_agrees(
            r,
            stmt_result(*module, names@, scope_sets(old(scopes)@), stmt),
            scope_sets(final(scopes)@),
        ),
        r is Ok ==> final(scopes)@.len() == old(scopes)@.len(),
        r is Ok ==> grows_innermost(scope_sets(old(scopes)@), scope_sets(final(scopes)@)),
    decreases stmt, 1int,
{
    let ghost sc = scope_sets(scopes@);
    proof {
        lemma_statement_grows_innermost(*module, names@, sc, stmt);
    }
    let n_exprs = module.expressions.len();
    let st = &module.statements[stmt];
    proof {
        assert(statement_children_below(
            module.statements@[stmt as int].kind,
            stmt as int,
            module.expressions@.len() as int,
        ));
    }
    match &st.kind {
        StatementKind::Expression(e) => validate_expression_names(module, names, scopes, *e),
        StatementKind::Assign { name, value, .. } => {
            let r = validate_expression_names(module, names, scopes, *value);
            if r.is_err() {
                return r;
            }
            insert_into_innermost(scopes, *name);
            Ok(())
        },
        StatementKind::IndexAssign { object, index, value } => {
            let r = validate_expression_names(module, names, scopes, *object);
            if r.is_err() {
                return r;
            }
            let r = validate_expression_names(module, names, scopes, *index);
            if r.is_err() {
                return r;
            }
            validate_expression_names(module, names, scopes, *value)
        },
        StatementKind::PropertyAssign { object, value, .. } => {
            let r = validate_expression_names(module, names, scopes, *object);
            if r.is_err() {
                return r;
            }
            validate_expression_names(module, names, scopes, *value)
        },
        StatementKind::If { condition, then_body, else_body } => {
            let r = validate_expression_names(module, names, scopes, *condition);
            if r.is_err() {
                return r;
            }
            let r = validate_statement_names(module, names, *then_body, scopes);
            if r.is_err() {
                return r;
            }
            match else_body {
                Some(b) => validate_statement_names(module, names, *b, scopes),
                None => Ok(()),
            }
        },
        StatementKind::While { condition, body } => {
            let r = validate_expression_names(module, names, scopes, *condition);
            if r.is_err() {
                return r;
            }
            validate_statement_names(module, names, *body, scopes)
        },
        StatementKind::For { variable, init, condition, update, body } => {
            let r = validate_expression_names(module, names, scopes, *init);
            if r.is_err() {
                return r;
            }
            let mut initial: Vec<Symbol> = Vec::new();
            initial.push(*variable);
            assert(initial@[0] == *variable);
            assert(initial@.to_set() =~= set![*variable]);
            open_scope(scopes, initial);
            let r = validate_expression_names(module, names, scopes, *condition);
            if r.is_err() {
                return r;
            }
            let r = validate_expression_names(module, names, scopes, *update);
            if r.is_err() {
                return r;
            }
            let r = validate_statement_names(module, names, *body, scopes);
            if r.is_err() {
                return r;
            }
            close_scope(scopes);
            Ok(())
        },
        StatementKind::Try { body, handlers } => {
            let r = validate_statement_names(module, names, *body, scopes);
            if r.is_err() {
                return r;
            }
            validate_handler_names(module, names, handlers, stmt, scopes)
        },
        StatementKind::Raise { message, .. } => match message {
            Some(e) => validate_expression_names(module, names, scopes, *e),
            None => Ok(()),
        },
        StatementKind::Block(ids) => {
            let initial: Vec<Symbol> = Vec::new();
            assert(initial@.to_set() =~= Set::<Symbol>::empty());
            open_scope(scopes, initial);
            let r = validate_statement_list(module, names, ids, stmt, scopes);
            if r.is_err() {
                return r;
            }
            close_scope(scopes);
            Ok(())
        },
        StatementKind::Return(e) => match e {
            Some(e) => validate_expression_names(module, names, scopes, *e),
            None => Ok(()),
        },
        StatementKind::FunctionDefinition(f) => {
            insert_into_innermost(scopes, f.name);
            validate_function_body_names(module, names, f, stmt, scopes)
        },
        StatementKind::ClassDefinition(c) => validate_class_names(module, names, c, stmt, scopes),
        _ => Ok(()),
    }
}

/// Checks the statements `ids` in order, each below `bound`.
fn validate_statement_list(
    module: &Module,
    names: &NameTable,
    ids: &Vec<StmtId>,
    bound: StmtId,
    scopes: &mut Vec<Vec<Symbol>>,
) -> (r: Result<(), ParseError>)
    requires
        module.wf(),
        names.wf(),
        bound < module.statements@.len(),
        forall|k: int| 0 <= k < ids@.len() ==> #[trigger] ids@[k] < bound,
        old(scopes)@.len() > 0,
    ensures
        result_agrees(
            r,
            list_result(*module, names@, scope_sets(old(scopes)@), ids@, bound),
            scope_sets(final(scopes)@),
        ),
        r is Ok ==> final(scopes)@.len() == old(scopes)@.len(),
    decreases bound, 0int,
{
    let ghost sc = scope_sets(scopes@);
    let ghost len0 = scopes@.len();
    let mut i: usize = 0;
    assert(ids@.skip(0) =~= ids@);
    while i < ids.len()
        invariant
            i <= ids@.len(),
            module.wf(),
            names.wf(),
            bound < module.statements@.len(),
            forall|k: int| 0 <= k < ids@.len() ==> #[trigger] ids@[k] < bound,
            scopes@.len() == len0,
            len0 > 0,
            len0 == old(scopes)@.len(),
            sc == scope_sets(old(scopes)@),
            list_result(*module, names@, sc, ids@, bound) == list_result(
                *module,
                names@,
                scope_sets(scopes@),
                ids@.skip(i as int),
                bound,
            ),
        decreases ids@.len() - i,
    {
        let id = ids[i];
        assert(ids@.skip(i as int)[0] == ids@[i as int]);
        assert(ids@.skip(i as int).drop_first() =~= ids@.skip(i + 1));
        let ghost cur = scope_sets(scopes@);
        assert(list_result(*module, names@, cur, ids@.skip(i as int), bound) == match stmt_result(
            *module,
            names@,
            cur,
            id,
        ) {
            Err(x) => Err(x),
            Ok(s1) => list_result(*module, names@, s1, ids@.skip(i + 1), bound),
        });
        let r = validate_statement_names(module, names, id, scopes);
        if r.is_err() {
            return r;
        }
        i = i + 1;
    }
    Ok(())
}

/// Checks the handlers of a `try` in order; a handler that binds the
/// error text checks its body in a scope holding that name.
fn validate_handler_names(
    module: &Module,
    names: &NameTable,
    handlers: &Vec<Handler>,
    bound: StmtId,
    scopes: &mut Vec<Vec<Symbol>>,
) -> (r: Result<(), ParseError>)
    requires
        module.wf(),
        names.wf(),
        bound < module.statements@.len(),
        forall|k: int| 0 <= k < handlers@.len() ==> #[trigger] handlers@[k].body < bound,
        old(scopes)@.len() > 0,
    ensures
        result_agrees(
            r,
            handlers_result(*module, names@, scope_sets(old(scopes)@), handlers@, bound),
            scope_sets(final(scopes)@),
        ),
        r is Ok ==> final(scopes)@.len() == old(scopes)@.len(),
    decreases bound, 0int,
{
    let ghost sc = scope_sets(scopes@);
    let ghost len0 = scopes@.len();
    let mut i: usize = 0;
    assert(handlers@.skip(0) =~= handlers@);
    while i < handlers.len()
        invariant
            i <= handlers@.len(),
            module.wf(),
            names.wf(),
            bound < module.statements@.len(),
            forall|k: int| 0 <= k < handlers@.len() ==> #[trigger] handlers@[k].body < bound,
            scopes@.len() == len0,
            len0 > 0,
            len0 == old(scopes)@.len(),
            sc == scope_sets(old(scopes)@),
            handlers_result(*module, names@, sc, handlers@, bound) == handlers_result(
                *module,
                names@,
                scope_sets(scopes@),
                handlers@.skip(i as int),
                bound,
            ),
        decreases handlers@.len() - i,
    {
        let h = &handlers[i];
        assert(handlers@.skip(i as int)[0] == handlers@[i as int]);
        assert(handlers@.skip(i as int).drop_first() =~= handlers@.skip(i + 1));
        assert(h.body < bound);
        let ghost cur = scope_sets(scopes@);
        let ghost step = match h.error_text {
            Some(t) => match stmt_result(*module, names@, cur.push(set![t]), h.body) {
                Ok(s2) => Ok(s2.drop_last()),
                Err(x) => Err(x),
            },
            None => stmt_result(*module, names@, cur, h.body),
        };
        assert(handlers_result(*module, names@, cur, handlers@.skip(i as int), bound) == match step {
            Err(x) => Err(x),
            Ok(s1) => handlers_result(*module, names@, s1, handlers@.skip(i + 1), bound),
        });
        match h.error_text {
            Some(t) => {
                let mut initial: Vec<Symbol> = Vec::new();
                initial.push(t);
                assert(initial@[0] == t);
                assert(initial@.to_set() =~= set![t]);
                open_scope(scopes, initial);
                let r = validate_statement_names(module, names, h.body, scopes);
                if r.is_err() {
                    return r;
                }
                close_scope(scopes);
            },
            None => {
                let r = validate_statement_names(module, names, h.body, scopes);
                if r.is_err() {
                    return r;
                }
            },
        }
        i = i + 1;
    }
    Ok(())
}

/// Checks a function's default values in `scopes` and its body in a scope
/// of its parameters.
pub fn validate_function_body_names(
    module: &Module,
    names: &NameTable,
    function: &FunctionDefinition,
    bound: StmtId,
    scopes: &mut Vec<Vec<Symbol>>,
) -> (r: Result<(), ParseError>)
    requires
        module.wf(),
        names.wf(),
        bound < module.statements@.len(),
        function_below(*function, bound as int, module.expressions@.len() as int),
        old(scopes)@.len() > 0,
    ensures
        result_agrees(
            r,
            function_result(*module, names@, scope_sets(old(scopes)@), *function, bound),
            scope_sets(final(scopes)@),
        ),
        r is Ok ==> final(scopes)@.len() == old(scopes)@.len(),
    decreases function.body, 2int,
{
    let ghost sc = scope_sets(scopes@);
    let params = &function.params;
    let mut local: Vec<Symbol> = Vec::new();
    let mut i: usize = 0;
    assert(params@.skip(0) =~= params@);
    while i < params.len()
        invariant
            i <= params@.len(),
            module.wf(),
            names.wf(),
            function_below(*function, bound as int, module.expressions@.len() as int),
            params == &function.params,
            sc == scope_sets(scopes@),
            local@ == params@.take(i as int).map_values(|p: Parameter| p.name),
            defaults_error(*module, names@, sc, params@) == defaults_error(
                *module,
                names@,
                sc,
                params@.skip(i as int),
            ),
        decreases params@.len() - i,
    {
        let p = &params[i];
        assert(params@.skip(i as int)[0] == params@[i as int]);
        assert(params@.skip(i as int).drop_first() =~= params@.skip(i + 1));
        local.push(p.name);
        assert(local@ =~= params@.take(i + 1).map_values(|p: Parameter| p.name));
        match p.default_value {
            Some(e) => {
                let r = validate_expression_names(module, names, scopes, e);
                if r.is_err() {
                    return r;
                }
            },
            None => {},
        }
        i = i + 1;
    }
    assert(params@.take(i as int) =~= params@);
    open_scope(scopes, local);
    let r = validate_statement_names(module, names, function.body, scopes);
    if r.is_err() {
        return r;
    }
    close_scope(scopes);
    Ok(())
}

/// Checks a class: the initial values of its fields, then its methods and
/// its constructor, in the order declared.
fn validate_class_names(
    module: &Module,
    names: &NameTable,
    class: &crate::parser::program::ClassDefinition,
    bound: StmtId,
    scopes: &mut Vec<Vec<Symbol>>,
) -> (r: Result<(), ParseError>)
    requires
        module.wf(),
        names.wf(),
        bound < module.statements@.len(),
        statement_children_below(
            StatementKind::ClassDefinition(*class),
            bound as int,
            module.expressions@.len() as int,
        ),
        old(scopes)@.len() > 0,
    ensures
        result_agrees(
            r,
            match fields_error(*module, names@, scope_sets(old(scopes)@), class.fields@) {
                Some(x) => Err(x),
                None => match methods_result(
                    *module,
                    names@,
                    scope_sets(old(scopes)@),
                    class.methods@,
                    bound,
                ) {
                    Err(x) => Err(x),
                    Ok(s1) => match class.constructor {
                        Some(f) => function_result(*module, names@, s1, f, bound),
                        None => Ok(s1),
                    },
                },
            },
            scope_sets(final(scopes)@),
        ),
        r is Ok ==> final(scopes)@.len() == old(scopes)@.len(),
    decreases bound, 0int,
{
    let ghost sc = scope_sets(scopes@);
    let ghost len0 = scopes@.len();
    let fields = &class.fields;
    let mut i: usize = 0;
    assert(fields@.skip(0) =~= fields@);
    while i < fields.len()
        invariant
            i <= fields@.len(),
            module.wf(),
            names.wf(),
            fields == &class.fields,
            sc == scope_sets(old(scopes)@),
            scopes@ == old(scopes)@,
            forall|k: int|
                0 <= k < fields@.len() ==> opt_below(
                    #[trigger] fields@[k].value,
                    module.expressions@.len() as int,
                ),
            sc == scope_sets(scopes@),
            fields_error(*module, names@, sc, fields@) == fields_error(
                *module,
                names@,
                sc,
                fields@.skip(i as int),
            ),
        decreases fields@.len() - i,
    {
        let f = &fields[i];
        assert(fields@.skip(i as int)[0] == fields@[i as int]);
        assert(fields@.skip(i as int).drop_first() =~= fields@.skip(i + 1));
        assert(opt_below(fields@[i as int].value, module.expressions@.len() as int));
        match f.value {
            Some(e) => {
                let r = validate_expression_names(module, names, scopes, e);
                if r.is_err() {
                    return r;
                }
            },
            None => {},
        }
        i = i + 1;
    }
    let methods = &class.methods;
    let mut j: usize = 0;
    assert(methods@.skip(0) =~= methods@);
    while j < methods.len()
        invariant
            j <= methods@.len(),
            module.wf(),
            names.wf(),
            bound < module.statements@.len(),
            methods == &class.methods,
            fields_error(*module, names@, sc, class.fields@) is None,
            forall|k: int|
                0 <= k < methods@.len() ==> function_below(
                    #[trigger] methods@[k],
                    bound as int,
                    module.expressions@.len() as int,
                ),
            scopes@.len() == len0,
            len0 > 0,
            len0 == old(scopes)@.len(),
            sc == scope_sets(old(scopes)@),
            methods_result(*module, names@, sc, methods@, bound) == methods_result(
                *module,
                names@,
                scope_sets(scopes@),
                methods@.skip(j as int),
                bound,
            ),
        decreases methods@.len() - j,
    {
        assert(methods@.skip(j as int)[0] == methods@[j as int]);
        assert(methods@.skip(j as int).drop_first() =~= methods@.skip(j + 1));
        assert(function_below(methods@[j as int], bound as int, module.expressions@.len() as int));
        let ghost cur = scope_sets(scopes@);
        assert(methods_result(*module, names@, cur, methods@.skip(j as int), bound) == match function_result(
            *module,
            names@,
            cur,
            methods@[j as int],
            bound,
        ) {
            Err(x) => Err(x),
            Ok(s1) => methods_result(*module, names@, s1, methods@.skip(j + 1), bound),
        });
        let r = validate_function_body_names(module, names, &methods[j], bound, scopes);
        if r.is_err() {
            return r;
        }
        j = j + 1;
    }
    match &class.constructor {
        Some(f) => validate_function_body_names(module, names, f, bound, scopes),
        None => Ok(()),
    }
}

/// The names that every module knows without declaring them.
pub open spec fn builtin_global_names() -> Seq<Seq<char>> {
    seq![
        "печать"@,
        "ввод"@,
        "тип"@,
        "является"@,
        "число"@,
        "строка"@,
        "логический"@,
        "дробь"@,
        "список"@,
        "массив"@,
        "словарь"@,
        "из_json"@,
        "в_json"@,
        "строка_из_указателя"@,
        "Список"@,
        "Массив"@,
        "Словарь"@,
        "Строка"@,
        "Файл"@,
        "Система"@,
        "Терминал"@,
        "ДатаВремя"@,
    ]
}

/// The built-in global names, in order.
fn builtin_names() -> (r: Vec<&'static str>)
    ensures
        crate::text::str_views(r@) == builtin_global_names(),
{
    let mut r: Vec<&'static str> = Vec::new();
    r.push("печать");
    r.push("ввод");
    r.push("тип");
    r.push("является");
    r.push("число");
    r.push("строка");
    r.push("логический");
    r.push("дробь");
    r.push("список");
    r.push("массив");
    r.push("словарь");
    r.push("из_json");
    r.push("в_json");
    r.push("строка_из_указателя");
    r.push("Список");
    r.push("Массив");
    r.push("Словарь");
    r.push("Строка");
    r.push("Файл");
    r.push("Система");
    r.push("Терминал");
    r.push("ДатаВремя");
    assert(crate::text::str_views(r@) =~= builtin_global_names());
    r
}

/// The symbols in `names` of the built-in global names.
pub open spec fn builtin_symbols(names: Seq<Seq<char>>) -> Set<Symbol> {
    Set::new(|s: Symbol| s < names.len() && builtin_global_names().contains(names[s as int]))
}

/// The names that the top-level statements `body` assign, and the
/// functions and globals of the native libraries they declare.
pub open spec fn top_level_names(m: Module, body: Seq<StmtId>) -> Set<Symbol>
    decreases body.len(),
{
    if body.len() == 0 {
        Set::empty()
    } else {
        let rest = top_level_names(m, body.drop_last());
        let s = body.last();
        if s < m.statements@.len() {
            match m.statements@[s as int].kind {
                StatementKind::Assign { name, .. } => rest.insert(name),
                StatementKind::NativeLibraryDefinition(d) => rest + d.functions@.to_set()
                    + d.globals@.to_set(),
                _ => rest,
            }
        } else {
            rest
        }
    }
}

/// The names a module knows before its body is checked: those it declares
/// (its functions, classes, import aliases and what its imported modules
/// export), the built-in ones, and those its top-level statements define.
pub open spec fn known_globals(
    m: Module,
    names: Seq<Seq<char>>,
    declared: Seq<Symbol>,
    body: Seq<StmtId>,
) -> Set<Symbol> {
    declared.to_set() + builtin_symbols(names) + top_level_names(m, body)
}

/// Whether a result agrees with checking a module body.
pub open spec fn module_agrees(r: Result<(), ParseError>, expected: Result<Seq<Set<Symbol>>, NameError>) -> bool {
    match (r, expected) {
        (Ok(()), Ok(_)) => true,
        (Err(ParseError::InvalidSyntax(d)), Err((span, msg))) => d.location == span && d.message@
            == msg,
        _ => false,
    }
}

/// The symbols of the built-in global names, interned into `names` where
/// they are new.
pub fn known_builtin_names(names: &mut NameTable) -> (r: Vec<Symbol>)
    requires
        old(names).wf(),
        old(names)@.len() + builtin_global_names().len() <= crate::parser::program::name_capacity(),
    ensures
        final(names).wf(),
        final(names)@.len() >= old(names)@.len(),
        final(names)@.subrange(0, old(names)@.len() as int) == old(names)@,
        forall|k: int|
            0 <= k < builtin_global_names().len() ==> final(names)@.contains(
                #[trigger] builtin_global_names()[k],
            ),
        r@.to_set() == builtin_symbols(final(names)@),
{
    let list = builtin_names();
    let ghost before = names@;
    let mut syms: Vec<Symbol> = Vec::new();
    let mut i: usize = 0;
    while i < list.len()
        invariant
            crate::text::str_views(list@) == builtin_global_names(),
            i <= list@.len(),
            names.wf(),
            syms@.len() == i,
            names@.len() >= before.len(),
            names@.len() <= before.len() + i,
            before.len() + builtin_global_names().len() <= crate::parser::program::name_capacity(),
            names@.subrange(0, before.len() as int) == before,
            forall|k: int|
                0 <= k < i ==> syms@[k] < names@.len() && names@[#[trigger] syms@[k] as int]
                    == builtin_global_names()[k],
        decreases list@.len() - i,
    {
        let ghost prev = names@;
        let s = names.intern(list[i]);
        assert(list@[i as int]@ == builtin_global_names()[i as int]);
        proof {
            assert forall|k: int| 0 <= k < i implies syms@[k] < names@.len() && names@[syms@[k] as int]
                == builtin_global_names()[k] by {
                assert(names@[syms@[k] as int] == prev[syms@[k] as int]);
            }
            assert(names@.subrange(0, before.len() as int) =~= before) by {
                assert forall|j: int| 0 <= j < before.len() implies names@[j] == before[j] by {
                    assert(names@[j] == prev[j]);
                    assert(prev.subrange(0, before.len() as int)[j] == before[j]);
                }
            }
        }
        syms.push(s);
        i = i + 1;
    }
    proof {
        assert forall|k: int| 0 <= k < builtin_global_names().len() implies names@.contains(
            #[trigger] builtin_global_names()[k],
        ) by {
            assert(names@[syms@[k] as int] == builtin_global_names()[k]);
        }
        assert forall|s: Symbol| #[trigger] syms@.to_set().contains(s) == builtin_symbols(
            names@,
        ).contains(s) by {
            if syms@.to_set().contains(s) {
                let k = choose|k: int| 0 <= k < syms@.len() && syms@[k] == s;
                assert(builtin_global_names().contains(names@[s as int]));
            }
            if builtin_symbols(names@).contains(s) {
                let k = choose|k: int|
                    0 <= k < builtin_global_names().len() && builtin_global_names()[k] == names@[s as int];
                assert(names@[syms@[k] as int] == names@[s as int]);
                assert(syms@[k] == s);
                assert(syms@.contains(s));
            }
        }
        assert(syms@.to_set() =~= builtin_symbols(names@));
    }
    syms
}

/// Checks the names of a module's top-level statements `body`, in one
/// scope of the names the module knows (see [`known_globals`]); `declared`
/// holds the module's functions, classes, import aliases and the names its
/// imported modules export. The built-in names are interned into `names`.
pub fn validate_module_names(
    module: &Module,
    names: &mut NameTable,
    declared: &Vec<Symbol>,
    body: &Vec<StmtId>,
) -> (r: Result<(), ParseError>)
    requires
        module.wf(),
        old(names).wf(),
        old(names)@.len() + builtin_global_names().len() <= crate::parser::program::name_capacity(),
        forall|k: int| 0 <= k < body@.len() ==> #[trigger] body@[k] < module.statements@.len(),
    ensures
        final(names).wf(),
        final(names)@.len() >= old(names)@.len(),
        final(names)@.subrange(0, old(names)@.len() as int) == old(names)@,
        module_agrees(
            r,
            list_result(
                *module,
                final(names)@,
                seq![known_globals(*module, final(names)@, declared@, body@)],
                body@,
                module.statements@.len() as StmtId,
            ),
        ),
{
    let builtins = known_builtin_names(names);
    let mut known: Vec<Symbol> = declared.clone();
    let mut b: usize = 0;
    while b < builtins.len()
        invariant
            b <= builtins@.len(),
            known@ == declared@ + builtins@.take(b as int),
        decreases builtins@.len() - b,
    {
        known.push(builtins[b]);
        assert(builtins@.take(b + 1) =~= builtins@.take(b as int).push(builtins@[b as int]));
        b = b + 1;
    }
    assert(builtins@.take(b as int) =~= builtins@);
    let ghost base = known@;
    let mut i: usize = 0;
    assert(body@.take(0) =~= Seq::<StmtId>::empty());
    while i < body.len()
        invariant
            i <= body@.len(),
            forall|k: int| 0 <= k < body@.len() ==> #[trigger] body@[k] < module.statements@.len(),
            known@.to_set() == base.to_set() + top_level_names(*module, body@.take(i as int)),
        decreases body@.len() - i,
    {
        let s = body[i];
        assert(body@.take(i + 1).drop_last() =~= body@.take(i as int));
        assert(body@.take(i + 1).last() == s);
        let ghost prev = known@;
        match &module.statements[s].kind {
            StatementKind::Assign { name, .. } => {
                known.push(*name);
                proof {
                    prev.lemma_push_to_set_commute(*name);
                }
            },
            StatementKind::NativeLibraryDefinition(d) => {
                let mut j: usize = 0;
                while j < d.functions.len()
                    invariant
                        j <= d.functions@.len(),
                        known@ == prev + d.functions@.take(j as int),
                    decreases d.functions@.len() - j,
                {
                    known.push(d.functions[j]);
                    assert(d.functions@.take(j + 1) =~= d.functions@.take(j as int).push(d.functions@[j as int]));
                    j = j + 1;
                }
                assert(d.functions@.take(j as int) =~= d.functions@);
                let ghost mid = known@;
                let mut g: usize = 0;
                while g < d.globals.len()
                    invariant
                        g <= d.globals@.len(),
                        known@ == mid + d.globals@.take(g as int),
                    decreases d.globals@.len() - g,
                {
                    known.push(d.globals[g]);
                    assert(d.globals@.take(g + 1) =~= d.globals@.take(g as int).push(d.globals@[g as int]));
                    g = g + 1;
                }
                assert(d.globals@.take(g as int) =~= d.globals@);
                proof {
                    vstd::seq_lib::seq_to_set_distributes_over_add(prev, d.functions@);
                    vstd::seq_lib::seq_to_set_distributes_over_add(mid, d.globals@);
                }
            },
            _ => {},
        }
        i = i + 1;
    }
    assert(body@.take(i as int) =~= body@);
    proof {
        vstd::seq_lib::seq_to_set_distributes_over_add(declared@, builtins@);
        assert(known@.to_set() =~= known_globals(*module, names@, declared@, body@));
    }
    let mut scopes: Vec<Vec<Symbol>> = Vec::new();
    scopes.push(known);
    let ghost sc0 = scope_sets(scopes@);
    assert(sc0 =~= seq![known_globals(*module, names@, declared@, body@)]);
    let bound = module.statements.len();
    let mut k: usize = 0;
    assert(body@.skip(0) =~= body@);
    while k < body.len()
        invariant
            k <= body@.len(),
            module.wf(),
            names.wf(),
            names@.len() >= old(names)@.len(),
            names@.subrange(0, old(names)@.len() as int) == old(names)@,
            sc0 == seq![known_globals(*module, names@, declared@, body@)],
            bound == module.statements@.len(),
            forall|q: int| 0 <= q < body@.len() ==> #[trigger] body@[q] < module.statements@.len(),
            scopes@.len() == 1,
            list_result(*module, names@, sc0, body@, bound) == list_result(
                *module,
                names@,
                scope_sets(scopes@),
                body@.skip(k as int),
                bound,
            ),
        decreases body@.len() - k,
    {
        let id = body[k];
        assert(body@.skip(k as int)[0] == body@[k as int]);
        assert(body@.skip(k as int).drop_first() =~= body@.skip(k + 1));
        let ghost cur = scope_sets(scopes@);
        assert(list_result(*module, names@, cur, body@.skip(k as int), bound) == match stmt_result(
            *module,
            names@,
            cur,
            id,
        ) {
            Err(x) => Err(x),
            Ok(s1) => list_result(*module, names@, s1, body@.skip(k + 1), bound),
        });
        let r = validate_statement_names(module, names, id, &mut scopes);
        if r.is_err() {
            return r;
        }
        k = k + 1;
    }
    Ok(())
}

} // verus!
