//! Rules of the statement grammar and their descriptions for diagnostics.
use vstd::prelude::*;

verus! {

/// A rule of the statement grammar, named as in the grammar.
#[allow(non_camel_case_types)]
#[derive(Debug, Clone, Copy, PartialEq, Eq, Structural)]
pub enum Rule {
    EOI,
    identifier,
    import_stmt,
    function,
    class,
    library_stmt,
    library_function,
    library_global,
    library_param_list,
    library_param,
    constructor,
    class_method,
    class_field,
    inheritance_clause,
    if_stmt,
    else_clause,
    else_if_clause,
    try_stmt,
    catch_clause,
    catch_pattern,
    raise_stmt,
    while_stmt,
    for_stmt,
    foreach_stmt,
    thread_stmt,
    return_stmt,
    expr_stmt,
    block,
    empty_block,
    string_literal,
    number_literal,
    bool_literal,
    empty_literal,
    new_expr,
    qualified_name,
    expression,
    logical_or,
    logical_and,
    comparison,
    addition,
    multiplication,
    unary,
    postfix,
    paren_expr,
    lambda_expr,
    lambda_params,
    assignment,
    assignment_expr,
    property_assign,
    compound_assignment,
    compound_assign,
    compound_op,
    comp_op,
    add_op,
    mul_op,
    unary_op,
    logical_or_op,
    logical_and_op,
    in_op,
    type_hint,
    named_type,
    function_call,
    return_type,
    const_mod,
    param_list,
    param,
    arg_list,
    named_arg,
    property_access,
    method_call,
    index_access,
    visibility,
    static_mod,
    program,
    statement,
    WHITESPACE,
    COMMENT,
}

/// The Russian description shown in diagnostics for a rule that has one.
pub open spec fn rule_description(rule: Rule) -> Option<Seq<char>> {
    match rule {
        Rule::EOI => Some("конец файла"@),
        Rule::identifier => Some("идентификатор (имя)"@),
        Rule::import_stmt => Some("инструкция 'подключить'"@),
        Rule::function => Some("объявление функции"@),
        Rule::class => Some("объявление класса"@),
        Rule::library_stmt => Some("объявление нативной библиотеки"@),
        Rule::library_function => Some("функция нативной библиотеки"@),
        Rule::library_global => Some("переменная нативной библиотеки"@),
        Rule::library_param_list => Some("список параметров нативной функции"@),
        Rule::library_param => Some("параметр нативной функции"@),
        Rule::constructor => Some("конструктор"@),
        Rule::class_method => Some("метод класса"@),
        Rule::class_field => Some("поле класса"@),
        Rule::inheritance_clause => Some("наследование класса"@),
        Rule::if_stmt => Some("условие 'если'"@),
        Rule::else_clause => Some("блок 'иначе'"@),
        Rule::else_if_clause => Some("ветка 'иначе если'"@),
        Rule::try_stmt => Some("блок 'попробовать'"@),
        Rule::catch_clause => Some("блок 'перехватить'"@),
        Rule::catch_pattern => Some("шаблон перехвата ошибки"@),
        Rule::raise_stmt => Some("инструкция 'выбросить'"@),
        Rule::while_stmt => Some("цикл 'пока'"@),
        Rule::for_stmt => Some("цикл 'для'"@),
        Rule::foreach_stmt => Some("цикл 'для ... в ...'"@),
        Rule::thread_stmt => Some("блок потока"@),
        Rule::return_stmt => Some("инструкция 'вернуть'"@),
        Rule::expr_stmt => Some("выражение как инструкция"@),
        Rule::block => Some("блок кода в фигурных скобках { ... }"@),
        Rule::empty_block => Some("пустой блок { }"@),
        Rule::string_literal => Some("строка в кавычках"@),
        Rule::number_literal => Some("число"@),
        Rule::bool_literal => Some("логическое значение (истина/ложь)"@),
        Rule::empty_literal => Some("пустота"@),
        Rule::new_expr => Some("создание объекта 'новый'"@),
        Rule::qualified_name => Some("составное имя"@),
        Rule::expression => Some("выражение"@),
        Rule::logical_or => Some("логическое 'или'"@),
        Rule::logical_and => Some("логическое 'и'"@),
        Rule::comparison => Some("сравнение"@),
        Rule::addition => Some("сложение или вычитание"@),
        Rule::multiplication => Some("умножение, деление или остаток"@),
        Rule::unary => Some("унарное выражение"@),
        Rule::postfix => Some("постфиксное выражение"@),
        Rule::paren_expr => Some("выражение в скобках"@),
        Rule::lambda_expr => Some("лямбда-выражение"@),
        Rule::lambda_params => Some("параметры лямбды"@),
        Rule::assignment => Some("присваивание '='"@),
        Rule::assignment_expr => Some("выражение присваивания"@),
        Rule::property_assign => Some("присваивание свойства"@),
        Rule::compound_assignment => Some("комбинированное присваивание"@),
        Rule::compound_assign => Some("комбинированное присваивание (+=, -= и т.д.)"@),
        Rule::compound_op => Some("оператор комбинированного присваивания"@),
        Rule::comp_op => Some("оператор сравнения"@),
        Rule::add_op => Some("сложение или вычитание"@),
        Rule::mul_op => Some("умножение или деление"@),
        Rule::unary_op => Some("унарный оператор (- или !)"@),
        Rule::logical_or_op => Some("оператор 'или'"@),
        Rule::logical_and_op => Some("оператор 'и'"@),
        Rule::in_op => Some("оператор 'в'"@),
        Rule::type_hint => Some("название типа"@),
        Rule::named_type => Some("название типа"@),
        Rule::function_call => Some("вызов функции"@),
        Rule::return_type => Some("тип возвращаемого значения (->)"@),
        Rule::const_mod => Some("модификатор 'константа'"@),
        Rule::param_list => Some("список параметров"@),
        Rule::param => Some("параметр"@),
        Rule::arg_list => Some("список аргументов"@),
        Rule::named_arg => Some("именованный аргумент"@),
        Rule::property_access => Some("обращение к свойству через '.'"@),
        Rule::method_call => Some("вызов метода"@),
        Rule::index_access => Some("доступ по индексу [ ]"@),
        Rule::visibility => Some("модификатор доступа (публичный/приватный)"@),
        Rule::static_mod => Some("модификатор 'статичный'"@),
        _ => None,
    }
}

/// The rule's name as written in the grammar.
pub open spec fn spec_rule_name(rule: Rule) -> Seq<char> {
    match rule {
        Rule::EOI => "EOI"@,
        Rule::identifier => "identifier"@,
        Rule::import_stmt => "import_stmt"@,
        Rule::function => "function"@,
        Rule::class => "class"@,
        Rule::library_stmt => "library_stmt"@,
        Rule::library_function => "library_function"@,
        Rule::library_global => "library_global"@,
        Rule::library_param_list => "library_param_list"@,
        Rule::library_param => "library_param"@,
        Rule::constructor => "constructor"@,
        Rule::class_method => "class_method"@,
        Rule::class_field => "class_field"@,
        Rule::inheritance_clause => "inheritance_clause"@,
        Rule::if_stmt => "if_stmt"@,
        Rule::else_clause => "else_clause"@,
        Rule::else_if_clause => "else_if_clause"@,
        Rule::try_stmt => "try_stmt"@,
        Rule::catch_clause => "catch_clause"@,
        Rule::catch_pattern => "catch_pattern"@,
        Rule::raise_stmt => "raise_stmt"@,
        Rule::while_stmt => "while_stmt"@,
        Rule::for_stmt => "for_stmt"@,
        Rule::foreach_stmt => "foreach_stmt"@,
        Rule::thread_stmt => "thread_stmt"@,
        Rule::return_stmt => "return_stmt"@,
        Rule::expr_stmt => "expr_stmt"@,
        Rule::block => "block"@,
        Rule::empty_block => "empty_block"@,
        Rule::string_literal => "string_literal"@,
        Rule::number_literal => "number_literal"@,
        Rule::bool_literal => "bool_literal"@,
        Rule::empty_literal => "empty_literal"@,
        Rule::new_expr => "new_expr"@,
        Rule::qualified_name => "qualified_name"@,
        Rule::expression => "expression"@,
        Rule::logical_or => "logical_or"@,
        Rule::logical_and => "logical_and"@,
        Rule::comparison => "comparison"@,
        Rule::addition => "addition"@,
        Rule::multiplication => "multiplication"@,
        Rule::unary => "unary"@,
        Rule::postfix => "postfix"@,
        Rule::paren_expr => "paren_expr"@,
        Rule::lambda_expr => "lambda_expr"@,
        Rule::lambda_params => "lambda_params"@,
        Rule::assignment => "assignment"@,
        Rule::assignment_expr => "assignment_expr"@,
        Rule::property_assign => "property_assign"@,
        Rule::compound_assignment => "compound_assignment"@,
        Rule::compound_assign => "compound_assign"@,
        Rule::compound_op => "compound_op"@,
        Rule::comp_op => "comp_op"@,
        Rule::add_op => "add_op"@,
        Rule::mul_op => "mul_op"@,
        Rule::unary_op => "unary_op"@,
        Rule::logical_or_op => "logical_or_op"@,
        Rule::logical_and_op => "logical_and_op"@,
        Rule::in_op => "in_op"@,
        Rule::type_hint => "type_hint"@,
        Rule::named_type => "named_type"@,
        Rule::function_call => "function_call"@,
        Rule::return_type => "return_type"@,
        Rule::const_mod => "const_mod"@,
        Rule::param_list => "param_list"@,
        Rule::param => "param"@,
        Rule::arg_list => "arg_list"@,
        Rule::named_arg => "named_arg"@,
        Rule::property_access => "property_access"@,
        Rule::method_call => "method_call"@,
        Rule::index_access => "index_access"@,
        Rule::visibility => "visibility"@,
        Rule::static_mod => "static_mod"@,
        Rule::program => "program"@,
        Rule::statement => "statement"@,
        Rule::WHITESPACE => "WHITESPACE"@,
        Rule::COMMENT => "COMMENT"@,
    }
}

/// The rule's name as written in the grammar.
pub fn rule_name(rule: &Rule) -> (r: &'static str)
    ensures
        r@ == spec_rule_name(*rule),
{
    match rule {
        Rule::EOI => "EOI",
        Rule::identifier => "identifier",
        Rule::import_stmt => "import_stmt",
        Rule::function => "function",
        Rule::class => "class",
        Rule::library_stmt => "library_stmt",
        Rule::library_function => "library_function",
        Rule::library_global => "library_global",
        Rule::library_param_list => "library_param_list",
        Rule::library_param => "library_param",
        Rule::constructor => "constructor",
        Rule::class_method => "class_method",
        Rule::class_field => "class_field",
        Rule::inheritance_clause => "inheritance_clause",
        Rule::if_stmt => "if_stmt",
        Rule::else_clause => "else_clause",
        Rule::else_if_clause => "else_if_clause",
        Rule::try_stmt => "try_stmt",
        Rule::catch_clause => "catch_clause",
        Rule::catch_pattern => "catch_pattern",
        Rule::raise_stmt => "raise_stmt",
        Rule::while_stmt => "while_stmt",
        Rule::for_stmt => "for_stmt",
        Rule::foreach_stmt => "foreach_stmt",
        Rule::thread_stmt => "thread_stmt",
        Rule::return_stmt => "return_stmt",
        Rule::expr_stmt => "expr_stmt",
        Rule::block => "block",
        Rule::empty_block => "empty_block",
        Rule::string_literal => "string_literal",
        Rule::number_literal => "number_literal",
        Rule::bool_literal => "bool_literal",
        Rule::empty_literal => "empty_literal",
        Rule::new_expr => "new_expr",
        Rule::qualified_name => "qualified_name",
        Rule::expression => "expression",
        Rule::logical_or => "logical_or",
        Rule::logical_and => "logical_and",
        Rule::comparison => "comparison",
        Rule::addition => "addition",
        Rule::multiplication => "multiplication",
        Rule::unary => "unary",
        Rule::postfix => "postfix",
        Rule::paren_expr => "paren_expr",
        Rule::lambda_expr => "lambda_expr",
        Rule::lambda_params => "lambda_params",
        Rule::assignment => "assignment",
        Rule::assignment_expr => "assignment_expr",
        Rule::property_assign => "property_assign",
        Rule::compound_assignment => "compound_assignment",
        Rule::compound_assign => "compound_assign",
        Rule::compound_op => "compound_op",
        Rule::comp_op => "comp_op",
        Rule::add_op => "add_op",
        Rule::mul_op => "mul_op",
        Rule::unary_op => "unary_op",
        Rule::logical_or_op => "logical_or_op",
        Rule::logical_and_op => "logical_and_op",
        Rule::in_op => "in_op",
        Rule::type_hint => "type_hint",
        Rule::named_type => "named_type",
        Rule::function_call => "function_call",
        Rule::return_type => "return_type",
        Rule::const_mod => "const_mod",
        Rule::param_list => "param_list",
        Rule::param => "param",
        Rule::arg_list => "arg_list",
        Rule::named_arg => "named_arg",
        Rule::property_access => "property_access",
        Rule::method_call => "method_call",
        Rule::index_access => "index_access",
        Rule::visibility => "visibility",
        Rule::static_mod => "static_mod",
        Rule::program => "program",
        Rule::statement => "statement",
        Rule::WHITESPACE => "WHITESPACE",
        Rule::COMMENT => "COMMENT",
    }
}

fn described(rule: &Rule) -> (r: Option<&'static str>)
    ensures
        match r {
            Some(t) => rule_description(*rule) == Some(t@),
            None => rule_description(*rule) is None,
        },
{
    match rule {
        Rule::EOI => Some("конец файла"),
        Rule::identifier => Some("идентификатор (имя)"),
        Rule::import_stmt => Some("инструкция 'подключить'"),
        Rule::function => Some("объявление функции"),
        Rule::class => Some("объявление класса"),
        Rule::library_stmt => Some("объявление нативной библиотеки"),
        Rule::library_function => Some("функция нативной библиотеки"),
        Rule::library_global => Some("переменная нативной библиотеки"),
        Rule::library_param_list => Some("список параметров нативной функции"),
        Rule::library_param => Some("параметр нативной функции"),
        Rule::constructor => Some("конструктор"),
        Rule::class_method => Some("метод класса"),
        Rule::class_field => Some("поле класса"),
        Rule::inheritance_clause => Some("наследование класса"),
        Rule::if_stmt => Some("условие 'если'"),
        Rule::else_clause => Some("блок 'иначе'"),
        Rule::else_if_clause => Some("ветка 'иначе если'"),
        Rule::try_stmt => Some("блок 'попробовать'"),
        Rule::catch_clause => Some("блок 'перехватить'"),
        Rule::catch_pattern => Some("шаблон перехвата ошибки"),
        Rule::raise_stmt => Some("инструкция 'выбросить'"),
        Rule::while_stmt => Some("цикл 'пока'"),
        Rule::for_stmt => Some("цикл 'для'"),
        Rule::foreach_stmt => Some("цикл 'для ... в ...'"),
        Rule::thread_stmt => Some("блок потока"),
        Rule::return_stmt => Some("инструкция 'вернуть'"),
        Rule::expr_stmt => Some("выражение как инструкция"),
        Rule::block => Some("блок кода в фигурных скобках { ... }"),
        Rule::empty_block => Some("пустой блок { }"),
        Rule::string_literal => Some("строка в кавычках"),
        Rule::number_literal => Some("число"),
        Rule::bool_literal => Some("логическое значение (истина/ложь)"),
        Rule::empty_literal => Some("пустота"),
        Rule::new_expr => Some("создание объекта 'новый'"),
        Rule::qualified_name => Some("составное имя"),
        Rule::expression => Some("выражение"),
        Rule::logical_or => Some("логическое 'или'"),
        Rule::logical_and => Some("логическое 'и'"),
        Rule::comparison => Some("сравнение"),
        Rule::addition => Some("сложение или вычитание"),
        Rule::multiplication => Some("умножение, деление или остаток"),
        Rule::unary => Some("унарное выражение"),
        Rule::postfix => Some("постфиксное выражение"),
        Rule::paren_expr => Some("выражение в скобках"),
        Rule::lambda_expr => Some("лямбда-выражение"),
        Rule::lambda_params => Some("параметры лямбды"),
        Rule::assignment => Some("присваивание '='"),
        Rule::assignment_expr => Some("выражение присваивания"),
        Rule::property_assign => Some("присваивание свойства"),
        Rule::compound_assignment => Some("комбинированное присваивание"),
        Rule::compound_assign => Some("комбинированное присваивание (+=, -= и т.д.)"),
        Rule::compound_op => Some("оператор комбинированного присваивания"),
        Rule::comp_op => Some("оператор сравнения"),
        Rule::add_op => Some("сложение или вычитание"),
        Rule::mul_op => Some("умножение или деление"),
        Rule::unary_op => Some("унарный оператор (- или !)"),
        Rule::logical_or_op => Some("оператор 'или'"),
        Rule::logical_and_op => Some("оператор 'и'"),
        Rule::in_op => Some("оператор 'в'"),
        Rule::type_hint => Some("название типа"),
        Rule::named_type => Some("название типа"),
        Rule::function_call => Some("вызов функции"),
        Rule::return_type => Some("тип возвращаемого значения (->)"),
        Rule::const_mod => Some("модификатор 'константа'"),
        Rule::param_list => Some("список параметров"),
        Rule::param => Some("параметр"),
        Rule::arg_list => Some("список аргументов"),
        Rule::named_arg => Some("именованный аргумент"),
        Rule::property_access => Some("обращение к свойству через '.'"),
        Rule::method_call => Some("вызов метода"),
        Rule::index_access => Some("доступ по индексу [ ]"),
        Rule::visibility => Some("модификатор доступа (публичный/приватный)"),
        Rule::static_mod => Some("модификатор 'статичный'"),
        _ => None,
    }
}

/// The text that names `rule` in a syntax error: its Russian description,
/// or its grammar name when it has none.
pub fn translate_rule(rule: &Rule) -> (r: String)
    ensures
        r@ == match rule_description(*rule) {
            Some(d) => d,
            None => spec_rule_name(*rule),
        },
{
    match described(rule) {
        Some(text) => text.to_string(),
        None => rule_name(rule).to_string(),
    }
}

} // verus!
