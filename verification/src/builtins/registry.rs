//! The registry of built-ins: the single source of the names that each
//! built-in function, class, method, macro, type and error class answers to,
//! and the documentation tables written from it.
use vstd::prelude::*;
use crate::text::{join, join_strs, str_eq, str_views};

verus! {

/// A built-in under its canonical name, with every name it answers to.
#[derive(Clone, Copy)]
pub struct BuiltinNames {
    pub canonical: &'static str,
    pub names: &'static [&'static str],
}

/// The runtime type that a built-in type name stands for.
#[derive(Clone, Copy, Debug, PartialEq, Eq, Structural)]
pub enum BuiltinTypeSpec {
    Number,
    Text,
    Boolean,
    Float,
    Pointer,
    List,
    Array,
    Dict,
    Unit,
    Any,
    Function,
    Object,
    Module,
    Resource,
    Class,
}

/// The names of a built-in type.
#[derive(Clone, Copy)]
pub struct BuiltinTypeNames {
    pub names: &'static [&'static str],
    pub spec: BuiltinTypeSpec,
}

/// A built-in class and the type its values have.
#[derive(Clone, Copy)]
pub struct BuiltinClass {
    pub names: BuiltinNames,
    pub type_spec: BuiltinTypeSpec,
}

/// A unit of date arithmetic: its length and the methods that add or
/// subtract it.
#[derive(Clone, Copy)]
pub struct DateTimeUnit {
    pub millis: i64,
    pub add: BuiltinNames,
    pub subtract: BuiltinNames,
}

/// A built-in error class and the class it derives from.
#[derive(Clone, Copy)]
pub struct BuiltinErrorClass {
    pub name: &'static str,
    pub base: Option<&'static str>,
}

/// The built-in functions.
pub open spec fn spec_function_table() -> Seq<BuiltinNames> {
    seq![
        BuiltinNames { canonical: "print", names: &["печать", "print"] },
        BuiltinNames { canonical: "input", names: &["ввод", "input"] },
        BuiltinNames { canonical: "type", names: &["тип", "type"] },
        BuiltinNames { canonical: "is", names: &["является", "is"] },
        BuiltinNames { canonical: "number", names: &["число", "number"] },
        BuiltinNames { canonical: "string", names: &["строка", "string"] },
        BuiltinNames { canonical: "bool", names: &["логический", "bool"] },
        BuiltinNames { canonical: "float", names: &["дробь", "float"] },
        BuiltinNames { canonical: "list", names: &["список", "list"] },
        BuiltinNames { canonical: "array", names: &["массив", "array"] },
        BuiltinNames { canonical: "dict", names: &["словарь", "dict"] },
        BuiltinNames { canonical: "iterator", names: &["итератор", "iterator"] },
        BuiltinNames { canonical: "from_json", names: &["из_json", "from_json"] },
        BuiltinNames { canonical: "to_json", names: &["в_json", "to_json"] },
        BuiltinNames { canonical: "string_from_pointer", names: &["строка_из_указателя", "string_from_pointer"] },
        BuiltinNames { canonical: "regex", names: &["регулярное_выражение", "regex"] },
    ]
}

/// The built-in functions.
pub fn function_table() -> (r: Vec<BuiltinNames>)
    ensures
        r@ == spec_function_table(),
{
    let r: Vec<BuiltinNames> = vec![
        BuiltinNames { canonical: "print", names: &["печать", "print"] },
        BuiltinNames { canonical: "input", names: &["ввод", "input"] },
        BuiltinNames { canonical: "type", names: &["тип", "type"] },
        BuiltinNames { canonical: "is", names: &["является", "is"] },
        BuiltinNames { canonical: "number", names: &["число", "number"] },
        BuiltinNames { canonical: "string", names: &["строка", "string"] },
        BuiltinNames { canonical: "bool", names: &["логический", "bool"] },
        BuiltinNames { canonical: "float", names: &["дробь", "float"] },
        BuiltinNames { canonical: "list", names: &["список", "list"] },
        BuiltinNames { canonical: "array", names: &["массив", "array"] },
        BuiltinNames { canonical: "dict", names: &["словарь", "dict"] },
        BuiltinNames { canonical: "iterator", names: &["итератор", "iterator"] },
        BuiltinNames { canonical: "from_json", names: &["из_json", "from_json"] },
        BuiltinNames { canonical: "to_json", names: &["в_json", "to_json"] },
        BuiltinNames { canonical: "string_from_pointer", names: &["строка_из_указателя", "string_from_pointer"] },
        BuiltinNames { canonical: "regex", names: &["регулярное_выражение", "regex"] },
    ];
    assert(r@ =~= spec_function_table());
    r
}

/// The built-in classes.
pub open spec fn spec_class_table() -> Seq<BuiltinClass> {
    seq![
        BuiltinClass { names: BuiltinNames { canonical: "String", names: &["Строка", "String"] }, type_spec: BuiltinTypeSpec::Text },
        BuiltinClass { names: BuiltinNames { canonical: "List", names: &["Список", "List"] }, type_spec: BuiltinTypeSpec::List },
        BuiltinClass { names: BuiltinNames { canonical: "Array", names: &["Массив", "Array"] }, type_spec: BuiltinTypeSpec::Array },
        BuiltinClass { names: BuiltinNames { canonical: "Dict", names: &["Словарь", "Dict"] }, type_spec: BuiltinTypeSpec::Dict },
        BuiltinClass { names: BuiltinNames { canonical: "Iterator", names: &["Итератор", "Iterator"] }, type_spec: BuiltinTypeSpec::Object },
        BuiltinClass { names: BuiltinNames { canonical: "File", names: &["Файл", "File"] }, type_spec: BuiltinTypeSpec::Object },
        BuiltinClass { names: BuiltinNames { canonical: "System", names: &["Система", "System"] }, type_spec: BuiltinTypeSpec::Object },
        BuiltinClass { names: BuiltinNames { canonical: "Terminal", names: &["Терминал", "Terminal"] }, type_spec: BuiltinTypeSpec::Object },
        BuiltinClass { names: BuiltinNames { canonical: "DateTime", names: &["ДатаВремя", "DateTime"] }, type_spec: BuiltinTypeSpec::Object },
        BuiltinClass { names: BuiltinNames { canonical: "Regex", names: &["РегулярноеВыражение", "Regex"] }, type_spec: BuiltinTypeSpec::Object },
        BuiltinClass { names: BuiltinNames { canonical: "Thread", names: &["Поток", "Thread"] }, type_spec: BuiltinTypeSpec::Object },
        BuiltinClass { names: BuiltinNames { canonical: "Mutex", names: &["Мьютекс", "Mutex"] }, type_spec: BuiltinTypeSpec::Object },
        BuiltinClass { names: BuiltinNames { canonical: "RwLock", names: &["БлокировкаЧтенияЗаписи", "RwLock"] }, type_spec: BuiltinTypeSpec::Object },
    ]
}

/// The built-in classes.
pub fn class_table() -> (r: Vec<BuiltinClass>)
    ensures
        r@ == spec_class_table(),
{
    let r: Vec<BuiltinClass> = vec![
        BuiltinClass { names: BuiltinNames { canonical: "String", names: &["Строка", "String"] }, type_spec: BuiltinTypeSpec::Text },
        BuiltinClass { names: BuiltinNames { canonical: "List", names: &["Список", "List"] }, type_spec: BuiltinTypeSpec::List },
        BuiltinClass { names: BuiltinNames { canonical: "Array", names: &["Массив", "Array"] }, type_spec: BuiltinTypeSpec::Array },
        BuiltinClass { names: BuiltinNames { canonical: "Dict", names: &["Словарь", "Dict"] }, type_spec: BuiltinTypeSpec::Dict },
        BuiltinClass { names: BuiltinNames { canonical: "Iterator", names: &["Итератор", "Iterator"] }, type_spec: BuiltinTypeSpec::Object },
        BuiltinClass { names: BuiltinNames { canonical: "File", names: &["Файл", "File"] }, type_spec: BuiltinTypeSpec::Object },
        BuiltinClass { names: BuiltinNames { canonical: "System", names: &["Система", "System"] }, type_spec: BuiltinTypeSpec::Object },
        BuiltinClass { names: BuiltinNames { canonical: "Terminal", names: &["Терминал", "Terminal"] }, type_spec: BuiltinTypeSpec::Object },
        BuiltinClass { names: BuiltinNames { canonical: "DateTime", names: &["ДатаВремя", "DateTime"] }, type_spec: BuiltinTypeSpec::Object },
        BuiltinClass { names: BuiltinNames { canonical: "Regex", names: &["РегулярноеВыражение", "Regex"] }, type_spec: BuiltinTypeSpec::Object },
        BuiltinClass { names: BuiltinNames { canonical: "Thread", names: &["Поток", "Thread"] }, type_spec: BuiltinTypeSpec::Object },
        BuiltinClass { names: BuiltinNames { canonical: "Mutex", names: &["Мьютекс", "Mutex"] }, type_spec: BuiltinTypeSpec::Object },
        BuiltinClass { names: BuiltinNames { canonical: "RwLock", names: &["БлокировкаЧтенияЗаписи", "RwLock"] }, type_spec: BuiltinTypeSpec::Object },
    ];
    assert(r@ =~= spec_class_table());
    r
}

/// The methods of the built-in classes.
pub open spec fn spec_method_table() -> Seq<BuiltinNames> {
    seq![
        BuiltinNames { canonical: "length", names: &["длина", "length"] },
        BuiltinNames { canonical: "join", names: &["объединить", "join"] },
        BuiltinNames { canonical: "get", names: &["получить", "get"] },
        BuiltinNames { canonical: "iterator", names: &["итератор", "iterator"] },
        BuiltinNames { canonical: "push", names: &["добавить", "push"] },
        BuiltinNames { canonical: "set", names: &["задать", "set"] },
        BuiltinNames { canonical: "delete", names: &["удалить", "delete"] },
        BuiltinNames { canonical: "clear", names: &["очистить", "clear"] },
        BuiltinNames { canonical: "has", names: &["имеет", "has"] },
        BuiltinNames { canonical: "keys", names: &["ключи", "keys"] },
        BuiltinNames { canonical: "values", names: &["значения", "values"] },
        BuiltinNames { canonical: "map", names: &["преобразовать", "map"] },
        BuiltinNames { canonical: "filter", names: &["отфильтровать", "filter"] },
        BuiltinNames { canonical: "reduce", names: &["свернуть", "reduce"] },
        BuiltinNames { canonical: "список", names: &["список", "list"] },
        BuiltinNames { canonical: "split", names: &["разделить", "split"] },
        BuiltinNames { canonical: "upper", names: &["верхний", "upper"] },
        BuiltinNames { canonical: "lower", names: &["нижний", "lower"] },
        BuiltinNames { canonical: "contains", names: &["содержит", "contains"] },
        BuiltinNames { canonical: "replace", names: &["заменить", "replace"] },
        BuiltinNames { canonical: "replace_all", names: &["заменить_все", "replace_all"] },
        BuiltinNames { canonical: "trim", names: &["обрезать", "trim"] },
        BuiltinNames { canonical: "starts_with", names: &["начинается_с", "starts_with"] },
        BuiltinNames { canonical: "ends_with", names: &["заканчивается_на", "ends_with"] },
        BuiltinNames { canonical: "pattern", names: &["шаблон", "pattern"] },
        BuiltinNames { canonical: "matches", names: &["совпадает", "matches"] },
        BuiltinNames { canonical: "find", names: &["найти", "find"] },
        BuiltinNames { canonical: "find_all", names: &["найти_все", "find_all"] },
        BuiltinNames { canonical: "groups", names: &["группы", "groups"] },
        BuiltinNames { canonical: "groups_all", names: &["группы_все", "groups_all"] },
        BuiltinNames { canonical: "exists", names: &["существует", "exists"] },
        BuiltinNames { canonical: "read", names: &["прочитать", "read"] },
        BuiltinNames { canonical: "write", names: &["записать", "write"] },
        BuiltinNames { canonical: "append", names: &["дописать", "append"] },
        BuiltinNames { canonical: "exit", names: &["выход", "exit"] },
        BuiltinNames { canonical: "panic", names: &["паника", "panic"] },
        BuiltinNames { canonical: "platform", names: &["платформа", "platform"] },
        BuiltinNames { canonical: "args", names: &["аргументы", "args"] },
        BuiltinNames { canonical: "time", names: &["время", "time"] },
        BuiltinNames { canonical: "sleep", names: &["сон", "sleep"] },
        BuiltinNames { canonical: "beep", names: &["сигнал", "beep"] },
        BuiltinNames { canonical: "environment", names: &["окружение", "environment"] },
        BuiltinNames { canonical: "clear", names: &["очистить", "clear"] },
        BuiltinNames { canonical: "title", names: &["заголовок", "title"] },
        BuiltinNames { canonical: "hide_cursor", names: &["скрыть_курсор", "hide_cursor"] },
        BuiltinNames { canonical: "show_cursor", names: &["показать_курсор", "show_cursor"] },
        BuiltinNames { canonical: "position", names: &["позиция", "position"] },
        BuiltinNames { canonical: "pause", names: &["пауза", "pause"] },
        BuiltinNames { canonical: "now", names: &["сейчас", "now"] },
        BuiltinNames { canonical: "format", names: &["формат", "format"] },
        BuiltinNames { canonical: "year", names: &["год", "year"] },
        BuiltinNames { canonical: "month", names: &["месяц", "month"] },
        BuiltinNames { canonical: "day", names: &["день", "day"] },
        BuiltinNames { canonical: "hour", names: &["час", "hour"] },
        BuiltinNames { canonical: "minute", names: &["минута", "minute"] },
        BuiltinNames { canonical: "second", names: &["секунда", "second"] },
        BuiltinNames { canonical: "add_seconds", names: &["добавить_секунд", "add_seconds"] },
        BuiltinNames { canonical: "sub_seconds", names: &["вычесть_секунд", "sub_seconds"] },
        BuiltinNames { canonical: "add_minutes", names: &["добавить_минут", "add_minutes"] },
        BuiltinNames { canonical: "sub_minutes", names: &["вычесть_минут", "sub_minutes"] },
        BuiltinNames { canonical: "add_hours", names: &["добавить_часов", "add_hours"] },
        BuiltinNames { canonical: "sub_hours", names: &["вычесть_часов", "sub_hours"] },
        BuiltinNames { canonical: "add_days", names: &["добавить_дней", "add_days"] },
        BuiltinNames { canonical: "sub_days", names: &["вычесть_дней", "sub_days"] },
        BuiltinNames { canonical: "add_months", names: &["добавить_месяцев", "add_months"] },
        BuiltinNames { canonical: "sub_months", names: &["вычесть_месяцев", "sub_months"] },
        BuiltinNames { canonical: "add_years", names: &["добавить_лет", "add_years"] },
        BuiltinNames { canonical: "sub_years", names: &["вычесть_лет", "sub_years"] },
        BuiltinNames { canonical: "create", names: &["создать", "create"] },
        BuiltinNames { canonical: "wait", names: &["ждать", "wait"] },
        BuiltinNames { canonical: "lock", names: &["блокировать", "lock"] },
        BuiltinNames { canonical: "unlock", names: &["разблокировать", "unlock"] },
        BuiltinNames { canonical: "write_lock", names: &["писать_блокировать", "write_lock"] },
        BuiltinNames { canonical: "write_unlock", names: &["писать_разблокировать", "write_unlock"] },
        BuiltinNames { canonical: "read_lock", names: &["читать_блокировать", "read_lock"] },
        BuiltinNames { canonical: "read_unlock", names: &["читать_разблокировать", "read_unlock"] },
    ]
}

/// The methods of the built-in classes.
pub fn method_table() -> (r: Vec<BuiltinNames>)
    ensures
        r@ == spec_method_table(),
{
    let r: Vec<BuiltinNames> = vec![
        BuiltinNames { canonical: "length", names: &["длина", "length"] },
        BuiltinNames { canonical: "join", names: &["объединить", "join"] },
        BuiltinNames { canonical: "get", names: &["получить", "get"] },
        BuiltinNames { canonical: "iterator", names: &["итератор", "iterator"] },
        BuiltinNames { canonical: "push", names: &["добавить", "push"] },
        BuiltinNames { canonical: "set", names: &["задать", "set"] },
        BuiltinNames { canonical: "delete", names: &["удалить", "delete"] },
        BuiltinNames { canonical: "clear", names: &["очистить", "clear"] },
        BuiltinNames { canonical: "has", names: &["имеет", "has"] },
        BuiltinNames { canonical: "keys", names: &["ключи", "keys"] },
        BuiltinNames { canonical: "values", names: &["значения", "values"] },
        BuiltinNames { canonical: "map", names: &["преобразовать", "map"] },
        BuiltinNames { canonical: "filter", names: &["отфильтровать", "filter"] },
        BuiltinNames { canonical: "reduce", names: &["свернуть", "reduce"] },
        BuiltinNames { canonical: "список", names: &["список", "list"] },
        BuiltinNames { canonical: "split", names: &["разделить", "split"] },
        BuiltinNames { canonical: "upper", names: &["верхний", "upper"] },
        BuiltinNames { canonical: "lower", names: &["нижний", "lower"] },
        BuiltinNames { canonical: "contains", names: &["содержит", "contains"] },
        BuiltinNames { canonical: "replace", names: &["заменить", "replace"] },
        BuiltinNames { canonical: "replace_all", names: &["заменить_все", "replace_all"] },
        BuiltinNames { canonical: "trim", names: &["обрезать", "trim"] },
        BuiltinNames { canonical: "starts_with", names: &["начинается_с", "starts_with"] },
        BuiltinNames { canonical: "ends_with", names: &["заканчивается_на", "ends_with"] },
        BuiltinNames { canonical: "pattern", names: &["шаблон", "pattern"] },
        BuiltinNames { canonical: "matches", names: &["совпадает", "matches"] },
        BuiltinNames { canonical: "find", names: &["найти", "find"] },
        BuiltinNames { canonical: "find_all", names: &["найти_все", "find_all"] },
        BuiltinNames { canonical: "groups", names: &["группы", "groups"] },
        BuiltinNames { canonical: "groups_all", names: &["группы_все", "groups_all"] },
        BuiltinNames { canonical: "exists", names: &["существует", "exists"] },
        BuiltinNames { canonical: "read", names: &["прочитать", "read"] },
        BuiltinNames { canonical: "write", names: &["записать", "write"] },
        BuiltinNames { canonical: "append", names: &["дописать", "append"] },
        BuiltinNames { canonical: "exit", names: &["выход", "exit"] },
        BuiltinNames { canonical: "panic", names: &["паника", "panic"] },
        BuiltinNames { canonical: "platform", names: &["платформа", "platform"] },
        BuiltinNames { canonical: "args", names: &["аргументы", "args"] },
        BuiltinNames { canonical: "time", names: &["время", "time"] },
        BuiltinNames { canonical: "sleep", names: &["сон", "sleep"] },
        BuiltinNames { canonical: "beep", names: &["сигнал", "beep"] },
        BuiltinNames { canonical: "environment", names: &["окружение", "environment"] },
        BuiltinNames { canonical: "clear", names: &["очистить", "clear"] },
        BuiltinNames { canonical: "title", names: &["заголовок", "title"] },
        BuiltinNames { canonical: "hide_cursor", names: &["скрыть_курсор", "hide_cursor"] },
        BuiltinNames { canonical: "show_cursor", names: &["показать_курсор", "show_cursor"] },
        BuiltinNames { canonical: "position", names: &["позиция", "position"] },
        BuiltinNames { canonical: "pause", names: &["пауза", "pause"] },
        BuiltinNames { canonical: "now", names: &["сейчас", "now"] },
        BuiltinNames { canonical: "format", names: &["формат", "format"] },
        BuiltinNames { canonical: "year", names: &["год", "year"] },
        BuiltinNames { canonical: "month", names: &["месяц", "month"] },
        BuiltinNames { canonical: "day", names: &["день", "day"] },
        BuiltinNames { canonical: "hour", names: &["час", "hour"] },
        BuiltinNames { canonical: "minute", names: &["минута", "minute"] },
        BuiltinNames { canonical: "second", names: &["секунда", "second"] },
        BuiltinNames { canonical: "add_seconds", names: &["добавить_секунд", "add_seconds"] },
        BuiltinNames { canonical: "sub_seconds", names: &["вычесть_секунд", "sub_seconds"] },
        BuiltinNames { canonical: "add_minutes", names: &["добавить_минут", "add_minutes"] },
        BuiltinNames { canonical: "sub_minutes", names: &["вычесть_минут", "sub_minutes"] },
        BuiltinNames { canonical: "add_hours", names: &["добавить_часов", "add_hours"] },
        BuiltinNames { canonical: "sub_hours", names: &["вычесть_часов", "sub_hours"] },
        BuiltinNames { canonical: "add_days", names: &["добавить_дней", "add_days"] },
        BuiltinNames { canonical: "sub_days", names: &["вычесть_дней", "sub_days"] },
        BuiltinNames { canonical: "add_months", names: &["добавить_месяцев", "add_months"] },
        BuiltinNames { canonical: "sub_months", names: &["вычесть_месяцев", "sub_months"] },
        BuiltinNames { canonical: "add_years", names: &["добавить_лет", "add_years"] },
        BuiltinNames { canonical: "sub_years", names: &["вычесть_лет", "sub_years"] },
        BuiltinNames { canonical: "create", names: &["создать", "create"] },
        BuiltinNames { canonical: "wait", names: &["ждать", "wait"] },
        BuiltinNames { canonical: "lock", names: &["блокировать", "lock"] },
        BuiltinNames { canonical: "unlock", names: &["разблокировать", "unlock"] },
        BuiltinNames { canonical: "write_lock", names: &["писать_блокировать", "write_lock"] },
        BuiltinNames { canonical: "write_unlock", names: &["писать_разблокировать", "write_unlock"] },
        BuiltinNames { canonical: "read_lock", names: &["читать_блокировать", "read_lock"] },
        BuiltinNames { canonical: "read_unlock", names: &["читать_разблокировать", "read_unlock"] },
    ];
    assert(r@ =~= spec_method_table());
    r
}

/// The built-in macros.
pub open spec fn spec_macro_table() -> Seq<BuiltinNames> {
    seq![
        BuiltinNames { canonical: "format", names: &["format", "формат"] },
    ]
}

/// The built-in macros.
pub fn macro_table() -> (r: Vec<BuiltinNames>)
    ensures
        r@ == spec_macro_table(),
{
    let r: Vec<BuiltinNames> = vec![
        BuiltinNames { canonical: "format", names: &["format", "формат"] },
    ];
    assert(r@ =~= spec_macro_table());
    r
}

/// The names of the built-in types.
pub open spec fn spec_type_table() -> Seq<BuiltinTypeNames> {
    seq![
        BuiltinTypeNames { names: &["число", "number"], spec: BuiltinTypeSpec::Number },
        BuiltinTypeNames { names: &["строка", "string"], spec: BuiltinTypeSpec::Text },
        BuiltinTypeNames { names: &["логический", "bool"], spec: BuiltinTypeSpec::Boolean },
        BuiltinTypeNames { names: &["дробь", "float"], spec: BuiltinTypeSpec::Float },
        BuiltinTypeNames { names: &["указатель", "pointer"], spec: BuiltinTypeSpec::Pointer },
        BuiltinTypeNames { names: &["список", "list"], spec: BuiltinTypeSpec::List },
        BuiltinTypeNames { names: &["массив", "array"], spec: BuiltinTypeSpec::Array },
        BuiltinTypeNames { names: &["словарь", "dict"], spec: BuiltinTypeSpec::Dict },
        BuiltinTypeNames { names: &["пустота", "void"], spec: BuiltinTypeSpec::Unit },
        BuiltinTypeNames { names: &["неизвестно", "any"], spec: BuiltinTypeSpec::Any },
        BuiltinTypeNames { names: &["функция", "function"], spec: BuiltinTypeSpec::Function },
        BuiltinTypeNames { names: &["модуль", "module"], spec: BuiltinTypeSpec::Module },
        BuiltinTypeNames { names: &["ресурс", "resource"], spec: BuiltinTypeSpec::Resource },
        BuiltinTypeNames { names: &["класс", "class"], spec: BuiltinTypeSpec::Class },
    ]
}

/// The names of the built-in types.
pub fn type_table() -> (r: Vec<BuiltinTypeNames>)
    ensures
        r@ == spec_type_table(),
{
    let r: Vec<BuiltinTypeNames> = vec![
        BuiltinTypeNames { names: &["число", "number"], spec: BuiltinTypeSpec::Number },
        BuiltinTypeNames { names: &["строка", "string"], spec: BuiltinTypeSpec::Text },
        BuiltinTypeNames { names: &["логический", "bool"], spec: BuiltinTypeSpec::Boolean },
        BuiltinTypeNames { names: &["дробь", "float"], spec: BuiltinTypeSpec::Float },
        BuiltinTypeNames { names: &["указатель", "pointer"], spec: BuiltinTypeSpec::Pointer },
        BuiltinTypeNames { names: &["список", "list"], spec: BuiltinTypeSpec::List },
        BuiltinTypeNames { names: &["массив", "array"], spec: BuiltinTypeSpec::Array },
        BuiltinTypeNames { names: &["словарь", "dict"], spec: BuiltinTypeSpec::Dict },
        BuiltinTypeNames { names: &["пустота", "void"], spec: BuiltinTypeSpec::Unit },
        BuiltinTypeNames { names: &["неизвестно", "any"], spec: BuiltinTypeSpec::Any },
        BuiltinTypeNames { names: &["функция", "function"], spec: BuiltinTypeSpec::Function },
        BuiltinTypeNames { names: &["модуль", "module"], spec: BuiltinTypeSpec::Module },
        BuiltinTypeNames { names: &["ресурс", "resource"], spec: BuiltinTypeSpec::Resource },
        BuiltinTypeNames { names: &["класс", "class"], spec: BuiltinTypeSpec::Class },
    ];
    assert(r@ =~= spec_type_table());
    r
}

/// The built-in error classes, each with its base class.
pub open spec fn spec_error_class_table() -> Seq<BuiltinErrorClass> {
    seq![
        BuiltinErrorClass { name: "Ошибка", base: None },
        BuiltinErrorClass { name: "ОшибкаПеременной", base: Some("Ошибка") },
        BuiltinErrorClass { name: "ОшибкаФункции", base: Some("Ошибка") },
        BuiltinErrorClass { name: "ОшибкаМетода", base: Some("Ошибка") },
        BuiltinErrorClass { name: "ОшибкаТипа", base: Some("Ошибка") },
        BuiltinErrorClass { name: "ОшибкаДеленияНаНоль", base: Some("Ошибка") },
        BuiltinErrorClass { name: "ОшибкаОперации", base: Some("Ошибка") },
        BuiltinErrorClass { name: "ОшибкаВводаВывода", base: Some("Ошибка") },
        BuiltinErrorClass { name: "ОшибкаИмпорта", base: Some("Ошибка") },
        BuiltinErrorClass { name: "Паника", base: Some("Ошибка") },
    ]
}

/// The built-in error classes, each with its base class.
pub fn error_class_table() -> (r: Vec<BuiltinErrorClass>)
    ensures
        r@ == spec_error_class_table(),
{
    let r: Vec<BuiltinErrorClass> = vec![
        BuiltinErrorClass { name: "Ошибка", base: None },
        BuiltinErrorClass { name: "ОшибкаПеременной", base: Some("Ошибка") },
        BuiltinErrorClass { name: "ОшибкаФункции", base: Some("Ошибка") },
        BuiltinErrorClass { name: "ОшибкаМетода", base: Some("Ошибка") },
        BuiltinErrorClass { name: "ОшибкаТипа", base: Some("Ошибка") },
        BuiltinErrorClass { name: "ОшибкаДеленияНаНоль", base: Some("Ошибка") },
        BuiltinErrorClass { name: "ОшибкаОперации", base: Some("Ошибка") },
        BuiltinErrorClass { name: "ОшибкаВводаВывода", base: Some("Ошибка") },
        BuiltinErrorClass { name: "ОшибкаИмпорта", base: Some("Ошибка") },
        BuiltinErrorClass { name: "Паника", base: Some("Ошибка") },
    ];
    assert(r@ =~= spec_error_class_table());
    r
}

/// The units by which a date and time can be shifted, with their length in milliseconds.
pub open spec fn spec_datetime_unit_table() -> Seq<DateTimeUnit> {
    seq![
        DateTimeUnit { millis: 1000, add: BuiltinNames { canonical: "add_seconds", names: &["добавить_секунд", "add_seconds"] }, subtract: BuiltinNames { canonical: "sub_seconds", names: &["вычесть_секунд", "sub_seconds"] } },
        DateTimeUnit { millis: 60000, add: BuiltinNames { canonical: "add_minutes", names: &["добавить_минут", "add_minutes"] }, subtract: BuiltinNames { canonical: "sub_minutes", names: &["вычесть_минут", "sub_minutes"] } },
        DateTimeUnit { millis: 3600000, add: BuiltinNames { canonical: "add_hours", names: &["добавить_часов", "add_hours"] }, subtract: BuiltinNames { canonical: "sub_hours", names: &["вычесть_часов", "sub_hours"] } },
        DateTimeUnit { millis: 86400000, add: BuiltinNames { canonical: "add_days", names: &["добавить_дней", "add_days"] }, subtract: BuiltinNames { canonical: "sub_days", names: &["вычесть_дней", "sub_days"] } },
        DateTimeUnit { millis: 2592000000, add: BuiltinNames { canonical: "add_months", names: &["добавить_месяцев", "add_months"] }, subtract: BuiltinNames { canonical: "sub_months", names: &["вычесть_месяцев", "sub_months"] } },
        DateTimeUnit { millis: 31536000000, add: BuiltinNames { canonical: "add_years", names: &["добавить_лет", "add_years"] }, subtract: BuiltinNames { canonical: "sub_years", names: &["вычесть_лет", "sub_years"] } },
    ]
}

/// The units by which a date and time can be shifted, with their length in milliseconds.
pub fn datetime_unit_table() -> (r: Vec<DateTimeUnit>)
    ensures
        r@ == spec_datetime_unit_table(),
{
    let r: Vec<DateTimeUnit> = vec![
        DateTimeUnit { millis: 1000, add: BuiltinNames { canonical: "add_seconds", names: &["добавить_секунд", "add_seconds"] }, subtract: BuiltinNames { canonical: "sub_seconds", names: &["вычесть_секунд", "sub_seconds"] } },
        DateTimeUnit { millis: 60000, add: BuiltinNames { canonical: "add_minutes", names: &["добавить_минут", "add_minutes"] }, subtract: BuiltinNames { canonical: "sub_minutes", names: &["вычесть_минут", "sub_minutes"] } },
        DateTimeUnit { millis: 3600000, add: BuiltinNames { canonical: "add_hours", names: &["добавить_часов", "add_hours"] }, subtract: BuiltinNames { canonical: "sub_hours", names: &["вычесть_часов", "sub_hours"] } },
        DateTimeUnit { millis: 86400000, add: BuiltinNames { canonical: "add_days", names: &["добавить_дней", "add_days"] }, subtract: BuiltinNames { canonical: "sub_days", names: &["вычесть_дней", "sub_days"] } },
        DateTimeUnit { millis: 2592000000, add: BuiltinNames { canonical: "add_months", names: &["добавить_месяцев", "add_months"] }, subtract: BuiltinNames { canonical: "sub_months", names: &["вычесть_месяцев", "sub_months"] } },
        DateTimeUnit { millis: 31536000000, add: BuiltinNames { canonical: "add_years", names: &["добавить_лет", "add_years"] }, subtract: BuiltinNames { canonical: "sub_years", names: &["вычесть_лет", "sub_years"] } },
    ];
    assert(r@ =~= spec_datetime_unit_table());
    r
}

/// The names of the first entry whose canonical name is `canonical`, or
/// none.
pub open spec fn find_names(entries: Seq<BuiltinNames>, canonical: Seq<char>) -> Seq<&'static str>
    decreases entries.len(),
{
    if entries.len() == 0 {
        seq![]
    } else if entries[0].canonical@ == canonical {
        entries[0].names@
    } else {
        find_names(entries.subrange(1, entries.len() as int), canonical)
    }
}

/// The names of the built-in in `entries` whose canonical name is
/// `canonical`; none when there is no such entry.
pub fn names_for(entries: &[BuiltinNames], canonical: &str) -> (r: &'static [&'static str])
    ensures
        r@ == find_names(entries@, canonical@),
{
    let mut i: usize = 0;
    assert(entries@.subrange(0, entries@.len() as int) =~= entries@);
    while i < entries.len()
        invariant
            i <= entries@.len(),
            find_names(entries@, canonical@) == find_names(entries@.subrange(i as int, entries@.len() as int), canonical@),
        decreases entries@.len() - i,
    {
        proof {
            let rest = entries@.subrange(i as int, entries@.len() as int);
            assert(rest[0] == entries@[i as int]);
            assert(rest.subrange(1, rest.len() as int) =~= entries@.subrange(i + 1, entries@.len() as int));
        }
        if str_eq(entries[i].canonical, canonical) {
            return entries[i].names;
        }
        i = i + 1;
    }
    let empty: &'static [&'static str] = &[];
    assert(empty@ =~= Seq::<&'static str>::empty());
    empty
}

/// The names part of each class entry.
pub open spec fn class_entries(classes: Seq<BuiltinClass>) -> Seq<BuiltinNames> {
    classes.map_values(|c: BuiltinClass| c.names)
}

fn class_name_entries(classes: &[BuiltinClass]) -> (r: Vec<BuiltinNames>)
    ensures
        r@ == class_entries(classes@),
{
    let mut names: Vec<BuiltinNames> = Vec::new();
    let mut i: usize = 0;
    while i < classes.len()
        invariant
            i <= classes@.len(),
            names@ =~= class_entries(classes@.take(i as int)),
        decreases classes@.len() - i,
    {
        names.push(classes[i].names);
        proof {
            assert(classes@.take(i + 1) =~= classes@.take(i as int).push(classes@[i as int]));
        }
        i = i + 1;
    }
    assert(classes@.take(classes@.len() as int) =~= classes@);
    names
}

/// All names of the entries, in order.
pub open spec fn all_names(entries: Seq<BuiltinNames>) -> Seq<&'static str>
    decreases entries.len(),
{
    if entries.len() == 0 {
        seq![]
    } else {
        all_names(entries.drop_last()) + entries.last().names@
    }
}

fn append_names(out: &mut Vec<&'static str>, entries: &[BuiltinNames])
    ensures
        final(out)@ == old(out)@ + all_names(entries@),
{
    let mut i: usize = 0;
    while i < entries.len()
        invariant
            i <= entries@.len(),
            out@ == old(out)@ + all_names(entries@.take(i as int)),
        decreases entries@.len() - i,
    {
        let entry = &entries[i];
        let ghost before = out@;
        let mut j: usize = 0;
        while j < entry.names.len()
            invariant
                j <= entry.names@.len(),
                out@ == before + entry.names@.take(j as int),
            decreases entry.names@.len() - j,
        {
            out.push(entry.names[j]);
            proof {
                assert(entry.names@.take(j + 1) =~= entry.names@.take(j as int).push(entry.names@[j as int]));
            }
            j = j + 1;
        }
        proof {
            assert(entry.names@.take(entry.names@.len() as int) =~= entry.names@);
            assert(entries@.take(i + 1).drop_last() =~= entries@.take(i as int));
            assert(out@ =~= old(out)@ + all_names(entries@.take(i + 1)));
        }
        i = i + 1;
    }
    assert(entries@.take(entries@.len() as int) =~= entries@);
}

/// Whether every entry answers to its canonical name and to no name twice,
/// and, when `unique_canonical`, no two entries share a canonical name.
pub open spec fn names_valid(entries: Seq<BuiltinNames>, unique_canonical: bool) -> bool {
    &&& forall|i: int| 0 <= i < entries.len() ==> str_views((#[trigger] entries[i]).names@).contains(entries[i].canonical@)
    &&& forall|i: int, a: int, b: int|
        0 <= i < entries.len() && 0 <= a < entries[i].names@.len() && 0 <= b < entries[i].names@.len() && a != b
            ==> (#[trigger] entries[i].names@[a])@ != (#[trigger] entries[i].names@[b])@
    &&& unique_canonical ==> forall|i: int, j: int|
        0 <= i < entries.len() && 0 <= j < entries.len() && i != j ==> (#[trigger] entries[i]).canonical@
            != (#[trigger] entries[j]).canonical@
}

fn contains_name(names: &[&str], name: &str) -> (r: bool)
    ensures
        r == str_views(names@).contains(name@),
{
    let mut i: usize = 0;
    while i < names.len()
        invariant
            i <= names@.len(),
            forall|k: int| 0 <= k < i ==> names@[k]@ != name@,
        decreases names@.len() - i,
    {
        if str_eq(names[i], name) {
            assert(str_views(names@)[i as int] == name@);
            return true;
        }
        i = i + 1;
    }
    proof {
        if str_views(names@).contains(name@) {
            let k = choose|k: int| 0 <= k < str_views(names@).len() && str_views(names@)[k] == name@;
            assert(names@[k]@ == name@);
        }
    }
    false
}

fn names_distinct(names: &[&str]) -> (r: bool)
    ensures
        r == forall|a: int, b: int|
            0 <= a < names@.len() && 0 <= b < names@.len() && a != b ==> (#[trigger] names@[a])@ != (#[trigger] names@[b])@,
{
    let mut a: usize = 0;
    while a < names.len()
        invariant
            a <= names@.len(),
            forall|x: int, y: int|
                0 <= x < a && 0 <= y < names@.len() && x != y ==> (#[trigger] names@[x])@ != (#[trigger] names@[y])@,
        decreases names@.len() - a,
    {
        let mut b: usize = 0;
        while b < names.len()
            invariant
                a < names@.len(),
                b <= names@.len(),
                forall|x: int, y: int|
                    0 <= x < a && 0 <= y < names@.len() && x != y ==> (#[trigger] names@[x])@ != (#[trigger] names@[y])@,
                forall|y: int| 0 <= y < b && a != y ==> names@[a as int]@ != (#[trigger] names@[y])@,
            decreases names@.len() - b,
        {
            if a != b && str_eq(names[a], names[b]) {
                return false;
            }
            b = b + 1;
        }
        a = a + 1;
    }
    true
}

/// Whether every entry answers to its canonical name and to no name twice,
/// and, when `require_unique_canonical`, no two entries share a canonical
/// name.
pub fn validate_names(entries: &[BuiltinNames], require_unique_canonical: bool) -> (r: bool)
    ensures
        r == names_valid(entries@, require_unique_canonical),
{
    let mut i: usize = 0;
    while i < entries.len()
        invariant
            i <= entries@.len(),
            forall|k: int| 0 <= k < i ==> str_views((#[trigger] entries@[k]).names@).contains(entries@[k].canonical@),
            forall|k: int, a: int, b: int|
                0 <= k < i && 0 <= a < entries@[k].names@.len() && 0 <= b < entries@[k].names@.len() && a != b
                    ==> (#[trigger] entries@[k].names@[a])@ != (#[trigger] entries@[k].names@[b])@,
        decreases entries@.len() - i,
    {
        if !contains_name(entries[i].names, entries[i].canonical) {
            return false;
        }
        if !names_distinct(entries[i].names) {
            return false;
        }
        i = i + 1;
    }
    if require_unique_canonical {
        let mut x: usize = 0;
        while x < entries.len()
            invariant
                require_unique_canonical,
                x <= entries@.len(),
                forall|p: int, q: int|
                    0 <= p < x && 0 <= q < entries@.len() && p != q ==> (#[trigger] entries@[p]).canonical@
                        != (#[trigger] entries@[q]).canonical@,
            decreases entries@.len() - x,
        {
            let mut y: usize = 0;
            while y < entries.len()
                invariant
                    require_unique_canonical,
                    x < entries@.len(),
                    y <= entries@.len(),
                    forall|p: int, q: int|
                        0 <= p < x && 0 <= q < entries@.len() && p != q ==> (#[trigger] entries@[p]).canonical@
                            != (#[trigger] entries@[q]).canonical@,
                    forall|q: int| 0 <= q < y && x != q ==> entries@[x as int].canonical@ != (#[trigger] entries@[q]).canonical@,
                decreases entries@.len() - y,
            {
                if x != y && str_eq(entries[x].canonical, entries[y].canonical) {
                    assert(entries@[x as int].canonical@ == entries@[y as int].canonical@);
                    assert(!names_valid(entries@, require_unique_canonical));
                    return false;
                }
                y = y + 1;
            }
            proof {
                assert forall|p: int, q: int|
                    0 <= p < x + 1 && 0 <= q < entries@.len() && p != q implies (#[trigger] entries@[p]).canonical@
                        != (#[trigger] entries@[q]).canonical@ by {
                    if p == x {
                        assert(entries@[x as int].canonical@ != entries@[q].canonical@);
                    }
                }
            }
            x = x + 1;
        }
    }
    true
}

// ---------------------------------------------------------------------------
// Documentation tables
// ---------------------------------------------------------------------------

/// The row of a built-in in a names table.
pub open spec fn names_row(e: BuiltinNames) -> Seq<char> {
    "| `"@ + e.canonical@ + "` | "@ + join(str_views(e.names@), ", "@) + " |\n"@
}

/// The rows of a names table.
pub open spec fn names_rows(entries: Seq<BuiltinNames>) -> Seq<char>
    decreases entries.len(),
{
    if entries.len() == 0 {
        seq![]
    } else {
        names_rows(entries.drop_last()) + names_row(entries.last())
    }
}

/// A names table with its heading.
pub open spec fn names_table(title: Seq<char>, entries: Seq<BuiltinNames>) -> Seq<char> {
    "## "@ + title + "\n\n| Canonical | Aliases |\n|---|---|\n"@ + names_rows(entries) + "\n"@
}

/// Appends the table of `entries` under the heading `title`.
pub fn write_names_table(output: &mut String, title: &str, entries: &[BuiltinNames])
    ensures
        final(output)@ == old(output)@ + names_table(title@, entries@),
{
    output.append("## ");
    output.append(title);
    output.append("\n\n| Canonical | Aliases |\n|---|---|\n");
    let ghost head = output@;
    let mut i: usize = 0;
    while i < entries.len()
        invariant
            i <= entries@.len(),
            output@ == head + names_rows(entries@.take(i as int)),
        decreases entries@.len() - i,
    {
        let ghost before = output@;
        output.append("| `");
        output.append(entries[i].canonical);
        output.append("` | ");
        let joined = join_strs(entries[i].names, ", ");
        output.append(joined.as_str());
        output.append(" |\n");
        proof {
            assert(entries@.take(i + 1).drop_last() =~= entries@.take(i as int));
            assert(output@ =~= before + names_row(entries@[i as int]));
        }
        i = i + 1;
    }
    assert(entries@.take(entries@.len() as int) =~= entries@);
    output.append("\n");
}

/// How a type is written in the types table.
pub open spec fn type_spec_name(t: BuiltinTypeSpec) -> Seq<char> {
    match t {
        BuiltinTypeSpec::Number => "Number"@,
        BuiltinTypeSpec::Text => "Text"@,
        BuiltinTypeSpec::Boolean => "Boolean"@,
        BuiltinTypeSpec::Float => "Float"@,
        BuiltinTypeSpec::Pointer => "Pointer"@,
        BuiltinTypeSpec::List => "List"@,
        BuiltinTypeSpec::Array => "Array"@,
        BuiltinTypeSpec::Dict => "Dict"@,
        BuiltinTypeSpec::Unit => "Unit"@,
        BuiltinTypeSpec::Any => "Any"@,
        BuiltinTypeSpec::Function => "Function"@,
        BuiltinTypeSpec::Object => "Object"@,
        BuiltinTypeSpec::Module => "Module"@,
        BuiltinTypeSpec::Resource => "Resource"@,
        BuiltinTypeSpec::Class => "Class"@,
    }
}

impl BuiltinTypeSpec {
    /// The variant's name, as `Debug` writes it.
    pub fn debug_name(&self) -> (r: &'static str)
        ensures
            r@ == type_spec_name(*self),
    {
        match self {
            BuiltinTypeSpec::Number => "Number",
            BuiltinTypeSpec::Text => "Text",
            BuiltinTypeSpec::Boolean => "Boolean",
            BuiltinTypeSpec::Float => "Float",
            BuiltinTypeSpec::Pointer => "Pointer",
            BuiltinTypeSpec::List => "List",
            BuiltinTypeSpec::Array => "Array",
            BuiltinTypeSpec::Dict => "Dict",
            BuiltinTypeSpec::Unit => "Unit",
            BuiltinTypeSpec::Any => "Any",
            BuiltinTypeSpec::Function => "Function",
            BuiltinTypeSpec::Object => "Object",
            BuiltinTypeSpec::Module => "Module",
            BuiltinTypeSpec::Resource => "Resource",
            BuiltinTypeSpec::Class => "Class",
        }
    }
}

/// The row of a type in the types table.
pub open spec fn type_row(e: BuiltinTypeNames) -> Seq<char> {
    "| "@ + join(str_views(e.names@), ", "@) + " | `"@ + type_spec_name(e.spec) + "` |\n"@
}

/// The rows of the types table.
pub open spec fn type_rows(entries: Seq<BuiltinTypeNames>) -> Seq<char>
    decreases entries.len(),
{
    if entries.len() == 0 {
        seq![]
    } else {
        type_rows(entries.drop_last()) + type_row(entries.last())
    }
}

/// The types table with its heading.
pub open spec fn types_table(entries: Seq<BuiltinTypeNames>) -> Seq<char> {
    "## Types\n\n| Aliases | Type |\n|---|---|\n"@ + type_rows(entries) + "\n"@
}

/// Appends the table of the built-in types.
pub fn write_type_table(output: &mut String, entries: &[BuiltinTypeNames])
    ensures
        final(output)@ == old(output)@ + types_table(entries@),
{
    output.append("## Types\n\n| Aliases | Type |\n|---|---|\n");
    let ghost head = output@;
    let mut i: usize = 0;
    while i < entries.len()
        invariant
            i <= entries@.len(),
            output@ == head + type_rows(entries@.take(i as int)),
        decreases entries@.len() - i,
    {
        let ghost before = output@;
        output.append("| ");
        let joined = join_strs(entries[i].names, ", ");
        output.append(joined.as_str());
        output.append(" | `");
        output.append(entries[i].spec.debug_name());
        output.append("` |\n");
        proof {
            assert(entries@.take(i + 1).drop_last() =~= entries@.take(i as int));
            assert(output@ =~= before + type_row(entries@[i as int]));
        }
        i = i + 1;
    }
    assert(entries@.take(entries@.len() as int) =~= entries@);
    output.append("\n");
}

/// The row of an error class.
pub open spec fn error_row(e: BuiltinErrorClass) -> Seq<char> {
    "| `"@ + e.name@ + "` | "@ + match e.base {
        Some(b) => b@,
        None => "-"@,
    } + " |\n"@
}

/// The rows of the error classes table.
pub open spec fn error_rows(entries: Seq<BuiltinErrorClass>) -> Seq<char>
    decreases entries.len(),
{
    if entries.len() == 0 {
        seq![]
    } else {
        error_rows(entries.drop_last()) + error_row(entries.last())
    }
}

/// The error classes table with its heading.
pub open spec fn error_classes_table(entries: Seq<BuiltinErrorClass>) -> Seq<char> {
    "## Error Classes\n\n| Class | Base |\n|---|---|\n"@ + error_rows(entries) + "\n"@
}

/// Appends the table of the error classes and their bases.
pub fn write_error_class_docs(output: &mut String, entries: &[BuiltinErrorClass])
    ensures
        final(output)@ == old(output)@ + error_classes_table(entries@),
{
    output.append("## Error Classes\n\n| Class | Base |\n|---|---|\n");
    let ghost head = output@;
    let mut i: usize = 0;
    while i < entries.len()
        invariant
            i <= entries@.len(),
            output@ == head + error_rows(entries@.take(i as int)),
        decreases entries@.len() - i,
    {
        let ghost before = output@;
        output.append("| `");
        output.append(entries[i].name);
        output.append("` | ");
        match entries[i].base {
            Some(b) => output.append(b),
            None => output.append("-"),
        }
        output.append(" |\n");
        proof {
            assert(entries@.take(i + 1).drop_last() =~= entries@.take(i as int));
            assert(output@ =~= before + error_row(entries@[i as int]));
        }
        i = i + 1;
    }
    assert(entries@.take(entries@.len() as int) =~= entries@);
    output.append("\n");
}

// ---------------------------------------------------------------------------
// The registry
// ---------------------------------------------------------------------------

/// The registry of the built-ins.
pub struct BuiltinRegistry {
    functions: Vec<BuiltinNames>,
    classes: Vec<BuiltinClass>,
    methods: Vec<BuiltinNames>,
    macros: Vec<BuiltinNames>,
    types: Vec<BuiltinTypeNames>,
    error_classes: Vec<BuiltinErrorClass>,
}

impl BuiltinRegistry {
    /// The registry holds the built-in tables.
    #[verifier::type_invariant]
    spec fn holds_tables(&self) -> bool {
        &&& self.functions@ == spec_function_table()
        &&& self.classes@ == spec_class_table()
        &&& self.methods@ == spec_method_table()
        &&& self.macros@ == spec_macro_table()
        &&& self.types@ == spec_type_table()
        &&& self.error_classes@ == spec_error_class_table()
    }

    /// The entries of the registry, table by table: functions, classes,
    /// methods, macros, types and error classes.
    pub closed spec fn entries(&self) -> (
        Seq<BuiltinNames>,
        Seq<BuiltinClass>,
        Seq<BuiltinNames>,
        Seq<BuiltinNames>,
        Seq<BuiltinTypeNames>,
        Seq<BuiltinErrorClass>,
    ) {
        (self.functions@, self.classes@, self.methods@, self.macros@, self.types@, self.error_classes@)
    }

    /// The registry of every built-in.
    pub fn builtins() -> (r: BuiltinRegistry)
        ensures
            r.entries() == (
                spec_function_table(),
                spec_class_table(),
                spec_method_table(),
                spec_macro_table(),
                spec_type_table(),
                spec_error_class_table(),
            ),
    {
        BuiltinRegistry {
            functions: function_table(),
            classes: class_table(),
            methods: method_table(),
            macros: macro_table(),
            types: type_table(),
            error_classes: error_class_table(),
        }
    }

    /// The built-in functions.
    pub fn functions(&self) -> (r: &[BuiltinNames])
        ensures
            r@ == spec_function_table(),
    {
        proof {
            use_type_invariant(self);
        }
        self.functions.as_slice()
    }

    /// The built-in classes.
    pub fn classes(&self) -> (r: &[BuiltinClass])
        ensures
            r@ == spec_class_table(),
    {
        proof {
            use_type_invariant(self);
        }
        self.classes.as_slice()
    }

    /// The methods of the built-in classes.
    pub fn methods(&self) -> (r: &[BuiltinNames])
        ensures
            r@ == spec_method_table(),
    {
        proof {
            use_type_invariant(self);
        }
        self.methods.as_slice()
    }

    /// The built-in macros.
    pub fn macros(&self) -> (r: &[BuiltinNames])
        ensures
            r@ == spec_macro_table(),
    {
        proof {
            use_type_invariant(self);
        }
        self.macros.as_slice()
    }

    /// The names of the built-in types.
    pub fn types(&self) -> (r: &[BuiltinTypeNames])
        ensures
            r@ == spec_type_table(),
    {
        proof {
            use_type_invariant(self);
        }
        self.types.as_slice()
    }

    /// The built-in error classes.
    pub fn error_classes(&self) -> (r: &[BuiltinErrorClass])
        ensures
            r@ == spec_error_class_table(),
    {
        proof {
            use_type_invariant(self);
        }
        self.error_classes.as_slice()
    }

    /// The names of a built-in function.
    pub fn function_names(&self, canonical: &str) -> (r: &'static [&'static str])
        ensures
            r@ == find_names(spec_function_table(), canonical@),
    {
        names_for(self.functions(), canonical)
    }

    /// The names of a built-in method.
    pub fn method_names(&self, canonical: &str) -> (r: &'static [&'static str])
        ensures
            r@ == find_names(spec_method_table(), canonical@),
    {
        names_for(self.methods(), canonical)
    }

    /// The names of a built-in macro.
    pub fn macro_names(&self, canonical: &str) -> (r: &'static [&'static str])
        ensures
            r@ == find_names(spec_macro_table(), canonical@),
    {
        names_for(self.macros(), canonical)
    }

    /// The names of a built-in class.
    pub fn class_names(&self, canonical: &str) -> (r: &'static [&'static str])
        ensures
            r@ == find_names(class_entries(spec_class_table()), canonical@),
    {
        let entries = class_name_entries(self.classes());
        names_for(entries.as_slice(), canonical)
    }

    /// Every name that a built-in function or class answers to.
    pub fn known_global_names(&self) -> (r: Vec<&'static str>)
        ensures
            r@ == all_names(spec_function_table()) + all_names(class_entries(spec_class_table())),
    {
        let mut out: Vec<&'static str> = Vec::new();
        append_names(&mut out, self.functions());
        let entries = class_name_entries(self.classes());
        append_names(&mut out, entries.as_slice());
        out
    }
}

} // verus!
