//! The catalog of built-in names: each built-in function, class, method and
//! macro under its canonical name with all the names it answers to, the
//! names of the built-in types, and the units of date arithmetic.
use vstd::prelude::*;
use crate::text::str_eq;

verus! {

/// A built-in under its canonical name, with every name it answers to.
#[derive(Clone, Copy)]
pub struct BuiltinNames {
    pub canonical: &'static str,
    pub names: &'static [&'static str],
}

/// The runtime type that a built-in type name stands for.
#[derive(Clone, Copy, Debug, PartialEq, Eq, Structural)]
pub enum BuiltinTypeSpec {
    Number,
    Text,
    Boolean,
    Float,
    Pointer,
    List,
    Array,
    Dict,
    Unit,
    Any,
    Function,
    Object,
    Module,
    Resource,
    Class,
}

/// The names of a built-in type.
#[derive(Clone, Copy)]
pub struct BuiltinTypeNames {
    pub names: &'static [&'static str],
    pub spec: BuiltinTypeSpec,
}

/// A unit of date arithmetic: its length and the methods that add or
/// subtract it.
#[derive(Clone, Copy)]
pub struct DateTimeUnit {
    pub millis: i64,
    pub add: BuiltinNames,
    pub subtract: BuiltinNames,
}

/// A built-in class and the type its values have.
#[derive(Clone, Copy)]
pub struct BuiltinClass {
    pub names: BuiltinNames,
    pub type_spec: BuiltinTypeSpec,
}

/// The built-in functions.
pub open spec fn spec_functions() -> Seq<BuiltinNames> {
    seq![
        BuiltinNames { canonical: "print", names: &["печать", "print"] },
        BuiltinNames { canonical: "input", names: &["ввод", "input"] },
        BuiltinNames { canonical: "type", names: &["тип", "type"] },
        BuiltinNames { canonical: "is", names: &["является", "is"] },
        BuiltinNames { canonical: "number", names: &["число", "number"] },
        BuiltinNames { canonical: "string", names: &["строка", "string"] },
        BuiltinNames { canonical: "bool", names: &["логический", "bool"] },
        BuiltinNames { canonical: "float", names: &["дробь", "float"] },
        BuiltinNames { canonical: "list", names: &["список", "list"] },
        BuiltinNames { canonical: "array", names: &["массив", "array"] },
        BuiltinNames { canonical: "dict", names: &["словарь", "dict"] },
        BuiltinNames { canonical: "iterator", names: &["итератор", "iterator"] },
        BuiltinNames { canonical: "from_json", names: &["из_json", "from_json"] },
        BuiltinNames { canonical: "to_json", names: &["в_json", "to_json"] },
        BuiltinNames { canonical: "string_from_pointer", names: &["строка_из_указателя", "string_from_pointer"] },
        BuiltinNames { canonical: "regex", names: &["регулярное_выражение", "regex"] },
    ]
}

/// The built-in functions.
pub fn functions() -> (r: Vec<BuiltinNames>)
    ensures
        r@ == spec_functions(),
{
    let r: Vec<BuiltinNames> = vec![
        BuiltinNames { canonical: "print", names: &["печать", "print"] },
        BuiltinNames { canonical: "input", names: &["ввод", "input"] },
        BuiltinNames { canonical: "type", names: &["тип", "type"] },
        BuiltinNames { canonical: "is", names: &["является", "is"] },
        BuiltinNames { canonical: "number", names: &["число", "number"] },
        BuiltinNames { canonical: "string", names: &["строка", "string"] },
        BuiltinNames { canonical: "bool", names: &["логический", "bool"] },
        BuiltinNames { canonical: "float", names: &["дробь", "float"] },
        BuiltinNames { canonical: "list", names: &["список", "list"] },
        BuiltinNames { canonical: "array", names: &["массив", "array"] },
        BuiltinNames { canonical: "dict", names: &["словарь", "dict"] },
        BuiltinNames { canonical: "iterator", names: &["итератор", "iterator"] },
        BuiltinNames { canonical: "from_json", names: &["из_json", "from_json"] },
        BuiltinNames { canonical: "to_json", names: &["в_json", "to_json"] },
        BuiltinNames { canonical: "string_from_pointer", names: &["строка_из_указателя", "string_from_pointer"] },
        BuiltinNames { canonical: "regex", names: &["регулярное_выражение", "regex"] },
    ];
    assert(r@ =~= spec_functions());
    r
}

/// The built-in classes.
pub open spec fn spec_classes() -> Seq<BuiltinClass> {
    seq![
        BuiltinClass { names: BuiltinNames { canonical: "String", names: &["Строка", "String"] }, type_spec: BuiltinTypeSpec::Text },
        BuiltinClass { names: BuiltinNames { canonical: "List", names: &["Список", "List"] }, type_spec: BuiltinTypeSpec::List },
        BuiltinClass { names: BuiltinNames { canonical: "Array", names: &["Массив", "Array"] }, type_spec: BuiltinTypeSpec::Array },
        BuiltinClass { names: BuiltinNames { canonical: "Dict", names: &["Словарь", "Dict"] }, type_spec: BuiltinTypeSpec::Dict },
        BuiltinClass { names: BuiltinNames { canonical: "Iterator", names: &["Итератор", "Iterator"] }, type_spec: BuiltinTypeSpec::Object },
        BuiltinClass { names: BuiltinNames { canonical: "File", names: &["Файл", "File"] }, type_spec: BuiltinTypeSpec::Object },
        BuiltinClass { names: BuiltinNames { canonical: "System", names: &["Система", "System"] }, type_spec: BuiltinTypeSpec::Object },
        BuiltinClass { names: BuiltinNames { canonical: "Terminal", names: &["Терминал", "Terminal"] }, type_spec: BuiltinTypeSpec::Object },
        BuiltinClass { names: BuiltinNames { canonical: "DateTime", names: &["ДатаВремя", "DateTime"] }, type_spec: BuiltinTypeSpec::Object },
        BuiltinClass { names: BuiltinNames { canonical: "Regex", names: &["РегулярноеВыражение", "Regex"] }, type_spec: BuiltinTypeSpec::Object },
        BuiltinClass { names: BuiltinNames { canonical: "Thread", names: &["Поток", "Thread"] }, type_spec: BuiltinTypeSpec::Object },
        BuiltinClass { names: BuiltinNames { canonical: "Mutex", names: &["Мьютекс", "Mutex"] }, type_spec: BuiltinTypeSpec::Object },
        BuiltinClass { names: BuiltinNames { canonical: "RwLock", names: &["БлокировкаЧтенияЗаписи", "RwLock"] }, type_spec: BuiltinTypeSpec::Object },
    ]
}

/// The built-in classes.
pub fn classes() -> (r: Vec<BuiltinClass>)
    ensures
        r@ == spec_classes(),
{
    let r: Vec<BuiltinClass> = vec![
        BuiltinClass { names: BuiltinNames { canonical: "String", names: &["Строка", "String"] }, type_spec: BuiltinTypeSpec::Text },
        BuiltinClass { names: BuiltinNames { canonical: "List", names: &["Список", "List"] }, type_spec: BuiltinTypeSpec::List },
        BuiltinClass { names: BuiltinNames { canonical: "Array", names: &["Массив", "Array"] }, type_spec: BuiltinTypeSpec::Array },
        BuiltinClass { names: BuiltinNames { canonical: "Dict", names: &["Словарь", "Dict"] }, type_spec: BuiltinTypeSpec::Dict },
        BuiltinClass { names: BuiltinNames { canonical: "Iterator", names: &["Итератор", "Iterator"] }, type_spec: BuiltinTypeSpec::Object },
        BuiltinClass { names: BuiltinNames { canonical: "File", names: &["Файл", "File"] }, type_spec: BuiltinTypeSpec::Object },
        BuiltinClass { names: BuiltinNames { canonical: "System", names: &["Система", "System"] }, type_spec: BuiltinTypeSpec::Object },
        BuiltinClass { names: BuiltinNames { canonical: "Terminal", names: &["Терминал", "Terminal"] }, type_spec: BuiltinTypeSpec::Object },
        BuiltinClass { names: BuiltinNames { canonical: "DateTime", names: &["ДатаВремя", "DateTime"] }, type_spec: BuiltinTypeSpec::Object },
        BuiltinClass { names: BuiltinNames { canonical: "Regex", names: &["РегулярноеВыражение", "Regex"] }, type_spec: BuiltinTypeSpec::Object },
        BuiltinClass { names: BuiltinNames { canonical: "Thread", names: &["Поток", "Thread"] }, type_spec: BuiltinTypeSpec::Object },
        BuiltinClass { names: BuiltinNames { canonical: "Mutex", names: &["Мьютекс", "Mutex"] }, type_spec: BuiltinTypeSpec::Object },
        BuiltinClass { names: BuiltinNames { canonical: "RwLock", names: &["БлокировкаЧтенияЗаписи", "RwLock"] }, type_spec: BuiltinTypeSpec::Object },
    ];
    assert(r@ =~= spec_classes());
    r
}

/// The methods of the built-in classes.
pub open spec fn spec_methods() -> Seq<BuiltinNames> {
    seq![
        BuiltinNames { canonical: "длина", names: &["длина", "length"] },
        BuiltinNames { canonical: "join", names: &["объединить", "join"] },
        BuiltinNames { canonical: "get", names: &["получить", "get"] },
        BuiltinNames { canonical: "iterator", names: &["итератор", "iterator"] },
        BuiltinNames { canonical: "push", names: &["добавить", "push"] },
        BuiltinNames { canonical: "set", names: &["задать", "set"] },
        BuiltinNames { canonical: "delete", names: &["удалить", "delete"] },
        BuiltinNames { canonical: "clear", names: &["очистить", "clear"] },
        BuiltinNames { canonical: "has", names: &["имеет", "has"] },
        BuiltinNames { canonical: "keys", names: &["ключи", "keys"] },
        BuiltinNames { canonical: "values", names: &["значения", "values"] },
        BuiltinNames { canonical: "map", names: &["преобразовать", "map"] },
        BuiltinNames { canonical: "filter", names: &["отфильтровать", "filter"] },
        BuiltinNames { canonical: "reduce", names: &["свернуть", "reduce"] },
        BuiltinNames { canonical: "список", names: &["список", "list"] },
        BuiltinNames { canonical: "split", names: &["разделить", "split"] },
        BuiltinNames { canonical: "upper", names: &["верхний", "upper"] },
        BuiltinNames { canonical: "lower", names: &["нижний", "lower"] },
        BuiltinNames { canonical: "contains", names: &["содержит", "contains"] },
        BuiltinNames { canonical: "replace", names: &["заменить", "replace"] },
        BuiltinNames { canonical: "replace_all", names: &["заменить_все", "replace_all"] },
        BuiltinNames { canonical: "trim", names: &["обрезать", "trim"] },
        BuiltinNames { canonical: "starts_with", names: &["начинается_с", "starts_with"] },
        BuiltinNames { canonical: "ends_with", names: &["заканчивается_на", "ends_with"] },
        BuiltinNames { canonical: "pattern", names: &["шаблон", "pattern"] },
        BuiltinNames { canonical: "matches", names: &["совпадает", "matches"] },
        BuiltinNames { canonical: "find", names: &["найти", "find"] },
        BuiltinNames { canonical: "find_all", names: &["найти_все", "find_all"] },
        BuiltinNames { canonical: "groups", names: &["группы", "groups"] },
        BuiltinNames { canonical: "groups_all", names: &["группы_все", "groups_all"] },
        BuiltinNames { canonical: "exists", names: &["существует", "exists"] },
        BuiltinNames { canonical: "read", names: &["прочитать", "read"] },
        BuiltinNames { canonical: "write", names: &["записать", "write"] },
        BuiltinNames { canonical: "append", names: &["дописать", "append"] },
        BuiltinNames { canonical: "exit", names: &["выход", "exit"] },
        BuiltinNames { canonical: "panic", names: &["паника", "panic"] },
        BuiltinNames { canonical: "platform", names: &["платформа", "platform"] },
        BuiltinNames { canonical: "args", names: &["аргументы", "args"] },
        BuiltinNames { canonical: "time", names: &["время", "time"] },
        BuiltinNames { canonical: "sleep", names: &["сон", "sleep"] },
        BuiltinNames { canonical: "beep", names: &["сигнал", "beep"] },
        BuiltinNames { canonical: "environment", names: &["окружение", "environment"] },
        BuiltinNames { canonical: "clear", names: &["очистить", "clear"] },
        BuiltinNames { canonical: "title", names: &["заголовок", "title"] },
        BuiltinNames { canonical: "hide_cursor", names: &["скрыть_курсор", "hide_cursor"] },
        BuiltinNames { canonical: "show_cursor", names: &["показать_курсор", "show_cursor"] },
        BuiltinNames { canonical: "position", names: &["позиция", "position"] },
        BuiltinNames { canonical: "pause", names: &["пауза", "pause"] },
        BuiltinNames { canonical: "now", names: &["сейчас", "now"] },
        BuiltinNames { canonical: "format", names: &["формат", "format"] },
        BuiltinNames { canonical: "year", names: &["год", "year"] },
        BuiltinNames { canonical: "month", names: &["месяц", "month"] },
        BuiltinNames { canonical: "day", names: &["день", "day"] },
        BuiltinNames { canonical: "hour", names: &["час", "hour"] },
        BuiltinNames { canonical: "minute", names: &["минута", "minute"] },
        BuiltinNames { canonical: "second", names: &["секунда", "second"] },
        BuiltinNames { canonical: "add_seconds", names: &["добавить_секунд", "add_seconds"] },
        BuiltinNames { canonical: "sub_seconds", names: &["вычесть_секунд", "sub_seconds"] },
        BuiltinNames { canonical: "add_minutes", names: &["добавить_минут", "add_minutes"] },
        BuiltinNames { canonical: "sub_minutes", names: &["вычесть_минут", "sub_minutes"] },
        BuiltinNames { canonical: "add_hours", names: &["добавить_часов", "add_hours"] },
        BuiltinNames { canonical: "sub_hours", names: &["вычесть_часов", "sub_hours"] },
        BuiltinNames { canonical: "add_days", names: &["добавить_дней", "add_days"] },
        BuiltinNames { canonical: "sub_days", names: &["вычесть_дней", "sub_days"] },
        BuiltinNames { canonical: "add_months", names: &["добавить_месяцев", "add_months"] },
        BuiltinNames { canonical: "sub_months", names: &["вычесть_месяцев", "sub_months"] },
        BuiltinNames { canonical: "add_years", names: &["добавить_лет", "add_years"] },
        BuiltinNames { canonical: "sub_years", names: &["вычесть_лет", "sub_years"] },
        BuiltinNames { canonical: "create", names: &["создать", "create"] },
        BuiltinNames { canonical: "wait", names: &["ждать", "wait"] },
        BuiltinNames { canonical: "lock", names: &["блокировать", "lock"] },
        BuiltinNames { canonical: "unlock", names: &["разблокировать", "unlock"] },
        BuiltinNames { canonical: "write_lock", names: &["писать_блокировать", "write_lock"] },
        BuiltinNames { canonical: "write_unlock", names: &["писать_разблокировать", "write_unlock"] },
        BuiltinNames { canonical: "read_lock", names: &["читать_блокировать", "read_lock"] },
        BuiltinNames { canonical: "read_unlock", names: &["читать_разблокировать", "read_unlock"] },
    ]
}

/// The methods of the built-in classes.
pub fn methods() -> (r: Vec<BuiltinNames>)
    ensures
        r@ == spec_methods(),
{
    let r: Vec<BuiltinNames> = vec![
        BuiltinNames { canonical: "длина", names: &["длина", "length"] },
        BuiltinNames { canonical: "join", names: &["объединить", "join"] },
        BuiltinNames { canonical: "get", names: &["получить", "get"] },
        BuiltinNames { canonical: "iterator", names: &["итератор", "iterator"] },
        BuiltinNames { canonical: "push", names: &["добавить", "push"] },
        BuiltinNames { canonical: "set", names: &["задать", "set"] },
        BuiltinNames { canonical: "delete", names: &["удалить", "delete"] },
        BuiltinNames { canonical: "clear", names: &["очистить", "clear"] },
        BuiltinNames { canonical: "has", names: &["имеет", "has"] },
        BuiltinNames { canonical: "keys", names: &["ключи", "keys"] },
        BuiltinNames { canonical: "values", names: &["значения", "values"] },
        BuiltinNames { canonical: "map", names: &["преобразовать", "map"] },
        BuiltinNames { canonical: "filter", names: &["отфильтровать", "filter"] },
        BuiltinNames { canonical: "reduce", names: &["свернуть", "reduce"] },
        BuiltinNames { canonical: "список", names: &["список", "list"] },
        BuiltinNames { canonical: "split", names: &["разделить", "split"] },
        BuiltinNames { canonical: "upper", names: &["верхний", "upper"] },
        BuiltinNames { canonical: "lower", names: &["нижний", "lower"] },
        BuiltinNames { canonical: "contains", names: &["содержит", "contains"] },
        BuiltinNames { canonical: "replace", names: &["заменить", "replace"] },
        BuiltinNames { canonical: "replace_all", names: &["заменить_все", "replace_all"] },
        BuiltinNames { canonical: "trim", names: &["обрезать", "trim"] },
        BuiltinNames { canonical: "starts_with", names: &["начинается_с", "starts_with"] },
        BuiltinNames { canonical: "ends_with", names: &["заканчивается_на", "ends_with"] },
        BuiltinNames { canonical: "pattern", names: &["шаблон", "pattern"] },
        BuiltinNames { canonical: "matches", names: &["совпадает", "matches"] },
        BuiltinNames { canonical: "find", names: &["найти", "find"] },
        BuiltinNames { canonical: "find_all", names: &["найти_все", "find_all"] },
        BuiltinNames { canonical: "groups", names: &["группы", "groups"] },
        BuiltinNames { canonical: "groups_all", names: &["группы_все", "groups_all"] },
        BuiltinNames { canonical: "exists", names: &["существует", "exists"] },
        BuiltinNames { canonical: "read", names: &["прочитать", "read"] },
        BuiltinNames { canonical: "write", names: &["записать", "write"] },
        BuiltinNames { canonical: "append", names: &["дописать", "append"] },
        BuiltinNames { canonical: "exit", names: &["выход", "exit"] },
        BuiltinNames { canonical: "panic", names: &["паника", "panic"] },
        BuiltinNames { canonical: "platform", names: &["платформа", "platform"] },
        BuiltinNames { canonical: "args", names: &["аргументы", "args"] },
        BuiltinNames { canonical: "time", names: &["время", "time"] },
        BuiltinNames { canonical: "sleep", names: &["сон", "sleep"] },
        BuiltinNames { canonical: "beep", names: &["сигнал", "beep"] },
        BuiltinNames { canonical: "environment", names: &["окружение", "environment"] },
        BuiltinNames { canonical: "clear", names: &["очистить", "clear"] },
        BuiltinNames { canonical: "title", names: &["заголовок", "title"] },
        BuiltinNames { canonical: "hide_cursor", names: &["скрыть_курсор", "hide_cursor"] },
        BuiltinNames { canonical: "show_cursor", names: &["показать_курсор", "show_cursor"] },
        BuiltinNames { canonical: "position", names: &["позиция", "position"] },
        BuiltinNames { canonical: "pause", names: &["пауза", "pause"] },
        BuiltinNames { canonical: "now", names: &["сейчас", "now"] },
        BuiltinNames { canonical: "format", names: &["формат", "format"] },
        BuiltinNames { canonical: "year", names: &["год", "year"] },
        BuiltinNames { canonical: "month", names: &["месяц", "month"] },
        BuiltinNames { canonical: "day", names: &["день", "day"] },
        BuiltinNames { canonical: "hour", names: &["час", "hour"] },
        BuiltinNames { canonical: "minute", names: &["минута", "minute"] },
        BuiltinNames { canonical: "second", names: &["секунда", "second"] },
        BuiltinNames { canonical: "add_seconds", names: &["добавить_секунд", "add_seconds"] },
        BuiltinNames { canonical: "sub_seconds", names: &["вычесть_секунд", "sub_seconds"] },
        BuiltinNames { canonical: "add_minutes", names: &["добавить_минут", "add_minutes"] },
        BuiltinNames { canonical: "sub_minutes", names: &["вычесть_минут", "sub_minutes"] },
        BuiltinNames { canonical: "add_hours", names: &["добавить_часов", "add_hours"] },
        BuiltinNames { canonical: "sub_hours", names: &["вычесть_часов", "sub_hours"] },
        BuiltinNames { canonical: "add_days", names: &["добавить_дней", "add_days"] },
        BuiltinNames { canonical: "sub_days", names: &["вычесть_дней", "sub_days"] },
        BuiltinNames { canonical: "add_months", names: &["добавить_месяцев", "add_months"] },
        BuiltinNames { canonical: "sub_months", names: &["вычесть_месяцев", "sub_months"] },
        BuiltinNames { canonical: "add_years", names: &["добавить_лет", "add_years"] },
        BuiltinNames { canonical: "sub_years", names: &["вычесть_лет", "sub_years"] },
        BuiltinNames { canonical: "create", names: &["создать", "create"] },
        BuiltinNames { canonical: "wait", names: &["ждать", "wait"] },
        BuiltinNames { canonical: "lock", names: &["блокировать", "lock"] },
        BuiltinNames { canonical: "unlock", names: &["разблокировать", "unlock"] },
        BuiltinNames { canonical: "write_lock", names: &["писать_блокировать", "write_lock"] },
        BuiltinNames { canonical: "write_unlock", names: &["писать_разблокировать", "write_unlock"] },
        BuiltinNames { canonical: "read_lock", names: &["читать_блокировать", "read_lock"] },
        BuiltinNames { canonical: "read_unlock", names: &["читать_разблокировать", "read_unlock"] },
    ];
    assert(r@ =~= spec_methods());
    r
}

/// The units by which a date and time can be shifted, with their length in milliseconds.
pub open spec fn spec_datetime_units() -> Seq<DateTimeUnit> {
    seq![
        DateTimeUnit { millis: 1000, add: BuiltinNames { canonical: "add_seconds", names: &["добавить_секунд", "add_seconds"] }, subtract: BuiltinNames { canonical: "sub_seconds", names: &["вычесть_секунд", "sub_seconds"] } },
        DateTimeUnit { millis: 60000, add: BuiltinNames { canonical: "add_minutes", names: &["добавить_минут", "add_minutes"] }, subtract: BuiltinNames { canonical: "sub_minutes", names: &["вычесть_минут", "sub_minutes"] } },
        DateTimeUnit { millis: 3600000, add: BuiltinNames { canonical: "add_hours", names: &["добавить_часов", "add_hours"] }, subtract: BuiltinNames { canonical: "sub_hours", names: &["вычесть_часов", "sub_hours"] } },
        DateTimeUnit { millis: 86400000, add: BuiltinNames { canonical: "add_days", names: &["добавить_дней", "add_days"] }, subtract: BuiltinNames { canonical: "sub_days", names: &["вычесть_дней", "sub_days"] } },
        DateTimeUnit { millis: 2592000000, add: BuiltinNames { canonical: "add_months", names: &["добавить_месяцев", "add_months"] }, subtract: BuiltinNames { canonical: "sub_months", names: &["вычесть_месяцев", "sub_months"] } },
        DateTimeUnit { millis: 31536000000, add: BuiltinNames { canonical: "add_years", names: &["добавить_лет", "add_years"] }, subtract: BuiltinNames { canonical: "sub_years", names: &["вычесть_лет", "sub_years"] } },
    ]
}

/// The units by which a date and time can be shifted, with their length in milliseconds.
pub fn datetime_units() -> (r: Vec<DateTimeUnit>)
    ensures
        r@ == spec_datetime_units(),
{
    let r: Vec<DateTimeUnit> = vec![
        DateTimeUnit { millis: 1000, add: BuiltinNames { canonical: "add_seconds", names: &["добавить_секунд", "add_seconds"] }, subtract: BuiltinNames { canonical: "sub_seconds", names: &["вычесть_секунд", "sub_seconds"] } },
        DateTimeUnit { millis: 60000, add: BuiltinNames { canonical: "add_minutes", names: &["добавить_минут", "add_minutes"] }, subtract: BuiltinNames { canonical: "sub_minutes", names: &["вычесть_минут", "sub_minutes"] } },
        DateTimeUnit { millis: 3600000, add: BuiltinNames { canonical: "add_hours", names: &["добавить_часов", "add_hours"] }, subtract: BuiltinNames { canonical: "sub_hours", names: &["вычесть_часов", "sub_hours"] } },
        DateTimeUnit { millis: 86400000, add: BuiltinNames { canonical: "add_days", names: &["добавить_дней", "add_days"] }, subtract: BuiltinNames { canonical: "sub_days", names: &["вычесть_дней", "sub_days"] } },
        DateTimeUnit { millis: 2592000000, add: BuiltinNames { canonical: "add_months", names: &["добавить_месяцев", "add_months"] }, subtract: BuiltinNames { canonical: "sub_months", names: &["вычесть_месяцев", "sub_months"] } },
        DateTimeUnit { millis: 31536000000, add: BuiltinNames { canonical: "add_years", names: &["добавить_лет", "add_years"] }, subtract: BuiltinNames { canonical: "sub_years", names: &["вычесть_лет", "sub_years"] } },
    ];
    assert(r@ =~= spec_datetime_units());
    r
}

/// The built-in macros.
pub open spec fn spec_macros() -> Seq<BuiltinNames> {
    seq![
        BuiltinNames { canonical: "format", names: &["format", "формат"] },
    ]
}

/// The built-in macros.
pub fn macros() -> (r: Vec<BuiltinNames>)
    ensures
        r@ == spec_macros(),
{
    let r: Vec<BuiltinNames> = vec![
        BuiltinNames { canonical: "format", names: &["format", "формат"] },
    ];
    assert(r@ =~= spec_macros());
    r
}

/// The names of the built-in types.
pub open spec fn spec_types() -> Seq<BuiltinTypeNames> {
    seq![
        BuiltinTypeNames { names: &["число", "number"], spec: BuiltinTypeSpec::Number },
        BuiltinTypeNames { names: &["строка", "string"], spec: BuiltinTypeSpec::Text },
        BuiltinTypeNames { names: &["логический", "bool"], spec: BuiltinTypeSpec::Boolean },
        BuiltinTypeNames { names: &["дробь", "float"], spec: BuiltinTypeSpec::Float },
        BuiltinTypeNames { names: &["указатель", "pointer"], spec: BuiltinTypeSpec::Pointer },
        BuiltinTypeNames { names: &["список", "list"], spec: BuiltinTypeSpec::List },
        BuiltinTypeNames { names: &["массив", "array"], spec: BuiltinTypeSpec::Array },
        BuiltinTypeNames { names: &["словарь", "dict"], spec: BuiltinTypeSpec::Dict },
        BuiltinTypeNames { names: &["пустота", "void"], spec: BuiltinTypeSpec::Unit },
        BuiltinTypeNames { names: &["неизвестно", "any"], spec: BuiltinTypeSpec::Any },
        BuiltinTypeNames { names: &["функция", "function"], spec: BuiltinTypeSpec::Function },
        BuiltinTypeNames { names: &["модуль", "module"], spec: BuiltinTypeSpec::Module },
        BuiltinTypeNames { names: &["ресурс", "resource"], spec: BuiltinTypeSpec::Resource },
        BuiltinTypeNames { names: &["класс", "class"], spec: BuiltinTypeSpec::Class },
    ]
}

/// The names of the built-in types.
pub fn types() -> (r: Vec<BuiltinTypeNames>)
    ensures
        r@ == spec_types(),
{
    let r: Vec<BuiltinTypeNames> = vec![
        BuiltinTypeNames { names: &["число", "number"], spec: BuiltinTypeSpec::Number },
        BuiltinTypeNames { names: &["строка", "string"], spec: BuiltinTypeSpec::Text },
        BuiltinTypeNames { names: &["логический", "bool"], spec: BuiltinTypeSpec::Boolean },
        BuiltinTypeNames { names: &["дробь", "float"], spec: BuiltinTypeSpec::Float },
        BuiltinTypeNames { names: &["указатель", "pointer"], spec: BuiltinTypeSpec::Pointer },
        BuiltinTypeNames { names: &["список", "list"], spec: BuiltinTypeSpec::List },
        BuiltinTypeNames { names: &["массив", "array"], spec: BuiltinTypeSpec::Array },
        BuiltinTypeNames { names: &["словарь", "dict"], spec: BuiltinTypeSpec::Dict },
        BuiltinTypeNames { names: &["пустота", "void"], spec: BuiltinTypeSpec::Unit },
        BuiltinTypeNames { names: &["неизвестно", "any"], spec: BuiltinTypeSpec::Any },
        BuiltinTypeNames { names: &["функция", "function"], spec: BuiltinTypeSpec::Function },
        BuiltinTypeNames { names: &["модуль", "module"], spec: BuiltinTypeSpec::Module },
        BuiltinTypeNames { names: &["ресурс", "resource"], spec: BuiltinTypeSpec::Resource },
        BuiltinTypeNames { names: &["класс", "class"], spec: BuiltinTypeSpec::Class },
    ];
    assert(r@ =~= spec_types());
    r
}

/// The names of the first entry whose canonical name is `canonical`, or
/// none.
pub open spec fn find_names(entries: Seq<BuiltinNames>, canonical: Seq<char>) -> Seq<&'static str>
    decreases entries.len(),
{
    if entries.len() == 0 {
        seq![]
    } else if entries[0].canonical@ == canonical {
        entries[0].names@
    } else {
        find_names(entries.subrange(1, entries.len() as int), canonical)
    }
}

/// The names of the built-in in `entries` whose canonical name is
/// `canonical`; none when there is no such entry.
pub fn names_for(entries: &[BuiltinNames], canonical: &str) -> (r: &'static [&'static str])
    ensures
        r@ == find_names(entries@, canonical@),
{
    let mut i: usize = 0;
    assert(entries@.subrange(0, entries@.len() as int) =~= entries@);
    while i < entries.len()
        invariant
            i <= entries@.len(),
            find_names(entries@, canonical@) == find_names(entries@.subrange(i as int, entries@.len() as int), canonical@),
        decreases entries@.len() - i,
    {
        proof {
            let rest = entries@.subrange(i as int, entries@.len() as int);
            assert(rest[0] == entries@[i as int]);
            assert(rest.subrange(1, rest.len() as int) =~= entries@.subrange(i + 1, entries@.len() as int));
        }
        if str_eq(entries[i].canonical, canonical) {
            return entries[i].names;
        }
        i = i + 1;
    }
    let empty: &'static [&'static str] = &[];
    assert(empty@ =~= Seq::<&'static str>::empty());
    empty
}

/// The names of a built-in function.
pub fn function_names(canonical: &str) -> (r: &'static [&'static str])
    ensures
        r@ == find_names(spec_functions(), canonical@),
{
    let table = functions();
    names_for(table.as_slice(), canonical)
}

/// The names of a built-in method.
pub fn method_names(canonical: &str) -> (r: &'static [&'static str])
    ensures
        r@ == find_names(spec_methods(), canonical@),
{
    let table = methods();
    names_for(table.as_slice(), canonical)
}

/// The names of a built-in macro.
pub fn macro_names(canonical: &str) -> (r: &'static [&'static str])
    ensures
        r@ == find_names(spec_macros(), canonical@),
{
    let table = macros();
    names_for(table.as_slice(), canonical)
}

/// The names of a built-in class.
pub fn class_names(canonical: &str) -> (r: &'static [&'static str])
    ensures
        r@ == find_names(spec_classes().map_values(|c: BuiltinClass| c.names), canonical@),
{
    let table = classes();
    let mut names: Vec<BuiltinNames> = Vec::new();
    let mut i: usize = 0;
    while i < table.len()
        invariant
            i <= table@.len(),
            table@ == spec_classes(),
            names@ =~= table@.take(i as int).map_values(|c: BuiltinClass| c.names),
        decreases table@.len() - i,
    {
        names.push(table[i].names);
        proof {
            assert(table@.take(i + 1) =~= table@.take(i as int).push(table@[i as int]));
        }
        i = i + 1;
    }
    assert(table@.take(table@.len() as int) =~= table@);
    names_for(names.as_slice(), canonical)
}

/// All names of the entries, in order.
pub open spec fn all_names(entries: Seq<BuiltinNames>) -> Seq<&'static str>
    decreases entries.len(),
{
    if entries.len() == 0 {
        seq![]
    } else {
        all_names(entries.drop_last()) + entries.last().names@
    }
}

fn append_names(out: &mut Vec<&'static str>, entry: &BuiltinNames)
    ensures
        final(out)@ == old(out)@ + entry.names@,
{
    let mut j: usize = 0;
    while j < entry.names.len()
        invariant
            j <= entry.names@.len(),
            out@ == old(out)@ + entry.names@.take(j as int),
        decreases entry.names@.len() - j,
    {
        out.push(entry.names[j]);
        proof {
            assert(entry.names@.take(j + 1) =~= entry.names@.take(j as int).push(entry.names@[j as int]));
        }
        j = j + 1;
    }
    assert(entry.names@.take(entry.names@.len() as int) =~= entry.names@);
}

/// Every name that a built-in function or class answers to.
pub fn known_global_names() -> (r: Vec<&'static str>)
    ensures
        r@ == all_names(spec_functions()) + all_names(spec_classes().map_values(|c: BuiltinClass| c.names)),
{
    let functions = functions();
    let classes = classes();
    let mut out: Vec<&'static str> = Vec::new();
    let mut i: usize = 0;
    while i < functions.len()
        invariant
            i <= functions@.len(),
            out@ == all_names(functions@.take(i as int)),
        decreases functions@.len() - i,
    {
        proof {
            assert(functions@.take(i + 1).drop_last() =~= functions@.take(i as int));
        }
        append_names(&mut out, &functions[i]);
        i = i + 1;
    }
    assert(functions@.take(functions@.len() as int) =~= functions@);
    let ghost head = out@;
    let ghost class_entries = classes@.map_values(|c: BuiltinClass| c.names);
    let mut k: usize = 0;
    while k < classes.len()
        invariant
            k <= classes@.len(),
            class_entries == classes@.map_values(|c: BuiltinClass| c.names),
            out@ == head + all_names(class_entries.take(k as int)),
        decreases classes@.len() - k,
    {
        proof {
            assert(class_entries.take(k + 1).drop_last() =~= class_entries.take(k as int));
            assert(class_entries.take(k + 1).last() == classes@[k as int].names);
        }
        append_names(&mut out, &classes[k].names);
        proof {
            assert(out@ =~= head + all_names(class_entries.take(k + 1)));
        }
        k = k + 1;
    }
    assert(class_entries.take(class_entries.len() as int) =~= class_entries);
    out
}

} // verus!
