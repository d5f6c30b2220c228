use goida::builtins::catalog::{
    class_names, classes, datetime_units, function_names, functions, known_global_names, macro_names, method_names,
    methods, names_for, types, BuiltinNames, BuiltinTypeSpec,
};
use goida::builtins::registry::BuiltinNames as Names;
use goida::builtins::registry::{
    validate_names, write_error_class_docs, write_names_table, write_type_table, BuiltinErrorClass, BuiltinRegistry,
    BuiltinTypeNames,
};

#[test]
fn catalog_names_of_builtins() {
    assert_eq!(function_names("print"), &["печать", "print"]);
    assert_eq!(function_names("regex"), &["регулярное_выражение", "regex"]);
    assert_eq!(method_names("длина"), &["длина", "length"]);
    assert_eq!(macro_names("format"), &["format", "формат"]);
    assert_eq!(class_names("DateTime"), &["ДатаВремя", "DateTime"]);
    assert!(function_names("печать").is_empty());
    assert!(class_names("nothing").is_empty());
    assert_eq!(functions().len(), 16);
    assert_eq!(classes().len(), 13);
    assert_eq!(methods().len(), 76);
    assert_eq!(types().len(), 14);
    assert!(matches!(types()[4].spec, BuiltinTypeSpec::Pointer));
    let units = datetime_units();
    assert_eq!(units.len(), 6);
    assert_eq!(units[0].millis, 1_000);
    assert_eq!(units[5].millis, 31_536_000_000);
    assert_eq!(units[3].add.canonical, "add_days");
}

#[test]
fn names_for_takes_the_first_entry() {
    let entries = [
        BuiltinNames { canonical: "a", names: &["x"] },
        BuiltinNames { canonical: "a", names: &["y"] },
    ];
    assert_eq!(names_for(&entries, "a"), &["x"]);
    assert!(names_for(&entries, "b").is_empty());
}

#[test]
fn known_globals_are_function_then_class_names() {
    let names = known_global_names();
    assert_eq!(names.len(), 2 * 16 + 2 * 13);
    assert_eq!(names[0], "печать");
    assert_eq!(names[1], "print");
    assert_eq!(names[32], "Строка");
    assert_eq!(*names.last().unwrap(), "RwLock");
}

fn check(kind: &str, entries: &[goida::builtins::registry::BuiltinNames], require_unique_canonical: bool) {
    assert!(validate_names(entries, require_unique_canonical), "{kind} names are not valid");
}

#[test]
fn registry_names_are_unique_and_include_canonical_names() {
    let registry = BuiltinRegistry::builtins();
    check("function", registry.functions(), true);
    check("macro", registry.macros(), true);
    check("method", registry.methods(), false);
    let classes: Vec<goida::builtins::registry::BuiltinNames> = registry.classes().iter().map(|c| c.names).collect();
    check("class", &classes, true);
}

#[test]
fn validation_rejects_missing_canonical_and_duplicates() {
    assert!(!validate_names(&[Names { canonical: "a", names: &["b"] }], false));
    assert!(!validate_names(&[Names { canonical: "a", names: &["a", "a"] }], false));
    let twice = [Names { canonical: "a", names: &["a"] }, Names { canonical: "a", names: &["a"] }];
    assert!(validate_names(&twice, false));
    assert!(!validate_names(&twice, true));
}

#[test]
fn registry_lookups() {
    let registry = BuiltinRegistry::builtins();
    assert_eq!(registry.function_names("print"), &["печать", "print"]);
    assert_eq!(registry.method_names("length"), &["длина", "length"]);
    assert_eq!(registry.method_names("wait"), &["ждать", "wait"]);
    assert_eq!(registry.macro_names("format"), &["format", "формат"]);
    assert_eq!(registry.class_names("RwLock"), &["БлокировкаЧтенияЗаписи", "RwLock"]);
    assert_eq!(registry.known_global_names().len(), 58);
    assert_eq!(registry.error_classes().len(), 10);
    assert_eq!(registry.error_classes()[1].base, Some("Ошибка"));
    assert_eq!(registry.types().len(), 14);
}

#[test]
fn documentation_tables() {
    let mut out = String::new();
    write_names_table(
        &mut out,
        "Functions",
        &[goida::builtins::registry::BuiltinNames { canonical: "print", names: &["печать", "print"] }],
    );
    assert_eq!(out, "## Functions\n\n| Canonical | Aliases |\n|---|---|\n| `print` | печать, print |\n\n");
    let mut out = String::new();
    write_type_table(&mut out, &[BuiltinTypeNames { names: &["число", "number"], spec: goida::builtins::registry::BuiltinTypeSpec::Number }]);
    assert_eq!(out, "## Types\n\n| Aliases | Type |\n|---|---|\n| число, number | `Number` |\n\n");
    let mut out = String::new();
    write_error_class_docs(
        &mut out,
        &[BuiltinErrorClass { name: "Ошибка", base: None }, BuiltinErrorClass { name: "Паника", base: Some("Ошибка") }],
    );
    assert_eq!(out, "## Error Classes\n\n| Class | Base |\n|---|---|\n| `Ошибка` | - |\n| `Паника` | Ошибка |\n\n");
}
