use goida::builtins::catalog::datetime_units;
use goida::builtins::datetime::{
    component_at, datetime_component, initial_millis, shift_by_unit, shift_method, DateParts,
};
use goida::builtins::regex::CompiledRegex;
use goida::builtins::text::{
    text_contains, text_ends_with, text_length, text_lower, text_replace, text_split, text_starts_with, text_trim,
    text_upper,
};

#[test]
fn text_length_counts_characters() {
    assert_eq!(text_length("привет"), 6);
    assert_eq!(text_length(""), 0);
}

#[test]
fn text_split_matches_str_split() {
    assert_eq!(text_split("a,b,,c", ","), vec!["a", "b", "", "c"]);
    assert_eq!(text_split("abc", ""), vec!["", "a", "b", "c", ""]);
    assert_eq!(text_split("", ","), vec![""]);
    assert_eq!(text_split("a--b--", "--"), vec!["a", "b", ""]);
    assert_eq!(text_split("aaa", "aa"), vec!["", "a"]);
}

#[test]
fn text_search_and_affixes() {
    assert!(text_contains("гойда", "ойд"));
    assert!(!text_contains("гойда", "да!"));
    assert!(text_contains("x", ""));
    assert!(text_starts_with("гойда", "гой"));
    assert!(!text_starts_with("го", "гой"));
    assert!(text_ends_with("гойда", "да"));
    assert!(!text_ends_with("гойда", "ой"));
}

#[test]
fn text_replace_matches_str_replace() {
    assert_eq!(text_replace("a-b-c", "-", "+"), "a+b+c");
    assert_eq!(text_replace("abc", "", "x"), "xaxbxcx");
    assert_eq!(text_replace("aaaa", "aa", "b"), "bb");
}

#[test]
fn text_trim_and_case() {
    assert_eq!(text_trim("  да \n"), "да");
    assert_eq!(text_upper("Гойда"), "ГОЙДА");
    assert_eq!(text_lower("ГОЙДА"), "гойда");
}

#[test]
fn shifting_by_units() {
    let units = datetime_units();
    let days = &units[3];
    assert_eq!(shift_by_unit(0, days, 2, true), Some(172_800_000));
    assert_eq!(shift_by_unit(1000, &units[0], 1, false), Some(0));
    assert_eq!(shift_by_unit(i64::MAX, &units[0], 1, true), None);
    assert_eq!(shift_by_unit(0, &units[5], i64::MAX, true), None);
}

#[test]
fn shift_methods_by_name() {
    assert_eq!(shift_method("добавить_дней"), Some((86_400_000, true)));
    assert_eq!(shift_method("sub_hours"), Some((3_600_000, false)));
    assert_eq!(shift_method("год"), None);
}

#[test]
fn date_components_by_name() {
    let p = DateParts { year: 2024, month: 5, day: 17, hour: 8, minute: 30, second: 9 };
    assert_eq!(datetime_component("год", &p), 2024);
    assert_eq!(datetime_component("секунда", &p), 9);
    assert_eq!(datetime_component("year", &p), 0);
    let (parts, v) = component_at("месяц", 0).unwrap();
    assert_eq!(v, parts.month);
    assert!((1..=12).contains(&v));
    assert_eq!(initial_millis(Some(42)), 42);
}

#[test]
fn regex_methods() {
    let re = CompiledRegex::compile(r"(\d+)-(\d+)?").unwrap();
    assert_eq!(re.pattern(), r"(\d+)-(\d+)?");
    assert!(re.matches("a 12-3"));
    assert!(!re.matches("abc"));
    assert_eq!(re.find("x 1-2 y 3-"), Some("1-2".to_string()));
    assert_eq!(re.find_all("x 1-2 y 3-"), vec!["1-2", "3-"]);
    assert_eq!(
        re.groups("y 3-"),
        Some(vec![Some("3-".to_string()), Some("3".to_string()), None])
    );
    assert_eq!(re.groups_all("1-2 3-").len(), 2);
    assert_eq!(re.replace("1-2 3-4", "[$1]"), "[1] 3-4");
    assert_eq!(re.replace_all("1-2 3-4", "#"), "# #");
    let comma = CompiledRegex::compile(r"\s*,\s*").unwrap();
    assert_eq!(comma.split("a , b,c"), vec!["a", "b", "c"]);
}

#[test]
fn bad_regex_is_reported() {
    match CompiledRegex::compile("(") {
        Err(m) => assert!(m.starts_with("Некорректное регулярное выражение '(': ")),
        Ok(_) => panic!("expected an error"),
    }
}
