use goida::formatter::format_source;

#[test]
fn formats_brace_indentation_and_collapses_blank_lines() {
    let source = "function main(){\nprint(\"{\")\n\n\nif (true) {\nprint(1)\n}\n}\n";
    assert_eq!(
        format_source(source),
        "function main(){\n    print(\"{\")\n\n    if (true) {\n        print(1)\n    }\n}\n"
    );
}

#[test]
fn keeps_else_body_indented_after_close_open_line() {
    let source = "function factorial(n: number) -> number {\nif (n <= 1) {\nreturn 1\n} else {\nreturn n * factorial(n - 1)\n}\n}\n";
    assert_eq!(
        format_source(source),
        "function factorial(n: number) -> number {\n    if (n <= 1) {\n        return 1\n    } else {\n        return n * factorial(n - 1)\n    }\n}\n"
    );
}

#[test]
fn formatting_twice_changes_nothing() {
    let source = "\n\n  a {\r\n\tb // {\n\n\n c \"}\" }\n   \n}\n}\n";
    let once = format_source(source);
    assert_eq!(format_source(&once), once);
}

#[test]
fn leading_blank_lines_are_dropped_and_comment_braces_ignored() {
    assert_eq!(format_source("\n\n x { // }\ny\n}"), "x { // }\n    y\n}\n");
    assert_eq!(format_source(""), "");
    assert_eq!(format_source("}}}\n"), "}}}\n");
}

#[test]
fn escaped_quote_keeps_string_open() {
    assert_eq!(format_source("s = \"\\\"{\"\nt\n"), "s = \"\\\"{\"\nt\n");
}
