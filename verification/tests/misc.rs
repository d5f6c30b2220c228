use goida::ast::{ErrorData, PrimitiveType, Span};
use goida::ffi::GoidaFfiTag;
use goida::parser::rules::{translate_rule, Rule};
use goida::parser::utils::{
    extract_last_token, format_expected, get_line_col_from_char_offset, next_char_boundary, previous_char_boundary,
    token_range_at,
};
use goida::shared::{AnyValue, SharedMut};

#[test]
fn primitive_type_names() {
    assert_eq!(PrimitiveType::Number.to_string(), "число");
    assert_eq!(PrimitiveType::Float.to_string(), "дробь");
    assert_eq!(PrimitiveType::Text.to_string(), "строка");
    assert_eq!(PrimitiveType::Boolean.to_string(), "логическое");
}

#[test]
fn error_data_keeps_location_and_message() {
    let data = ErrorData::new(Span::new(1, 4, 7), "oops".to_string());
    assert_eq!((data.location.start, data.location.end, data.location.file_id), (1, 4, 7));
    assert_eq!(data.message, "oops");
}

#[test]
fn ffi_tags_round_trip() {
    for tag in [GoidaFfiTag::Empty, GoidaFfiTag::Number, GoidaFfiTag::Float, GoidaFfiTag::Boolean, GoidaFfiTag::Boxed] {
        assert_eq!(GoidaFfiTag::from_code(tag.code()), Some(tag));
    }
    assert_eq!(GoidaFfiTag::Boxed.code(), 4);
    assert_eq!(GoidaFfiTag::from_code(5), None);
}

#[test]
fn rules_are_described_in_russian() {
    assert_eq!(translate_rule(&Rule::EOI), "конец файла");
    assert_eq!(translate_rule(&Rule::if_stmt), "условие 'если'");
    assert_eq!(translate_rule(&Rule::named_type), "название типа");
    assert_eq!(translate_rule(&Rule::WHITESPACE), "WHITESPACE");
}

#[test]
fn last_token_ranges() {
    assert_eq!(extract_last_token("", 3), (0, 0));
    assert_eq!(extract_last_token("x = foo", 7), (4, 7));
    assert_eq!(extract_last_token("a == b", 3), (2, 4));
}

#[test]
fn shared_values_are_read_and_written_through_every_handle() {
    let shared = SharedMut::new(1, AnyValue);
    let other = shared.clone();
    other.write(|v| *v += 41);
    assert_eq!(shared.read(|v| *v), 42);
    assert!(shared.ptr_eq(&other));
    assert!(!shared.ptr_eq(&SharedMut::new(42, AnyValue)));
}

#[test]
fn character_boundaries_and_token_ranges() {
    let code = "aбc";
    assert_eq!(previous_char_boundary(code, 2), 1);
    assert_eq!(next_char_boundary(code, 2), 3);
    assert_eq!(previous_char_boundary(code, 99), 4);
    assert_eq!(token_range_at(code, 2), (1, 3));
    assert_eq!(token_range_at("ab", 1), (1, 2));
    assert_eq!(token_range_at("ab", 5), (2, 2));
    assert_eq!(token_range_at("", 0), (0, 0));
}

#[test]
fn expected_tokens_are_listed() {
    assert_eq!(format_expected("Неожиданный конец файла", &vec![]), "Неожиданный конец файла");
    assert_eq!(
        format_expected("Лишний токен", &vec!["\"(\"".to_string(), "\";\"".to_string()]),
        "Лишний токен; ожидалось: \"(\", \";\""
    );
}

#[test]
fn lines_and_columns_count_from_zero() {
    assert_eq!(get_line_col_from_char_offset("a\nbc", 3), (1, 1));
    assert_eq!(get_line_col_from_char_offset("a\nbc", 0), (0, 0));
    assert_eq!(get_line_col_from_char_offset("a\nbc", 99), (1, 2));
}
