use goida::parser::lexer::{
    insert_separators, lex, mark_lambda_starts, mark_method_dots, mark_type_equals, LexicalError, SpannedToken, Token,
};
use goida::parser::scanner::scan;

fn tokens(items: &[SpannedToken]) -> Vec<Token> {
    items
        .iter()
        .map(|item| match item {
            Ok((_, t, _)) => t.clone(),
            Err(e) => panic!("unexpected error {e:?}"),
        })
        .collect()
}

fn ident(s: &str) -> Token {
    Token::Ident(s.to_string())
}

#[test]
fn keywords_win_only_over_words_of_the_same_length() {
    assert_eq!(tokens(&scan("если иначе изо из_json _x")), vec![Token::KwIf, Token::KwElse, ident("изо"), ident("из_json"), ident("_x")]);
    assert_eq!(tokens(&scan("истина ложь пустота")), vec![Token::True, Token::False, Token::Empty]);
}

#[test]
fn numbers_floats_and_strings() {
    assert_eq!(
        tokens(&scan("12 3.50 7. \"a\\n\\\"b\\\\\\q\"")),
        vec![
            Token::Number(12),
            Token::Float("3.50".to_string()),
            Token::Number(7),
            Token::Dot,
            Token::String("a\n\"b\\\\q".to_string()),
        ]
    );
}

#[test]
fn operators_take_two_characters_when_they_can() {
    assert_eq!(
        tokens(&scan("=> -> == != <= >= += -= *= /= %= = < > + - * / % ! . , : ( ) { } [ ] ;")),
        vec![
            Token::FatArrow,
            Token::Arrow,
            Token::EqEq,
            Token::NotEq,
            Token::Le,
            Token::Ge,
            Token::PlusEq,
            Token::MinusEq,
            Token::StarEq,
            Token::SlashEq,
            Token::PercentEq,
            Token::Eq,
            Token::Lt,
            Token::Gt,
            Token::Plus,
            Token::Minus,
            Token::Star,
            Token::Slash,
            Token::Percent,
            Token::Bang,
            Token::Dot,
            Token::Comma,
            Token::Colon,
            Token::LParen,
            Token::RParen,
            Token::LBrace,
            Token::RBrace,
            Token::LBracket,
            Token::RBracket,
            Token::Semi,
        ]
    );
}

#[test]
fn comments_blanks_and_newlines() {
    let raw = scan("a // note\n\n\tb\r\nc");
    assert_eq!(tokens(&raw), vec![ident("a"), Token::Newline, ident("b"), Token::Newline, ident("c")]);
    // Byte ranges: the newline run after the comment spans both line feeds.
    assert!(matches!(raw[1], Ok((9, Token::Newline, 11))));
    assert!(matches!(raw[3], Ok((13, Token::Newline, 15))));
}

#[test]
fn spans_are_byte_offsets() {
    let raw = scan("имя = 1");
    assert!(matches!(raw[0], Ok((0, Token::Ident(_), 6))));
    assert!(matches!(raw[1], Ok((7, Token::Eq, 8))));
    assert!(matches!(raw[2], Ok((9, Token::Number(1), 10))));
}

#[test]
fn unexpected_characters_and_huge_numbers_are_errors() {
    let raw = scan("a # 99999999999999999999");
    assert_eq!(raw.len(), 3);
    match &raw[1] {
        Err(LexicalError { start, end, message }) => {
            assert_eq!((*start, *end), (2, 3));
            assert_eq!(message, "Неожиданный токен '#'");
        },
        other => panic!("unexpected {other:?}"),
    }
    match &raw[2] {
        Err(LexicalError { start, end, message }) => {
            assert_eq!((*start, *end), (4, 24));
            assert_eq!(message, "Неожиданный токен '99999999999999999999'");
        },
        other => panic!("unexpected {other:?}"),
    }
    assert!(matches!(scan("9223372036854775807")[0], Ok((0, Token::Number(i64::MAX), 19))));
    assert!(scan("\"open")[0].is_err());
}

#[test]
fn line_ends_become_separators_where_a_statement_can_end() {
    let source = "x = 1\ny = 2\n";
    assert_eq!(
        tokens(&lex(source)),
        vec![ident("x"), Token::Eq, Token::Number(1), Token::Semi, ident("y"), Token::Eq, Token::Number(2), Token::Semi, Token::Eof]
    );
    // A line that continues with an operator is one statement.
    assert_eq!(
        tokens(&lex("a\n+ b")),
        vec![ident("a"), Token::Plus, ident("b"), Token::Semi, Token::Eof]
    );
    // `}` closes the statement before it; `else` after `}` continues it.
    assert_eq!(
        tokens(&lex("если (a) { b }\nиначе { c }")),
        vec![
            Token::KwIf,
            Token::LParen,
            ident("a"),
            Token::RParen,
            Token::LBrace,
            ident("b"),
            Token::Semi,
            Token::RBrace,
            Token::KwElse,
            Token::LBrace,
            ident("c"),
            Token::Semi,
            Token::RBrace,
            Token::Semi,
            Token::Eof,
        ]
    );
    // Repeated separators collapse.
    assert_eq!(tokens(&lex("a;;\n;b")), vec![ident("a"), Token::Semi, ident("b"), Token::Semi, Token::Eof]);
}

#[test]
fn lambdas_method_calls_and_type_hints_are_marked() {
    let raw = scan("f = (x) => x");
    let marked = mark_lambda_starts(raw);
    assert_eq!(tokens(&marked)[2], Token::LambdaLParen);
    let raw = scan("obj.run(1)\nновый a.B(2)");
    let marked = mark_method_dots(raw);
    let ts = tokens(&marked);
    assert_eq!(ts[1], Token::MethodDot);
    assert_eq!(ts[9], Token::Dot);
    let raw = scan("v: число = 1\nw = 2");
    let marked = mark_type_equals(raw);
    let ts = tokens(&marked);
    assert_eq!(ts[3], Token::TypeEq);
    assert_eq!(ts[7], Token::Eq);
}

#[test]
fn separators_end_with_eof_at_the_source_length() {
    let out = insert_separators(&vec![], 5);
    assert_eq!(out.len(), 1);
    assert!(matches!(out[0], Ok((5, Token::Eof, 5))));
}
