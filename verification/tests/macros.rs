use goida::parser::lexer::Token;
use goida::parser::macro_expander::{
    delimiters_balanced, expansion_stream, match_sequence, merge_repeated, normalized_call_args, same_token,
    tokens_match_at, Capture, Captures, FragmentVerdicts, MacroExpander,
};
use goida::parser::structs::ParseError;
use goida::parser::syntax::{
    MacroCall, MacroDefinition, MacroDelimiter, MacroFragmentKind, MacroMatcher, MacroRepeatOp, MacroRule,
    MacroTemplate, MacroToken,
};

fn tok(token: Token) -> MacroToken {
    MacroToken { token, start: 0, end: 0 }
}

fn id(name: &str) -> MacroToken {
    tok(Token::Ident(name.to_string()))
}

fn call(name: &str, args: Vec<MacroToken>, delimiter: MacroDelimiter) -> MacroCall {
    MacroCall { name: name.to_string(), args, delimiter, start: 10, end: 20 }
}

fn frag(name: &str, kind: MacroFragmentKind) -> MacroMatcher {
    MacroMatcher::Fragment { name: name.to_string(), kind }
}

fn var(name: &str) -> MacroTemplate {
    MacroTemplate::Variable(name.to_string())
}

fn no_verdicts() -> FragmentVerdicts {
    FragmentVerdicts { expr: vec![], stmt: vec![] }
}

/// Verdicts that accept exactly the listed ranges as expressions.
fn exprs(n: usize, ranges: &[(usize, usize)]) -> FragmentVerdicts {
    let mut expr = vec![vec![false; n + 1]; n + 1];
    for (s, e) in ranges {
        expr[*s][*e] = true;
    }
    FragmentVerdicts { expr, stmt: vec![] }
}

fn tokens_of(r: Result<Vec<MacroToken>, ParseError>) -> Vec<Token> {
    r.expect("expansion").into_iter().map(|t| t.token).collect()
}

fn error_message(r: Result<Vec<MacroToken>, ParseError>) -> (usize, usize, String) {
    match r {
        Err(ParseError::InvalidSyntax(data)) => (data.location.start, data.location.end, data.message),
        other => panic!("expected a syntax error, got {other:?}"),
    }
}

fn twice() -> MacroDefinition {
    MacroDefinition {
        name: "twice".to_string(),
        rules: vec![MacroRule {
            matcher: vec![frag("x", MacroFragmentKind::Expr)],
            template: vec![var("x"), MacroTemplate::Token(tok(Token::Plus)), var("x")],
        }],
    }
}

#[test]
fn expression_fragment_is_substituted_twice() {
    let mut expander = MacroExpander::new();
    expander.define(twice());
    // twice!(input + 1)
    let c = call("twice", vec![id("input"), tok(Token::Plus), tok(Token::Number(1))], MacroDelimiter::Paren);
    let verdicts = exprs(3, &[(0, 1), (0, 3), (2, 3)]);
    assert_eq!(
        tokens_of(expander.expand_call(&c, &verdicts)),
        vec![
            Token::Ident("input".to_string()),
            Token::Plus,
            Token::Number(1),
            Token::Plus,
            Token::Ident("input".to_string()),
            Token::Plus,
            Token::Number(1),
        ]
    );
}

#[test]
fn first_rule_that_consumes_every_token_wins() {
    let mut expander = MacroExpander::new();
    expander.define(MacroDefinition {
        name: "pick".to_string(),
        rules: vec![
            MacroRule { matcher: vec![], template: vec![MacroTemplate::Token(tok(Token::String("empty".to_string())))] },
            MacroRule {
                matcher: vec![frag("v", MacroFragmentKind::Ident)],
                template: vec![MacroTemplate::Token(tok(Token::String("filled".to_string())))],
            },
            MacroRule { matcher: vec![frag("w", MacroFragmentKind::Ident)], template: vec![] },
        ],
    });
    let empty = call("pick", vec![], MacroDelimiter::Paren);
    let filled = call("pick", vec![id("a")], MacroDelimiter::Paren);
    assert_eq!(tokens_of(expander.expand_call(&empty, &no_verdicts())), vec![Token::String("empty".to_string())]);
    assert_eq!(tokens_of(expander.expand_call(&filled, &no_verdicts())), vec![Token::String("filled".to_string())]);
}

fn list_macro() -> MacroDefinition {
    // ($($x:ident),*) => { list($($x),*) }
    MacroDefinition {
        name: "list".to_string(),
        rules: vec![MacroRule {
            matcher: vec![MacroMatcher::Repeat {
                matcher: vec![frag("x", MacroFragmentKind::Ident)],
                separator: vec![tok(Token::Comma)],
                op: MacroRepeatOp::ZeroOrMore,
            }],
            template: vec![
                MacroTemplate::Token(id("list")),
                MacroTemplate::Delimited {
                    delimiter: MacroDelimiter::Paren,
                    template: vec![MacroTemplate::Repeat {
                        template: vec![var("x")],
                        separator: vec![tok(Token::Comma)],
                        op: MacroRepeatOp::ZeroOrMore,
                    }],
                    start: 5,
                    end: 9,
                },
            ],
        }],
    }
}

#[test]
fn repetition_with_zero_one_and_many_items() {
    let mut expander = MacroExpander::new();
    expander.define(list_macro());
    let none = call("list", vec![], MacroDelimiter::Paren);
    let one = call("list", vec![id("a")], MacroDelimiter::Paren);
    let many = call("list", vec![id("a"), tok(Token::Comma), id("b"), tok(Token::Comma), id("c")], MacroDelimiter::Paren);
    let ident = |s: &str| Token::Ident(s.to_string());
    assert_eq!(tokens_of(expander.expand_call(&none, &no_verdicts())), vec![ident("list"), Token::LParen, Token::RParen]);
    assert_eq!(
        tokens_of(expander.expand_call(&one, &no_verdicts())),
        vec![ident("list"), Token::LParen, ident("a"), Token::RParen]
    );
    let expanded = expander.expand_call(&many, &no_verdicts()).unwrap();
    let kinds: Vec<Token> = expanded.iter().map(|t| t.token.clone()).collect();
    assert_eq!(
        kinds,
        vec![ident("list"), Token::LParen, ident("a"), Token::Comma, ident("b"), Token::Comma, ident("c"), Token::RParen]
    );
    // The delimiters take their byte ranges from the template.
    assert_eq!((expanded[1].start, expanded[1].end), (5, 6));
    assert_eq!((expanded[7].start, expanded[7].end), (8, 9));
}

#[test]
fn one_or_more_needs_at_least_one_round() {
    let mut expander = MacroExpander::new();
    expander.define(MacroDefinition {
        name: "sum".to_string(),
        rules: vec![MacroRule {
            matcher: vec![MacroMatcher::Repeat {
                matcher: vec![frag("x", MacroFragmentKind::Ident)],
                separator: vec![],
                op: MacroRepeatOp::OneOrMore,
            }],
            template: vec![MacroTemplate::Repeat {
                template: vec![var("x")],
                separator: vec![tok(Token::Plus)],
                op: MacroRepeatOp::OneOrMore,
            }],
        }],
    });
    let three = call("sum", vec![id("a"), id("b"), id("c")], MacroDelimiter::Paren);
    let ident = |s: &str| Token::Ident(s.to_string());
    assert_eq!(
        tokens_of(expander.expand_call(&three, &no_verdicts())),
        vec![ident("a"), Token::Plus, ident("b"), Token::Plus, ident("c")]
    );
    let none = call("sum", vec![], MacroDelimiter::Paren);
    let (start, end, message) = error_message(expander.expand_call(&none, &no_verdicts()));
    assert_eq!((start, end), (10, 20));
    assert_eq!(message, "Аргументы не подходят ни под одно правило макроса 'sum'");
}

#[test]
fn block_fragments_need_balanced_braces() {
    let mut expander = MacroExpander::new();
    expander.define(MacroDefinition {
        name: "run".to_string(),
        rules: vec![MacroRule { matcher: vec![frag("b", MacroFragmentKind::Block)], template: vec![var("b")] }],
    });
    let ok = call("run", vec![tok(Token::LBrace), id("x"), tok(Token::RBrace)], MacroDelimiter::Paren);
    assert_eq!(
        tokens_of(expander.expand_call(&ok, &no_verdicts())),
        vec![Token::LBrace, Token::Ident("x".to_string()), Token::RBrace]
    );
    let bad = call("run", vec![tok(Token::LBrace), tok(Token::RParen), tok(Token::RBrace)], MacroDelimiter::Paren);
    assert!(expander.expand_call(&bad, &no_verdicts()).is_err());
}

#[test]
fn unknown_macro_is_reported_at_the_call() {
    let expander = MacroExpander::new();
    let c = call("missing", vec![], MacroDelimiter::Paren);
    assert_eq!(error_message(expander.expand_call(&c, &no_verdicts())), (10, 20, "Макрос 'missing' не найден".to_string()));
}

#[test]
fn template_variable_errors() {
    let mut expander = MacroExpander::new();
    expander.define(MacroDefinition {
        name: "bad".to_string(),
        rules: vec![MacroRule { matcher: vec![], template: vec![var("y")] }],
    });
    expander.define(MacroDefinition {
        name: "flat".to_string(),
        rules: vec![MacroRule {
            matcher: vec![MacroMatcher::Repeat {
                matcher: vec![frag("x", MacroFragmentKind::Ident)],
                separator: vec![],
                op: MacroRepeatOp::ZeroOrMore,
            }],
            template: vec![var("x")],
        }],
    });
    expander.define(MacroDefinition {
        name: "nested".to_string(),
        rules: vec![MacroRule {
            matcher: vec![frag("x", MacroFragmentKind::Ident)],
            template: vec![MacroTemplate::Repeat { template: vec![var("x")], separator: vec![], op: MacroRepeatOp::ZeroOrMore }],
        }],
    });
    let c = call("bad", vec![], MacroDelimiter::Paren);
    assert_eq!(error_message(expander.expand_call(&c, &no_verdicts())), (0, 0, "Переменная макроса '$y' не найдена".to_string()));
    let c = call("flat", vec![id("a")], MacroDelimiter::Paren);
    assert_eq!(
        error_message(expander.expand_call(&c, &no_verdicts())),
        (0, 0, "Повторяемая переменная использована вне повторения".to_string())
    );
    // A single capture inside a repetition: no repeated variable, so zero rounds.
    let c = call("nested", vec![id("a")], MacroDelimiter::Paren);
    assert_eq!(tokens_of(expander.expand_call(&c, &no_verdicts())), Vec::<Token>::new());
}

#[test]
fn later_definitions_shadow_earlier_ones() {
    let mut expander = MacroExpander::new();
    expander.define(twice());
    expander.define(MacroDefinition {
        name: "twice".to_string(),
        rules: vec![MacroRule { matcher: vec![], template: vec![MacroTemplate::Token(tok(Token::True))] }],
    });
    let c = call("twice", vec![], MacroDelimiter::Paren);
    assert_eq!(tokens_of(expander.expand_call(&c, &no_verdicts())), vec![Token::True]);
}

#[test]
fn brace_calls_drop_trailing_semicolons() {
    let c = call("m", vec![id("a"), tok(Token::Semi), tok(Token::Semi)], MacroDelimiter::Brace);
    assert_eq!(normalized_call_args(&c).len(), 1);
    let p = call("m", vec![id("a"), tok(Token::Semi)], MacroDelimiter::Paren);
    assert_eq!(normalized_call_args(&p).len(), 2);
}

#[test]
fn token_helpers() {
    assert!(same_token(&Token::Ident("a".to_string()), &Token::Ident("a".to_string())));
    assert!(!same_token(&Token::Ident("a".to_string()), &Token::Ident("b".to_string())));
    assert!(!same_token(&Token::Ident("a".to_string()), &Token::String("a".to_string())));
    assert!(same_token(&Token::Plus, &Token::Plus));
    assert!(!same_token(&Token::Number(1), &Token::Number(2)));
    let ts = vec![id("a"), tok(Token::Comma), id("b")];
    assert!(tokens_match_at(&ts, 1, &[tok(Token::Comma)]));
    assert!(!tokens_match_at(&ts, 2, &[tok(Token::Comma)]));
    assert!(!tokens_match_at(&ts, 3, &[tok(Token::Comma)]));
    assert!(tokens_match_at(&ts, 3, &[]));
    assert!(delimiters_balanced(&[tok(Token::LParen), tok(Token::LBracket), tok(Token::RBracket), tok(Token::RParen)]));
    assert!(!delimiters_balanced(&[tok(Token::LParen), tok(Token::RBracket)]));
    assert!(!delimiters_balanced(&[tok(Token::LBrace)]));
    assert!(!delimiters_balanced(&[tok(Token::RBrace)]));
}

#[test]
fn repeated_captures_collect_each_round() {
    let mut target = Captures::new();
    let mut round = Captures::new();
    round.insert("x".to_string(), Capture::Single(vec![id("a")]));
    merge_repeated(&mut target, round);
    let mut round = Captures::new();
    round.insert("x".to_string(), Capture::Single(vec![id("b")]));
    round.insert("skip".to_string(), Capture::Repeated(vec![]));
    merge_repeated(&mut target, round);
    match target.get(&"x".to_string()) {
        Some(Capture::Repeated(items)) => {
            assert_eq!(items.len(), 2);
            assert_eq!(items[1][0].token, Token::Ident("b".to_string()));
        },
        other => panic!("unexpected {other:?}"),
    }
    assert!(target.get(&"skip".to_string()).is_none());
}

#[test]
fn matching_stops_where_the_matcher_ends() {
    let ts = vec![id("a"), tok(Token::Plus)];
    let m = vec![frag("x", MacroFragmentKind::Ident)];
    let (pos, caps) = match_sequence(&m, &ts, 0, Captures::new(), &no_verdicts()).expect("match");
    assert_eq!(pos, 1);
    assert!(matches!(caps.get(&"x".to_string()), Some(Capture::Single(v)) if v.len() == 1));
    assert!(match_sequence(&m, &ts, 1, Captures::new(), &no_verdicts()).is_none());
}

#[test]
fn expansion_streams_end_with_eof() {
    let ts = vec![MacroToken { token: Token::Number(1), start: 3, end: 4 }];
    let stmt = expansion_stream(ts, true);
    assert_eq!(stmt.len(), 3);
    assert!(matches!(stmt[1], Ok((4, Token::Semi, 4))));
    assert!(matches!(stmt[2], Ok((4, Token::Eof, 4))));
    let ts = vec![MacroToken { token: Token::RBrace, start: 3, end: 4 }];
    assert_eq!(expansion_stream(ts, true).len(), 2);
    let ts = vec![MacroToken { token: Token::Number(1), start: 3, end: 4 }];
    assert_eq!(expansion_stream(ts, false).len(), 2);
    assert!(matches!(expansion_stream(vec![], false)[0], Ok((0, Token::Eof, 0))));
}
