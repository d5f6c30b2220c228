//! Whole-program macro expansion. The generated grammar is not part of the
//! library, so these tests hand it a small parser for the forms they use:
//! `name = expr` and expression statements, `+ - *` expressions, macro calls
//! `name!(...)`, and definitions written `macro name { ($x:expr) => { ... }; }`
//! where a matcher `x:kind` is a fragment and a template identifier naming a
//! fragment is a variable. The lexer has no `$` token: it reports each `$`
//! as an error entry, which this parser skips.
use goida::parser::expansion::{
    convert_parse_error, fragment_verdicts, macro_expansion_preview, parse_program, Grammar, GrammarError,
    EXPANSION_DEPTH,
};
use goida::parser::lexer::{LexicalError, SpannedToken, Token};
use goida::parser::macro_expander::MacroExpander;
use goida::parser::structs::ParseError;
use goida::parser::syntax::{
    BinaryOp, ExprKind, Function, Item, ItemKind, LambdaBody, MacroCall, MacroDefinition, MacroDelimiter,
    MacroFragmentKind, MacroMatcher, MacroRule, MacroTemplate, MacroToken, Program, Spanned, Stmt, StmtKind,
};

type Expr = goida::parser::syntax::Expr;

struct Mini {
    toks: Vec<(usize, Token, usize)>,
    pos: usize,
}

fn fail(t: &(usize, Token, usize)) -> GrammarError {
    GrammarError::UnrecognizedToken { token: t.clone(), expected: vec![] }
}

impl Mini {
    fn new(stream: &[SpannedToken]) -> Mini {
        Mini { toks: stream.iter().filter_map(|t| t.as_ref().ok().cloned()).collect(), pos: 0 }
    }

    fn peek(&self) -> &(usize, Token, usize) {
        &self.toks[self.pos.min(self.toks.len() - 1)]
    }

    fn next(&mut self) -> (usize, Token, usize) {
        let t = self.peek().clone();
        self.pos += 1;
        t
    }

    fn expect(&mut self, token: Token) -> Result<(usize, Token, usize), GrammarError> {
        let t = self.next();
        if t.1 == token {
            Ok(t)
        } else {
            Err(fail(&t))
        }
    }

    fn at(&self, token: &Token) -> bool {
        &self.peek().1 == token
    }

    fn primary(&mut self) -> Result<Expr, GrammarError> {
        let t = self.next();
        match t.1.clone() {
            Token::Number(n) => Ok(Spanned { node: ExprKind::Number(n), start: t.0, end: t.2 }),
            Token::Ident(name) => {
                if self.at(&Token::Bang) {
                    self.next();
                    self.expect(Token::LParen)?;
                    let mut depth = 0;
                    let mut args = Vec::new();
                    loop {
                        let a = self.next();
                        match a.1 {
                            Token::LParen => depth += 1,
                            Token::RParen if depth == 0 => {
                                return Ok(Spanned {
                                    node: ExprKind::MacroCall(MacroCall {
                                        name,
                                        args,
                                        delimiter: MacroDelimiter::Paren,
                                        start: t.0,
                                        end: a.2,
                                    }),
                                    start: t.0,
                                    end: a.2,
                                });
                            },
                            Token::RParen => depth -= 1,
                            Token::Eof => return Err(fail(&a)),
                            _ => {},
                        }
                        args.push(MacroToken { token: a.1.clone(), start: a.0, end: a.2 });
                    }
                }
                Ok(Spanned { node: ExprKind::Identifier(name), start: t.0, end: t.2 })
            },
            Token::LParen | Token::LambdaLParen => {
                let e = self.expr()?;
                self.expect(Token::RParen)?;
                Ok(e)
            },
            _ => Err(fail(&t)),
        }
    }

    fn binary(&mut self, level: u8) -> Result<Expr, GrammarError> {
        let mut left = if level == 0 { self.binary(1)? } else { self.primary()? };
        loop {
            let op = match (&self.peek().1, level) {
                (Token::Plus, 0) => BinaryOp::Add,
                (Token::Minus, 0) => BinaryOp::Sub,
                (Token::Star, 1) => BinaryOp::Mul,
                _ => return Ok(left),
            };
            self.next();
            let right = if level == 0 { self.binary(1)? } else { self.primary()? };
            let (start, end) = (left.start, right.end);
            left = Spanned { node: ExprKind::Binary { op, left: Box::new(left), right: Box::new(right) }, start, end };
        }
    }

    fn expr(&mut self) -> Result<Expr, GrammarError> {
        self.binary(0)
    }

    fn definition(&mut self, start: usize) -> Result<Item, GrammarError> {
        let name = match self.next().1 {
            Token::Ident(n) => n,
            _ => return Err(fail(self.peek())),
        };
        self.expect(Token::LBrace)?;
        let mut rules = Vec::new();
        while self.at(&Token::LParen) || self.at(&Token::LambdaLParen) {
            self.next();
            let mut matcher = Vec::new();
            let mut fragments = Vec::new();
            while !self.at(&Token::RParen) {
                let t = self.next();
                if let Token::Ident(x) = &t.1 {
                    if self.at(&Token::Colon) {
                        self.next();
                        let kind = match self.next().1 {
                            Token::Ident(k) if k == "expr" => MacroFragmentKind::Expr,
                            Token::Ident(k) if k == "ident" => MacroFragmentKind::Ident,
                            _ => return Err(fail(&t)),
                        };
                        fragments.push(x.clone());
                        matcher.push(MacroMatcher::Fragment { name: x.clone(), kind });
                        continue;
                    }
                }
                matcher.push(MacroMatcher::Token(MacroToken { token: t.1.clone(), start: t.0, end: t.2 }));
            }
            self.next();
            self.expect(Token::FatArrow)?;
            self.expect(Token::LBrace)?;
            let mut template = Vec::new();
            while !self.at(&Token::RBrace) {
                let t = self.next();
                match &t.1 {
                    Token::Ident(x) if fragments.contains(x) => template.push(MacroTemplate::Variable(x.clone())),
                    Token::Eof => return Err(fail(&t)),
                    other => template.push(MacroTemplate::Token(MacroToken { token: other.clone(), start: t.0, end: t.2 })),
                }
            }
            self.next();
            self.expect(Token::Semi)?;
            rules.push(MacroRule { matcher, template });
        }
        let close = self.expect(Token::RBrace)?;
        Ok(Spanned { node: ItemKind::MacroDefinition(MacroDefinition { name, rules }), start, end: close.2 })
    }

    fn item(&mut self) -> Result<Item, GrammarError> {
        let t = self.peek().clone();
        if let Token::Ident(word) = &t.1 {
            if word == "macro" {
                self.next();
                return self.definition(t.0);
            }
            if self.toks.get(self.pos + 1).map(|n| n.1 == Token::Eq).unwrap_or(false) {
                self.next();
                self.next();
                let value = self.expr()?;
                let end = value.end;
                let stmt: Stmt = Spanned {
                    node: StmtKind::Assign { name: word.clone(), is_const: false, type_hint: None, value },
                    start: t.0,
                    end,
                };
                return Ok(Spanned { node: ItemKind::Statement(Box::new(stmt)), start: t.0, end });
            }
        }
        let value = self.expr()?;
        let (start, end) = (value.start, value.end);
        let stmt: Stmt = Spanned { node: StmtKind::Expr(value), start, end };
        Ok(Spanned { node: ItemKind::Statement(Box::new(stmt)), start, end })
    }

    fn program(&mut self) -> Result<Program, GrammarError> {
        let mut items = Vec::new();
        loop {
            while self.at(&Token::Semi) {
                self.next();
            }
            if self.at(&Token::Eof) {
                return Ok(Program { items });
            }
            items.push(self.item()?);
        }
    }
}

fn program(stream: Vec<SpannedToken>) -> Result<Program, GrammarError> {
    Mini::new(&stream).program()
}

fn statement(stream: Vec<SpannedToken>) -> Result<Stmt, GrammarError> {
    let mut p = Mini::new(&stream);
    match p.item()?.node {
        ItemKind::Statement(s) => {
            while p.at(&Token::Semi) {
                p.next();
            }
            p.expect(Token::Eof)?;
            Ok(*s)
        },
        _ => Err(fail(p.peek())),
    }
}

fn expression(stream: Vec<SpannedToken>) -> Result<Expr, GrammarError> {
    let mut p = Mini::new(&stream);
    let e = p.expr()?;
    p.expect(Token::Eof)?;
    Ok(e)
}

type Fns = fn(Vec<SpannedToken>) -> Result<Program, GrammarError>;
type StmtFn = fn(Vec<SpannedToken>) -> Result<Stmt, GrammarError>;
type ExprFn = fn(Vec<SpannedToken>) -> Result<Expr, GrammarError>;

fn grammar() -> Grammar<Fns, StmtFn, ExprFn> {
    Grammar { program, statement, expression }
}

fn syntax_error<T: std::fmt::Debug>(r: Result<T, ParseError>) -> (usize, usize, usize, String) {
    match r {
        Err(ParseError::InvalidSyntax(data)) => {
            (data.location.start, data.location.end, data.location.file_id, data.message)
        },
        other => panic!("expected a syntax error, got {other:?}"),
    }
}

#[test]
fn macro_expansion_preview_contains_expanded_source_without_macro_definition() {
    let source = "\nmacro twice {\n    ($x:expr) => { $x + $x };\n}\n\nvalue = twice!(2)\n";
    let preview = macro_expansion_preview(source, &grammar(), 0, MacroExpander::new()).expect("macro preview should expand");
    assert!(preview.contains("value = 2 + 2"));
    assert!(!preview.contains("macro twice"));
}

#[test]
fn preview_writes_only_the_expanded_statements() {
    let source = "macro twice { (x:expr) => { x + x }; }\nvalue = twice!(3)\nother = 1\n";
    let preview = macro_expansion_preview(source, &grammar(), 0, MacroExpander::new()).unwrap();
    assert_eq!(preview, "value = 3 + 3\nother = 1\n");
}

#[test]
fn preview_uses_definitions_registered_beforehand() {
    let mut expander = MacroExpander::new();
    expander.register_builtin("one", &[("", "1")], &grammar()).unwrap();
    let preview = macro_expansion_preview("value = one!() * 2", &grammar(), 0, expander).unwrap();
    assert_eq!(preview, "value = 1 * 2\n");
}

#[test]
fn preview_reports_a_grammar_error_in_the_module() {
    let r = macro_expansion_preview("value = )", &grammar(), 7, MacroExpander::new());
    let (start, end, module, message) = syntax_error(r);
    assert_eq!((start, end, module), (8, 9, 7));
    assert_eq!(message, "Неожиданный токен RParen");
}

#[test]
fn preview_reports_an_unknown_macro_at_the_call() {
    let r = macro_expansion_preview("value = nothing!(1)", &grammar(), 3, MacroExpander::new());
    let (start, end, module, message) = syntax_error(r);
    assert_eq!((start, end, module), (8, 19, 0));
    assert_eq!(message, "Макрос 'nothing' не найден");
}

#[test]
fn expansion_that_is_no_expression_is_reported_at_the_call() {
    let source = "macro bad { () => { + }; }\nvalue = bad!()";
    let (start, end, module, message) = syntax_error(macro_expansion_preview(source, &grammar(), 5, MacroExpander::new()));
    assert_eq!((start, end, module), (35, 41, 5));
    assert_eq!(message, "Макрос развернулся в некорректное выражение");
}

#[test]
fn statement_macro_expands_to_items_that_are_expanded_again() {
    let source = "macro twice { (x:expr) => { x + x }; }\nmacro set { (n:ident) => { n = twice!(4) }; }\nset!(z)";
    let preview = macro_expansion_preview(source, &grammar(), 0, MacroExpander::new()).unwrap();
    assert_eq!(preview, "z = 4 + 4\n");
}

#[test]
fn statement_macro_whose_tokens_are_no_items_is_reported() {
    let source = "macro bad { () => { = }; }\nbad!()";
    let (start, end, module, message) = syntax_error(macro_expansion_preview(source, &grammar(), 2, MacroExpander::new()));
    assert_eq!((start, end, module), (27, 33, 2));
    assert_eq!(message, "Макрос развернулся в некорректные элементы AST");
}

#[test]
fn self_expanding_macro_stops_at_the_depth_limit() {
    let source = "macro again { () => { again!() }; }\nagain!()";
    let (start, end, _, message) = syntax_error(macro_expansion_preview(source, &grammar(), 0, MacroExpander::new()));
    assert_eq!(message, "Превышена глубина раскрытия макросов");
    assert!(start < end);
    assert_eq!(EXPANSION_DEPTH, 128);
}

#[test]
fn expand_program_expands_inside_function_bodies_and_lambdas() {
    let mut expander = MacroExpander::new();
    expander.register_builtin("two", &[("", "2")], &grammar()).unwrap();
    let call = |start: usize| Spanned {
        node: ExprKind::MacroCall(MacroCall {
            name: "two".to_string(),
            args: vec![],
            delimiter: MacroDelimiter::Paren,
            start,
            end: start + 6,
        }),
        start,
        end: start + 6,
    };
    let lambda = Spanned {
        node: ExprKind::Lambda { params: vec![], body: LambdaBody::Expr(Box::new(call(20))) },
        start: 15,
        end: 30,
    };
    let body_stmt: Stmt = Spanned { node: StmtKind::Expr(lambda), start: 15, end: 30 };
    let function = Function {
        name: "f".to_string(),
        params: vec![],
        return_type: None,
        body: vec![Spanned { node: ItemKind::Statement(Box::new(body_stmt)), start: 15, end: 30 }],
    };
    let program = Program { items: vec![Spanned { node: ItemKind::Function(function), start: 0, end: 40 }] };
    let out = expander.expand_program(program, &grammar(), 0).unwrap();
    match &out.items[0].node {
        ItemKind::Function(f) => match &f.body[0].node {
            ItemKind::Statement(s) => match &s.node {
                StmtKind::Expr(e) => match &e.node {
                    ExprKind::Lambda { body: LambdaBody::Expr(b), .. } => {
                        assert!(matches!(b.node, ExprKind::Number(2)))
                    },
                    other => panic!("{other:?}"),
                },
                other => panic!("{other:?}"),
            },
            other => panic!("{other:?}"),
        },
        other => panic!("{other:?}"),
    }
}

#[test]
fn program_without_macros_is_left_as_it_is() {
    let source = "a = 1 + 2 * 3\nb = a";
    let preview = macro_expansion_preview(source, &grammar(), 0, MacroExpander::new()).unwrap();
    assert_eq!(preview, "a = 1 + 2 * 3\nb = a\n");
}

#[test]
fn register_builtin_collects_every_rule_under_one_name() {
    let mut expander = MacroExpander::new();
    expander.register_builtin("pick", &[("x:expr , y:expr", "x"), ("x:expr", "x * x")], &grammar()).unwrap();
    assert_eq!(
        macro_expansion_preview("a = pick!(5)\nb = pick!(1, 9)", &grammar(), 0, expander).unwrap(),
        "a = 5 * 5\nb = 1\n"
    );
}

#[test]
fn register_builtin_rejects_a_rule_the_grammar_does_not_parse() {
    let mut expander = MacroExpander::new();
    let r = expander.register_builtin("broken", &[("x:wrong", "x")], &grammar());
    let (start, end, module, message) = syntax_error(r);
    let source = "macro broken { (x:wrong) => { x }; }";
    assert_eq!((start, end, module), (0, source.len(), 0));
    assert_eq!(message, "Некорректное объявление встроенного макроса");
}

#[test]
fn register_builtin_rejects_a_rule_that_is_no_definition() {
    let grammar = Grammar { program: |_s: Vec<SpannedToken>| Ok(Program { items: vec![] }), statement, expression };
    let mut expander = MacroExpander::new();
    let (_, _, _, message) = syntax_error(expander.register_builtin("x", &[("", "1")], &grammar));
    assert_eq!(message, "Пустое объявление встроенного макроса");

    let grammar = Grammar {
        program: |s: Vec<SpannedToken>| {
            let mut p = Mini::new(&s);
            while !p.at(&Token::Eof) {
                p.next();
            }
            Ok(Program {
                items: vec![Spanned {
                    node: ItemKind::Statement(Box::new(Spanned {
                        node: StmtKind::Return(None),
                        start: 0,
                        end: 0,
                    })),
                    start: 0,
                    end: 0,
                }],
            })
        },
        statement,
        expression,
    };
    let (_, _, _, message) = syntax_error(expander.register_builtin("x", &[("", "1")], &grammar));
    assert_eq!(message, "Ожидалось объявление макроса");
}

#[test]
fn grammar_errors_become_syntax_errors_of_the_module() {
    let code = "ab = cd";
    let check = |err: GrammarError, expected: (usize, usize, String)| {
        let (start, end, module, message) = syntax_error::<()>(Err(convert_parse_error(code, err, 4)));
        assert_eq!(module, 4);
        assert_eq!((start, end, message), expected);
    };
    check(GrammarError::InvalidToken { location: 3 }, (3, 4, "Некорректный токен".to_string()));
    check(
        GrammarError::UnrecognizedEof { location: 7, expected: vec!["\"(\"".to_string(), "\")\"".to_string()] },
        (7, 7, "Неожиданный конец файла; ожидалось: \"(\", \")\"".to_string()),
    );
    check(
        GrammarError::UnrecognizedToken { token: (5, Token::Ident("cd".to_string()), 7), expected: vec![] },
        (5, 7, "Неожиданный токен 'cd'".to_string()),
    );
    check(GrammarError::ExtraToken { token: (3, Token::Eq, 4) }, (3, 4, "Лишний токен Eq".to_string()));
    check(
        GrammarError::User { error: LexicalError { start: 1, end: 2, message: "плохо".to_string() } },
        (1, 2, "плохо".to_string()),
    );
}

#[test]
fn parse_program_hands_the_lexed_source_to_the_grammar() {
    let program = parse_program("x = 1\ny = x", &grammar(), 0).unwrap();
    assert_eq!(program.items.len(), 2);
    assert!(matches!(program.items[1].node, ItemKind::Statement(_)));
}

#[test]
fn fragment_verdicts_ask_the_grammar_about_every_range() {
    let args = vec![
        MacroToken { token: Token::Number(1), start: 0, end: 1 },
        MacroToken { token: Token::Plus, start: 2, end: 3 },
        MacroToken { token: Token::Number(2), start: 4, end: 5 },
    ];
    let v = fragment_verdicts(&args, &grammar());
    assert_eq!(v.expr.len(), 4);
    assert!(v.expr[0][1] && v.expr[0][3] && v.expr[2][3]);
    assert!(!v.expr[0][2] && !v.expr[1][2] && !v.expr[0][0] && !v.expr[3][0]);
    assert!(v.stmt[0][3] && !v.stmt[1][3]);
}

#[test]
fn expression_macro_is_replaced_by_its_parsed_expansion() {
    let source = "macro twice { (x:expr) => { x + x }; }\nvalue = twice!(input + 1)";
    let preview = macro_expansion_preview(source, &grammar(), 0, MacroExpander::new()).unwrap();
    assert_eq!(preview, "value = input + 1 + input + 1\n");
}

#[test]
fn first_rule_that_consumes_the_whole_call_is_used() {
    let source = "macro choose { () => { 0 }; (v:expr) => { v }; }\nempty_value = choose!()\nfilled_value = choose!(7)";
    let preview = macro_expansion_preview(source, &grammar(), 0, MacroExpander::new()).unwrap();
    assert_eq!(preview, "empty_value = 0\nfilled_value = 7\n");
}

#[test]
fn define_builtin_macro_registers_rules() {
    let mut expander = MacroExpander::new();
    let result = expander.register_builtin("twice", &[("$x:expr", "$x + $x")], &grammar());
    assert!(result.is_ok(), "{result:?}");
    let definition = expander.get(&"twice".to_string()).expect("builtin macro should be registered");
    assert_eq!(definition.rules.len(), 1);
    let preview = macro_expansion_preview("value = twice!(2)", &grammar(), 0, expander).expect("builtin macro should be registered");
    assert_eq!(preview, "value = 2 + 2\n");
}
