use aeon::{
    BlockParser, Expression, ExpressionParser, Keyword, Lexer, LexerError, Literal, Operator,
    Parser, ParserContext, ParserError, Statement, StatementParser, Token, TokenStream,
    VariableParser,
};

fn lex(input: &str) -> Vec<Token> {
    Lexer::lex(input.as_bytes()).unwrap()
}

fn ident(s: &str) -> Token {
    Token::Identifier(s.to_string())
}

fn number(s: &str) -> Token {
    Token::Literal(Literal::Number(s.to_string()))
}

#[test]
fn consume_matches_any_identifier_payload() {
    let tokens = vec![ident("y")];
    let mut stream = TokenStream::new(&tokens);
    assert_eq!(stream.consume(ident("x")), Ok(ident("y")));

    let mut stream = TokenStream::new(&tokens);
    assert_eq!(stream.consume_exact(ident("x")), Err(ParserError::UnexpectedToken(ident("y"))));
    assert_eq!(stream.position(), 0);

    let tokens = vec![ident("x")];
    let mut stream = TokenStream::new(&tokens);
    assert_eq!(stream.consume_exact(ident("x")), Ok(ident("x")));
    assert_eq!(stream.position(), 1);
}

#[test]
fn consume_matches_any_literal_payload() {
    let tokens = vec![number("7")];
    let mut stream = TokenStream::new(&tokens);
    let expected = Token::Literal(Literal::String("s".to_string()));
    assert_eq!(stream.consume(expected), Ok(number("7")));
}

#[test]
fn unterminated_string_is_end_of_input() {
    assert!(matches!(Lexer::lex("\"abc".as_bytes()), Err(LexerError::UnexpectedEndOfInput)));
}

#[test]
fn escaped_quote_stays_in_string() {
    assert_eq!(lex("\"a\\\"b\""), vec![Token::Literal(Literal::String("a\\\"b".to_string()))]);
}

#[test]
fn leading_comment_emits_nothing() {
    assert_eq!(lex("// comment\ncode"), vec![ident("code")]);
}

#[test]
fn division_is_not_a_comment() {
    assert_eq!(lex("a / b // comment"), vec![ident("a"), Token::Operator(Operator::Slash), ident("b")]);
}

#[test]
fn invalid_utf8_is_io_error() {
    assert!(matches!(Lexer::lex(&[b'a', 0xff, b'b']), Err(LexerError::IoError(_))));
    assert!(matches!(Lexer::lex(&[0xe2, 0x82]), Err(LexerError::IoError(_))));
}

#[test]
fn multibyte_characters_are_decoded() {
    assert_eq!(lex("caf\u{e9} na\u{ef}ve"), vec![ident("caf\u{e9}"), ident("na\u{ef}ve")]);
    assert_eq!(lex("a\u{a0}b\u{3000}c"), vec![ident("a"), ident("b"), ident("c")]);
}

#[test]
fn number_forms() {
    assert_eq!(lex("0b101 0o17 0xff"), vec![number("0b101"), number("0o17"), number("0xff")]);
    assert_eq!(lex("0xffffffffffffffff"), vec![number("0xffffffffffffffff")]);
    assert_eq!(lex("0x10000000000000000"), vec![ident("0x10000000000000000")]);
    assert_eq!(lex("0b102 0x 0o8"), vec![ident("0b102"), ident("0x"), ident("0o8")]);
    assert_eq!(lex("1e 1E5 inf NaN"), vec![ident("1e"), number("1E5"), number("inf"), number("NaN")]);
    assert_eq!(lex("007 12ab"), vec![number("007"), ident("12ab")]);
}

#[test]
fn booleans_are_case_sensitive() {
    assert_eq!(
        lex("true false TRUE"),
        vec![
            Token::Literal(Literal::Boolean(true)),
            Token::Literal(Literal::Boolean(false)),
            ident("TRUE")
        ]
    );
}

#[test]
fn extended_keywords() {
    assert_eq!(
        lex("struct Enum NULL void mut"),
        vec![
            Token::Keyword(Keyword::Struct),
            Token::Keyword(Keyword::Enum),
            Token::Keyword(Keyword::Null),
            Token::Keyword(Keyword::Void),
            Token::Keyword(Keyword::Mut),
        ]
    );
}

#[test]
fn pending_word_prefixes_string() {
    assert_eq!(lex("x\"y\""), vec![Token::Literal(Literal::String("xy".to_string()))]);
}

#[test]
fn question_and_lone_colon() {
    assert_eq!(
        lex("a ? b : c"),
        vec![
            ident("a"),
            Token::Operator(Operator::Question),
            ident("b"),
            Token::Operator(Operator::Assign),
            ident("c"),
        ]
    );
}

#[test]
fn hello_world_source_parses() {
    let tokens = lex("module main { fn main() void { println(\"Hello, world!\") } }");
    let ast = Parser::parse(&tokens).unwrap();
    let module = ast.root.unwrap();
    assert_eq!(module.name, "main");
    assert!(module.imports.is_empty());
    assert!(module.modules.is_empty());
    assert!(module.variables.is_empty());
    assert_eq!(module.functions.len(), 1);
    let function = &module.functions[0];
    assert_eq!(function.name, "main");
    assert!(function.parameters.is_empty());
    assert_eq!(function.return_type.name.as_deref(), Some("void"));
    assert_eq!(function.block.statements.len(), 2);
    match &function.block.statements[0] {
        Statement::Expression(Expression::Variable(v)) => {
            assert_eq!(v.name, "println");
            assert!(!v.is_decl);
            assert!(v.expression.is_none());
        }
        other => panic!("unexpected statement {:?}", other),
    }
    match &function.block.statements[1] {
        Statement::Expression(Expression::Group { inner }) => match inner.as_ref() {
            Expression::Literal(Literal::String(s)) => assert_eq!(s, "Hello, world!"),
            other => panic!("unexpected expression {:?}", other),
        },
        other => panic!("unexpected statement {:?}", other),
    }
}

fn literal_number(e: &Expression) -> &str {
    match e {
        Expression::Literal(Literal::Number(n)) => n,
        other => panic!("expected a number, got {:?}", other),
    }
}

#[test]
fn multiplication_binds_tighter_than_addition() {
    let tokens = lex("5 + 3 * (y - 2)");
    let mut ctx = ParserContext::new();
    let mut stream = TokenStream::new(&tokens);
    let e = ExpressionParser::parse(&mut ctx, &mut stream).unwrap();
    assert!(stream.is_at_end());
    let Expression::Binary { left, right, operator } = e else { panic!("expected a sum") };
    assert_eq!(operator, Operator::Plus);
    assert_eq!(literal_number(&left), "5");
    let Expression::Binary { left, right, operator } = *right else { panic!("expected a product") };
    assert_eq!(operator, Operator::Star);
    assert_eq!(literal_number(&left), "3");
    let Expression::Group { inner } = *right else { panic!("expected a group") };
    let Expression::Binary { left, right, operator } = *inner else { panic!("expected a difference") };
    assert_eq!(operator, Operator::Minus);
    assert!(matches!(*left, Expression::Variable(ref v) if v.name == "y" && !v.is_decl));
    assert_eq!(literal_number(&right), "2");
}

#[test]
fn operators_are_left_associative() {
    let tokens = lex("8 - 4 - 2 == -1");
    let mut ctx = ParserContext::new();
    let mut stream = TokenStream::new(&tokens);
    let e = ExpressionParser::parse(&mut ctx, &mut stream).unwrap();
    let Expression::Binary { left, right, operator } = e else { panic!("expected an equality") };
    assert_eq!(operator, Operator::Equal);
    let Expression::Unary { operator: neg, operand } = *right else { panic!("expected a negation") };
    assert_eq!(neg, Operator::Minus);
    assert_eq!(literal_number(&operand), "1");
    let Expression::Binary { left, right, operator } = *left else { panic!("expected a difference") };
    assert_eq!(operator, Operator::Minus);
    assert_eq!(literal_number(&right), "2");
    let Expression::Binary { left, right, .. } = *left else { panic!("expected a difference") };
    assert_eq!(literal_number(&left), "8");
    assert_eq!(literal_number(&right), "4");
}

#[test]
fn expression_errors() {
    let mut ctx = ParserContext::new();
    let tokens = lex("(1 + 2");
    let mut stream = TokenStream::new(&tokens);
    assert!(matches!(
        ExpressionParser::parse(&mut ctx, &mut stream),
        Err(ParserError::UnexpectedEndOfInput)
    ));
    let tokens = lex("1 + }");
    let mut stream = TokenStream::new(&tokens);
    assert!(matches!(
        ExpressionParser::parse(&mut ctx, &mut stream),
        Err(ParserError::UnexpectedToken(Token::CloseBrace))
    ));
}

#[test]
fn declaration_and_reassignment() {
    let mut ctx = ParserContext::new();
    let tokens = lex("x := 5");
    let mut stream = TokenStream::new(&tokens);
    match StatementParser::parse(&mut ctx, &mut stream).unwrap() {
        Statement::Expression(Expression::Variable(v)) => {
            assert_eq!(v.name, "x");
            assert!(v.is_decl);
            assert!(!v.type_info.unwrap().is_mut);
            assert_eq!(literal_number(v.expression.as_deref().unwrap()), "5");
        }
        other => panic!("unexpected statement {:?}", other),
    }

    let tokens = lex("x = 5");
    let mut stream = TokenStream::new(&tokens);
    match StatementParser::parse(&mut ctx, &mut stream).unwrap() {
        Statement::Expression(Expression::Variable(v)) => {
            assert_eq!(v.name, "x");
            assert!(!v.is_decl);
            assert!(v.type_info.is_none());
        }
        other => panic!("unexpected statement {:?}", other),
    }

    let tokens = lex("x := mut = 5");
    let mut stream = TokenStream::new(&tokens);
    let v = VariableParser::parse(&mut ctx, &mut stream).unwrap();
    assert!(v.is_decl);
    assert!(v.type_info.unwrap().is_mut);
}

#[test]
fn variable_parser_rejects_other_statements() {
    let mut ctx = ParserContext::new();
    let tokens = lex("foo(1)");
    let mut stream = TokenStream::new(&tokens);
    assert_eq!(VariableParser::parse(&mut ctx, &mut stream).unwrap_err(), ParserError::UnexpectedToken(ident("foo")));
    assert_eq!(stream.position(), 0);
}

#[test]
fn module_header_alone_is_empty() {
    let tokens = lex("module main");
    assert_eq!(
        Parser::parse(&tokens).unwrap_err(),
        ParserError::ModuleEmpty { start: Token::Keyword(Keyword::Module), end: ident("main") }
    );
}

#[test]
fn unclosed_nested_module() {
    let tokens = lex("module a\nmodule b {\nx := 1\n");
    assert_eq!(
        Parser::parse(&tokens).unwrap_err(),
        ParserError::MissingClosingBrace { start: Token::OpenBrace, end: None }
    );
}

#[test]
fn unclosed_block_is_end_of_input() {
    let tokens = lex("{ x := 1");
    let mut ctx = ParserContext::new();
    let mut stream = TokenStream::new(&tokens);
    assert_eq!(BlockParser::parse(&mut ctx, &mut stream).unwrap_err(), ParserError::UnexpectedEndOfInput);
}

#[test]
fn import_needs_a_string() {
    let tokens = lex("module a\nimport 5\n");
    assert_eq!(Parser::parse(&tokens).unwrap_err(), ParserError::UnexpectedToken(number("5")));
    let tokens = lex("module a\nimport \"std/io\"\n");
    let module = Parser::parse(&tokens).unwrap().root.unwrap();
    assert_eq!(module.imports[0].path, "std/io");
}

#[test]
fn parameter_needs_a_delimiter() {
    let tokens = lex("module a\nfn f(x int y int) {}");
    assert_eq!(Parser::parse(&tokens).unwrap_err(), ParserError::UnexpectedToken(ident("y")));
    let tokens = lex("module a\nfn f(x int, y int,) {}");
    let module = Parser::parse(&tokens).unwrap().root.unwrap();
    assert_eq!(module.functions[0].parameters.len(), 2);
    assert_eq!(module.functions[0].return_type.name.as_deref(), Some("void"));
}

#[test]
fn module_level_call_is_rejected() {
    let tokens = lex("module a\nprint(1)\n");
    assert_eq!(Parser::parse(&tokens).unwrap_err(), ParserError::UnexpectedToken(ident("print")));
}

#[test]
fn missing_module_keyword() {
    assert_eq!(Parser::parse(&[]).unwrap_err(), ParserError::ModuleNotFound);
    assert_eq!(Parser::parse(&lex("fn main")).unwrap_err(), ParserError::ModuleNotFound);
}

#[test]
fn restore_gives_the_same_reparse() {
    let tokens = lex("a * (b + 1)\nz");
    let mut ctx = ParserContext::new();
    let mut stream = TokenStream::new(&tokens);
    let mark = stream.checkpoint();
    let first = ExpressionParser::parse(&mut ctx, &mut stream).unwrap();
    let after_first = stream.position();
    stream.restore(mark);
    assert_eq!(stream.position(), mark);
    let second = ExpressionParser::parse(&mut ctx, &mut stream).unwrap();
    assert_eq!(stream.position(), after_first);
    assert_eq!(format!("{:?}", first), format!("{:?}", second));
    assert_eq!(stream.current().unwrap(), &ident("z"));
}

#[test]
fn rendered_source_parses_back_to_the_same_tree() {
    let tokens = vec![
        Token::Keyword(Keyword::Module),
        ident("math"),
        Token::OpenBrace,
        ident("x"),
        Token::Operator(Operator::Assign),
        Token::Operator(Operator::Reassign),
        number("1"),
        Token::Newline,
        Token::Keyword(Keyword::Fn),
        ident("add"),
        Token::OpenParen,
        ident("a"),
        ident("int"),
        Token::Comma,
        ident("b"),
        ident("int"),
        Token::CloseParen,
        ident("int"),
        Token::OpenBrace,
        ident("result"),
        Token::Operator(Operator::Assign),
        Token::Operator(Operator::Reassign),
        Token::OpenParen,
        ident("a"),
        Token::Operator(Operator::Plus),
        number("10"),
        Token::CloseParen,
        Token::Operator(Operator::Star),
        Token::Operator(Operator::Minus),
        ident("b"),
        Token::Newline,
        Token::CloseBrace,
        Token::CloseBrace,
    ];
    let parsed = Parser::parse(&tokens).unwrap();
    let rendered = "module math {\n  x := 1\n  fn add(a int, b int) int {\n    result := (a + 10) * -b\n  }\n}\n";
    let reparsed = Parser::parse(&lex(rendered)).unwrap();
    assert_eq!(format!("{:?}", parsed), format!("{:?}", reparsed));
}

#[test]
fn qualified_names() {
    let mut ctx = ParserContext::new();
    assert_eq!(ctx.get_fully_qualified_module_name(), "");
    assert_eq!(ctx.get_fully_qualified_function_name(), None);
    ctx.enter_module("app".to_string());
    ctx.enter_module("db".to_string());
    assert_eq!(ctx.get_fully_qualified_module_name(), "app.db");
    ctx.enter_function("open".to_string());
    assert_eq!(ctx.get_fully_qualified_module_name(), "app.db");
    assert_eq!(ctx.get_fully_qualified_function_name(), Some("app.db.open".to_string()));
    ctx.exit_function();
    assert_eq!(ctx.get_fully_qualified_function_name(), None);
    ctx.exit_module();
    assert_eq!(ctx.get_fully_qualified_module_name(), "app");
    ctx.exit_module();
    assert_eq!(ctx, ParserContext::new());
}

#[test]
fn qualified_name_skips_repeated_module() {
    let mut ctx = ParserContext::new();
    ctx.enter_module("a".to_string());
    ctx.enter_module("a".to_string());
    ctx.enter_module("b".to_string());
    assert_eq!(ctx.get_fully_qualified_module_name(), "a.b");
}

#[test]
fn parser_leaves_context_balanced() {
    let tokens = lex("module a {\nmodule b {\nfn f() {\n}\n}\nfn g() { oops(\n");
    let mut ctx = ParserContext::new();
    ctx.enter_module("outer".to_string());
    let mut stream = TokenStream::new(&tokens);
    assert!(aeon::ModuleParser::parse(&mut ctx, &mut stream).is_err());
    assert_eq!(ctx.get_fully_qualified_module_name(), "outer");
}

#[test]
fn token_text_spellings() {
    assert_eq!(Token::Operator(Operator::GreaterEqual).text(), ">=");
    assert_eq!(Token::Operator(Operator::Assign).text(), ":");
    assert_eq!(Token::Keyword(Keyword::Module).text(), "module");
    assert_eq!(Token::Literal(Literal::String("hi".to_string())).text(), "\"hi\"");
    assert_eq!(Token::Literal(Literal::Boolean(false)).text(), "false");
    assert_eq!(number("0x1F").text(), "0x1F");
    assert_eq!(Token::Newline.text(), "\n");
    assert_eq!(Token::CloseBracket.text(), "]");
}

#[test]
fn printed_tokens_lex_back() {
    let source = "module app\nimport \"std/io\"\nlimit := mut = 0x10\nfn run(n int, m int) void {\n{\nn = n - 1\n} ok := n >= 2 == true\n}\nmodule inner {\nfn f() {\n}\n}\n";
    let tokens = lex(source);
    let printed: String = tokens.iter().map(|t| t.text() + " ").collect();
    let relexed = lex(&printed);
    assert_eq!(relexed, tokens);
    let first = Parser::parse(&tokens).unwrap();
    let second = Parser::parse(&relexed).unwrap();
    assert_eq!(format!("{:?}", first), format!("{:?}", second));
    let module = first.root.unwrap();
    assert_eq!(module.imports.len(), 1);
    assert_eq!(module.variables.len(), 1);
    assert_eq!(module.functions.len(), 1);
    assert_eq!(module.modules.len(), 1);
    assert_eq!(module.functions[0].block.statements.len(), 2);
    assert!(matches!(module.functions[0].block.statements[0], Statement::Block(_)));
}

#[test]
fn newline_after_nested_block_is_rejected() {
    let tokens = lex("module a\nfn f() {\n{\nx = 1\n}\n}\n");
    assert_eq!(Parser::parse(&tokens).unwrap_err(), ParserError::UnexpectedToken(Token::Newline));
}
