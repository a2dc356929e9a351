use spectra::ast::{Expression, IdentifierAST, Literal, RawLiteral, Statement};
use spectra::lexer::Lexer;
use spectra::parser::{ParseError, Parser};
use spectra::token::{Location, Precedence, Punctuation, RawToken, Token};

fn loc(start: usize, end: usize) -> Location {
    Location { start, end }
}

fn expression(source: &str) -> Expression {
    let mut parser = Parser::new(source);
    parser.parse_expression(Precedence::Lowest).expect("expression")
}

fn ident(e: &Expression) -> &str {
    match e {
        Expression::Identifier(IdentifierAST { identifier, .. }) => identifier,
        other => panic!("not an identifier: {:?}", other),
    }
}

fn punct(p: Punctuation, start: usize) -> Token {
    Token { raw: RawToken::Punctuation(p), location: loc(start, start + 1) }
}

#[test]
fn equal_precedence_folds_left() {
    let e = expression("a + b - c");
    match e {
        Expression::Binary { left, right, operator, location } => {
            assert_eq!(operator, punct(Punctuation::Minus, 6));
            assert_eq!(ident(&right), "c");
            assert_eq!(location, loc(0, 9));
            match *left {
                Expression::Binary { left, right, operator, location } => {
                    assert_eq!(ident(&left), "a");
                    assert_eq!(ident(&right), "b");
                    assert_eq!(operator, punct(Punctuation::Plus, 2));
                    assert_eq!(location, loc(0, 5));
                }
                other => panic!("unexpected {:?}", other),
            }
        }
        other => panic!("unexpected {:?}", other),
    }
}

#[test]
fn higher_precedence_binds_tighter() {
    let e = expression("a + b * c");
    match e {
        Expression::Binary { left, right, operator, location } => {
            assert_eq!(operator, punct(Punctuation::Plus, 2));
            assert_eq!(ident(&left), "a");
            assert_eq!(location, loc(0, 9));
            match *right {
                Expression::Binary { left, right, operator, location } => {
                    assert_eq!(ident(&left), "b");
                    assert_eq!(ident(&right), "c");
                    assert_eq!(operator, punct(Punctuation::Star, 6));
                    assert_eq!(location, loc(4, 9));
                }
                other => panic!("unexpected {:?}", other),
            }
        }
        other => panic!("unexpected {:?}", other),
    }
}

#[test]
fn span_runs_from_first_to_last_token() {
    let e = expression("a.b(c, 1)++ * f");
    assert_eq!(e.location(), loc(0, 15));
    match e {
        Expression::Binary { left, .. } => match *left {
            Expression::Postfix { left, operator, location } => {
                assert_eq!(location, loc(0, 11));
                assert_eq!(operator.raw, RawToken::Punctuation(Punctuation::PlusPlus));
                match *left {
                    Expression::Call { callee, arguments, location } => {
                        assert_eq!(location, loc(0, 9));
                        assert_eq!(arguments.len(), 2);
                        match *callee {
                            Expression::FieldAccess { left, right, location } => {
                                assert_eq!(ident(&left), "a");
                                assert_eq!(right.identifier, "b");
                                assert_eq!(location, loc(0, 3));
                            }
                            other => panic!("unexpected {:?}", other),
                        }
                    }
                    other => panic!("unexpected {:?}", other),
                }
            }
            other => panic!("unexpected {:?}", other),
        },
        other => panic!("unexpected {:?}", other),
    }
}

#[test]
fn empty_call() {
    let e = expression("a()");
    match e {
        Expression::Call { callee, arguments, location } => {
            assert_eq!(ident(&callee), "a");
            assert!(arguments.is_empty());
            assert_eq!(location, loc(0, 3));
        }
        other => panic!("unexpected {:?}", other),
    }
}

#[test]
fn call_with_trailing_comma() {
    let e = expression("f(x,)");
    match e {
        Expression::Call { arguments, location, .. } => {
            assert_eq!(arguments.len(), 1);
            assert_eq!(location, loc(0, 5));
        }
        other => panic!("unexpected {:?}", other),
    }
}

#[test]
fn bool_literals() {
    assert_eq!(
        expression("true"),
        Expression::Literal(Literal { raw: RawLiteral::Bool(true), location: loc(0, 4) })
    );
    assert_eq!(
        expression("false"),
        Expression::Literal(Literal { raw: RawLiteral::Bool(false), location: loc(0, 5) })
    );
}

#[test]
fn other_literals() {
    assert_eq!(
        expression("42"),
        Expression::Literal(Literal { raw: RawLiteral::Integer(42), location: loc(0, 2) })
    );
    assert_eq!(
        expression("\"s\""),
        Expression::Literal(Literal { raw: RawLiteral::String("s".to_owned()), location: loc(0, 3) })
    );
}

#[test]
fn parenthesized_group_spans_its_parentheses() {
    let e = expression("(a + b) * c");
    match e {
        Expression::Binary { left, operator, location, .. } => {
            assert_eq!(operator.raw, RawToken::Punctuation(Punctuation::Star));
            assert_eq!(location, loc(0, 11));
            assert!(matches!(*left, Expression::Binary { location, .. } if location == loc(0, 7)));
        }
        other => panic!("unexpected {:?}", other),
    }
}

#[test]
fn missing_equals_in_var() {
    let mut parser = Parser::new("var x 5;");
    assert_eq!(
        parser.parse(),
        Err(ParseError {
            expected: "`=`".to_owned(),
            got: Some(Token { raw: RawToken::IntegerLiteral(5), location: loc(6, 7) }),
        })
    );
}

#[test]
fn unclosed_group_needs_closing_parenthesis() {
    let mut parser = Parser::new("(a");
    assert_eq!(
        parser.parse_expression(Precedence::Lowest),
        Err(ParseError { expected: "`)`".to_owned(), got: None })
    );
    let mut parser = Parser::new("f(");
    assert_eq!(
        parser.parse_expression(Precedence::Lowest),
        Err(ParseError { expected: "`)`".to_owned(), got: None })
    );
}

#[test]
fn lone_open_parenthesis_needs_closing_parenthesis() {
    let mut parser = Parser::new("(");
    assert_eq!(
        parser.parse_expression(Precedence::Lowest),
        Err(ParseError { expected: "`)`".to_owned(), got: None })
    );
}

#[test]
fn open_parenthesis_before_non_expression() {
    let mut parser = Parser::new("( ;");
    assert_eq!(
        parser.parse_expression(Precedence::Lowest),
        Err(ParseError { expected: "expression".to_owned(), got: Some(punct(Punctuation::Semicolon, 2)) })
    );
}

#[test]
fn group_spans_its_parentheses() {
    assert_eq!(
        expression("(a)"),
        Expression::Identifier(IdentifierAST { identifier: "a".to_owned(), location: loc(0, 3) })
    );
    assert_eq!(expression("x + (b)").location(), loc(0, 7));
    let mut parser = Parser::new("(a);");
    match parser.parse_statement() {
        Ok(Statement::Expression { location, expression }) => {
            assert_eq!(location, loc(0, 4));
            assert_eq!(expression.location(), loc(0, 3));
        }
        other => panic!("unexpected {:?}", other),
    }
}

#[test]
fn cloned_trees_are_equal() {
    let mut parser = Parser::new("var f = fun (a) { return g(a.b, 1)++ * 2; };");
    let module = parser.parse().expect("module");
    let copy: Vec<Statement> = module.iter().map(|s| s.clone()).collect();
    assert_eq!(copy, module);
}

#[test]
fn unexpected_token_in_expression() {
    let mut parser = Parser::new(";");
    assert_eq!(
        parser.parse_expression(Precedence::Lowest),
        Err(ParseError { expected: "expression".to_owned(), got: Some(punct(Punctuation::Semicolon, 0)) })
    );
}

#[test]
fn missing_identifier() {
    let mut parser = Parser::new("var 1 = 2;");
    assert_eq!(
        parser.parse(),
        Err(ParseError {
            expected: "identifier".to_owned(),
            got: Some(Token { raw: RawToken::IntegerLiteral(1), location: loc(4, 5) }),
        })
    );
    let mut parser = Parser::new("a.");
    assert_eq!(
        parser.parse_expression(Precedence::Lowest),
        Err(ParseError { expected: "identifier".to_owned(), got: None })
    );
}

#[test]
fn missing_semicolon() {
    let mut parser = Parser::new("a");
    assert_eq!(parser.parse(), Err(ParseError { expected: "`;`".to_owned(), got: None }));
    let mut parser = Parser::new("a += 1;");
    assert_eq!(
        parser.parse(),
        Err(ParseError {
            expected: "`;`".to_owned(),
            got: Some(Token { raw: RawToken::Punctuation(Punctuation::PlusEq), location: loc(2, 4) }),
        })
    );
}

#[test]
fn statements() {
    let mut parser = Parser::new("var x = 1 + 2; return x; break; continue; x;");
    let module = parser.parse().expect("module");
    assert_eq!(module.len(), 5);
    match &module[0] {
        Statement::Var { location, name, value } => {
            assert_eq!(*location, loc(0, 14));
            assert_eq!(name.identifier, "x");
            assert_eq!(name.location, loc(4, 5));
            assert_eq!(value.location(), loc(8, 13));
        }
        other => panic!("unexpected {:?}", other),
    }
    assert!(matches!(&module[1], Statement::Return { location, .. } if *location == loc(15, 24)));
    assert_eq!(module[2], Statement::Break { location: loc(25, 31) });
    assert_eq!(module[3], Statement::Continue { location: loc(32, 41) });
    assert!(matches!(&module[4], Statement::Expression { location, .. } if *location == loc(42, 44)));
}

#[test]
fn function_literal() {
    let mut parser = Parser::new("var f = fun (a, b) { return a + b; };");
    let module = parser.parse().expect("module");
    match &module[0] {
        Statement::Var { value: Expression::Function { parameters, block, location }, .. } => {
            assert_eq!(parameters.len(), 2);
            assert_eq!(parameters[1].identifier, "b");
            assert_eq!(block.statements.len(), 1);
            assert_eq!(block.location, loc(19, 36));
            assert_eq!(*location, loc(8, 36));
        }
        other => panic!("unexpected {:?}", other),
    }
}

#[test]
fn unclosed_block() {
    let mut parser = Parser::new("fun () { x;");
    assert_eq!(
        parser.parse_expression(Precedence::Lowest),
        Err(ParseError { expected: "`}`".to_owned(), got: None })
    );
}

#[test]
fn empty_module() {
    let mut parser = Parser::new("  \n ");
    assert_eq!(parser.parse(), Ok(vec![]));
}

#[test]
fn parser_from_lexer_and_consume() {
    let mut parser = Parser::from(Lexer::new("( x ;"));
    assert_eq!(parser.consume(Punctuation::OpenParent), Ok(()));
    assert_eq!(
        parser.consume_identifier(),
        Ok(IdentifierAST { identifier: "x".to_owned(), location: loc(2, 3) })
    );
    assert_eq!(
        parser.consume_and_return(Punctuation::Comma),
        Err(ParseError { expected: "`,`".to_owned(), got: Some(punct(Punctuation::Semicolon, 4)) })
    );
    assert_eq!(parser.consume(Punctuation::Comma), Err(ParseError { expected: "`,`".to_owned(), got: None }));
}

#[test]
fn statements_block() {
    let mut parser = Parser::new("{ a; b; }");
    let block = parser.parse_statements_block().expect("block");
    assert_eq!(block.statements.len(), 2);
    assert_eq!(block.location, loc(0, 9));
    let mut parser = Parser::new("x");
    assert_eq!(
        parser.parse_statement(),
        Err(ParseError { expected: "`;`".to_owned(), got: None })
    );
}
