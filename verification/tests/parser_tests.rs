use rslox::ast::{Expr, Literal};
use rslox::scanner::TokenType;
use rslox::parser::{Parser, ParserError};
use rslox::scanner::Scanner;
use rslox::statement::Stmt;

fn parse(src: &str) -> (Vec<Box<Stmt>>, Vec<ParserError>) {
    let mut scanner = Scanner::new(String::from(src));
    scanner.scan_tokens();
    assert!(scanner.errors.is_empty(), "unexpected scan errors");
    let mut parser = Parser::new(scanner.tokens);
    parser.parse()
}

fn num_of(e: &Expr) -> f64 {
    match e {
        Expr::Literal(Literal::Num(bits)) => f64::from_bits(*bits),
        other => panic!("expected a numeric literal, got {:?}", other),
    }
}

#[test]
fn precedence_multiplication_binds_tighter() {
    let (stmts, errors) = parse("1 + 2 * 3;");
    assert!(errors.is_empty());
    assert_eq!(stmts.len(), 1);
    match &*stmts[0] {
        Stmt::Expr(e) => match &**e {
            Expr::Binary(outer) => {
                assert_eq!(outer.1.token_type, TokenType::Plus);
                assert_eq!(num_of(&outer.0), 1.0);
                match &*outer.2 {
                    Expr::Binary(inner) => {
                        assert_eq!(inner.1.token_type, TokenType::Star);
                        assert_eq!(num_of(&inner.0), 2.0);
                        assert_eq!(num_of(&inner.2), 3.0);
                    }
                    other => panic!("expected the product on the right, got {:?}", other),
                }
            }
            other => panic!("expected a binary expression, got {:?}", other),
        },
        other => panic!("expected an expression statement, got {:?}", other),
    }
}

#[test]
fn equality_is_left_associative() {
    let (stmts, errors) = parse("1 == 2 == 3;");
    assert!(errors.is_empty());
    match &*stmts[0] {
        Stmt::Expr(e) => match &**e {
            Expr::Binary(outer) => {
                // ((1 == 2) == 3): the left side is itself a comparison
                assert!(matches!(&*outer.0, Expr::Binary(_)));
                assert_eq!(num_of(&outer.2), 3.0);
            }
            other => panic!("expected a binary expression, got {:?}", other),
        },
        other => panic!("expected an expression statement, got {:?}", other),
    }
}

#[test]
fn unary_is_right_associative() {
    let (stmts, errors) = parse("!!true;");
    assert!(errors.is_empty());
    match &*stmts[0] {
        Stmt::Expr(e) => match &**e {
            Expr::Unary(outer) => assert!(matches!(&*outer.1, Expr::Unary(_))),
            other => panic!("expected a unary expression, got {:?}", other),
        },
        other => panic!("expected an expression statement, got {:?}", other),
    }
}

#[test]
fn grouping_overrides_precedence() {
    let (stmts, errors) = parse("(1 + 2) * 3;");
    assert!(errors.is_empty());
    match &*stmts[0] {
        Stmt::Expr(e) => match &**e {
            Expr::Binary(outer) => {
                assert_eq!(outer.1.token_type, TokenType::Star);
                assert!(matches!(&*outer.0, Expr::Grouping(_)));
            }
            other => panic!("expected a binary expression, got {:?}", other),
        },
        other => panic!("expected an expression statement, got {:?}", other),
    }
}

#[test]
fn var_declaration_builds_a_var_statement() {
    let (stmts, errors) = parse("var answer = 42;");
    assert!(errors.is_empty());
    match &*stmts[0] {
        Stmt::Var(v) => {
            assert_eq!(v.name.lexeme, "answer");
            assert_eq!(num_of(&v.initializer), 42.0);
        }
        other => panic!("expected a variable declaration, got {:?}", other),
    }
}

#[test]
fn var_without_initializer_is_a_parse_error() {
    let (stmts, errors) = parse("var x;");
    assert!(stmts.is_empty());
    assert_eq!(errors.len(), 1);
    assert_eq!(errors[0].message, "No token matched during var_declaration");
}

#[test]
fn var_without_name_is_a_parse_error() {
    let (stmts, errors) = parse("var = 1;");
    assert!(stmts.is_empty());
    assert_eq!(errors.len(), 1);
    assert_eq!(errors[0].message, "Expect variable name.");
}

#[test]
fn missing_semicolon_is_a_parse_error() {
    let (stmts, errors) = parse("print 1");
    assert!(stmts.is_empty());
    assert_eq!(errors.len(), 1);
    assert_eq!(errors[0].message, "Expect ';' after value.");
}

#[test]
fn missing_close_paren_is_a_parse_error() {
    let (stmts, errors) = parse("(1 + 2;");
    assert!(stmts.is_empty());
    assert_eq!(errors.len(), 1);
    assert_eq!(errors[0].message, "Expect ')' after expression.");
    assert_eq!(errors[0].line, 1);
}

#[test]
fn parser_synchronizes_after_an_error() {
    let (stmts, errors) = parse("1 +;\nprint 5;");
    // the malformed first statement is dropped; the second survives
    assert_eq!(errors.len(), 1);
    assert_eq!(stmts.len(), 1);
    assert!(matches!(&*stmts[0], Stmt::PrintStmt(_)));
}

#[test]
fn two_malformed_statements_surface_two_errors() {
    let (stmts, errors) = parse("1 +;\nvar x;\nprint 3;");
    assert_eq!(errors.len(), 2);
    assert_eq!(stmts.len(), 1);
}

#[test]
fn assignment_parses_right_associatively() {
    let (stmts, errors) = parse("var a = 1; a = 2;");
    assert!(errors.is_empty());
    assert_eq!(stmts.len(), 2);
    match &*stmts[1] {
        Stmt::Expr(e) => match &**e {
            Expr::Assignment(a) => {
                assert_eq!(a.name.lexeme, "a");
                assert_eq!(num_of(&a.value), 2.0);
            }
            other => panic!("expected an assignment, got {:?}", other),
        },
        other => panic!("expected an expression statement, got {:?}", other),
    }
}

#[test]
fn invalid_assignment_target_is_a_parse_error() {
    let (stmts, errors) = parse("1 = 2;");
    assert!(stmts.is_empty());
    assert_eq!(errors.len(), 1);
    assert_eq!(errors[0].message, "Invalid assignment target.");
}

#[test]
fn parse_error_carries_the_token_line() {
    let (_, errors) = parse("print 1;\nprint 2");
    assert_eq!(errors.len(), 1);
    assert_eq!(errors[0].line, 2);
}
