use rslox::ast::Literal;
use rslox::env::Environment;
use rslox::interpreter::{Interpreter, RuntimeError};
use rslox::parser::Parser;
use rslox::scanner::{Scanner, Token, TokenType};

fn run(src: &str) -> (Vec<String>, Option<RuntimeError>) {
    let mut scanner = Scanner::new(String::from(src));
    scanner.scan_tokens();
    assert!(scanner.errors.is_empty(), "unexpected scan errors");
    let mut parser = Parser::new(scanner.tokens);
    let (stmts, errors) = parser.parse();
    assert!(errors.is_empty(), "unexpected parse errors");
    let mut interpreter = Interpreter::new();
    let result = interpreter.interpret(stmts);
    (interpreter.output, result.err())
}

fn output_of(src: &str) -> Vec<String> {
    let (output, err) = run(src);
    assert!(err.is_none(), "unexpected runtime error: {:?}", err);
    output
}

fn error_of(src: &str) -> RuntimeError {
    let (_, err) = run(src);
    err.expect("expected a runtime error")
}

fn name_token(name: &str) -> Token {
    Token {
        token_type: TokenType::Identifier,
        lexeme: String::from(name),
        literal: String::from(name),
        line: 7,
    }
}

#[test]
fn variable_lifecycle_emits_two() {
    let output = output_of("var x = 1; x = x + 1; print x;");
    assert_eq!(output, vec!["2"]);
}

#[test]
fn precedence_evaluates_to_seven() {
    assert_eq!(output_of("print 1 + 2 * 3;"), vec!["7"]);
}

#[test]
fn grouping_evaluates_to_nine() {
    assert_eq!(output_of("print (1 + 2) * 3;"), vec!["9"]);
}

#[test]
fn arithmetic_operators() {
    assert_eq!(output_of("print 1 - 3;"), vec!["-2"]);
    assert_eq!(output_of("print 2 * 3;"), vec!["6"]);
    assert_eq!(output_of("print 10 / 4;"), vec!["2.5"]);
    assert_eq!(output_of("print -5;"), vec!["-5"]);
    assert_eq!(output_of("print 0.5 + 0.25;"), vec!["0.75"]);
}

#[test]
fn comparison_operators() {
    assert_eq!(output_of("print 1 < 2;"), vec!["true"]);
    assert_eq!(output_of("print 2 <= 2;"), vec!["true"]);
    assert_eq!(output_of("print 3 > 2;"), vec!["true"]);
    assert_eq!(output_of("print 1 >= 2;"), vec!["false"]);
}

#[test]
fn string_concatenation_succeeds() {
    assert_eq!(output_of("print \"a\" + \"b\";"), vec!["ab"]);
}

#[test]
fn string_literal_round_trips_through_evaluation() {
    assert_eq!(output_of("print \"hello world\";"), vec!["hello world"]);
}

#[test]
fn number_plus_string_fails_at_the_operator_line() {
    let err = error_of("print 1 + \"a\";");
    assert_eq!(err.0, 1);
    assert_eq!(err.1, "`1` Not a String");
}

#[test]
fn string_plus_number_names_the_right_operand() {
    let err = error_of("print \"a\" + 1;");
    assert_eq!(err.1, "`1` Not a String");
}

#[test]
fn arithmetic_on_a_string_fails_with_nan_message() {
    let err = error_of("print 2 * \"a\";");
    assert_eq!(err.0, 1);
    assert_eq!(err.1, "`a` NaN");
}

#[test]
fn unary_minus_needs_a_number() {
    let err = error_of("print -\"a\";");
    assert_eq!(err.1, "`a` NaN");
}

#[test]
fn equality_semantics_across_variants() {
    assert_eq!(output_of("print nil == false;"), vec!["false"]);
    assert_eq!(output_of("print nil == nil;"), vec!["true"]);
    assert_eq!(output_of("print 1 == 1;"), vec!["true"]);
    assert_eq!(output_of("print 1 == 2;"), vec!["false"]);
    assert_eq!(output_of("print \"a\" == \"a\";"), vec!["true"]);
    assert_eq!(output_of("print 1 != 2;"), vec!["true"]);
    assert_eq!(output_of("print 1 == \"1\";"), vec!["false"]);
}

#[test]
fn truthiness_of_values() {
    assert_eq!(output_of("print !nil;"), vec!["true"]);
    assert_eq!(output_of("print !false;"), vec!["true"]);
    assert_eq!(output_of("print !0;"), vec!["false"]);
    assert_eq!(output_of("print !\"\";"), vec!["false"]);
}

#[test]
fn print_renders_booleans_and_nil() {
    assert_eq!(output_of("print true; print false; print nil;"), vec!["true", "false", "nil"]);
}

#[test]
fn undefined_variable_fails_at_its_line() {
    let err = error_of("print 1;\nprint y;");
    assert_eq!(err.0, 2);
    assert_eq!(err.1, "Undefined variable y");
}

#[test]
fn assignment_to_undeclared_name_fails() {
    let err = error_of("x = 1;");
    assert_eq!(err.1, "Undefined variable x");
}

#[test]
fn assignment_is_an_expression_yielding_its_value() {
    assert_eq!(output_of("var x = 1; print x = 5;"), vec!["5"]);
}

#[test]
fn redefinition_overwrites() {
    assert_eq!(output_of("var x = 1; var x = 2; print x;"), vec!["2"]);
}

#[test]
fn execution_stops_at_the_first_failing_statement() {
    let (output, err) = run("print 1; print y; print 2;");
    assert_eq!(output, vec!["1"]);
    assert!(err.is_some());
}

#[test]
fn literal_evaluation_is_idempotent_across_fresh_environments() {
    let first = output_of("print 42;");
    let second = output_of("print 42;");
    assert_eq!(first, second);
    let grouped = output_of("print (42);");
    assert_eq!(first, grouped);
}

#[test]
fn environment_persists_across_interpret_calls() {
    let mut scanner = Scanner::new(String::from("var x = 10;"));
    scanner.scan_tokens();
    let (stmts, _) = Parser::new(scanner.tokens).parse();
    let mut interpreter = Interpreter::new();
    interpreter.interpret(stmts).unwrap();

    let mut scanner2 = Scanner::new(String::from("print x + 1;"));
    scanner2.scan_tokens();
    let (stmts2, _) = Parser::new(scanner2.tokens).parse();
    interpreter.interpret(stmts2).unwrap();
    assert_eq!(interpreter.output, vec!["11"]);
}

#[test]
fn number_scan_matches_direct_conversion() {
    // scanning, parsing and evaluating a numeric literal gives exactly the
    // text-to-double conversion of its text
    let mut scanner = Scanner::new(String::from("var n = 123.45; print n == 123.45;"));
    scanner.scan_tokens();
    let (stmts, _) = Parser::new(scanner.tokens).parse();
    let mut interpreter = Interpreter::new();
    interpreter.interpret(stmts).unwrap();
    assert_eq!(interpreter.output, vec!["true"]);
}

#[test]
fn environment_define_get_assign() {
    let mut env = Environment::new();
    let x = name_token("x");
    assert!(env.get(&x).is_err());
    env.define(&x, Literal::Num(f64::to_bits(3.0)));
    match env.get(&x).unwrap() {
        Literal::Num(bits) => assert_eq!(f64::from_bits(bits), 3.0),
        other => panic!("expected a number, got {:?}", other),
    }
    env.assign(&x, Literal::Bool(true)).unwrap();
    assert!(matches!(env.get(&x).unwrap(), Literal::Bool(true)));
    let y = name_token("y");
    let err = env.assign(&y, Literal::Nil).unwrap_err();
    assert_eq!(err.0, 7);
    assert_eq!(err.1, "Undefined variable y");
}

#[test]
fn literal_helpers_behave() {
    let num = Literal::Num(f64::to_bits(1.5));
    let text = Literal::Str(String::from("hi"));
    assert!(num.is_truthy());
    assert!(text.is_truthy());
    assert!(!Literal::Nil.is_truthy());
    assert!(!Literal::Bool(false).is_truthy());
    assert_eq!(num.try_num().unwrap(), f64::to_bits(1.5));
    assert_eq!(text.try_num().unwrap_err(), "`hi` NaN");
    assert_eq!(text.try_string().unwrap(), "hi");
    assert_eq!(num.try_string().unwrap_err(), "`1.5` Not a String");
    assert_eq!(num.render(), "1.5");
    assert_eq!(Literal::Nil.render(), "nil");
    assert!(num.equals(&Literal::Num(f64::to_bits(1.5))));
    assert!(!num.equals(&text));
    assert!(Literal::Nil.equals(&Literal::Nil));
}
