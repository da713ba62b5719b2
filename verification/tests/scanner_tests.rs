use rslox::ast::Literal;
use rslox::scanner::{Scanner, TokenType};

fn scan(src: &str) -> Scanner {
    let mut scanner = Scanner::new(String::from(src));
    scanner.scan_tokens();
    scanner
}

fn kinds(sc: &Scanner) -> Vec<TokenType> {
    sc.tokens.iter().map(|t| t.token_type).collect()
}

#[test]
fn empty_source_yields_only_eof() {
    let sc = scan("");
    assert_eq!(kinds(&sc), vec![TokenType::EOF]);
    assert!(sc.errors.is_empty());
}

#[test]
fn punctuation_tokens() {
    let sc = scan("(){},.-+;*/");
    assert_eq!(
        kinds(&sc),
        vec![
            TokenType::LeftParen,
            TokenType::RightParen,
            TokenType::LeftBrace,
            TokenType::RightBrace,
            TokenType::Comma,
            TokenType::Dot,
            TokenType::Minus,
            TokenType::Plus,
            TokenType::Semicolon,
            TokenType::Star,
            TokenType::Slash,
            TokenType::EOF,
        ]
    );
    assert!(sc.errors.is_empty());
}

#[test]
fn one_and_two_character_operators() {
    let sc = scan("! != = == < <= > >=");
    assert_eq!(
        kinds(&sc),
        vec![
            TokenType::Bang,
            TokenType::BangEqual,
            TokenType::Equal,
            TokenType::EqualEqual,
            TokenType::Less,
            TokenType::LessEqual,
            TokenType::Greater,
            TokenType::GreaterEqual,
            TokenType::EOF,
        ]
    );
}

#[test]
fn keywords_and_identifiers() {
    let sc = scan("var x while whilex _y and or");
    assert_eq!(
        kinds(&sc),
        vec![
            TokenType::Var,
            TokenType::Identifier,
            TokenType::While,
            TokenType::Identifier,
            TokenType::Identifier,
            TokenType::And,
            TokenType::Or,
            TokenType::EOF,
        ]
    );
    assert_eq!(sc.tokens[1].lexeme, "x");
    assert_eq!(sc.tokens[3].lexeme, "whilex");
    assert_eq!(sc.tokens[4].lexeme, "_y");
}

#[test]
fn number_literal_decodes_like_str_parse() {
    let sc = scan("123.45");
    assert_eq!(sc.tokens.len(), 2);
    match sc.tokens[0].token_type {
        TokenType::Number(bits) => {
            let direct: f64 = "123.45".parse().unwrap();
            assert_eq!(f64::from_bits(bits), direct);
        }
        ref other => panic!("expected a number token, got {:?}", other),
    }
    assert_eq!(sc.tokens[0].lexeme, "123.45");
    assert!(sc.errors.is_empty());
}

#[test]
fn integer_literal_decodes_exactly() {
    let sc = scan("42");
    match sc.tokens[0].token_type {
        TokenType::Number(bits) => assert_eq!(f64::from_bits(bits), 42.0),
        ref other => panic!("expected a number token, got {:?}", other),
    }
}

#[test]
fn number_render_round_trips_to_the_same_value() {
    // scanning a literal, rendering the decoded value, and reading the
    // rendered text back gives the very same number
    let sc = scan("123.45");
    let bits = match sc.tokens[0].token_type {
        TokenType::Number(b) => b,
        ref other => panic!("expected a number token, got {:?}", other),
    };
    let rendered = Literal::Num(bits).render();
    let reparsed: f64 = rendered.parse().unwrap();
    assert_eq!(reparsed.to_bits(), bits);
}

#[test]
fn trailing_dot_number_is_a_scan_error() {
    let sc = scan("123.");
    assert_eq!(sc.errors.len(), 1);
    assert_eq!(sc.errors[0].0, 1);
    assert_eq!(sc.errors[0].1, "Error at end: Expect property name after '.'");
    assert_eq!(kinds(&sc), vec![TokenType::EOF]);
}

#[test]
fn string_literal_round_trips() {
    let sc = scan("\"hello world\"");
    assert_eq!(sc.tokens.len(), 2);
    assert_eq!(sc.tokens[0].token_type, TokenType::String);
    assert_eq!(sc.tokens[0].literal, "hello world");
    assert_eq!(sc.tokens[0].lexeme, "\"hello world\"");
    assert!(sc.errors.is_empty());
}

#[test]
fn string_with_newline_counts_lines() {
    let sc = scan("\"a\nb\" x");
    assert_eq!(sc.tokens[0].token_type, TokenType::String);
    assert_eq!(sc.tokens[0].literal, "a\nb");
    assert_eq!(sc.tokens[0].line, 1);
    // the identifier after the two-line string sits on line 2
    assert_eq!(sc.tokens[1].token_type, TokenType::Identifier);
    assert_eq!(sc.tokens[1].line, 2);
}

#[test]
fn unterminated_string_reports_one_error_and_keeps_earlier_tokens() {
    let sc = scan("print 1; \"abc");
    assert_eq!(
        kinds(&sc),
        vec![TokenType::Print, TokenType::Number(f64::to_bits(1.0)), TokenType::Semicolon, TokenType::EOF]
    );
    assert_eq!(sc.errors.len(), 1);
    assert_eq!(sc.errors[0].0, 1);
    assert_eq!(sc.errors[0].1, "Unterminated string");
}

#[test]
fn unexpected_character_reports_error_and_scanning_goes_on() {
    let sc = scan("@ 1;");
    assert_eq!(sc.errors.len(), 1);
    assert_eq!(sc.errors[0].1, "Unexpected character @");
    assert_eq!(
        kinds(&sc),
        vec![TokenType::Number(f64::to_bits(1.0)), TokenType::Semicolon, TokenType::EOF]
    );
}

#[test]
fn unterminated_string_error_carries_its_starting_line() {
    let sc = scan("\n\n\"abc");
    assert_eq!(sc.errors.len(), 1);
    assert_eq!(sc.errors[0].0, 3);
}

#[test]
fn line_comment_produces_no_token() {
    let sc = scan("1 // comment ( ) \" \n2");
    assert_eq!(sc.tokens.len(), 3);
    assert_eq!(sc.tokens[0].line, 1);
    assert_eq!(sc.tokens[1].line, 2);
    assert!(sc.errors.is_empty());
}

#[test]
fn newlines_advance_the_line_counter() {
    let sc = scan("1\n2\n\n3");
    assert_eq!(sc.tokens[0].line, 1);
    assert_eq!(sc.tokens[1].line, 2);
    assert_eq!(sc.tokens[2].line, 4);
    assert_eq!(sc.tokens[3].line, 4);
}
