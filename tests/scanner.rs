use cloxers::error::InterpreterError;
use cloxers::scanner::Scanner;
use cloxers::token::{Token, TokenType};

#[test]
fn parse_keywords() {
    let sources = vec![
        "and", "class", "else", "false", "for", "fun", "if", "nil", "or", "print", "return",
        "super", "this", "true", "var", "while",
    ];
    for source in sources {
        let (start, end) = source.split_at(1);
        let mut scanner = Scanner::new(end);
        let token = scanner.scan_identifier(start.chars().nth(0).expect("missing chars"));
        println!("{:?}", token);
        assert_eq!(token.is_ok(), true);
        let token = token.unwrap();
        assert!(token.is_some());
        let token = token.unwrap();
        assert!(token.lexeme.is_some());
        assert!(token.token_type.is_keyword());
    }
}

#[test]
fn scan_identifiers() {
    let sources = vec![
        "andifer",
        "classifier",
        "elseifer",
        "falsifier",
        "former",
        "funder",
        "if_stuff_8",
        "Nihilo",
        "orCh1d5_87_Z",
        "prints",
        "returns",
        "supers",
        "thises",
        "true_s",
        "v_a_r",
        "whilest",
    ];
    for source in sources {
        let (start, end) = source.split_at(1);
        let mut scanner = Scanner::new(end);
        let token = scanner.scan_identifier(start.chars().nth(0).expect("missing chars"));
        println!("{:?}", token);
        assert_eq!(token.is_ok(), true);
        let token = token.unwrap();
        assert!(token.is_some());
        let token = token.unwrap();
        assert!(token.lexeme.is_some());
        assert!(!token.token_type.is_keyword());
    }
}

#[test]
fn test_scan_number() {
    let sources: Vec<&str> = vec!["23", "23.45"];
    for source in sources {
        let mut scanner = Scanner::new(source);
        let token = scanner.scan_number('1');
        println!("{:?}", token);
        assert_eq!(token.is_ok(), true);
        let token = token.unwrap();
        assert!(token.is_some());
        let token = token.unwrap();
        assert!(token.lexeme.is_some());
        assert_eq!(token.token_type, TokenType::Number);
    }
}

#[test]
fn test_scan_string() {
    // a string handed to this method has no opening quote
    let source = "hello world\"";
    let mut scanner = Scanner::new(source);
    let token = scanner.scan_string();
    println!("{:?}", token);
    assert_eq!(token.is_ok(), true);
    let token = token.unwrap();
    assert!(token.is_some());
    let token = token.unwrap();
    assert_eq!(token.token_type, TokenType::String);
    assert_eq!(token.lexeme, Some("hello world".to_string()));
}

#[test]
fn test_scan_tokens_string() {
    let source = "\"hello world\"";
    let mut scanner = Scanner::new(source);
    let tokens = scanner.scan_tokens().unwrap();
    assert_eq!(tokens.len(), 2);
    assert_eq!(tokens[0].token_type, TokenType::String);
    assert_eq!(tokens[1].token_type, TokenType::Eof);
}

#[test]
fn test_scan_various() {
    let cases = vec![
        "// this is a comment",
        "(( )){} // grouping stuff",
        "!*+-/=<> <= == // operators",
    ];
    for case in cases {
        let mut scanner = Scanner::new(case);
        assert!(scanner.scan_tokens().is_ok());
    }
}

#[test]
fn test_scan_tokens() {
    let source = "var a = 1;";
    let mut scanner = Scanner::new(source);
    let tokens = scanner.scan_tokens().unwrap();
    assert_eq!(tokens.len(), 6);
    assert_eq!(tokens[0].token_type, TokenType::Var);
    assert_eq!(tokens[1].token_type, TokenType::Identifier);
    assert_eq!(tokens[2].token_type, TokenType::Equal);
    assert_eq!(tokens[3].token_type, TokenType::Number);
    assert_eq!(tokens[4].token_type, TokenType::Semicolon);
    assert_eq!(tokens[5].token_type, TokenType::Eof);
}

#[test]
fn scan_operators_exactly() {
    let mut scanner = Scanner::new("!*+-/=<> <= == // operators");
    let kinds: Vec<TokenType> = scanner.scan_tokens().unwrap().iter().map(|t| t.token_type).collect();
    assert_eq!(
        kinds,
        vec![
            TokenType::Bang,
            TokenType::Star,
            TokenType::Plus,
            TokenType::Minus,
            TokenType::Slash,
            TokenType::Equal,
            TokenType::Less,
            TokenType::Greater,
            TokenType::LessEqual,
            TokenType::EqualEqual,
            TokenType::Eof,
        ]
    );
}

#[test]
fn scan_lines_columns_and_lexemes() {
    let mut scanner = Scanner::new("var x\n= 12.5;\n\"a\nb\" or");
    let tokens = scanner.scan_tokens().unwrap();
    let lexemes: Vec<Option<String>> = tokens.iter().map(|t| t.lexeme.clone()).collect();
    assert_eq!(
        lexemes,
        vec![
            Some("var".to_string()),
            Some("x".to_string()),
            None,
            Some("12.5".to_string()),
            None,
            Some("a\nb".to_string()),
            Some("or".to_string()),
            None,
        ]
    );
    let lines: Vec<usize> = tokens.iter().map(|t| t.line).collect();
    assert_eq!(lines, vec![1, 1, 2, 2, 2, 4, 4, 4]);
    assert_eq!(tokens[1].column, 4);
    assert_eq!(tokens[6].token_type, TokenType::Or);
    assert_eq!(tokens[7].column, tokens[6].column);
    assert_eq!(scanner.line, 4);
}

#[test]
fn scan_number_with_trailing_point() {
    let mut scanner = Scanner::new("7.");
    let tokens = scanner.scan_tokens().unwrap();
    assert_eq!(tokens[0].lexeme, Some("7.".to_string()));
    assert_eq!(tokens.len(), 2);
}

#[test]
fn scan_empty_source_gives_only_eof() {
    let mut scanner = Scanner::new("");
    let tokens = scanner.scan_tokens().unwrap();
    assert_eq!(tokens.len(), 1);
    assert_eq!(tokens[0].token_type, TokenType::Eof);
    assert_eq!(tokens[0].line, 1);
}

#[test]
fn scan_unexpected_character_is_an_error() {
    let mut scanner = Scanner::new("a @ b");
    let r = scanner.scan_tokens();
    assert_eq!(r.unwrap_err(), InterpreterError::ScannerError(Some("@".to_string())));
}

#[test]
fn scan_unterminated_string_is_an_error() {
    let mut scanner = Scanner::new("\"abc");
    let r = scanner.scan_tokens();
    assert_eq!(r.unwrap_err(), InterpreterError::ScannerError(None));
}

#[test]
fn scan_unicode_letters_in_identifiers() {
    let mut scanner = Scanner::new("");
    let token = scanner.scan_identifier('é').unwrap().unwrap();
    assert_eq!(token.token_type, TokenType::Identifier);
    assert_eq!(token.lexeme, Some("é".to_string()));
    let mut scanner = Scanner::new("\u{3b1}\u{3b2} x");
    let token = scanner.scan_identifier('q').unwrap().unwrap();
    assert_eq!(token.lexeme, Some("q\u{3b1}\u{3b2}".to_string()));
}

#[test]
fn keyword_lookup() {
    assert_eq!(TokenType::scan_for_keyword("while"), Some(TokenType::While));
    assert_eq!(TokenType::scan_for_keyword("whilst"), None);
    assert_eq!(TokenType::scan_for_keyword(""), None);
    assert!(!TokenType::Identifier.is_keyword());
}

#[test]
fn token_text() {
    let t = Token::new(TokenType::Number, Some("12".to_string()), 3, 7);
    assert_eq!(t.describe(), "[3::7] Number => '12'");
    let e = Token::end(10, 0);
    assert_eq!(e.describe(), "[10::0] Eof => ''");
    assert_eq!(TokenType::LeftParen.name(), "LeftParen");
}
