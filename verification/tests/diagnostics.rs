use lexer::scanner::Scanner;
use lexer::token::{Token, TokenType};

fn scan(src: &str) -> Result<Vec<Token>, String> {
    let mut scanner = Scanner::new(src.to_string());
    scanner.scan_tokens()
}

#[test]
fn unexpected_character_message() {
    let err = scan("@").unwrap_err();
    assert_eq!(err, "[line 1] Error: Unexpected character: @\n1 | @\n    | ^");
}

#[test]
fn unexpected_character_on_second_line() {
    let err = scan("ab\ncd@").unwrap_err();
    assert_eq!(err, "[line 2] Error: Unexpected character: @\n2 | cd@\n    |   ^");
}

#[test]
fn unexpected_character_after_crlf() {
    let err = scan("ab\r\ncd@").unwrap_err();
    assert_eq!(err, "[line 2] Error: Unexpected character: @\n2 | cd@\n    |   ^");
}

#[test]
fn unterminated_string_message() {
    let err = scan("\"abc").unwrap_err();
    assert_eq!(err, "[line 1] Error: Unterminated string\n1 | \"abc\n    |    ^");
}

#[test]
fn unterminated_string_across_newline() {
    let err = scan("\"ab\nc").unwrap_err();
    assert_eq!(err, "[line 2] Error: Unterminated string\n2 | c\n    | ^");
}

#[test]
fn invalid_hex_empty_digits() {
    let err = scan("0x").unwrap_err();
    assert_eq!(err, "[line 1] Error: Invalid hex number\n1 | 0x\n    |  ^");
}

#[test]
fn invalid_hex_no_digit_follows() {
    let err = scan("0xZ").unwrap_err();
    assert_eq!(err, "[line 1] Error: Invalid hex number\n1 | 0xZ\n    |  ^");
}

#[test]
fn invalid_hex_overflow() {
    let err = scan("0xFFFFFFFFFFFFFFFF").unwrap_err();
    assert!(err.starts_with("[line 1] Error: Invalid hex number"));
}

#[test]
fn hex_at_signed_bound_still_decodes() {
    let tokens = scan("0x7FFFFFFFFFFFFFFF").unwrap();
    assert_eq!(tokens[0].token_type, TokenType::Integer);
    assert_eq!(tokens[0].literal, Some("9223372036854775807".to_string()));
}

#[test]
fn invalid_binary_empty_digits() {
    let err = scan("0b").unwrap_err();
    assert_eq!(err, "[line 1] Error: Invalid binary number\n1 | 0b\n    |  ^");
}

#[test]
fn invalid_binary_bad_digit() {
    let err = scan("0b2").unwrap_err();
    assert_eq!(err, "[line 1] Error: Invalid binary number\n1 | 0b2\n    |  ^");
}

#[test]
fn failed_scan_returns_no_tokens() {
    assert!(scan("let x = @").is_err());
}

#[test]
fn token_display_with_literal() {
    let t = Token::new(
        TokenType::Float,
        "3.14".to_string(),
        Some("3.14".to_string()),
        1,
        4,
    );
    assert_eq!(
        t.to_string(),
        "Token: Float, Lexeme: 3.14, Literal: Some(\"3.14\"), Line: 1, Column: 4"
    );
}

#[test]
fn token_display_without_literal() {
    let t = Token::new(TokenType::Semicolon, ";".to_string(), None, 2, 8);
    assert_eq!(
        t.to_string(),
        "Token: Semicolon, Lexeme: ;, Literal: None, Line: 2, Column: 8"
    );
}
