use lexer::scanner::Scanner;
use lexer::token::{Token, TokenType};

fn scan(src: &str) -> Result<Vec<Token>, String> {
    let mut scanner = Scanner::new(src.to_string());
    scanner.scan_tokens()
}

fn kinds(tokens: &[Token]) -> Vec<TokenType> {
    let mut out: Vec<TokenType> = Vec::new();
    for t in tokens {
        out.push(t.token_type);
    }
    out
}

#[test]
fn whitespace_only_yields_eof() {
    for src in ["", " ", "   ", " \t\r ", " \t\r\n \n "] {
        let tokens = scan(src).unwrap();
        assert_eq!(tokens.len(), 1);
        assert_eq!(tokens[0].token_type, TokenType::Eof);
        assert_eq!(tokens[0].lexeme, "");
        assert_eq!(tokens[0].literal, None);
    }
}

#[test]
fn empty_input_eof_position() {
    let tokens = scan("").unwrap();
    assert_eq!(tokens.len(), 1);
    assert_eq!(tokens[0].line, 1);
    assert_eq!(tokens[0].column, 0);
}

#[test]
fn keywords_recognized() {
    let cases: Vec<(&str, TokenType)> = vec![
        ("fn", TokenType::Fn),
        ("let", TokenType::Let),
        ("where", TokenType::Where),
        ("switch", TokenType::Switch),
        ("as", TokenType::As),
        ("default", TokenType::Default),
        ("use", TokenType::Use),
        ("struct", TokenType::Struct),
        ("mut", TokenType::Mut),
        ("range", TokenType::Range),
        ("enum", TokenType::Enum),
        ("impl", TokenType::Impl),
    ];
    for (src, kind) in cases {
        let tokens = scan(src).unwrap();
        assert_eq!(kinds(&tokens), vec![kind, TokenType::Eof], "keyword {}", src);
        assert_eq!(tokens[0].lexeme, src);
        assert_eq!(tokens[0].literal, None);
    }
}

#[test]
fn non_keyword_spelling_is_identifier() {
    for src in ["fnx", "letter", "_ab1", "a1_b2", "x", "Fn"] {
        let tokens = scan(src).unwrap();
        assert_eq!(kinds(&tokens), vec![TokenType::Identifier, TokenType::Eof], "{}", src);
        assert_eq!(tokens[0].lexeme, src);
    }
}

#[test]
fn arrow_is_one_token() {
    let tokens = scan("->").unwrap();
    assert_eq!(kinds(&tokens), vec![TokenType::Arrow, TokenType::Eof]);
    assert_eq!(tokens[0].lexeme, "->");
}

#[test]
fn decrement_is_one_token() {
    let tokens = scan("--").unwrap();
    assert_eq!(kinds(&tokens), vec![TokenType::MinusMinus, TokenType::Eof]);
    assert_eq!(tokens[0].lexeme, "--");
}

#[test]
fn minus_family_longest_match() {
    let tokens = scan("-= -- -> -").unwrap();
    assert_eq!(
        kinds(&tokens),
        vec![
            TokenType::MinusEq,
            TokenType::MinusMinus,
            TokenType::Arrow,
            TokenType::Minus,
            TokenType::Eof,
        ]
    );
}

#[test]
fn all_operators_and_delimiters() {
    let tokens = scan("( ) { } [ ] , . ; = == ! != > >= < <= & && | || + += ++ * *= / /= % %= : :: # ##").unwrap();
    assert_eq!(
        kinds(&tokens),
        vec![
            TokenType::Lparen,
            TokenType::Rparen,
            TokenType::Lbrace,
            TokenType::Rbrace,
            TokenType::Lbracket,
            TokenType::Rbracket,
            TokenType::Comma,
            TokenType::Dot,
            TokenType::Semicolon,
            TokenType::Eq,
            TokenType::EqEq,
            TokenType::Bang,
            TokenType::Neq,
            TokenType::Greater,
            TokenType::Geq,
            TokenType::Less,
            TokenType::Leq,
            TokenType::BitwiseAnd,
            TokenType::And,
            TokenType::BitwiseOr,
            TokenType::Or,
            TokenType::Plus,
            TokenType::PlusEq,
            TokenType::PlusPlus,
            TokenType::Star,
            TokenType::StarEq,
            TokenType::Slash,
            TokenType::SlashEq,
            TokenType::Percent,
            TokenType::PercentEq,
            TokenType::Colon,
            TokenType::DoubleColon,
            TokenType::Hash,
            TokenType::HashHash,
            TokenType::Eof,
        ]
    );
}

#[test]
fn hex_literal_decodes_to_decimal_string() {
    let tokens = scan("0x1A").unwrap();
    assert_eq!(kinds(&tokens), vec![TokenType::Integer, TokenType::Eof]);
    assert_eq!(tokens[0].lexeme, "0x1A");
    assert_eq!(tokens[0].literal, Some("26".to_string()));
}

#[test]
fn binary_literal_decodes_to_decimal_string() {
    let tokens = scan("0b101").unwrap();
    assert_eq!(kinds(&tokens), vec![TokenType::Integer, TokenType::Eof]);
    assert_eq!(tokens[0].lexeme, "0b101");
    assert_eq!(tokens[0].literal, Some("5".to_string()));
}

#[test]
fn float_literal_keeps_raw_text() {
    let tokens = scan("3.14").unwrap();
    assert_eq!(kinds(&tokens), vec![TokenType::Float, TokenType::Eof]);
    assert_eq!(tokens[0].lexeme, "3.14");
    assert_eq!(tokens[0].literal, Some("3.14".to_string()));
}

#[test]
fn plain_integer_is_float_kind() {
    let tokens = scan("42").unwrap();
    assert_eq!(kinds(&tokens), vec![TokenType::Float, TokenType::Eof]);
    assert_eq!(tokens[0].literal, Some("42".to_string()));
}

#[test]
fn trailing_dot_is_separate_token() {
    let tokens = scan("3.").unwrap();
    assert_eq!(kinds(&tokens), vec![TokenType::Float, TokenType::Dot, TokenType::Eof]);
    assert_eq!(tokens[0].literal, Some("3".to_string()));
}

#[test]
fn binary_literal_stops_at_other_digit() {
    let tokens = scan("0b102").unwrap();
    assert_eq!(
        kinds(&tokens),
        vec![TokenType::Integer, TokenType::Float, TokenType::Eof]
    );
    assert_eq!(tokens[0].literal, Some("2".to_string()));
    assert_eq!(tokens[1].literal, Some("2".to_string()));
}

#[test]
fn string_literal_value_has_no_quotes() {
    let tokens = scan("\"abc\"").unwrap();
    assert_eq!(kinds(&tokens), vec![TokenType::String, TokenType::Eof]);
    assert_eq!(tokens[0].lexeme, "\"abc\"");
    assert_eq!(tokens[0].literal, Some("abc".to_string()));
}

#[test]
fn string_literal_keeps_contents_verbatim() {
    let tokens = scan("\"a b\\n\"").unwrap();
    assert_eq!(kinds(&tokens), vec![TokenType::String, TokenType::Eof]);
    assert_eq!(tokens[0].literal, Some("a b\\n".to_string()));
}

#[test]
fn multiline_string_tracks_lines() {
    let tokens = scan("\"a\nb\"").unwrap();
    assert_eq!(kinds(&tokens), vec![TokenType::String, TokenType::Eof]);
    assert_eq!(tokens[0].literal, Some("a\nb".to_string()));
    assert_eq!(tokens[0].line, 2);
    assert_eq!(tokens[0].column, 2);
}

#[test]
fn identifier_line_and_column() {
    let tokens = scan("a\nbb").unwrap();
    assert_eq!(
        kinds(&tokens),
        vec![TokenType::Identifier, TokenType::Identifier, TokenType::Eof]
    );
    assert_eq!(tokens[0].line, 1);
    assert_eq!(tokens[0].column, 1);
    assert_eq!(tokens[1].lexeme, "bb");
    assert_eq!(tokens[1].line, 2);
    assert_eq!(tokens[1].column, 2);
}

#[test]
fn newline_resets_column_counter() {
    let tokens = scan("\na").unwrap();
    assert_eq!(tokens[0].line, 2);
    assert_eq!(tokens[0].column, 1);
}

#[test]
fn round_trip_concatenation() {
    let src = "let x=5;\nfn(y) -> 0x1F";
    let tokens = scan(src).unwrap();
    let mut joined = String::new();
    for t in &tokens {
        joined.push_str(&t.lexeme);
    }
    let expected: String = src.chars().filter(|c| !c.is_whitespace()).collect();
    assert_eq!(joined, expected);
}

#[test]
fn scanning_twice_is_identical() {
    let src = "let x = 0x1F \"s\" 3.5 ->";
    let a = scan(src).unwrap();
    let b = scan(src).unwrap();
    assert_eq!(a.len(), b.len());
    for (ta, tb) in a.iter().zip(b.iter()) {
        assert_eq!(ta.to_string(), tb.to_string());
    }
}
