//! The token data model: token kinds, the token record, and the keyword
//! table that maps reserved spellings to their kinds.

use vstd::prelude::*;

verus! {

/// The closed set of lexical categories: 12 reserved keywords, single and
/// compound punctuation marks, the literal categories, and the end-of-file
/// sentinel.
#[derive(Debug, Clone, Copy, PartialEq, Eq, Structural)]
pub enum TokenType {
    // Keywords
    Fn,
    Let,
    Where,
    Switch,
    As,
    Default,
    Use,
    Struct,
    Mut,
    Range,
    Enum,
    Impl,
    // Operators and delimiters
    Eq,
    Greater,
    Less,
    Plus,
    Minus,
    Star,
    Slash,
    Percent,
    Colon,
    Comma,
    Dot,
    Semicolon,
    Lparen,
    Rparen,
    Lbrace,
    Rbrace,
    Lbracket,
    Rbracket,
    Bang,
    Hash,
    BitwiseAnd,
    BitwiseOr,
    BitwiseXor,
    // Two-character operators
    Arrow,
    EqEq,
    Neq,
    Geq,
    Leq,
    And,
    Or,
    PlusPlus,
    MinusMinus,
    PlusEq,
    MinusEq,
    StarEq,
    SlashEq,
    PercentEq,
    DoubleColon,
    DoubleDot,
    HashHash,
    // Literals
    Identifier,
    String,
    Float,
    Integer,
    // Special
    Eof,
}

/// The mathematical value of a token: its kind, the characters of its
/// lexeme and literal value, and the position at which it was recorded.
pub ghost struct TokenV {
    pub kind: TokenType,
    pub lexeme: Seq<char>,
    pub literal: Option<Seq<char>>,
    pub line: nat,
    pub column: nat,
}

/// An immutable token record: kind, the exact source substring it was
/// scanned from, the decoded literal value for string and numeric
/// literals, and the 1-based line and column where it was recorded.
#[derive(Debug, Clone)]
pub struct Token {
    pub token_type: TokenType,
    pub lexeme: String,
    pub literal: Option<String>,
    pub line: u32,
    pub column: u32,
}

impl View for Token {
    type V = TokenV;

    open spec fn view(&self) -> TokenV {
        TokenV {
            kind: self.token_type,
            lexeme: self.lexeme@,
            literal: match self.literal {
                Some(s) => Some(s@),
                None => None,
            },
            line: self.line as nat,
            column: self.column as nat,
        }
    }
}

impl Token {
    pub fn new(
        token_type: TokenType,
        lexeme: String,
        literal: Option<String>,
        line: u32,
        column: u32,
    ) -> (t: Token)
        ensures
            t@ == (TokenV {
                kind: token_type,
                lexeme: lexeme@,
                literal: match literal {
                    Some(s) => Some(s@),
                    None => None::<Seq<char>>,
                },
                line: line as nat,
                column: column as nat,
            }),
    {
        Token { token_type, lexeme, literal, line, column }
    }
}

/// The display name of a token kind.
pub open spec fn kind_name(k: TokenType) -> Seq<char> {
    match k {
        TokenType::Fn => "Fn"@,
        TokenType::Let => "Let"@,
        TokenType::Where => "Where"@,
        TokenType::Switch => "Switch"@,
        TokenType::As => "As"@,
        TokenType::Default => "Default"@,
        TokenType::Use => "Use"@,
        TokenType::Struct => "Struct"@,
        TokenType::Mut => "Mut"@,
        TokenType::Range => "Range"@,
        TokenType::Enum => "Enum"@,
        TokenType::Impl => "Impl"@,
        TokenType::Eq => "Eq"@,
        TokenType::Greater => "Greater"@,
        TokenType::Less => "Less"@,
        TokenType::Plus => "Plus"@,
        TokenType::Minus => "Minus"@,
        TokenType::Star => "Star"@,
        TokenType::Slash => "Slash"@,
        TokenType::Percent => "Percent"@,
        TokenType::Colon => "Colon"@,
        TokenType::Comma => "Comma"@,
        TokenType::Dot => "Dot"@,
        TokenType::Semicolon => "Semicolon"@,
        TokenType::Lparen => "Lparen"@,
        TokenType::Rparen => "Rparen"@,
        TokenType::Lbrace => "Lbrace"@,
        TokenType::Rbrace => "Rbrace"@,
        TokenType::Lbracket => "Lbracket"@,
        TokenType::Rbracket => "Rbracket"@,
        TokenType::Bang => "Bang"@,
        TokenType::Hash => "Hash"@,
        TokenType::BitwiseAnd => "BitwiseAnd"@,
        TokenType::BitwiseOr => "BitwiseOr"@,
        TokenType::BitwiseXor => "BitwiseXor"@,
        TokenType::Arrow => "Arrow"@,
        TokenType::EqEq => "EqEq"@,
        TokenType::Neq => "Neq"@,
        TokenType::Geq => "Geq"@,
        TokenType::Leq => "Leq"@,
        TokenType::And => "And"@,
        TokenType::Or => "Or"@,
        TokenType::PlusPlus => "PlusPlus"@,
        TokenType::MinusMinus => "MinusMinus"@,
        TokenType::PlusEq => "PlusEq"@,
        TokenType::MinusEq => "MinusEq"@,
        TokenType::StarEq => "StarEq"@,
        TokenType::SlashEq => "SlashEq"@,
        TokenType::PercentEq => "PercentEq"@,
        TokenType::DoubleColon => "DoubleColon"@,
        TokenType::DoubleDot => "DoubleDot"@,
        TokenType::HashHash => "HashHash"@,
        TokenType::Identifier => "Identifier"@,
        TokenType::String => "String"@,
        TokenType::Float => "Float"@,
        TokenType::Integer => "Integer"@,
        TokenType::Eof => "Eof"@,
    }
}

/// The display name of a token kind.
pub fn kind_name_str(k: TokenType) -> (r: &'static str)
    ensures
        r@ == kind_name(k),
{
    match k {
        TokenType::Fn => "Fn",
        TokenType::Let => "Let",
        TokenType::Where => "Where",
        TokenType::Switch => "Switch",
        TokenType::As => "As",
        TokenType::Default => "Default",
        TokenType::Use => "Use",
        TokenType::Struct => "Struct",
        TokenType::Mut => "Mut",
        TokenType::Range => "Range",
        TokenType::Enum => "Enum",
        TokenType::Impl => "Impl",
        TokenType::Eq => "Eq",
        TokenType::Greater => "Greater",
        TokenType::Less => "Less",
        TokenType::Plus => "Plus",
        TokenType::Minus => "Minus",
        TokenType::Star => "Star",
        TokenType::Slash => "Slash",
        TokenType::Percent => "Percent",
        TokenType::Colon => "Colon",
        TokenType::Comma => "Comma",
        TokenType::Dot => "Dot",
        TokenType::Semicolon => "Semicolon",
        TokenType::Lparen => "Lparen",
        TokenType::Rparen => "Rparen",
        TokenType::Lbrace => "Lbrace",
        TokenType::Rbrace => "Rbrace",
        TokenType::Lbracket => "Lbracket",
        TokenType::Rbracket => "Rbracket",
        TokenType::Bang => "Bang",
        TokenType::Hash => "Hash",
        TokenType::BitwiseAnd => "BitwiseAnd",
        TokenType::BitwiseOr => "BitwiseOr",
        TokenType::BitwiseXor => "BitwiseXor",
        TokenType::Arrow => "Arrow",
        TokenType::EqEq => "EqEq",
        TokenType::Neq => "Neq",
        TokenType::Geq => "Geq",
        TokenType::Leq => "Leq",
        TokenType::And => "And",
        TokenType::Or => "Or",
        TokenType::PlusPlus => "PlusPlus",
        TokenType::MinusMinus => "MinusMinus",
        TokenType::PlusEq => "PlusEq",
        TokenType::MinusEq => "MinusEq",
        TokenType::StarEq => "StarEq",
        TokenType::SlashEq => "SlashEq",
        TokenType::PercentEq => "PercentEq",
        TokenType::DoubleColon => "DoubleColon",
        TokenType::DoubleDot => "DoubleDot",
        TokenType::HashHash => "HashHash",
        TokenType::Identifier => "Identifier",
        TokenType::String => "String",
        TokenType::Float => "Float",
        TokenType::Integer => "Integer",
        TokenType::Eof => "Eof",
    }
}

/// The one-line rendering of a token: kind, lexeme, literal (quoted when
/// present), line, and column.
pub open spec fn token_display(t: TokenV) -> Seq<char> {
    "Token: "@ + kind_name(t.kind) + ", Lexeme: "@ + t.lexeme + ", Literal: "@ + (match t
        .literal {
        Some(l) => "Some(\""@ + l + "\")"@,
        None => "None"@,
    }) + ", Line: "@ + crate::model::dec_str(t.line) + ", Column: "@ + crate::model::dec_str(
        t.column,
    )
}

impl Token {
    /// Renders the token on one line, showing its kind, lexeme, literal,
    /// line, and column.
    pub fn to_string(&self) -> (r: String)
        ensures
            r@ == token_display(self@),
    {
        let mut v: Vec<char> = Vec::new();
        crate::text::push_str_chars(&mut v, "Token: ");
        crate::text::push_str_chars(&mut v, kind_name_str(self.token_type));
        crate::text::push_str_chars(&mut v, ", Lexeme: ");
        crate::text::push_str_chars(&mut v, self.lexeme.as_str());
        crate::text::push_str_chars(&mut v, ", Literal: ");
        match &self.literal {
            Some(l) => {
                crate::text::push_str_chars(&mut v, "Some(\"");
                crate::text::push_str_chars(&mut v, l.as_str());
                crate::text::push_str_chars(&mut v, "\")");
            },
            None => {
                crate::text::push_str_chars(&mut v, "None");
            },
        }
        crate::text::push_str_chars(&mut v, ", Line: ");
        crate::text::push_u64_dec(&mut v, self.line as u64);
        crate::text::push_str_chars(&mut v, ", Column: ");
        crate::text::push_u64_dec(&mut v, self.column as u64);
        let out = crate::text::chars_to_string(&v, 0, v.len());
        proof {
            assert(out@ =~= token_display(self@));
        }
        out
    }
}

/// The keyword table: maps a reserved spelling to its keyword kind, and
/// anything else to `None` (callers treat `None` as a plain identifier).
pub open spec fn keyword_kind(s: Seq<char>) -> Option<TokenType> {
    if s == "fn"@ {
        Some(TokenType::Fn)
    } else if s == "let"@ {
        Some(TokenType::Let)
    } else if s == "where"@ {
        Some(TokenType::Where)
    } else if s == "switch"@ {
        Some(TokenType::Switch)
    } else if s == "as"@ {
        Some(TokenType::As)
    } else if s == "default"@ {
        Some(TokenType::Default)
    } else if s == "use"@ {
        Some(TokenType::Use)
    } else if s == "struct"@ {
        Some(TokenType::Struct)
    } else if s == "mut"@ {
        Some(TokenType::Mut)
    } else if s == "range"@ {
        Some(TokenType::Range)
    } else if s == "enum"@ {
        Some(TokenType::Enum)
    } else if s == "impl"@ {
        Some(TokenType::Impl)
    } else {
        None
    }
}

/// Compares the characters of `src[start..end]` with the characters of the
/// string slice `lit`.
fn range_eq_str(src: &Vec<char>, start: usize, end: usize, lit: &str) -> (r: bool)
    requires
        start <= end <= src@.len(),
    ensures
        r == (src@.subrange(start as int, end as int) == lit@),
{
    let n = lit.unicode_len();
    if end - start != n {
        proof {
            assert(src@.subrange(start as int, end as int).len() == end - start);
        }
        return false;
    }
    let mut i: usize = 0;
    while i < n
        invariant
            start <= end <= src@.len(),
            n == lit@.len(),
            end - start == n,
            i <= n,
            forall|k: int| 0 <= k < i ==> src@[start + k] == lit@[k],
        decreases n - i,
    {
        if src[start + i] != lit.get_char(i) {
            proof {
                assert(src@.subrange(start as int, end as int)[i as int] == src@[start + i]);
            }
            return false;
        }
        i += 1;
    }
    proof {
        assert(src@.subrange(start as int, end as int) =~= lit@);
    }
    true
}

/// Looks the spelling `src[start..end]` up in the keyword table.
pub fn lookup_keyword(src: &Vec<char>, start: usize, end: usize) -> (r: Option<TokenType>)
    requires
        start <= end <= src@.len(),
    ensures
        r == keyword_kind(src@.subrange(start as int, end as int)),
{
    if range_eq_str(src, start, end, "fn") {
        Some(TokenType::Fn)
    } else if range_eq_str(src, start, end, "let") {
        Some(TokenType::Let)
    } else if range_eq_str(src, start, end, "where") {
        Some(TokenType::Where)
    } else if range_eq_str(src, start, end, "switch") {
        Some(TokenType::Switch)
    } else if range_eq_str(src, start, end, "as") {
        Some(TokenType::As)
    } else if range_eq_str(src, start, end, "default") {
        Some(TokenType::Default)
    } else if range_eq_str(src, start, end, "use") {
        Some(TokenType::Use)
    } else if range_eq_str(src, start, end, "struct") {
        Some(TokenType::Struct)
    } else if range_eq_str(src, start, end, "mut") {
        Some(TokenType::Mut)
    } else if range_eq_str(src, start, end, "range") {
        Some(TokenType::Range)
    } else if range_eq_str(src, start, end, "enum") {
        Some(TokenType::Enum)
    } else if range_eq_str(src, start, end, "impl") {
        Some(TokenType::Impl)
    } else {
        None
    }
}

} // verus!
