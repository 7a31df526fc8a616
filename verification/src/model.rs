//! The mathematical model of the scan: character classification, the
//! single-token step function, and the whole-input scan function that the
//! executable scanner is verified against.

use vstd::prelude::*;

use crate::token::{keyword_kind, TokenType, TokenV};

verus! {

/// Decimal digits `0` to `9`.
pub open spec fn is_dec_digit(c: char) -> bool {
    48 <= c as u32 <= 57
}

/// Hexadecimal digits `0-9`, `a-f`, `A-F`.
pub open spec fn is_hex_digit(c: char) -> bool {
    is_dec_digit(c) || 65 <= c as u32 <= 70 || 97 <= c as u32 <= 102
}

/// Binary digits `0` and `1`.
pub open spec fn is_bin_digit(c: char) -> bool {
    c == '0' || c == '1'
}

/// Whitespace that is consumed without producing a token and without
/// affecting the line counter.
pub open spec fn is_blank(c: char) -> bool {
    c == ' ' || c == '\r' || c == '\t'
}

/// Characters the scanner consumes without emitting a token: blanks and
/// the newline.
pub open spec fn is_skipped(c: char) -> bool {
    is_blank(c) || c == '\n'
}

/// The characters with a dedicated dispatch rule: delimiters, operator
/// heads, whitespace, the string quote, and the NUL sentinel.  None of
/// them is alphanumeric.
pub open spec fn is_separator_char(c: char) -> bool {
    ||| c == '(' ||| c == ')' ||| c == '{' ||| c == '}' ||| c == '[' ||| c == ']'
    ||| c == ',' ||| c == '.' ||| c == ';' ||| c == '-' ||| c == '=' ||| c == '!'
    ||| c == '>' ||| c == '<' ||| c == '&' ||| c == '|' ||| c == '+' ||| c == '*'
    ||| c == '/' ||| c == '%' ||| c == ':' ||| c == '#' ||| c == ' ' ||| c == '\r'
    ||| c == '\t' ||| c == '\n' ||| c == '"' ||| c == '\0'
}

/// Unicode alphanumeric classification, named after `char::is_alphanumeric`.
pub uninterp spec fn is_unicode_alphanumeric(c: char) -> bool;

/// A character that may stand in an identifier: alphanumeric or the
/// underscore.  (No separator is alphanumeric, so the conjunct only
/// records that fact in the model.)
pub open spec fn is_word_char(c: char) -> bool {
    (is_unicode_alphanumeric(c) && !is_separator_char(c)) || c == '_'
}

/// First position at or after `i` whose character is not a decimal digit
/// (or the end of the text).
pub open spec fn dec_digits_end(s: Seq<char>, i: nat) -> nat
    decreases s.len() - i when i <= s.len()
{
    if i >= s.len() || !is_dec_digit(s[i as int]) { i } else { dec_digits_end(s, i + 1) }
}

/// First position at or after `i` whose character is not a hex digit.
pub open spec fn hex_digits_end(s: Seq<char>, i: nat) -> nat
    decreases s.len() - i when i <= s.len()
{
    if i >= s.len() || !is_hex_digit(s[i as int]) { i } else { hex_digits_end(s, i + 1) }
}

/// First position at or after `i` whose character is not a binary digit.
pub open spec fn bin_digits_end(s: Seq<char>, i: nat) -> nat
    decreases s.len() - i when i <= s.len()
{
    if i >= s.len() || !is_bin_digit(s[i as int]) { i } else { bin_digits_end(s, i + 1) }
}

/// First position at or after `i` whose character is not a word
/// character.
pub open spec fn word_end(s: Seq<char>, i: nat) -> nat
    decreases s.len() - i when i <= s.len()
{
    if i >= s.len() || !is_word_char(s[i as int]) { i } else { word_end(s, i + 1) }
}

pub proof fn lemma_dec_digits_end(s: Seq<char>, i: nat)
    requires
        i <= s.len(),
    ensures
        i <= dec_digits_end(s, i) <= s.len(),
        forall|k: int| i <= k < dec_digits_end(s, i) ==> is_dec_digit(s[k]),
        dec_digits_end(s, i) < s.len() ==> !is_dec_digit(s[dec_digits_end(s, i) as int]),
    decreases s.len() - i,
{
    if i < s.len() && is_dec_digit(s[i as int]) {
        lemma_dec_digits_end(s, i + 1);
    }
}

pub proof fn lemma_hex_digits_end(s: Seq<char>, i: nat)
    requires
        i <= s.len(),
    ensures
        i <= hex_digits_end(s, i) <= s.len(),
        forall|k: int| i <= k < hex_digits_end(s, i) ==> is_hex_digit(s[k]),
        hex_digits_end(s, i) < s.len() ==> !is_hex_digit(s[hex_digits_end(s, i) as int]),
    decreases s.len() - i,
{
    if i < s.len() && is_hex_digit(s[i as int]) {
        lemma_hex_digits_end(s, i + 1);
    }
}

pub proof fn lemma_bin_digits_end(s: Seq<char>, i: nat)
    requires
        i <= s.len(),
    ensures
        i <= bin_digits_end(s, i) <= s.len(),
        forall|k: int| i <= k < bin_digits_end(s, i) ==> is_bin_digit(s[k]),
        bin_digits_end(s, i) < s.len() ==> !is_bin_digit(s[bin_digits_end(s, i) as int]),
    decreases s.len() - i,
{
    if i < s.len() && is_bin_digit(s[i as int]) {
        lemma_bin_digits_end(s, i + 1);
    }
}

pub proof fn lemma_word_end(s: Seq<char>, i: nat)
    requires
        i <= s.len(),
    ensures
        i <= word_end(s, i) <= s.len(),
        forall|k: int| i <= k < word_end(s, i) ==> is_word_char(s[k]),
        word_end(s, i) < s.len() ==> !is_word_char(s[word_end(s, i) as int]),
    decreases s.len() - i,
{
    if i < s.len() && is_word_char(s[i as int]) {
        lemma_word_end(s, i + 1);
    }
}

/// The numeric value of a decimal or hexadecimal digit character.
pub open spec fn digit_val(c: char) -> nat {
    let u = c as u32;
    if 48 <= u <= 57 {
        (u - 48) as nat
    } else if 65 <= u <= 70 {
        (u - 55) as nat
    } else if 97 <= u <= 102 {
        (u - 87) as nat
    } else {
        0
    }
}

/// The value of a digit string read in the given radix.
pub open spec fn radix_val(digits: Seq<char>, radix: nat) -> nat
    decreases digits.len(),
{
    if digits.len() == 0 {
        0
    } else {
        radix_val(digits.drop_last(), radix) * radix + digit_val(digits.last())
    }
}

/// Reading more digits never shrinks the decoded value.
pub proof fn lemma_radix_val_prefix(digits: Seq<char>, m: int, radix: nat)
    requires
        1 <= radix,
        0 <= m <= digits.len(),
    ensures
        radix_val(digits, radix) >= radix_val(digits.subrange(0, m), radix),
    decreases digits.len(),
{
    if m == digits.len() {
        assert(digits.subrange(0, m) =~= digits);
    } else {
        let shorter = digits.drop_last();
        assert(shorter.subrange(0, m) =~= digits.subrange(0, m));
        lemma_radix_val_prefix(shorter, m, radix);
        assert(radix_val(shorter, radix) * radix >= radix_val(shorter, radix))
            by (nonlinear_arith)
            requires
                radix >= 1,
                radix_val(shorter, radix) >= 0,
        ;
    }
}

/// The character of a single decimal digit.
pub open spec fn dec_digit_char(d: nat) -> char {
    if d == 0 { '0' }
    else if d == 1 { '1' }
    else if d == 2 { '2' }
    else if d == 3 { '3' }
    else if d == 4 { '4' }
    else if d == 5 { '5' }
    else if d == 6 { '6' }
    else if d == 7 { '7' }
    else if d == 8 { '8' }
    else { '9' }
}

/// The canonical base-10 string of a number, without sign or padding.
pub open spec fn dec_str(n: nat) -> Seq<char>
    decreases n,
{
    if n < 10 {
        seq![dec_digit_char(n)]
    } else {
        dec_str(n / 10) + seq![dec_digit_char(n % 10)]
    }
}

/// The largest integer literal value the scanner decodes (`i64::MAX`,
/// the bound of the signed decoder the literal is read with).
pub open spec fn max_literal() -> nat {
    0x7fff_ffff_ffff_ffff
}

/// The error taxonomy.  Every error aborts the whole scan.
pub enum ErrorKind {
    UnexpectedEndOfInput,
    UnterminatedString,
    InvalidHexNumber,
    InvalidBinaryNumber,
    UnexpectedCharacter,
}

/// A scan failure: its kind, the offending character (for
/// `UnexpectedCharacter`), and the line and column at which it was
/// recorded.
pub ghost struct ErrV {
    pub kind: ErrorKind,
    pub ch: Option<char>,
    pub line: nat,
    pub column: nat,
}

/// The outcome of scanning a single token at some position: a token and
/// the position after it, a silently consumed character, or a fatal
/// error.  After a token the scanner stands at `t.line`/`t.column`.
pub ghost enum Step {
    Tok { t: TokenV, next: nat },
    Skip { next: nat, line: nat, column: nat },
    Fail { e: ErrV },
}

/// The outcome of consuming a string literal's body and closing quote,
/// starting just after the opening quote.
pub ghost enum StrScan {
    Closed { next: nat, line: nat, column: nat },
    Unterminated { line: nat, column: nat },
}

/// Consumes characters until an unescaped closing quote or end of input,
/// tracking line and column across embedded newlines (a newline always
/// leaves the column counter at 0).
pub open spec fn scan_string_body(s: Seq<char>, i: nat, line: nat, column: nat) -> StrScan
    decreases s.len() - i when i <= s.len()
{
    if i >= s.len() {
        StrScan::Unterminated { line, column }
    } else if s[i as int] == '"' {
        StrScan::Closed { next: i + 1, line, column: column + 1 }
    } else if s[i as int] == '\n' {
        scan_string_body(s, i + 1, line + 1, 0)
    } else {
        scan_string_body(s, i + 1, line, column + 1)
    }
}

pub proof fn lemma_scan_string_body(s: Seq<char>, i: nat, line: nat, column: nat)
    requires
        i <= s.len(),
    ensures
        match scan_string_body(s, i, line, column) {
            StrScan::Closed { next, line: l2, column: c2 } => i < next <= s.len(),
            StrScan::Unterminated { .. } => true,
        },
    decreases s.len() - i,
{
    if i < s.len() && s[i as int] != '"' {
        if s[i as int] == '\n' {
            lemma_scan_string_body(s, i + 1, line + 1, 0);
        } else {
            lemma_scan_string_body(s, i + 1, line, column + 1);
        }
    }
}

/// A token spanning `s[start..end]`, recorded at the given position.
pub open spec fn tok_span(
    s: Seq<char>,
    start: nat,
    end: nat,
    kind: TokenType,
    lit: Option<Seq<char>>,
    line: nat,
    column: nat,
) -> Step {
    Step::Tok {
        t: TokenV {
            kind,
            lexeme: s.subrange(start as int, end as int),
            literal: lit,
            line,
            column,
        },
        next: end,
    }
}

/// A single-character token at `i`.
pub open spec fn tok1(s: Seq<char>, i: nat, line: nat, column: nat, kind: TokenType) -> Step {
    tok_span(s, i, i + 1, kind, None, line, column + 1)
}

/// A two-character-extensible operator: greedily extends to `two` when
/// the following character is `c2`, else emits `one`.
pub open spec fn op2(
    s: Seq<char>,
    i: nat,
    line: nat,
    column: nat,
    c2: char,
    two: TokenType,
    one: TokenType,
) -> Step {
    if i + 1 < s.len() && s[i + 1 as int] == c2 {
        tok_span(s, i, i + 2, two, None, line, column + 2)
    } else {
        tok1(s, i, line, column, one)
    }
}

/// A numeric literal that is not hexadecimal or binary: digits, then
/// optionally one `.` followed by at least one digit.  The kind is the
/// float kind even without a fractional part, and the literal value is
/// the raw matched text.
pub open spec fn scan_number(s: Seq<char>, i: nat, line: nat, column: nat) -> Step {
    let d1 = dec_digits_end(s, i + 1);
    let end = if d1 < s.len() && s[d1 as int] == '.' && d1 + 1 < s.len() && is_dec_digit(
        s[d1 + 1 as int],
    ) {
        dec_digits_end(s, d1 + 1)
    } else {
        d1
    };
    tok_span(
        s,
        i,
        end,
        TokenType::Float,
        Some(s.subrange(i as int, end as int)),
        line,
        (column + end - i) as nat,
    )
}

/// A hexadecimal integer literal `0x...` starting at `i`: consumes hex
/// digits after the prefix and decodes them in base 16; an empty digit
/// sequence or a value above `max_literal()` is a fatal error.
pub open spec fn scan_hex(s: Seq<char>, i: nat, line: nat, column: nat) -> Step {
    let dend = hex_digits_end(s, i + 2);
    let colv = (column + dend - i) as nat;
    let digits = s.subrange(i + 2 as int, dend as int);
    if dend == i + 2 || radix_val(digits, 16) > max_literal() {
        Step::Fail {
            e: ErrV { kind: ErrorKind::InvalidHexNumber, ch: None, line, column: colv },
        }
    } else {
        tok_span(
            s,
            i,
            dend,
            TokenType::Integer,
            Some(dec_str(radix_val(digits, 16))),
            line,
            colv,
        )
    }
}

/// A binary integer literal `0b...` starting at `i`, decoded in base 2.
pub open spec fn scan_binary(s: Seq<char>, i: nat, line: nat, column: nat) -> Step {
    let dend = bin_digits_end(s, i + 2);
    let colv = (column + dend - i) as nat;
    let digits = s.subrange(i + 2 as int, dend as int);
    if dend == i + 2 || radix_val(digits, 2) > max_literal() {
        Step::Fail {
            e: ErrV { kind: ErrorKind::InvalidBinaryNumber, ch: None, line, column: colv },
        }
    } else {
        tok_span(
            s,
            i,
            dend,
            TokenType::Integer,
            Some(dec_str(radix_val(digits, 2))),
            line,
            colv,
        )
    }
}

/// An identifier starting at `i`: consumes word characters, then looks
/// the spelling up in the keyword table.
pub open spec fn scan_ident(s: Seq<char>, i: nat, line: nat, column: nat) -> Step {
    let end = word_end(s, i + 1);
    let lex = s.subrange(i as int, end as int);
    let kind = match keyword_kind(lex) {
        Some(k) => k,
        None => TokenType::Identifier,
    };
    tok_span(s, i, end, kind, None, line, (column + end - i) as nat)
}

/// A string literal whose opening quote stands at `i`: the lexeme keeps
/// the quotes, the literal value is the text between them, verbatim.
pub open spec fn scan_string(s: Seq<char>, i: nat, line: nat, column: nat) -> Step {
    match scan_string_body(s, i + 1, line, column + 1) {
        StrScan::Closed { next, line: l2, column: c2 } => tok_span(
            s,
            i,
            next,
            TokenType::String,
            Some(s.subrange(i + 1 as int, (next - 1) as int)),
            l2,
            c2,
        ),
        StrScan::Unterminated { line: l2, column: c2 } => Step::Fail {
            e: ErrV { kind: ErrorKind::UnterminatedString, ch: None, line: l2, column: c2 },
        },
    }
}

/// Scans exactly one token at position `i` (which must not be at the end
/// of the text), dispatching on the character there.  `line` and `column`
/// are the counters before the character is consumed.
pub open spec fn scan_step(s: Seq<char>, i: nat, line: nat, column: nat) -> Step
    recommends
        i < s.len(),
{
    let c = s[i as int];
    if c == '(' {
        tok1(s, i, line, column, TokenType::Lparen)
    } else if c == ')' {
        tok1(s, i, line, column, TokenType::Rparen)
    } else if c == '{' {
        tok1(s, i, line, column, TokenType::Lbrace)
    } else if c == '}' {
        tok1(s, i, line, column, TokenType::Rbrace)
    } else if c == '[' {
        tok1(s, i, line, column, TokenType::Lbracket)
    } else if c == ']' {
        tok1(s, i, line, column, TokenType::Rbracket)
    } else if c == ',' {
        tok1(s, i, line, column, TokenType::Comma)
    } else if c == '.' {
        tok1(s, i, line, column, TokenType::Dot)
    } else if c == ';' {
        tok1(s, i, line, column, TokenType::Semicolon)
    } else if c == '-' {
        if i + 1 < s.len() && s[i + 1 as int] == '=' {
            tok_span(s, i, i + 2, TokenType::MinusEq, None, line, column + 2)
        } else if i + 1 < s.len() && s[i + 1 as int] == '-' {
            tok_span(s, i, i + 2, TokenType::MinusMinus, None, line, column + 2)
        } else if i + 1 < s.len() && s[i + 1 as int] == '>' {
            tok_span(s, i, i + 2, TokenType::Arrow, None, line, column + 2)
        } else {
            tok1(s, i, line, column, TokenType::Minus)
        }
    } else if c == '=' {
        op2(s, i, line, column, '=', TokenType::EqEq, TokenType::Eq)
    } else if c == '!' {
        op2(s, i, line, column, '=', TokenType::Neq, TokenType::Bang)
    } else if c == '>' {
        op2(s, i, line, column, '=', TokenType::Geq, TokenType::Greater)
    } else if c == '<' {
        op2(s, i, line, column, '=', TokenType::Leq, TokenType::Less)
    } else if c == '&' {
        op2(s, i, line, column, '&', TokenType::And, TokenType::BitwiseAnd)
    } else if c == '|' {
        op2(s, i, line, column, '|', TokenType::Or, TokenType::BitwiseOr)
    } else if c == '+' {
        if i + 1 < s.len() && s[i + 1 as int] == '=' {
            tok_span(s, i, i + 2, TokenType::PlusEq, None, line, column + 2)
        } else if i + 1 < s.len() && s[i + 1 as int] == '+' {
            tok_span(s, i, i + 2, TokenType::PlusPlus, None, line, column + 2)
        } else {
            tok1(s, i, line, column, TokenType::Plus)
        }
    } else if c == '*' {
        op2(s, i, line, column, '=', TokenType::StarEq, TokenType::Star)
    } else if c == '/' {
        op2(s, i, line, column, '=', TokenType::SlashEq, TokenType::Slash)
    } else if c == '%' {
        op2(s, i, line, column, '=', TokenType::PercentEq, TokenType::Percent)
    } else if c == ':' {
        op2(s, i, line, column, ':', TokenType::DoubleColon, TokenType::Colon)
    } else if c == '#' {
        op2(s, i, line, column, '#', TokenType::HashHash, TokenType::Hash)
    } else if is_blank(c) {
        Step::Skip { next: i + 1, line, column: column + 1 }
    } else if c == '\n' {
        Step::Skip { next: i + 1, line: line + 1, column: 0 }
    } else if c == '"' {
        scan_string(s, i, line, column)
    } else if is_dec_digit(c) {
        if c == '0' && i + 1 < s.len() && s[i + 1 as int] == 'x' {
            scan_hex(s, i, line, column)
        } else if c == '0' && i + 1 < s.len() && s[i + 1 as int] == 'b' {
            scan_binary(s, i, line, column)
        } else {
            scan_number(s, i, line, column)
        }
    } else if is_word_char(c) {
        scan_ident(s, i, line, column)
    } else {
        Step::Fail {
            e: ErrV {
                kind: ErrorKind::UnexpectedCharacter,
                ch: Some(c),
                line,
                column: column + 1,
            },
        }
    }
}

/// Every step consumes at least one character and stays within the text.
pub proof fn lemma_scan_step_bounds(s: Seq<char>, i: nat, line: nat, column: nat)
    requires
        i < s.len(),
    ensures
        match scan_step(s, i, line, column) {
            Step::Tok { t, next } => i < next <= s.len(),
            Step::Skip { next, .. } => next == i + 1,
            Step::Fail { .. } => true,
        },
{
    let c = s[i as int];
    if c == '"' {
        lemma_scan_string_body(s, i + 1, line, column + 1);
    } else if is_dec_digit(c) && c == '0' && i + 1 < s.len() && s[i + 1 as int] == 'x' {
        lemma_hex_digits_end(s, i + 2);
    } else if is_dec_digit(c) && c == '0' && i + 1 < s.len() && s[i + 1 as int] == 'b' {
        lemma_bin_digits_end(s, i + 2);
    } else if is_dec_digit(c) {
        lemma_dec_digits_end(s, i + 1);
        let d1 = dec_digits_end(s, i + 1);
        if d1 < s.len() && s[d1 as int] == '.' && d1 + 1 < s.len() && is_dec_digit(s[d1 + 1 as int]) {
            lemma_dec_digits_end(s, d1 + 1);
        }
    } else if is_word_char(c) {
        lemma_word_end(s, i + 1);
    }
}

/// The whole scan from position `i`: on success the token sequence ends
/// with exactly one end-of-file token; the first error aborts the scan.
pub open spec fn scan_from(s: Seq<char>, i: nat, line: nat, column: nat) -> Result<
    Seq<TokenV>,
    ErrV,
>
    decreases s.len() - i when i <= s.len()
{
    if i >= s.len() {
        Ok(
            seq![
                TokenV {
                    kind: TokenType::Eof,
                    lexeme: Seq::empty(),
                    literal: None,
                    line,
                    column,
                },
            ],
        )
    } else {
        proof {
            lemma_scan_step_bounds(s, i, line, column);
        }
        match scan_step(s, i, line, column) {
            Step::Tok { t, next } => match scan_from(s, next, t.line, t.column) {
                Ok(rest) => Ok(seq![t] + rest),
                Err(e) => Err(e),
            },
            Step::Skip { next, line: l2, column: c2 } => scan_from(s, next, l2, c2),
            Step::Fail { e } => Err(e),
        }
    }
}

/// The scan of a whole input, from its start, at line 1 and column 0.
pub open spec fn scan_spec(s: Seq<char>) -> Result<Seq<TokenV>, ErrV> {
    scan_from(s, 0, 1, 0)
}

/// First position at or after `i` holding a newline, or the end.
pub open spec fn nl_end(s: Seq<char>, i: nat) -> nat
    decreases s.len() - i when i <= s.len()
{
    if i >= s.len() || s[i as int] == '\n' { i } else { nl_end(s, i + 1) }
}

pub proof fn lemma_nl_end(s: Seq<char>, i: nat)
    requires
        i <= s.len(),
    ensures
        i <= nl_end(s, i) <= s.len(),
        forall|k: int| i <= k < nl_end(s, i) ==> s[k] != '\n',
        nl_end(s, i) < s.len() ==> s[nl_end(s, i) as int] == '\n',
    decreases s.len() - i,
{
    if i < s.len() && s[i as int] != '\n' {
        lemma_nl_end(s, i + 1);
    }
}

/// Drops a carriage return standing directly before the line break.
pub open spec fn strip_cr(l: Seq<char>) -> Seq<char> {
    if l.len() > 0 && l.last() == '\r' {
        l.drop_last()
    } else {
        l
    }
}

/// The lines of the text from position `i`, split at newlines, with a
/// carriage return before each break stripped and no final empty line
/// after a trailing newline.
pub open spec fn lines_from(s: Seq<char>, i: nat) -> Seq<Seq<char>>
    decreases s.len() - i when i <= s.len()
{
    if i >= s.len() {
        Seq::empty()
    } else {
        let j = nl_end(s, i);
        proof {
            lemma_nl_end(s, i);
        }
        if j >= s.len() {
            seq![s.subrange(i as int, s.len() as int)]
        } else {
            seq![strip_cr(s.subrange(i as int, j as int))] + lines_from(s, j + 1)
        }
    }
}

/// The spaces that align the caret under the reported column.
pub open spec fn caret_pad(column: nat) -> Seq<char> {
    if column == 0 {
        Seq::empty()
    } else {
        Seq::new((column - 1) as nat, |k: int| ' ')
    }
}

/// The message text of each error kind.
pub open spec fn base_msg(kind: ErrorKind, ch: Option<char>) -> Seq<char> {
    match kind {
        ErrorKind::UnexpectedEndOfInput => "Unexpected end of input"@,
        ErrorKind::UnterminatedString => "Unterminated string"@,
        ErrorKind::InvalidHexNumber => "Invalid hex number"@,
        ErrorKind::InvalidBinaryNumber => "Invalid binary number"@,
        ErrorKind::UnexpectedCharacter => "Unexpected character: "@ + match ch {
            Some(c) => seq![c],
            None => Seq::empty(),
        },
    }
}

/// The formatted diagnostic: a header with line number and message and,
/// when the reported line exists in the source, the line's text with a
/// caret aligned under the reported column.
pub open spec fn diagnostic(src: Seq<char>, msg: Seq<char>, line: nat, column: nat) -> Seq<
    char,
> {
    let head = "[line "@ + dec_str(line) + "] Error: "@ + msg;
    if line >= 1 && line - 1 < lines_from(src, 0).len() {
        head + "\n"@ + dec_str(line) + " | "@ + lines_from(src, 0)[line - 1] + "\n    | "@
            + caret_pad(column) + "^"@
    } else {
        head
    }
}

/// The full diagnostic of a scan failure.
pub open spec fn error_message(src: Seq<char>, e: ErrV) -> Seq<char> {
    diagnostic(src, base_msg(e.kind, e.ch), e.line, e.column)
}

} // verus!
