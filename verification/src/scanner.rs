//! The scanning engine: a single-pass scanner over the source text that
//! is verified to produce exactly the token sequence (or the diagnostic)
//! that the model in `model` describes.

use vstd::prelude::*;
use vstd::string::StrSliceExecFns;

use crate::model::{
    caret_pad, diagnostic, error_message, lemma_nl_end, lines_from, nl_end, scan_binary,
    scan_from, scan_hex, scan_ident, scan_number, scan_spec, scan_step, scan_string_body,
    strip_cr, ErrV, ErrorKind, Step, StrScan,
};
use crate::text::{
    bin_digit, chars_to_string, dec_digit, emit_diagnostic, hex_digit, parse_radix, push_range,
    push_str_chars, push_u64_dec, word_char,
};
use crate::token::{lookup_keyword, Token, TokenType, TokenV};

verus! {

/// The views of a sequence of token records.
pub open spec fn token_views(ts: Seq<Token>) -> Seq<TokenV> {
    ts.map_values(|t: Token| t@)
}

/// The position of a line within the source text, for the diagnostic:
/// `Some((a, b))` when the requested line is `src[a..b]`.
pub open spec fn nth_line_spec(s: Seq<char>, i: nat, k: nat) -> Option<Seq<char>> {
    if k < lines_from(s, i).len() {
        Some(lines_from(s, i)[k as int])
    } else {
        None
    }
}

/// Finds the first newline at or after `start`, or the end of the text.
fn line_break_from(src: &Vec<char>, start: usize) -> (j: usize)
    requires
        start <= src@.len(),
    ensures
        j == nl_end(src@, start as nat),
        start <= j <= src@.len(),
{
    proof {
        lemma_nl_end(src@, start as nat);
    }
    let mut i: usize = start;
    while i < src.len() && src[i] != '\n'
        invariant
            start <= i <= src@.len(),
            nl_end(src@, i as nat) == nl_end(src@, start as nat),
        decreases src@.len() - i,
    {
        i += 1;
    }
    i
}

/// Finds the `k`-th line of the source text, as `str::lines` counts
/// them: split at newlines, a carriage return before the break stripped,
/// no final empty line after a trailing newline.
fn nth_line(src: &Vec<char>, k0: usize) -> (r: Option<(usize, usize)>)
    ensures
        match r {
            Some(se) => {
                &&& k0 < lines_from(src@, 0).len()
                &&& se.0 <= se.1 <= src@.len()
                &&& lines_from(src@, 0)[k0 as int] == src@.subrange(se.0 as int, se.1 as int)
            },
            None => k0 >= lines_from(src@, 0).len(),
        },
{
    let mut start: usize = 0;
    let mut k: usize = k0;
    loop
        invariant
            start <= src@.len(),
            nth_line_spec(src@, start as nat, k as nat) == nth_line_spec(src@, 0, k0 as nat),
            (k0 < lines_from(src@, 0).len()) == (k < lines_from(src@, start as nat).len()),
        decreases src@.len() - start,
    {
        if start >= src.len() {
            return None;
        }
        let j = line_break_from(src, start);
        proof {
            lemma_nl_end(src@, start as nat);
        }
        if k == 0 {
            if j >= src.len() {
                proof {
                    assert(lines_from(src@, start as nat)[0] == src@.subrange(
                        start as int,
                        src@.len() as int,
                    ));
                }
                return Some((start, src.len()));
            } else {
                let line_seq = Ghost(src@.subrange(start as int, j as int));
                let e = if j > start && src[j - 1] == '\r' {
                    j - 1
                } else {
                    j
                };
                proof {
                    if j > start && src@[j - 1] == '\r' {
                        assert(line_seq@.last() == src@[j - 1]);
                        assert(strip_cr(line_seq@) =~= src@.subrange(start as int, (j - 1) as int));
                    } else {
                        assert(strip_cr(line_seq@) == line_seq@);
                    }
                    assert(lines_from(src@, start as nat)[0] == strip_cr(line_seq@));
                }
                return Some((start, e));
            }
        } else {
            if j >= src.len() {
                return None;
            }
            proof {
                assert(lines_from(src@, start as nat) == seq![
                    strip_cr(src@.subrange(start as int, j as int)),
                ] + lines_from(src@, (j + 1) as nat));
            }
            start = j + 1;
            k = k - 1;
        }
    }
}

/// The scanner state: the source text, the tokens emitted so far, the
/// span of the token being scanned, and the line and column counters.
pub struct Scanner {
    pub source: Vec<char>,
    pub tokens: Vec<Token>,
    pub start: usize,
    pub current: usize,
    pub line: u32,
    pub column: u32,
}

impl Scanner {
    /// The state invariant: the scanned span lies within the source, the
    /// source is small enough for the 32-bit position counters, the
    /// column never exceeds the cursor, and the line counter is 1-based
    /// and bounded by the characters consumed.
    pub open spec fn inv(self) -> bool {
        &&& self.start <= self.current <= self.source@.len()
        &&& self.source@.len() < 0xFFFF_FFFF
        &&& self.column as nat <= self.current as nat
        &&& 1 <= self.line
        &&& self.line as nat <= 1 + self.current as nat
    }

    /// A freshly constructed scanner: nothing consumed, nothing emitted,
    /// at line 1 and column 0.
    pub open spec fn ready(self) -> bool {
        &&& self.current == 0
        &&& self.start == 0
        &&& self.line == 1
        &&& self.column == 0
        &&& self.tokens@ == Seq::<Token>::empty()
    }

    /// Builds a scanner over the given source text.
    pub fn new(source: String) -> (s: Scanner)
        ensures
            s.source@ == source@,
            s.ready(),
    {
        let n = source.as_str().unicode_len();
        let mut chars: Vec<char> = Vec::new();
        let mut i: usize = 0;
        while i < n
            invariant
                n == source@.len(),
                i <= n,
                chars@ == source@.subrange(0, i as int),
            decreases n - i,
        {
            let c = source.as_str().get_char(i);
            chars.push(c);
            proof {
                assert(source@.subrange(0, i + 1) =~= source@.subrange(0, i as int).push(
                    source@[i as int],
                ));
            }
            i += 1;
        }
        proof {
            assert(source@.subrange(0, n as int) =~= source@);
        }
        Scanner { source: chars, tokens: Vec::new(), start: 0, current: 0, line: 1, column: 0 }
    }

    fn is_at_end(&self) -> (r: bool)
        ensures
            r == (self.current >= self.source@.len()),
    {
        self.current >= self.source.len()
    }

    /// Consumes one character, advancing the cursor and the column.
    fn advance(&mut self) -> (r: Option<char>)
        requires
            old(self).inv(),
        ensures
            final(self).inv(),
            final(self).source == old(self).source,
            final(self).tokens == old(self).tokens,
            final(self).start == old(self).start,
            final(self).line == old(self).line,
            if old(self).current < old(self).source@.len() {
                &&& r == Some(old(self).source@[old(self).current as int])
                &&& final(self).current == old(self).current + 1
                &&& final(self).column == old(self).column + 1
            } else {
                &&& r is None
                &&& *final(self) == *old(self)
            },
    {
        if self.is_at_end() {
            return None;
        }
        let c = self.source[self.current];
        self.current = self.current + 1;
        self.column = self.column + 1;
        Some(c)
    }

    /// The next unconsumed character, or NUL at the end of the text.
    fn peek(&self) -> (c: char)
        ensures
            c == (if self.current < self.source@.len() {
                self.source@[self.current as int]
            } else {
                '\0'
            }),
    {
        if self.is_at_end() {
            return '\0';
        }
        self.source[self.current]
    }

    /// The character after the next one, or NUL past the end.
    fn peek_next(&self) -> (c: char)
        requires
            self.inv(),
        ensures
            c == (if self.current + 1 < self.source@.len() {
                self.source@[self.current + 1]
            } else {
                '\0'
            }),
    {
        if self.current + 1 >= self.source.len() {
            return '\0';
        }
        self.source[self.current + 1]
    }

    /// Consumes the next character exactly when it equals `expected`.
    fn match_char(&mut self, expected: char) -> (r: bool)
        requires
            old(self).inv(),
        ensures
            final(self).inv(),
            final(self).source == old(self).source,
            final(self).tokens == old(self).tokens,
            final(self).start == old(self).start,
            final(self).line == old(self).line,
            if old(self).current < old(self).source@.len() && old(self).source@[old(
                self,
            ).current as int] == expected {
                &&& r
                &&& final(self).current == old(self).current + 1
                &&& final(self).column == old(self).column + 1
            } else {
                &&& !r
                &&& *final(self) == *old(self)
            },
    {
        if self.is_at_end() {
            return false;
        }
        if self.source[self.current] != expected {
            return false;
        }
        self.current = self.current + 1;
        self.column = self.column + 1;
        true
    }

    /// Emits a token spanning `source[start..current]` with no literal
    /// value, recorded at the current line and column.
    fn add_token(&mut self, token_type: TokenType)
        requires
            old(self).inv(),
        ensures
            final(self).inv(),
            final(self).source == old(self).source,
            final(self).start == old(self).start,
            final(self).current == old(self).current,
            final(self).line == old(self).line,
            final(self).column == old(self).column,
            token_views(final(self).tokens@) == token_views(old(self).tokens@).push(
                (TokenV {
                    kind: token_type,
                    lexeme: old(self).source@.subrange(
                        old(self).start as int,
                        old(self).current as int,
                    ),
                    literal: None,
                    line: old(self).line as nat,
                    column: old(self).column as nat,
                }),
            ),
    {
        let text = chars_to_string(&self.source, self.start, self.current);
        let tok = Token::new(token_type, text, None, self.line, self.column);
        self.tokens.push(tok);
        proof {
            assert(token_views(self.tokens@) =~= token_views(old(self).tokens@).push(
                (TokenV {
                    kind: token_type,
                    lexeme: old(self).source@.subrange(
                        old(self).start as int,
                        old(self).current as int,
                    ),
                    literal: None,
                    line: old(self).line as nat,
                    column: old(self).column as nat,
                }),
            ));
        }
    }

    /// Emits a token spanning `source[start..current]` carrying the given
    /// decoded literal value.
    fn add_token_literal(&mut self, token_type: TokenType, literal: String)
        requires
            old(self).inv(),
        ensures
            final(self).inv(),
            final(self).source == old(self).source,
            final(self).start == old(self).start,
            final(self).current == old(self).current,
            final(self).line == old(self).line,
            final(self).column == old(self).column,
            token_views(final(self).tokens@) == token_views(old(self).tokens@).push(
                (TokenV {
                    kind: token_type,
                    lexeme: old(self).source@.subrange(
                        old(self).start as int,
                        old(self).current as int,
                    ),
                    literal: Some(literal@),
                    line: old(self).line as nat,
                    column: old(self).column as nat,
                }),
            ),
    {
        let text = chars_to_string(&self.source, self.start, self.current);
        let tok = Token::new(token_type, text, Some(literal), self.line, self.column);
        self.tokens.push(tok);
        proof {
            assert(token_views(self.tokens@) =~= token_views(old(self).tokens@).push(
                (TokenV {
                    kind: token_type,
                    lexeme: old(self).source@.subrange(
                        old(self).start as int,
                        old(self).current as int,
                    ),
                    literal: Some(literal@),
                    line: old(self).line as nat,
                    column: old(self).column as nat,
                }),
            ));
        }
    }

    /// Formats the failure diagnostic — the header with the line number
    /// and message and, when the reported line exists, its text with a
    /// caret under the current column — and also emits it to the
    /// diagnostic output channel.
    fn error(&self, line: u32, message: &str) -> (r: String)
        requires
            self.inv(),
            1 <= line,
        ensures
            r@ == diagnostic(self.source@, message@, line as nat, self.column as nat),
    {
        let mut v: Vec<char> = Vec::new();
        push_str_chars(&mut v, "[line ");
        push_u64_dec(&mut v, line as u64);
        push_str_chars(&mut v, "] Error: ");
        push_str_chars(&mut v, message);
        match nth_line(&self.source, (line - 1) as usize) {
            Some((a, b)) => {
                push_str_chars(&mut v, "\n");
                push_u64_dec(&mut v, line as u64);
                push_str_chars(&mut v, " | ");
                push_range(&mut v, &self.source, a, b);
                push_str_chars(&mut v, "\n    | ");
                let ghost mid = v@;
                let mut p: u32 = 1;
                while p < self.column
                    invariant
                        1 <= p,
                        self.column >= 1 ==> p <= self.column,
                        self.column == 0 ==> p == 1,
                        v@ == mid + Seq::new((p - 1) as nat, |k: int| ' '),
                    decreases self.column - p,
                {
                    v.push(' ');
                    proof {
                        assert(mid + Seq::new(p as nat, |k: int| ' ') =~= (mid + Seq::new(
                            (p - 1) as nat,
                            |k: int| ' ',
                        )).push(' '));
                    }
                    p += 1;
                }
                proof {
                    assert(Seq::new(0, |k: int| ' ') =~= Seq::<char>::empty());
                    assert(v@ =~= mid + caret_pad(self.column as nat));
                }
                v.push('^');
                proof {
                    reveal_strlit("^");
                    assert(v@ =~= diagnostic(
                        self.source@,
                        message@,
                        line as nat,
                        self.column as nat,
                    ));
                }
            },
            None => {
                proof {
                    assert(v@ =~= diagnostic(
                        self.source@,
                        message@,
                        line as nat,
                        self.column as nat,
                    ));
                }
            },
        }
        let out = chars_to_string(&v, 0, v.len());
        emit_diagnostic(&out);
        out
    }

    /// The identifier-character test: alphanumeric or underscore.
    fn is_alphanumeric(&self, c: char) -> (r: bool)
        ensures
            r == crate::model::is_word_char(c),
    {
        word_char(c)
    }

    /// Consumes a string literal's body up to the closing quote; the
    /// literal value is the text between the quotes, verbatim.  Reaching
    /// the end of the text first is a fatal error.
    fn string(&mut self) -> (r: Result<(), String>)
        requires
            old(self).inv(),
            old(self).current == old(self).start + 1,
        ensures
            final(self).inv(),
            final(self).source == old(self).source,
            final(self).start == old(self).start,
            match r {
                Ok(()) => match scan_string_body(
                    old(self).source@,
                    old(self).current as nat,
                    old(self).line as nat,
                    old(self).column as nat,
                ) {
                    StrScan::Closed { next, line: l2, column: c2 } => {
                        &&& token_views(final(self).tokens@) == token_views(
                            old(self).tokens@,
                        ).push(
                            (TokenV {
                                kind: TokenType::String,
                                lexeme: old(self).source@.subrange(
                                    old(self).start as int,
                                    next as int,
                                ),
                                literal: Some(
                                    old(self).source@.subrange(
                                        old(self).start + 1,
                                        (next - 1) as int,
                                    ),
                                ),
                                line: l2,
                                column: c2,
                            }),
                        )
                        &&& final(self).current as nat == next
                        &&& final(self).line as nat == l2
                        &&& final(self).column as nat == c2
                    },
                    StrScan::Unterminated { .. } => false,
                },
                Err(msg) => match scan_string_body(
                    old(self).source@,
                    old(self).current as nat,
                    old(self).line as nat,
                    old(self).column as nat,
                ) {
                    StrScan::Unterminated { line: l2, column: c2 } => msg@ == error_message(
                        old(self).source@,
                        (ErrV { kind: ErrorKind::UnterminatedString, ch: None, line: l2, column: c2 }),
                    ),
                    StrScan::Closed { .. } => false,
                },
            },
    {
        while self.peek() != '"' && !self.is_at_end()
            invariant
                self.inv(),
                self.source == old(self).source,
                self.tokens == old(self).tokens,
                self.start == old(self).start,
                old(self).current <= self.current,
                scan_string_body(
                    self.source@,
                    self.current as nat,
                    self.line as nat,
                    self.column as nat,
                ) == scan_string_body(
                    old(self).source@,
                    old(self).current as nat,
                    old(self).line as nat,
                    old(self).column as nat,
                ),
            decreases self.source@.len() - self.current,
        {
            let c = self.peek();
            self.advance();
            if c == '\n' {
                self.line = self.line + 1;
                self.column = 0;
            }
        }
        if self.is_at_end() {
            proof {
                reveal_strlit("Unterminated string");
            }
            return Err(self.error(self.line, "Unterminated string"));
        }
        self.advance();
        let value = chars_to_string(&self.source, self.start + 1, self.current - 1);
        self.add_token_literal(TokenType::String, value);
        Ok(())
    }

    /// Consumes the rest of a numeric literal that is not hexadecimal or
    /// binary: digits, then optionally one `.` followed by at least one
    /// digit.  The token is a float even without a fractional part, and
    /// the literal value is the raw matched text.
    fn number(&mut self) -> (r: Result<(), String>)
        requires
            old(self).inv(),
            old(self).current == old(self).start + 1,
            old(self).column >= 1,
        ensures
            final(self).inv(),
            final(self).source == old(self).source,
            final(self).start == old(self).start,
            r is Ok,
            match scan_number(
                old(self).source@,
                old(self).start as nat,
                old(self).line as nat,
                (old(self).column - 1) as nat,
            ) {
                Step::Tok { t, next } => {
                    &&& token_views(final(self).tokens@) == token_views(old(self).tokens@).push(t)
                    &&& final(self).current as nat == next
                    &&& final(self).line as nat == t.line
                    &&& final(self).column as nat == t.column
                },
                _ => false,
            },
    {
        while dec_digit(self.peek())
            invariant
                self.inv(),
                self.source == old(self).source,
                self.tokens == old(self).tokens,
                self.start == old(self).start,
                self.line == old(self).line,
                old(self).current <= self.current,
                self.column as nat == old(self).column + self.current - old(self).current,
                crate::model::dec_digits_end(self.source@, self.current as nat)
                    == crate::model::dec_digits_end(old(self).source@, old(self).current as nat),
            decreases self.source@.len() - self.current,
        {
            self.advance();
        }
        if self.peek() == '.' && dec_digit(self.peek_next()) {
            self.advance();
            while dec_digit(self.peek())
                invariant
                    self.inv(),
                    self.source == old(self).source,
                    self.tokens == old(self).tokens,
                    self.start == old(self).start,
                    self.line == old(self).line,
                    old(self).current <= self.current,
                    self.column as nat == old(self).column + self.current - old(self).current,
                    crate::model::dec_digits_end(self.source@, self.current as nat)
                        == crate::model::dec_digits_end(
                        old(self).source@,
                        (crate::model::dec_digits_end(
                            old(self).source@,
                            old(self).current as nat,
                        ) + 1) as nat,
                    ),
                decreases self.source@.len() - self.current,
            {
                self.advance();
            }
        }
        let value = chars_to_string(&self.source, self.start, self.current);
        self.add_token_literal(TokenType::Float, value);
        Ok(())
    }

    /// Consumes the digits of a hexadecimal integer literal after the
    /// `0x` prefix and decodes them in base 16; an empty digit sequence
    /// or a value above the 64-bit signed bound is a fatal error.
    fn hex_number(&mut self) -> (r: Result<(), String>)
        requires
            old(self).inv(),
            old(self).current == old(self).start + 2,
            old(self).column >= 2,
        ensures
            final(self).inv(),
            final(self).source == old(self).source,
            final(self).start == old(self).start,
            match r {
                Ok(()) => match scan_hex(
                    old(self).source@,
                    old(self).start as nat,
                    old(self).line as nat,
                    (old(self).column - 2) as nat,
                ) {
                    Step::Tok { t, next } => {
                        &&& token_views(final(self).tokens@) == token_views(
                            old(self).tokens@,
                        ).push(t)
                        &&& final(self).current as nat == next
                        &&& final(self).line as nat == t.line
                        &&& final(self).column as nat == t.column
                    },
                    _ => false,
                },
                Err(msg) => match scan_hex(
                    old(self).source@,
                    old(self).start as nat,
                    old(self).line as nat,
                    (old(self).column - 2) as nat,
                ) {
                    Step::Fail { e } => msg@ == error_message(old(self).source@, e),
                    _ => false,
                },
            },
    {
        while hex_digit(self.peek())
            invariant
                self.inv(),
                self.source == old(self).source,
                self.tokens == old(self).tokens,
                self.start == old(self).start,
                self.line == old(self).line,
                old(self).current <= self.current,
                self.column as nat == old(self).column + self.current - old(self).current,
                crate::model::hex_digits_end(self.source@, self.current as nat)
                    == crate::model::hex_digits_end(old(self).source@, old(self).current as nat),
            decreases self.source@.len() - self.current,
        {
            self.advance();
        }
        if self.current == self.start + 2 {
            proof {
                reveal_strlit("Invalid hex number");
            }
            return Err(self.error(self.line, "Invalid hex number"));
        }
        match parse_radix(&self.source, self.start + 2, self.current, 16) {
            Some(val) => {
                let mut v: Vec<char> = Vec::new();
                push_u64_dec(&mut v, val);
                let lit = chars_to_string(&v, 0, v.len());
                proof {
                    assert(lit@ =~= crate::model::dec_str(val as nat));
                }
                self.add_token_literal(TokenType::Integer, lit);
                Ok(())
            },
            None => {
                proof {
                    reveal_strlit("Invalid hex number");
                }
                Err(self.error(self.line, "Invalid hex number"))
            },
        }
    }

    /// Consumes the digits of a binary integer literal after the `0b`
    /// prefix and decodes them in base 2; an empty digit sequence or a
    /// value above the 64-bit signed bound is a fatal error.
    fn binary_number(&mut self) -> (r: Result<(), String>)
        requires
            old(self).inv(),
            old(self).current == old(self).start + 2,
            old(self).column >= 2,
        ensures
            final(self).inv(),
            final(self).source == old(self).source,
            final(self).start == old(self).start,
            match r {
                Ok(()) => match scan_binary(
                    old(self).source@,
                    old(self).start as nat,
                    old(self).line as nat,
                    (old(self).column - 2) as nat,
                ) {
                    Step::Tok { t, next } => {
                        &&& token_views(final(self).tokens@) == token_views(
                            old(self).tokens@,
                        ).push(t)
                        &&& final(self).current as nat == next
                        &&& final(self).line as nat == t.line
                        &&& final(self).column as nat == t.column
                    },
                    _ => false,
                },
                Err(msg) => match scan_binary(
                    old(self).source@,
                    old(self).start as nat,
                    old(self).line as nat,
                    (old(self).column - 2) as nat,
                ) {
                    Step::Fail { e } => msg@ == error_message(old(self).source@, e),
                    _ => false,
                },
            },
    {
        while bin_digit(self.peek())
            invariant
                self.inv(),
                self.source == old(self).source,
                self.tokens == old(self).tokens,
                self.start == old(self).start,
                self.line == old(self).line,
                old(self).current <= self.current,
                self.column as nat == old(self).column + self.current - old(self).current,
                crate::model::bin_digits_end(self.source@, self.current as nat)
                    == crate::model::bin_digits_end(old(self).source@, old(self).current as nat),
            decreases self.source@.len() - self.current,
        {
            self.advance();
        }
        if self.current == self.start + 2 {
            proof {
                reveal_strlit("Invalid binary number");
            }
            return Err(self.error(self.line, "Invalid binary number"));
        }
        match parse_radix(&self.source, self.start + 2, self.current, 2) {
            Some(val) => {
                let mut v: Vec<char> = Vec::new();
                push_u64_dec(&mut v, val);
                let lit = chars_to_string(&v, 0, v.len());
                proof {
                    assert(lit@ =~= crate::model::dec_str(val as nat));
                }
                self.add_token_literal(TokenType::Integer, lit);
                Ok(())
            },
            None => {
                proof {
                    reveal_strlit("Invalid binary number");
                }
                Err(self.error(self.line, "Invalid binary number"))
            },
        }
    }

    /// Consumes the rest of an identifier, then looks the spelling up in
    /// the keyword table: a hit is emitted as the keyword kind, anything
    /// else as a plain identifier.
    fn identifier(&mut self)
        requires
            old(self).inv(),
            old(self).current == old(self).start + 1,
            old(self).column >= 1,
        ensures
            final(self).inv(),
            final(self).source == old(self).source,
            final(self).start == old(self).start,
            match scan_ident(
                old(self).source@,
                old(self).start as nat,
                old(self).line as nat,
                (old(self).column - 1) as nat,
            ) {
                Step::Tok { t, next } => {
                    &&& token_views(final(self).tokens@) == token_views(old(self).tokens@).push(t)
                    &&& final(self).current as nat == next
                    &&& final(self).line as nat == t.line
                    &&& final(self).column as nat == t.column
                },
                _ => false,
            },
    {
        while word_char(self.peek())
            invariant
                self.inv(),
                self.source == old(self).source,
                self.tokens == old(self).tokens,
                self.start == old(self).start,
                self.line == old(self).line,
                old(self).current <= self.current,
                self.column as nat == old(self).column + self.current - old(self).current,
                crate::model::word_end(self.source@, self.current as nat)
                    == crate::model::word_end(old(self).source@, old(self).current as nat),
            decreases self.source@.len() - self.current,
        {
            self.advance();
        }
        let kind = match lookup_keyword(&self.source, self.start, self.current) {
            Some(k) => k,
            None => TokenType::Identifier,
        };
        self.add_token(kind);
    }

    /// Scans exactly one token (or consumes one whitespace character),
    /// dispatching on the character at the cursor; the first lexical
    /// error is returned as a formatted diagnostic.
    fn scan_token(&mut self) -> (r: Result<(), String>)
        requires
            old(self).inv(),
            old(self).start == old(self).current,
            old(self).current < old(self).source@.len(),
        ensures
            final(self).inv(),
            final(self).source == old(self).source,
            match r {
                Ok(()) => match scan_step(
                    old(self).source@,
                    old(self).current as nat,
                    old(self).line as nat,
                    old(self).column as nat,
                ) {
                    Step::Tok { t, next } => {
                        &&& token_views(final(self).tokens@) == token_views(
                            old(self).tokens@,
                        ).push(t)
                        &&& final(self).current as nat == next
                        &&& final(self).line as nat == t.line
                        &&& final(self).column as nat == t.column
                    },
                    Step::Skip { next, line: l2, column: c2 } => {
                        &&& final(self).tokens == old(self).tokens
                        &&& final(self).current as nat == next
                        &&& final(self).line as nat == l2
                        &&& final(self).column as nat == c2
                    },
                    Step::Fail { .. } => false,
                },
                Err(msg) => match scan_step(
                    old(self).source@,
                    old(self).current as nat,
                    old(self).line as nat,
                    old(self).column as nat,
                ) {
                    Step::Fail { e } => msg@ == error_message(old(self).source@, e),
                    _ => false,
                },
            },
    {
        let c_opt = self.advance();
        let c = match c_opt {
            Some(ch) => ch,
            None => {
                proof {
                    reveal_strlit("Unexpected end of input");
                }
                return Err(self.error(self.line, "Unexpected end of input"));
            },
        };
        match c {
            '(' => self.add_token(TokenType::Lparen),
            ')' => self.add_token(TokenType::Rparen),
            '{' => self.add_token(TokenType::Lbrace),
            '}' => self.add_token(TokenType::Rbrace),
            '[' => self.add_token(TokenType::Lbracket),
            ']' => self.add_token(TokenType::Rbracket),
            ',' => self.add_token(TokenType::Comma),
            '.' => self.add_token(TokenType::Dot),
            ';' => self.add_token(TokenType::Semicolon),
            '-' => {
                if self.match_char('=') {
                    self.add_token(TokenType::MinusEq);
                } else if self.match_char('-') {
                    self.add_token(TokenType::MinusMinus);
                } else if self.match_char('>') {
                    self.add_token(TokenType::Arrow);
                } else {
                    self.add_token(TokenType::Minus);
                }
            },
            '=' => {
                if self.match_char('=') {
                    self.add_token(TokenType::EqEq);
                } else {
                    self.add_token(TokenType::Eq);
                }
            },
            '!' => {
                if self.match_char('=') {
                    self.add_token(TokenType::Neq);
                } else {
                    self.add_token(TokenType::Bang);
                }
            },
            '>' => {
                if self.match_char('=') {
                    self.add_token(TokenType::Geq);
                } else {
                    self.add_token(TokenType::Greater);
                }
            },
            '<' => {
                if self.match_char('=') {
                    self.add_token(TokenType::Leq);
                } else {
                    self.add_token(TokenType::Less);
                }
            },
            '&' => {
                if self.match_char('&') {
                    self.add_token(TokenType::And);
                } else {
                    self.add_token(TokenType::BitwiseAnd);
                }
            },
            '|' => {
                if self.match_char('|') {
                    self.add_token(TokenType::Or);
                } else {
                    self.add_token(TokenType::BitwiseOr);
                }
            },
            '+' => {
                if self.match_char('=') {
                    self.add_token(TokenType::PlusEq);
                } else if self.match_char('+') {
                    self.add_token(TokenType::PlusPlus);
                } else {
                    self.add_token(TokenType::Plus);
                }
            },
            '*' => {
                if self.match_char('=') {
                    self.add_token(TokenType::StarEq);
                } else {
                    self.add_token(TokenType::Star);
                }
            },
            '/' => {
                if self.match_char('=') {
                    self.add_token(TokenType::SlashEq);
                } else {
                    self.add_token(TokenType::Slash);
                }
            },
            '%' => {
                if self.match_char('=') {
                    self.add_token(TokenType::PercentEq);
                } else {
                    self.add_token(TokenType::Percent);
                }
            },
            ':' => {
                if self.match_char(':') {
                    self.add_token(TokenType::DoubleColon);
                } else {
                    self.add_token(TokenType::Colon);
                }
            },
            '#' => {
                if self.match_char('#') {
                    self.add_token(TokenType::HashHash);
                } else {
                    self.add_token(TokenType::Hash);
                }
            },
            ' ' | '\r' | '\t' => (),
            '\n' => {
                self.line = self.line + 1;
                self.column = 0;
            },
            '"' => {
                match self.string() {
                    Ok(()) => (),
                    Err(m) => {
                        return Err(m);
                    },
                }
            },
            _ => {
                if dec_digit(c) {
                    if c == '0' && self.peek() == 'x' {
                        self.advance();
                        match self.hex_number() {
                            Ok(()) => (),
                            Err(m) => {
                                return Err(m);
                            },
                        }
                    } else if c == '0' && self.peek() == 'b' {
                        self.advance();
                        match self.binary_number() {
                            Ok(()) => (),
                            Err(m) => {
                                return Err(m);
                            },
                        }
                    } else {
                        match self.number() {
                            Ok(()) => (),
                            Err(m) => {
                                return Err(m);
                            },
                        }
                    }
                } else if self.is_alphanumeric(c) {
                    self.identifier();
                } else {
                    let mut mv: Vec<char> = Vec::new();
                    push_str_chars(&mut mv, "Unexpected character: ");
                    mv.push(c);
                    let m = chars_to_string(&mv, 0, mv.len());
                    proof {
                        assert(m@ =~= "Unexpected character: "@ + seq![c]);
                    }
                    return Err(self.error(self.line, m.as_str()));
                }
            },
        }
        Ok(())
    }

    /// Scans the whole source text: on success the token sequence holds
    /// the tokens in source order and ends with exactly one end-of-file
    /// token; the first error aborts the scan and is returned (and also
    /// emitted) as a formatted diagnostic.  A scanner is consumed by this
    /// call; a fresh instance is required for a new input.
    pub fn scan_tokens(&mut self) -> (r: Result<Vec<Token>, String>)
        requires
            old(self).ready(),
            old(self).source@.len() < 0xFFFF_FFFF,
        ensures
            match r {
                Ok(toks) => scan_spec(old(self).source@) == Ok::<Seq<TokenV>, ErrV>(
                    token_views(toks@),
                ),
                Err(msg) => match scan_spec(old(self).source@) {
                    Err(e) => msg@ == error_message(old(self).source@, e),
                    Ok(_) => false,
                },
            },
    {
        proof {
            assert(token_views(Seq::<Token>::empty()) =~= Seq::<TokenV>::empty());
        }
        while !self.is_at_end()
            invariant
                self.inv(),
                self.source == old(self).source,
                match scan_from(
                    self.source@,
                    self.current as nat,
                    self.line as nat,
                    self.column as nat,
                ) {
                    Ok(rest) => scan_spec(old(self).source@) == Ok::<Seq<TokenV>, ErrV>(
                        token_views(self.tokens@) + rest,
                    ),
                    Err(e) => scan_spec(old(self).source@) == Err::<Seq<TokenV>, ErrV>(e),
                },
            decreases self.source@.len() - self.current,
        {
            self.start = self.current;
            let ghost pre = *self;
            let res = self.scan_token();
            match res {
                Ok(()) => {
                    proof {
                        crate::model::lemma_scan_step_bounds(
                            pre.source@,
                            pre.current as nat,
                            pre.line as nat,
                            pre.column as nat,
                        );
                        match scan_step(pre.source@, pre.current as nat, pre.line as nat, pre.column as nat) {
                            Step::Tok { t, next } => {
                                match scan_from(
                                    self.source@,
                                    self.current as nat,
                                    self.line as nat,
                                    self.column as nat,
                                ) {
                                    Ok(rest) => {
                                        assert(token_views(pre.tokens@) + (seq![t] + rest)
                                            =~= token_views(self.tokens@) + rest);
                                    },
                                    Err(e) => {},
                                }
                            },
                            Step::Skip { .. } => {},
                            Step::Fail { .. } => {},
                        }
                    }
                },
                Err(m) => {
                    return Err(m);
                },
            }
        }
        let eof_lexeme = String::new();
        let tok = Token::new(TokenType::Eof, eof_lexeme, None, self.line, self.column);
        let ghost before = self.tokens@;
        self.tokens.push(tok);
        proof {
            assert(token_views(self.tokens@) =~= token_views(before) + seq![
                TokenV {
                    kind: TokenType::Eof,
                    lexeme: Seq::empty(),
                    literal: None,
                    line: self.line as nat,
                    column: self.column as nat,
                },
            ]);
        }
        let mut out: Vec<Token> = Vec::new();
        core::mem::swap(&mut out, &mut self.tokens);
        Ok(out)
    }
}

} // verus!
