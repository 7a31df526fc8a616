//! Scanner-wide laws, stated and proved against the model: whitespace
//! elision, keyword recognition, newline bookkeeping, the lexeme round
//! trip, and determinism of the scan.

use vstd::prelude::*;

use crate::model::{
    is_dec_digit, is_separator_char, is_skipped, is_word_char, lemma_scan_step_bounds,
    lemma_word_end, scan_from, scan_spec, scan_step, word_end, ErrV, Step,
};
use crate::token::{keyword_kind, TokenType, TokenV};

verus! {

/// For every input consisting solely of whitespace, the scan succeeds
/// and returns exactly one token: the end-of-file token.
pub proof fn lemma_whitespace_only(s: Seq<char>)
    requires
        forall|k: int| 0 <= k < s.len() ==> is_skipped(s[k]),
    ensures
        match scan_spec(s) {
            Ok(toks) => toks.len() == 1 && toks[0].kind == TokenType::Eof,
            Err(_) => false,
        },
{
    lemma_whitespace_from(s, 0, 1, 0);
}

proof fn lemma_whitespace_from(s: Seq<char>, i: nat, line: nat, column: nat)
    requires
        i <= s.len(),
        forall|k: int| i <= k < s.len() ==> is_skipped(s[k]),
    ensures
        match scan_from(s, i, line, column) {
            Ok(toks) => toks.len() == 1 && toks[0].kind == TokenType::Eof,
            Err(_) => false,
        },
    decreases s.len() - i,
{
    if i < s.len() {
        let c = s[i as int];
        assert(is_skipped(c));
        if c == '\n' {
            lemma_whitespace_from(s, i + 1, line + 1, 0);
        } else {
            lemma_whitespace_from(s, i + 1, line, column + 1);
        }
    }
}

/// A single spelling of identifier characters (not starting with a
/// digit) scans to exactly one token before the end-of-file token: the
/// matching keyword kind for a reserved spelling, the identifier kind
/// for anything else, with the whole input as its lexeme.
pub proof fn lemma_single_word(s: Seq<char>)
    requires
        s.len() >= 1,
        !is_dec_digit(s[0]),
        forall|k: int| 0 <= k < s.len() ==> is_word_char(s[k]),
    ensures
        match scan_spec(s) {
            Ok(toks) => {
                &&& toks.len() == 2
                &&& toks[0].kind == (match keyword_kind(s) {
                    Some(kw) => kw,
                    None => TokenType::Identifier,
                })
                &&& toks[0].lexeme == s
                &&& toks[1].kind == TokenType::Eof
            },
            Err(_) => false,
        },
{
    let c = s[0];
    assert(is_word_char(c));
    assert(!is_separator_char(c));
    lemma_word_end(s, 1);
    if word_end(s, 1) < s.len() {
        assert(is_word_char(s[word_end(s, 1) as int]));
        assert(false);
    }
    assert(word_end(s, 1) == s.len());
    assert(s.subrange(0, s.len() as int) =~= s);
    let step = scan_step(s, 0, 1, 0);
    assert(step == crate::model::scan_ident(s, 0, 1, 0));
    match step {
        Step::Tok { t, next } => {
            assert(next == s.len());
            assert(t.lexeme == s);
            let rest = scan_from(s, next, t.line, t.column);
            assert(rest == Ok::<Seq<TokenV>, ErrV>(
                seq![
                    TokenV {
                        kind: TokenType::Eof,
                        lexeme: Seq::empty(),
                        literal: None,
                        line: t.line,
                        column: t.column,
                    },
                ],
            ));
            match scan_spec(s) {
                Ok(toks) => {
                    assert(toks.len() == 2);
                    assert(toks[0] == t);
                },
                Err(_) => {
                    assert(false);
                },
            }
        },
        _ => {
            assert(false);
        },
    }
}

/// Consuming a newline always advances the line counter and resets the
/// running column counter to 0, so the next character is counted from 1.
pub proof fn lemma_newline_resets_column(s: Seq<char>, i: nat, line: nat, column: nat)
    requires
        i < s.len(),
        s[i as int] == '\n',
    ensures
        scan_step(s, i, line, column) == (Step::Skip { next: i + 1, line: line + 1, column: 0 as nat }),
{
}

/// The input's characters with the elided whitespace removed.
pub open spec fn non_blank(s: Seq<char>) -> Seq<char>
    decreases s.len(),
{
    if s.len() == 0 {
        s
    } else if is_skipped(s.last()) {
        non_blank(s.drop_last())
    } else {
        non_blank(s.drop_last()).push(s.last())
    }
}

/// The concatenation of the lexemes of a token sequence, in order.
pub open spec fn cat_lexemes(ts: Seq<TokenV>) -> Seq<char>
    decreases ts.len(),
{
    if ts.len() == 0 {
        Seq::empty()
    } else {
        ts[0].lexeme + cat_lexemes(ts.drop_first())
    }
}

proof fn lemma_non_blank_add(a: Seq<char>, b: Seq<char>)
    ensures
        non_blank(a + b) == non_blank(a) + non_blank(b),
    decreases b.len(),
{
    if b.len() == 0 {
        assert(a + b =~= a);
        assert(non_blank(b) == b);
        assert(non_blank(a) + non_blank(b) =~= non_blank(a));
    } else {
        lemma_non_blank_add(a, b.drop_last());
        assert((a + b).drop_last() =~= a + b.drop_last());
        assert((a + b).last() == b.last());
        if !is_skipped(b.last()) {
            assert(non_blank(a + b) == non_blank(a + b.drop_last()).push(b.last()));
            assert(non_blank(b) == non_blank(b.drop_last()).push(b.last()));
            assert((non_blank(a) + non_blank(b.drop_last())).push(b.last()) =~= non_blank(a)
                + non_blank(b.drop_last()).push(b.last()));
        } else {
            assert(non_blank(a + b) == non_blank(a + b.drop_last()));
            assert(non_blank(b) == non_blank(b.drop_last()));
        }
    }
}

proof fn lemma_non_blank_all(s: Seq<char>)
    requires
        forall|k: int| 0 <= k < s.len() ==> !is_skipped(s[k]),
    ensures
        non_blank(s) == s,
    decreases s.len(),
{
    if s.len() > 0 {
        lemma_non_blank_all(s.drop_last());
        assert(!is_skipped(s.last()));
        assert(non_blank(s) == non_blank(s.drop_last()).push(s.last()));
        assert(non_blank(s.drop_last()).push(s.last()) =~= s);
    }
}

proof fn lemma_non_blank_single_skipped(c: char)
    requires
        is_skipped(c),
    ensures
        non_blank(seq![c]) == Seq::<char>::empty(),
{
    assert(seq![c].drop_last() =~= Seq::<char>::empty());
    assert(seq![c].last() == c);
    assert(non_blank(Seq::<char>::empty()) == Seq::<char>::empty());
    assert(non_blank(seq![c]) == non_blank(seq![c].drop_last()));
}

/// In an input without string literals, what a single step consumes:
/// a skipped character, or a token whose lexeme is exactly the consumed
/// span and holds no whitespace.
proof fn lemma_step_chars(s: Seq<char>, i: nat, line: nat, column: nat)
    requires
        i < s.len(),
        s[i as int] != '"',
    ensures
        match scan_step(s, i, line, column) {
            Step::Skip { .. } => is_skipped(s[i as int]),
            Step::Tok { t, next } => {
                &&& i < next <= s.len()
                &&& t.lexeme == s.subrange(i as int, next as int)
                &&& forall|k: int| i <= k < next ==> !is_skipped(s[k])
            },
            Step::Fail { .. } => true,
        },
{
    lemma_scan_step_bounds(s, i, line, column);
    let c = s[i as int];
    if is_dec_digit(c) && c == '0' && i + 1 < s.len() && s[i + 1 as int] == 'x' {
        crate::model::lemma_hex_digits_end(s, i + 2);
    } else if is_dec_digit(c) && c == '0' && i + 1 < s.len() && s[i + 1 as int] == 'b' {
        crate::model::lemma_bin_digits_end(s, i + 2);
    } else if is_dec_digit(c) {
        crate::model::lemma_dec_digits_end(s, i + 1);
        let d1 = crate::model::dec_digits_end(s, i + 1);
        if d1 < s.len() && s[d1 as int] == '.' && d1 + 1 < s.len() && is_dec_digit(
            s[d1 + 1 as int],
        ) {
            crate::model::lemma_dec_digits_end(s, d1 + 1);
        }
    } else if is_word_char(c) {
        lemma_word_end(s, i + 1);
    }
}

/// Round-trip identity: for an input without string literals (whose
/// lexemes may hold whitespace of their own), concatenating every
/// returned token's lexeme — the end-of-file token's lexeme is empty —
/// reconstructs exactly the input's non-whitespace character stream.
pub proof fn lemma_round_trip(s: Seq<char>)
    requires
        forall|k: int| 0 <= k < s.len() ==> s[k] != '"',
        scan_spec(s) is Ok,
    ensures
        match scan_spec(s) {
            Ok(toks) => cat_lexemes(toks) == non_blank(s),
            Err(_) => false,
        },
{
    lemma_round_trip_from(s, 0, 1, 0);
    assert(s.subrange(0, s.len() as int) =~= s);
}

proof fn lemma_round_trip_from(s: Seq<char>, i: nat, line: nat, column: nat)
    requires
        i <= s.len(),
        forall|k: int| 0 <= k < s.len() ==> s[k] != '"',
        scan_from(s, i, line, column) is Ok,
    ensures
        match scan_from(s, i, line, column) {
            Ok(toks) => cat_lexemes(toks) == non_blank(s.subrange(i as int, s.len() as int)),
            Err(_) => false,
        },
    decreases s.len() - i,
{
    let tail = s.subrange(i as int, s.len() as int);
    if i >= s.len() {
        let toks = scan_from(s, i, line, column)->Ok_0;
        assert(toks.drop_first() =~= Seq::<TokenV>::empty());
        assert(cat_lexemes(Seq::<TokenV>::empty()) == Seq::<char>::empty());
        assert(cat_lexemes(toks) =~= Seq::<char>::empty());
        assert(tail =~= Seq::<char>::empty());
        assert(non_blank(tail) == tail);
    } else {
        lemma_scan_step_bounds(s, i, line, column);
        lemma_step_chars(s, i, line, column);
        match scan_step(s, i, line, column) {
            Step::Skip { next, line: l2, column: c2 } => {
                lemma_round_trip_from(s, next, l2, c2);
                assert(tail =~= seq![s[i as int]] + s.subrange(next as int, s.len() as int));
                lemma_non_blank_add(seq![s[i as int]], s.subrange(next as int, s.len() as int));
                lemma_non_blank_single_skipped(s[i as int]);
                assert(Seq::<char>::empty() + non_blank(
                    s.subrange(next as int, s.len() as int),
                ) =~= non_blank(s.subrange(next as int, s.len() as int)));
            },
            Step::Tok { t, next } => {
                lemma_round_trip_from(s, next, t.line, t.column);
                let rest = scan_from(s, next, t.line, t.column)->Ok_0;
                let toks = scan_from(s, i, line, column)->Ok_0;
                assert(toks == seq![t] + rest);
                assert(toks[0] == t);
                assert(toks.drop_first() =~= rest);
                assert(cat_lexemes(toks) == t.lexeme + cat_lexemes(rest));
                assert(tail =~= s.subrange(i as int, next as int) + s.subrange(
                    next as int,
                    s.len() as int,
                ));
                lemma_non_blank_add(
                    s.subrange(i as int, next as int),
                    s.subrange(next as int, s.len() as int),
                );
                lemma_non_blank_all(s.subrange(i as int, next as int));
            },
            Step::Fail { .. } => {},
        }
    }
}

/// Idempotence: the scan is a function of the input text alone, so two
/// scans of equal inputs (fresh scanner instances included) return
/// identical token sequences or identical errors.
pub proof fn lemma_scan_deterministic(
    s1: Seq<char>,
    s2: Seq<char>,
    r1: Result<Seq<TokenV>, ErrV>,
    r2: Result<Seq<TokenV>, ErrV>,
)
    requires
        s1 == s2,
        r1 == scan_spec(s1),
        r2 == scan_spec(s2),
    ensures
        r1 == r2,
{
}

} // verus!
