//! Character classification and text-building helpers: the few trusted
//! bridges to std, and verified routines for assembling output strings
//! from character buffers.

use std::io::Write;
use vstd::prelude::*;
use vstd::string::StrSliceExecFns;

use crate::model::{
    dec_digit_char, dec_str, digit_val, is_bin_digit, is_dec_digit, is_hex_digit,
    is_separator_char, is_unicode_alphanumeric, is_word_char, lemma_radix_val_prefix,
    max_literal, radix_val,
};

verus! {

/// Relies on `char::is_alphanumeric`: the classification depends on the
/// character alone, and no ASCII punctuation, whitespace, or control
/// character is alphanumeric.
#[verifier::external_body]
pub fn unicode_alphanumeric(c: char) -> (r: bool)
    ensures
        r == is_unicode_alphanumeric(c),
        is_separator_char(c) ==> !r,
{
    c.is_alphanumeric()
}

/// The identifier-character test: alphanumeric or underscore.
pub fn word_char(c: char) -> (r: bool)
    ensures
        r == is_word_char(c),
{
    unicode_alphanumeric(c) || c == '_'
}

/// The decimal-digit test.
pub fn dec_digit(c: char) -> (r: bool)
    ensures
        r == is_dec_digit(c),
{
    let u = c as u32;
    48 <= u && u <= 57
}

/// The hexadecimal-digit test.
pub fn hex_digit(c: char) -> (r: bool)
    ensures
        r == is_hex_digit(c),
{
    let u = c as u32;
    (48 <= u && u <= 57) || (65 <= u && u <= 70) || (97 <= u && u <= 102)
}

/// The binary-digit test.
pub fn bin_digit(c: char) -> (r: bool)
    ensures
        r == is_bin_digit(c),
{
    c == '0' || c == '1'
}

/// The numeric value of a digit character.
pub fn char_val(c: char) -> (d: u64)
    ensures
        d as nat == digit_val(c),
        d <= 15,
{
    let u = c as u32;
    if 48 <= u && u <= 57 {
        (u - 48) as u64
    } else if 65 <= u && u <= 70 {
        (u - 55) as u64
    } else if 97 <= u && u <= 102 {
        (u - 87) as u64
    } else {
        0
    }
}

/// Decodes the digit string `src[from..to]` in the given radix, as the
/// signed 64-bit decoder would: `None` exactly when the value exceeds
/// `max_literal()`.
pub fn parse_radix(src: &Vec<char>, from: usize, to: usize, radix: u64) -> (r: Option<u64>)
    requires
        from <= to <= src@.len(),
        radix == 2 || radix == 16,
    ensures
        match r {
            Some(val) => val as nat == radix_val(
                src@.subrange(from as int, to as int),
                radix as nat,
            ) && val as nat <= max_literal(),
            None => radix_val(src@.subrange(from as int, to as int), radix as nat)
                > max_literal(),
        },
{
    let bound: u64 = 0x7fff_ffff_ffff_ffff;
    let mut acc: u64 = 0;
    let mut i: usize = from;
    while i < to
        invariant
            from <= i <= to <= src@.len(),
            radix == 2 || radix == 16,
            bound == max_literal(),
            acc as nat == radix_val(src@.subrange(from as int, i as int), radix as nat),
            acc <= bound,
        decreases to - i,
    {
        let d = char_val(src[i]);
        proof {
            assert(src@.subrange(from as int, i + 1).drop_last() =~= src@.subrange(
                from as int,
                i as int,
            ));
            assert(src@.subrange(from as int, i + 1).last() == src@[i as int]);
        }
        if acc > (bound - d) / radix {
            proof {
                let pre = src@.subrange(from as int, i + 1);
                let whole = src@.subrange(from as int, to as int);
                assert(radix_val(pre, radix as nat) == acc as nat * radix as nat + digit_val(
                    src@[i as int],
                ));
                assert(acc as nat * radix as nat + d as nat > max_literal()) by (nonlinear_arith)
                    requires
                        acc as int > ((bound - d) as int) / (radix as int),
                        bound == max_literal(),
                        d <= 15,
                        d <= bound,
                        radix == 2 || radix == 16,
                ;
                assert(whole.subrange(0, (i + 1 - from) as int) =~= pre);
                lemma_radix_val_prefix(whole, i + 1 - from, radix as nat);
            }
            return None;
        }
        proof {
            assert(acc as nat * radix as nat + d as nat <= max_literal()) by (nonlinear_arith)
                requires
                    acc as int <= ((bound - d) as int) / (radix as int),
                    bound == max_literal(),
                    d <= bound,
                    radix == 2 || radix == 16,
            ;
        }
        acc = acc * radix + d;
        i += 1;
    }
    proof {
        assert(src@.subrange(from as int, to as int) =~= src@.subrange(from as int, i as int));
    }
    Some(acc)
}

/// Relies on `String: FromIterator<char>` (`collect`): the collected
/// string holds exactly the characters of the iterated slice.
#[verifier::external_body]
pub fn chars_to_string(v: &Vec<char>, from: usize, to: usize) -> (r: String)
    requires
        from <= to <= v@.len(),
    ensures
        r@ == v@.subrange(from as int, to as int),
{
    v[from..to].iter().collect()
}

/// Relies on `std::io::Stdout` and `writeln!`: prints the diagnostic line
/// to standard output; nothing is claimed of the effect.
#[verifier::external_body]
pub fn emit_diagnostic(msg: &String) {
    let _ = writeln!(std::io::stdout(), "{}", msg);
}

/// Appends the characters of a string slice to a character buffer.
pub fn push_str_chars(v: &mut Vec<char>, s: &str)
    ensures
        final(v)@ == old(v)@ + s@,
{
    let n = s.unicode_len();
    let mut i: usize = 0;
    while i < n
        invariant
            n == s@.len(),
            i <= n,
            v@ == old(v)@ + s@.subrange(0, i as int),
        decreases n - i,
    {
        let c = s.get_char(i);
        v.push(c);
        proof {
            assert(old(v)@ + s@.subrange(0, i + 1) =~= (old(v)@ + s@.subrange(0, i as int)).push(
                s@[i as int],
            ));
        }
        i += 1;
    }
    proof {
        assert(s@.subrange(0, n as int) =~= s@);
    }
}

/// Appends the characters `src[from..to]` to a character buffer.
pub fn push_range(v: &mut Vec<char>, src: &Vec<char>, from: usize, to: usize)
    requires
        from <= to <= src@.len(),
    ensures
        final(v)@ == old(v)@ + src@.subrange(from as int, to as int),
{
    let mut i: usize = from;
    while i < to
        invariant
            from <= i <= to <= src@.len(),
            v@ == old(v)@ + src@.subrange(from as int, i as int),
        decreases to - i,
    {
        let c = src[i];
        v.push(c);
        proof {
            assert(old(v)@ + src@.subrange(from as int, i + 1) =~= (old(v)@ + src@.subrange(
                from as int,
                i as int,
            )).push(src@[i as int]));
        }
        i += 1;
    }
}

/// The character of a single decimal digit.
pub fn digit_to_char(d: u32) -> (c: char)
    requires
        d < 10,
    ensures
        c == dec_digit_char(d as nat),
{
    if d == 0 { '0' }
    else if d == 1 { '1' }
    else if d == 2 { '2' }
    else if d == 3 { '3' }
    else if d == 4 { '4' }
    else if d == 5 { '5' }
    else if d == 6 { '6' }
    else if d == 7 { '7' }
    else if d == 8 { '8' }
    else { '9' }
}

/// Appends the canonical base-10 form of `n` to a character buffer.
pub fn push_u64_dec(v: &mut Vec<char>, n: u64)
    ensures
        final(v)@ == old(v)@ + dec_str(n as nat),
    decreases n,
{
    if n < 10 {
        let c = digit_to_char(n as u32);
        v.push(c);
        proof {
            assert(old(v)@ + dec_str(n as nat) =~= old(v)@.push(dec_digit_char(n as nat)));
        }
    } else {
        push_u64_dec(v, n / 10);
        let c = digit_to_char((n % 10) as u32);
        v.push(c);
        proof {
            assert(old(v)@ + dec_str(n as nat) =~= (old(v)@ + dec_str((n / 10) as nat)).push(
                dec_digit_char((n % 10) as nat),
            ));
        }
    }
}

} // verus!
