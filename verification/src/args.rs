//! Resolution of the numeric command-line configuration values: parsing a
//! decimal count from the bytes of a flag's value, falling back to a default
//! when the flag is absent.

use vstd::prelude::*;

verus! {

/// Whether `b` is an ASCII decimal digit.
pub open spec fn is_ascii_digit(b: u8) -> bool {
    48 <= b && b <= 57
}

/// The numeric value of an ASCII decimal digit.
pub open spec fn digit_val(b: u8) -> nat
    recommends
        is_ascii_digit(b),
{
    (b - 48) as nat
}

/// Whether every byte of `s` is an ASCII decimal digit.
pub open spec fn all_digits(s: Seq<u8>) -> bool {
    forall|i: int| 0 <= i < s.len() ==> is_ascii_digit(s[i])
}

/// The value of `s` read as a big-endian sequence of decimal digits.
pub open spec fn decimal_value(s: Seq<u8>) -> nat
    recommends
        all_digits(s),
    decreases s.len(),
{
    if s.len() == 0 {
        0
    } else {
        decimal_value(s.drop_last()) * 10 + digit_val(s.last())
    }
}

/// The digit part of a decimal numeral: everything after an optional
/// leading plus sign.
pub open spec fn digits_of(s: Seq<u8>) -> Seq<u8> {
    if s.len() > 0 && s[0] == 43 {
        s.subrange(1, s.len() as int)
    } else {
        s
    }
}

/// Whether `s` is a well-formed decimal numeral: an optional leading plus
/// sign followed by at least one digit, and nothing else.
pub open spec fn is_valid_decimal(s: Seq<u8>) -> bool {
    digits_of(s).len() > 0 && all_digits(digits_of(s))
}

/// Appending a digit multiplies the value by ten and adds the digit.
proof fn lemma_decimal_value_push(s: Seq<u8>, b: u8)
    ensures
        decimal_value(s.push(b)) == decimal_value(s) * 10 + digit_val(b),
{
    assert(s.push(b).drop_last() =~= s);
}

/// The value of a digit sequence is at least the value of any prefix of it.
proof fn lemma_decimal_value_prefix(s: Seq<u8>, k: int)
    requires
        0 <= k <= s.len(),
    ensures
        decimal_value(s.subrange(0, k)) <= decimal_value(s),
    decreases s.len(),
{
    if k == s.len() {
        assert(s.subrange(0, k) =~= s);
    } else {
        assert(s.drop_last() =~= s.subrange(0, s.len() - 1));
        assert(s.subrange(0, k) =~= s.drop_last().subrange(0, k));
        lemma_decimal_value_prefix(s.drop_last(), k);
    }
}

/// Parses the bytes of a decimal numeral (an optional leading plus sign,
/// then digits) into a count. Returns `None` exactly when the bytes are not
/// a well-formed numeral or the value does not fit in `usize`.
pub fn parse_usize(s: &Vec<u8>) -> (r: Option<usize>)
    ensures
        (r is Some) <==> (is_valid_decimal(s@) && decimal_value(digits_of(s@)) <= usize::MAX),
        r matches Some(n) ==> n == decimal_value(digits_of(s@)),
{
    let ghost d = digits_of(s@);
    let start: usize = if s.len() > 0 && s[0] == 43 {
        1
    } else {
        0
    };
    if start >= s.len() {
        return None;
    }
    assert(d =~= s@.subrange(start as int, s@.len() as int));

    let mut n: usize = 0;
    let mut i: usize = start;
    while i < s.len()
        invariant
            start <= i <= s@.len(),
            d == digits_of(s@),
            d == s@.subrange(start as int, s@.len() as int),
            all_digits(d.subrange(0, i - start)),
            n == decimal_value(d.subrange(0, i - start)),
        decreases s@.len() - i,
    {
        let ghost j = i - start;
        let ghost prefix = d.subrange(0, j);
        let b = s[i];
        assert(d[j] == s@[i as int]);
        if b < 48 || b > 57 {
            assert(!is_ascii_digit(d[j]));
            assert(!all_digits(d));
            assert(!is_valid_decimal(s@));
            return None;
        }
        let digit = (b - 48) as usize;
        proof {
            assert(d.subrange(0, j + 1) =~= prefix.push(b));
            lemma_decimal_value_push(prefix, b);
        }
        if n > (usize::MAX - digit) / 10 {
            proof {
                vstd::arithmetic::div_mod::lemma_fundamental_div_mod(
                    usize::MAX - digit,
                    10,
                );
                assert(decimal_value(d.subrange(0, j + 1)) > usize::MAX);
                lemma_decimal_value_prefix(d, j + 1);
                assert(decimal_value(digits_of(s@)) > usize::MAX);
            }
            return None;
        }
        proof {
            vstd::arithmetic::div_mod::lemma_fundamental_div_mod(usize::MAX - digit, 10);
        }
        n = n * 10 + digit;
        i += 1;
    }
    assert(d.subrange(0, d.len() as int) =~= d);
    Some(n)
}

/// Resolves the agent-count configuration value: the default when no flag
/// value was supplied, the parsed count when the supplied bytes are a
/// decimal numeral that fits in `usize`, and `None` (a user-facing error in
/// the caller) otherwise.
pub fn resolve_count(arg: Option<&Vec<u8>>, default: usize) -> (r: Option<usize>)
    ensures
        arg is None ==> r == Some(default),
        arg matches Some(s) ==> {
            &&& (r is Some) <==> (is_valid_decimal(s@) && decimal_value(digits_of(s@))
                <= usize::MAX)
            &&& (r matches Some(n) ==> n == decimal_value(digits_of(s@)))
        },
{
    match arg {
        None => Some(default),
        Some(s) => parse_usize(s),
    }
}

} // verus!

