//! Parsing of numeric configuration values.
//!
//! Configuration reaches the engine as plain strings (cache size, age
//! limit, refresh interval, all in seconds); [`parse_var`] turns one into
//! a number, verified against the decimal reading of its characters.

use vstd::prelude::*;
use vstd::string::StrSliceExecFns;

verus! {

/// Whether the character is a decimal digit.
pub open spec fn is_digit(c: char) -> bool {
    '0' <= c && c <= '9'
}

/// The value of a decimal digit.
pub open spec fn digit_value(c: char) -> int {
    c as int - '0' as int
}

/// Whether every character of the string is a decimal digit.
pub open spec fn all_digits(s: Seq<char>) -> bool {
    forall|i: int| 0 <= i < s.len() ==> is_digit(#[trigger] s[i])
}

/// The number a string of digits denotes, read most significant first.
pub open spec fn decimal_value(s: Seq<char>) -> int
    decreases s.len(),
{
    if s.len() == 0 {
        0
    } else {
        decimal_value(s.drop_last()) * 10 + digit_value(s.last())
    }
}

/// A digit string denotes a non-negative number.
proof fn lemma_decimal_nonneg(s: Seq<char>)
    requires
        all_digits(s),
    ensures
        decimal_value(s) >= 0,
    decreases s.len(),
{
    if s.len() > 0 {
        assert(all_digits(s.drop_last()));
        lemma_decimal_nonneg(s.drop_last());
        assert(is_digit(s.last()));
    }
}

/// A digit string denotes a number no smaller than any of its prefixes.
proof fn lemma_decimal_prefix_le(s: Seq<char>, j: int)
    requires
        all_digits(s),
        0 <= j <= s.len(),
    ensures
        0 <= decimal_value(s.take(j)) <= decimal_value(s),
    decreases s.len() - j,
{
    assert(all_digits(s.take(j)));
    lemma_decimal_nonneg(s.take(j));
    if j < s.len() {
        lemma_decimal_prefix_le(s, j + 1);
        assert(s.take(j + 1).drop_last() =~= s.take(j));
        assert(is_digit(s[j]));
    } else {
        assert(s.take(j) =~= s);
    }
}

/// Parse a configuration value: the number the string denotes in decimal,
/// absent when the string is empty, holds a non-digit, or denotes a number
/// too large for 64 bits.
pub fn parse_var(s: &str) -> (r: Option<u64>)
    ensures
        match r {
            Some(v) => s@.len() > 0 && all_digits(s@) && v == decimal_value(s@),
            None => s@.len() == 0 || !all_digits(s@) || decimal_value(s@) > u64::MAX,
        },
{
    let n = s.unicode_len();
    if n == 0 {
        return None;
    }
    let mut acc: u64 = 0;
    let mut i: usize = 0;
    while i < n
        invariant
            n == s@.len(),
            i <= n,
            forall|j: int| 0 <= j < i ==> is_digit(#[trigger] s@[j]),
            acc == decimal_value(s@.take(i as int)),
        decreases n - i,
    {
        let c = s.get_char(i);
        if c < '0' || c > '9' {
            return None;
        }
        let digit: u64 = (c as u32 - 48) as u64;
        proof {
            assert(s@.take(i as int + 1).drop_last() =~= s@.take(i as int));
        }
        let widened = match acc.checked_mul(10) {
            Some(m) => m.checked_add(digit),
            None => None,
        };
        match widened {
            Some(v) => {
                acc = v;
            },
            None => {
                proof {
                    let upto = s@.take(i as int + 1);
                    assert(decimal_value(upto) == acc * 10 + digit);
                    if all_digits(s@) {
                        lemma_decimal_prefix_le(s@, i as int + 1);
                    }
                }
                return None;
            },
        }
        i += 1;
    }
    proof {
        assert(s@.take(n as int) =~= s@);
    }
    Some(acc)
}

} // verus!
