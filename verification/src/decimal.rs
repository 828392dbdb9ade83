//! Decimal strings: the mathematical reading and rendering of integers as
//! strings of digits, and a verified parser for unsigned values. The backend
//! contract's atomic counters speak of these functions, and configuration
//! loading parses its numeric settings with them.

use vstd::prelude::*;

verus! {

/// Whether `c` is a decimal digit.
pub open spec fn is_digit(c: char) -> bool {
    '0' <= c && c <= '9'
}

/// The numeric value of a digit character.
pub open spec fn digit_val(c: char) -> int {
    c as int - '0' as int
}

/// Whether every character of `s` is a decimal digit.
pub open spec fn all_digits(s: Seq<char>) -> bool {
    forall|i: int| 0 <= i < s.len() ==> is_digit(#[trigger] s[i])
}

/// The non-negative integer denoted by a string of digits, most significant
/// digit first.
pub open spec fn dec_value(s: Seq<char>) -> int
    decreases s.len(),
{
    if s.len() == 0 {
        0
    } else {
        dec_value(s.drop_last()) * 10 + digit_val(s.last())
    }
}

/// The digit character for a value below ten.
pub open spec fn digit_char(d: int) -> char {
    (('0' as u8) + d as u8) as char
}

/// The canonical digit string of a non-negative integer, as an atomic
/// counter stores it: no sign, no leading zeros (except for zero itself).
pub open spec fn dec_digits_of(n: int) -> Seq<char>
    decreases n,
{
    if n < 10 {
        seq![digit_char(n)]
    } else {
        dec_digits_of(n / 10).push(digit_char(n % 10))
    }
}

/// The canonical decimal string of an integer, negative values taking a
/// leading minus sign.
pub open spec fn dec_string_of(v: int) -> Seq<char> {
    if v < 0 {
        seq!['-'] + dec_digits_of(-v)
    } else {
        dec_digits_of(v)
    }
}

/// The digits of `s` once an optional leading sign in `allow_plus` /
/// `allow_minus` form is stripped; helper for the two readers below.
pub open spec fn unsigned_part(s: Seq<char>) -> Seq<char> {
    if s.len() > 0 && (s[0] == '+' || s[0] == '-') {
        s.subrange(1, s.len() as int)
    } else {
        s
    }
}

/// The value of `s` read as an unsigned 64-bit decimal: an optional leading
/// `+`, then at least one digit, denoting a value that fits in a `u64`.
pub open spec fn u64_string_value(s: Seq<char>) -> Option<int> {
    if s.len() > 0 && s[0] == '-' {
        None
    } else {
        let digits = unsigned_part(s);
        if digits.len() > 0 && all_digits(digits) && dec_value(digits) <= u64::MAX {
            Some(dec_value(digits))
        } else {
            None
        }
    }
}

/// The value of `s` read as a signed 64-bit decimal: an optional leading
/// sign, then at least one digit, denoting a value in `i64`'s range. This is
/// how a backend reads a stored value as an atomic counter.
pub open spec fn i64_string_value(s: Seq<char>) -> Option<int> {
    let digits = unsigned_part(s);
    let signed = if s.len() > 0 && s[0] == '-' {
        -dec_value(digits)
    } else {
        dec_value(digits)
    };
    if digits.len() > 0 && all_digits(digits) && i64::MIN <= signed <= i64::MAX {
        Some(signed)
    } else {
        None
    }
}

/// Extending a digit string by one digit scales its value by ten, so a
/// string's value is never smaller than the value of any of its prefixes.
proof fn lemma_dec_value_prefix_le(s: Seq<char>, n: int)
    requires
        all_digits(s),
        0 <= n <= s.len(),
    ensures
        dec_value(s.take(n)) <= dec_value(s),
        dec_value(s) >= 0,
    decreases s.len() - n,
{
    lemma_dec_value_nonneg(s.take(n));
    if n == s.len() {
        assert(s.take(n) =~= s);
    } else {
        lemma_dec_value_prefix_le(s, n + 1);
        let t = s.take(n + 1);
        assert(t.drop_last() =~= s.take(n));
        assert(is_digit(s[n]));
        assert(dec_value(t) == dec_value(s.take(n)) * 10 + digit_val(s[n]));
        lemma_dec_value_nonneg(s.take(n));
        assert(dec_value(s.take(n)) <= dec_value(s.take(n)) * 10) by (nonlinear_arith)
            requires dec_value(s.take(n)) >= 0;
    }
}

/// A digit string's value is non-negative.
proof fn lemma_dec_value_nonneg(s: Seq<char>)
    requires
        all_digits(s),
    ensures
        dec_value(s) >= 0,
    decreases s.len(),
{
    if s.len() > 0 {
        assert(all_digits(s.drop_last())) by {
            assert(forall|i: int|
                0 <= i < s.len() - 1 ==> #[trigger] s.drop_last()[i] == s[i]);
        }
        lemma_dec_value_nonneg(s.drop_last());
        assert(is_digit(s.last()));
        assert(dec_value(s.drop_last()) * 10 >= 0) by (nonlinear_arith)
            requires dec_value(s.drop_last()) >= 0;
    }
}

/// Parses `s` as an unsigned 64-bit decimal, accepting exactly the strings
/// whose `u64_string_value` is defined and returning that value.
#[verifier::loop_isolation(false)]
pub fn parse_u64(s: &str) -> (r: Option<u64>)
    ensures
        match r {
            Some(n) => u64_string_value(s@) == Some(n as int),
            None => u64_string_value(s@) is None,
        },
{
    let len = s.unicode_len();
    let mut start: usize = 0;
    if len > 0 {
        let c0 = s.get_char(0);
        if c0 == '-' {
            return None;
        }
        if c0 == '+' {
            start = 1;
        }
    }
    if start >= len {
        // empty input, or a sign with no digits after it
        assert(unsigned_part(s@).len() == 0);
        return None;
    }
    let ghost digits = unsigned_part(s@);
    assert(digits =~= s@.subrange(start as int, len as int));
    let mut n: u64 = 0;
    let mut i: usize = start;
    while i < len
        invariant
            start <= i <= len,
            len == s@.len(),
            digits == s@.subrange(start as int, len as int),
            all_digits(s@.subrange(start as int, i as int)),
            n == dec_value(s@.subrange(start as int, i as int)),
        decreases len - i,
    {
        let c = s.get_char(i);
        if c < '0' || c > '9' {
            assert(digits[i - start] == c);
            assert(!all_digits(digits));
            return None;
        }
        let d: u32 = c as u32 - '0' as u32;
        let ghost prefix = s@.subrange(start as int, i as int);
        let ghost prefix1 = s@.subrange(start as int, i + 1 as int);
        proof {
            assert(prefix1.drop_last() =~= prefix);
            assert(prefix1.last() == c);
            assert(all_digits(prefix1));
            assert(dec_value(prefix1) == n * 10 + digit_val(c));
        }
        let shifted = match n.checked_mul(10) {
            Some(m) => m,
            None => {
                proof {
                    assert(dec_value(prefix1) > u64::MAX) by (nonlinear_arith)
                        requires
                            dec_value(prefix1) == dec_value(prefix) * 10 + digit_val(c),
                            dec_value(prefix) * 10 > u64::MAX,
                            digit_val(c) >= 0;
                    assert(prefix1 =~= digits.take(i + 1 - start));
                    if all_digits(digits) {
                        lemma_dec_value_prefix_le(digits, i + 1 - start);
                    }
                }
                return None;
            },
        };
        let next = match shifted.checked_add(d as u64) {
            Some(m) => m,
            None => {
                proof {
                    assert(prefix1 =~= digits.take(i + 1 - start));
                    if all_digits(digits) {
                        lemma_dec_value_prefix_le(digits, i + 1 - start);
                    }
                }
                return None;
            },
        };
        n = next;
        i = i + 1;
    }
    proof {
        assert(s@.subrange(start as int, i as int) =~= digits);
    }
    Some(n)
}

} // verus!
