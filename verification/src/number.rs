//! Decimal numbers in text.

use vstd::arithmetic::div_mod::{lemma_fundamental_div_mod, lemma_fundamental_div_mod_converse};
use vstd::prelude::*;

verus! {

/// `c` is one of the digits `0` to `9`.
pub open spec fn is_digit(c: char) -> bool {
    '0' as u32 <= c as u32 <= '9' as u32
}

/// The value of a digit.
pub open spec fn digit_value(c: char) -> int {
    c as u32 - '0' as u32
}

/// Every character of `s` is a digit.
pub open spec fn all_digits(s: Seq<char>) -> bool {
    forall|i: int| 0 <= i < s.len() ==> is_digit(#[trigger] s[i])
}

/// The number that the digits of `s` write in base ten.
pub open spec fn decimal(s: Seq<char>) -> int
    decreases s.len(),
{
    if s.len() == 0 {
        0
    } else {
        decimal(s.drop_last()) * 10 + digit_value(s.last())
    }
}

/// The number that `s` writes, where `s` is one digit or more and the number
/// is at most `limit`.
pub open spec fn bounded_decimal(s: Seq<char>, limit: int) -> Option<int> {
    if s.len() > 0 && all_digits(s) && decimal(s) <= limit {
        Some(decimal(s))
    } else {
        None
    }
}

/// The number that `s` writes as an unsigned machine word: an optional `+`,
/// then one digit or more. `None` where `s` is not of that form or the number
/// does not fit.
pub open spec fn parsed_usize(s: Seq<char>) -> Option<int> {
    let digits = if s.len() > 0 && s[0] == '+' {
        s.skip(1)
    } else {
        s
    };
    bounded_decimal(digits, usize::MAX as int)
}

/// The number that `s` writes as a signed 32-bit integer: an optional `+` or
/// `-`, then one digit or more. `None` where `s` is not of that form or the
/// number does not fit.
pub open spec fn parsed_i32(s: Seq<char>) -> Option<int> {
    if s.len() > 0 && s[0] == '-' {
        match bounded_decimal(s.skip(1), 0x8000_0000) {
            Some(v) => Some(-v),
            None => None,
        }
    } else if s.len() > 0 && s[0] == '+' {
        bounded_decimal(s.skip(1), 0x7fff_ffff)
    } else {
        bounded_decimal(s, 0x7fff_ffff)
    }
}

/// The number that `s` writes as a signed 64-bit integer: an optional `+` or
/// `-`, then one digit or more. `None` where `s` is not of that form or the
/// number does not fit.
pub open spec fn parsed_i64(s: Seq<char>) -> Option<int> {
    if s.len() > 0 && s[0] == '-' {
        match bounded_decimal(s.skip(1), 0x8000_0000_0000_0000) {
            Some(v) => Some(-v),
            None => None,
        }
    } else if s.len() > 0 && s[0] == '+' {
        bounded_decimal(s.skip(1), 0x7fff_ffff_ffff_ffff)
    } else {
        bounded_decimal(s, 0x7fff_ffff_ffff_ffff)
    }
}

/// The signed 32-bit integer that has the low 32 bits of `v`.
pub open spec fn low_32_bits(v: int) -> int {
    let m = v % 0x1_0000_0000;
    if m >= 0x8000_0000 {
        m - 0x1_0000_0000
    } else {
        m
    }
}

/// A number written in digits is not negative, and a prefix of it writes no
/// greater number.
pub proof fn lemma_decimal_prefix(s: Seq<char>, i: int)
    requires
        all_digits(s),
        0 <= i <= s.len(),
    ensures
        0 <= decimal(s.take(i)) <= decimal(s),
    decreases s.len(),
{
    if s.len() == 0 {
        assert(s.take(i) =~= s);
    } else if i == s.len() {
        assert(s.take(i) =~= s);
        lemma_decimal_prefix(s.drop_last(), 0);
        assert(s.drop_last().take(0).len() == 0);
        lemma_decimal_prefix(s.drop_last(), s.len() - 1);
        assert(s.drop_last().take(s.len() - 1) =~= s.drop_last());
    } else {
        lemma_decimal_prefix(s.drop_last(), i);
        assert(s.drop_last().take(i) =~= s.take(i));
        lemma_decimal_prefix(s.drop_last(), s.len() - 1);
        assert(s.drop_last().take(s.len() - 1) =~= s.drop_last());
    }
}

/// The value of `c` where it is a digit.
pub fn digit_of(c: char) -> (r: Option<u64>)
    ensures
        match r {
            Some(d) => is_digit(c) && d == digit_value(c) && d <= 9,
            None => !is_digit(c),
        },
{
    match c {
        '0' => Some(0),
        '1' => Some(1),
        '2' => Some(2),
        '3' => Some(3),
        '4' => Some(4),
        '5' => Some(5),
        '6' => Some(6),
        '7' => Some(7),
        '8' => Some(8),
        '9' => Some(9),
        _ => None,
    }
}

/// The number that the characters of `s` from `from` on write, where it is at
/// most `limit`.
pub fn read_decimal(s: &Vec<char>, from: usize, limit: u64) -> (r: Option<u64>)
    requires
        from <= s.len(),
    ensures
        match r {
            Some(v) => bounded_decimal(s@.skip(from as int), limit as int) == Some(v as int),
            None => bounded_decimal(s@.skip(from as int), limit as int) is None,
        },
{
    let ghost digits = s@.skip(from as int);
    if from == s.len() {
        return None;
    }
    let mut value: u64 = 0;
    let mut i: usize = from;
    assert(digits.take(0).len() == 0);
    while i < s.len()
        invariant
            from <= i <= s.len(),
            digits == s@.skip(from as int),
            all_digits(digits.take(i - from)),
            value == decimal(digits.take(i - from)),
            value <= limit,
        decreases s.len() - i,
    {
        let c: char = s[i];
        let ghost seen = digits.take(i - from);
        let ghost more = digits.take(i + 1 - from);
        proof {
            assert(more.drop_last() =~= seen);
            assert(more.last() == c);
        }
        let d: u64 = match digit_of(c) {
            Some(d) => d,
            None => {
                assert(!is_digit(digits[i - from]));
                return None;
            },
        };
        assert(all_digits(more)) by {
            assert forall|j: int| 0 <= j < more.len() implies is_digit(#[trigger] more[j]) by {
                if j < seen.len() {
                    assert(more[j] == seen[j]);
                }
            }
        }
        if d > limit || value > (limit - d) / 10 {
            proof {
                assert(decimal(more) == value * 10 + d);
                assert(value * 10 + d > limit) by (nonlinear_arith)
                    requires
                        d > limit || (d <= limit && value > (limit - d) / 10),
                        0 <= d <= 9,
                        limit >= 0,
                        value >= 0,
                {
                }
                if all_digits(digits) {
                    lemma_decimal_prefix(digits, i + 1 - from);
                }
            }
            return None;
        }
        assert(value * 10 + d <= limit) by (nonlinear_arith)
            requires
                value <= (limit - d) / 10,
                0 <= d <= limit,
        {
        }
        value = value * 10 + d;
        i += 1;
    }
    assert(digits.take(s.len() - from) =~= digits);
    Some(value)
}

/// The number that `s` writes as an unsigned machine word.
pub fn parse_usize(s: &Vec<char>) -> (r: Option<usize>)
    ensures
        match r {
            Some(v) => parsed_usize(s@) == Some(v as int),
            None => parsed_usize(s@) is None,
        },
{
    let from: usize = if s.len() > 0 && s[0] == '+' {
        1
    } else {
        0
    };
    assert(s@.skip(0) =~= s@);
    match read_decimal(s, from, usize::MAX as u64) {
        Some(v) => Some(v as usize),
        None => None,
    }
}

/// The number that `s` writes as a signed 32-bit integer.
pub fn parse_i32(s: &Vec<char>) -> (r: Option<i32>)
    ensures
        match r {
            Some(v) => parsed_i32(s@) == Some(v as int),
            None => parsed_i32(s@) is None,
        },
{
    assert(s@.skip(0) =~= s@);
    if s.len() > 0 && s[0] == '-' {
        match read_decimal(s, 1, 0x8000_0000) {
            Some(v) => Some((0 - (v as i64)) as i32),
            None => None,
        }
    } else if s.len() > 0 && s[0] == '+' {
        match read_decimal(s, 1, 0x7fff_ffff) {
            Some(v) => Some(v as i32),
            None => None,
        }
    } else {
        match read_decimal(s, 0, 0x7fff_ffff) {
            Some(v) => Some(v as i32),
            None => None,
        }
    }
}

/// The number that `s` writes as a signed 64-bit integer.
pub fn parse_i64(s: &Vec<char>) -> (r: Option<i64>)
    ensures
        match r {
            Some(v) => parsed_i64(s@) == Some(v as int),
            None => parsed_i64(s@) is None,
        },
{
    assert(s@.skip(0) =~= s@);
    if s.len() > 0 && s[0] == '-' {
        match read_decimal(s, 1, 0x8000_0000_0000_0000) {
            Some(v) => {
                if v == 0x8000_0000_0000_0000 {
                    Some(i64::MIN)
                } else {
                    Some(0 - (v as i64))
                }
            },
            None => None,
        }
    } else if s.len() > 0 && s[0] == '+' {
        match read_decimal(s, 1, 0x7fff_ffff_ffff_ffff) {
            Some(v) => Some(v as i64),
            None => None,
        }
    } else {
        match read_decimal(s, 0, 0x7fff_ffff_ffff_ffff) {
            Some(v) => Some(v as i64),
            None => None,
        }
    }
}

/// The signed 32-bit integer that has the low 32 bits of `v`.
pub fn low_i32(v: i64) -> (r: i32)
    ensures
        r == low_32_bits(v as int),
{
    let m: i64 = if v >= 0 {
        v % 0x1_0000_0000
    } else {
        let w: i64 = -(v + 1);
        let rest: i64 = w % 0x1_0000_0000;
        proof {
            lemma_fundamental_div_mod(w as int, 0x1_0000_0000);
            let q = (w as int) / 0x1_0000_0000;
            assert(v as int == (-q - 1) * 0x1_0000_0000 + (0xffff_ffff - rest)) by (nonlinear_arith)
                requires
                    w as int == 0x1_0000_0000 * q + rest,
                    v as int == -(w as int) - 1,
            {
            }
            lemma_fundamental_div_mod_converse(
                v as int,
                0x1_0000_0000,
                -q - 1,
                0xffff_ffff - rest,
            );
        }
        0xffff_ffff - rest
    };
    if m >= 0x8000_0000 {
        (m - 0x1_0000_0000) as i32
    } else {
        m as i32
    }
}

} // verus!
