//! Durations written as `hours:minutes:seconds`.

use vstd::prelude::*;
use crate::number::{lemma_decimal_prefix, parse_usize, parsed_usize};
use crate::text::{chars_of, copy_range};

verus! {

/// The position of the last colon in `s`.
pub open spec fn last_colon(s: Seq<char>) -> Option<int>
    decreases s.len(),
{
    if s.len() == 0 {
        None
    } else if s.last() == ':' {
        Some(s.len() - 1)
    } else {
        last_colon(s.drop_last())
    }
}

/// The number that one part of a duration writes; 0 where it writes none.
pub open spec fn part_value(s: Seq<char>) -> int {
    match parsed_usize(s) {
        Some(v) => v,
        None => 0,
    }
}

/// The duration that `s` writes, in units of its last part: the last part
/// counts once, and what stands before the last colon counts sixty-fold.
pub open spec fn time_units(s: Seq<char>) -> int
    decreases s.len(),
{
    match last_colon(s) {
        Some(i) => if 0 <= i < s.len() {
            time_units(s.take(i)) * 60 + part_value(s.skip(i + 1))
        } else {
            0
        },
        None => part_value(s),
    }
}

/// The duration that `s` writes, in milliseconds, where its last part counts
/// seconds.
pub open spec fn time_ms(s: Seq<char>) -> int {
    time_units(s) * 1000
}

/// The last colon of a text is a colon, and none follows it.
pub proof fn lemma_last_colon(s: Seq<char>)
    ensures
        match last_colon(s) {
            Some(i) => 0 <= i < s.len() && s[i] == ':' && forall|j: int|
                i < j < s.len() ==> s[j] != ':',
            None => forall|j: int| 0 <= j < s.len() ==> s[j] != ':',
        },
    decreases s.len(),
{
    if s.len() > 0 && s.last() != ':' {
        lemma_last_colon(s.drop_last());
        assert forall|j: int| 0 <= j < s.len() - 1 implies s.drop_last()[j] == s[j] by {}
    }
}

/// The number that a part writes is not negative.
pub proof fn lemma_part_value_nonnegative(s: Seq<char>)
    ensures
        part_value(s) >= 0,
{
    if parsed_usize(s) is Some {
        let digits = if s.len() > 0 && s[0] == '+' {
            s.skip(1)
        } else {
            s
        };
        lemma_decimal_prefix(digits, 0);
    }
}

/// A duration is not negative.
pub proof fn lemma_time_units_nonnegative(s: Seq<char>)
    ensures
        time_units(s) >= 0,
    decreases s.len(),
{
    lemma_last_colon(s);
    match last_colon(s) {
        Some(i) => {
            lemma_time_units_nonnegative(s.take(i));
            lemma_part_value_nonnegative(s.skip(i + 1));
        },
        None => {
            lemma_part_value_nonnegative(s);
        },
    }
}

/// What stands before a colon writes no longer duration than the whole.
pub proof fn lemma_time_units_prefix(s: Seq<char>, p: int)
    requires
        0 <= p < s.len(),
        s[p] == ':',
    ensures
        time_units(s.take(p)) <= time_units(s),
    decreases s.len(),
{
    lemma_last_colon(s);
    let i = last_colon(s).unwrap();
    lemma_time_units_nonnegative(s.take(i));
    lemma_part_value_nonnegative(s.skip(i + 1));
    if p < i {
        lemma_time_units_prefix(s.take(i), p);
        assert(s.take(i).take(p) =~= s.take(p));
    }
}

/// The duration that `duration` writes, in milliseconds: its parts are
/// separated by colons, the last counts seconds, and each part before counts
/// sixty of the next. A part that is not a number counts as 0. `None` where
/// the duration does not fit a machine word.
pub fn time_to_ms_checked(duration: &str) -> (r: Option<usize>)
    ensures
        match r {
            Some(ms) => ms == time_ms(duration@),
            None => time_ms(duration@) > usize::MAX,
        },
{
    let s = chars_of(duration);
    let mut units: usize = 0;
    let mut start: usize = 0;
    let mut i: usize = 0;
    assert(s@.take(0).len() == 0);
    while i < s.len()
        invariant
            start <= i <= s.len(),
            s@ == duration@,
            last_colon(s@.take(i as int)) == if start == 0 {
                None
            } else {
                Some(start - 1)
            },
            start > 0 ==> s@[start - 1] == ':' && units == time_units(s@.take(start - 1)),
        decreases s.len() - i,
    {
        assert(s@.take(i + 1).drop_last() =~= s@.take(i as int));
        if s[i] == ':' {
            let part = copy_range(&s, start, i);
            let value = match parse_usize(&part) {
                Some(v) => v,
                None => 0,
            };
            proof {
                let seen = s@.take(i as int);
                if start == 0 {
                    assert(part@ =~= seen);
                } else {
                    assert(seen.take(start - 1) =~= s@.take(start - 1));
                    assert(seen.skip(start as int) =~= part@);
                }
                lemma_time_units_nonnegative(s@.take(start - 1));
            }
            if start > 0 {
                if units > (usize::MAX - value) / 60 {
                    proof {
                        assert(units * 60 + value > usize::MAX) by (nonlinear_arith)
                            requires
                                units > (usize::MAX - value) / 60,
                                0 <= value <= usize::MAX,
                        {
                        }
                        lemma_time_units_prefix(s@, i as int);
                        assert(time_ms(s@) > usize::MAX) by (nonlinear_arith)
                            requires
                                time_units(s@) > usize::MAX,
                                time_ms(s@) == time_units(s@) * 1000,
                        {
                        }
                    }
                    return None;
                }
                units = units * 60 + value;
            } else {
                units = value;
            }
            start = i + 1;
        }
        i += 1;
    }
    assert(s@.take(s.len() as int) =~= s@);
    let part = copy_range(&s, start, s.len());
    let value = match parse_usize(&part) {
        Some(v) => v,
        None => 0,
    };
    proof {
        if start == 0 {
            assert(part@ =~= s@);
        } else {
            assert(s@.skip(start as int) =~= part@);
            lemma_time_units_nonnegative(s@.take(start - 1));
        }
    }
    let total: usize = if start > 0 {
        if units > (usize::MAX - value) / 60 {
            proof {
                assert(units * 60 + value > usize::MAX) by (nonlinear_arith)
                    requires
                        units > (usize::MAX - value) / 60,
                        0 <= value <= usize::MAX,
                {
                }
                assert(time_ms(s@) > usize::MAX) by (nonlinear_arith)
                    requires
                        time_units(s@) > usize::MAX,
                        time_ms(s@) == time_units(s@) * 1000,
                {
                }
            }
            return None;
        }
        units * 60 + value
    } else {
        value
    };
    assert(total == time_units(s@));
    if total > usize::MAX / 1000 {
        assert(total * 1000 > usize::MAX) by (nonlinear_arith)
            requires
                total > usize::MAX / 1000,
        {
        }
        return None;
    }
    assert(total * 1000 <= usize::MAX) by (nonlinear_arith)
        requires
            total <= usize::MAX / 1000,
    {
    }
    Some(total * 1000)
}

/// The duration that `duration` writes, in milliseconds: its parts are
/// separated by colons, the last counts seconds, and each part before counts
/// sixty of the next. A part that is not a number counts as 0.
pub fn time_to_ms(duration: &str) -> (ms: usize)
    requires
        time_ms(duration@) <= usize::MAX,
    ensures
        ms == time_ms(duration@),
{
    match time_to_ms_checked(duration) {
        Some(ms) => ms,
        None => 0,
    }
}

} // verus!
