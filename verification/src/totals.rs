//! Sums of amounts that are refused as soon as a partial sum leaves the range of an `i64`.
use vstd::prelude::*;

use crate::decimal::fits_i64;

verus! {

/// The sum of a list of integers.
pub open spec fn total(s: Seq<int>) -> int
    decreases s.len(),
{
    if s.len() == 0 {
        0
    } else {
        total(s.drop_last()) + s.last()
    }
}

/// One more summand on top of a sum, where the summand and the new sum are in range.
pub open spec fn step(sum: Option<int>, x: int) -> Option<int> {
    match sum {
        Some(t) => if fits_i64(x) && fits_i64(t + x) {
            Some(t + x)
        } else {
            None
        },
        None => None,
    }
}

/// The sum of a list of integers, summed from the front, where every summand and every partial
/// sum is in range.
pub open spec fn checked_total(s: Seq<int>) -> Option<int>
    decreases s.len(),
{
    if s.len() == 0 {
        Some(0)
    } else {
        step(checked_total(s.drop_last()), s.last())
    }
}

/// The sum of a list of integers on top of a first one, summed from the front, where every
/// summand and every partial sum is in range.
pub open spec fn checked_from(start: int, s: Seq<int>) -> Option<int>
    decreases s.len(),
{
    if s.len() == 0 {
        Some(start)
    } else {
        step(checked_from(start, s.drop_last()), s.last())
    }
}

/// A front of a list that has no checked sum leaves the whole list without one.
pub proof fn checked_from_stops(start: int, s: Seq<int>, n: int)
    requires
        0 <= n <= s.len(),
        checked_from(start, s.take(n)) is None,
    ensures
        checked_from(start, s) is None,
    decreases s.len(),
{
    if n == s.len() {
        assert(s.take(n) =~= s);
    } else {
        assert(s.drop_last().take(n) =~= s.take(n));
        checked_from_stops(start, s.drop_last(), n);
    }
}

/// A checked sum, where there is one, is the sum, and it is in range.
pub proof fn checked_total_is_total(s: Seq<int>)
    ensures
        checked_total(s) is Some ==> checked_total(s) == Some(total(s)) && fits_i64(total(s)),
    decreases s.len(),
{
    if s.len() > 0 {
        checked_total_is_total(s.drop_last());
    }
}

/// One more summand at the end is one more step.
pub proof fn checked_total_push(s: Seq<int>, x: int)
    ensures
        checked_total(s.push(x)) == step(checked_total(s), x),
        total(s.push(x)) == total(s) + x,
{
    assert(s.push(x).drop_last() =~= s);
}

/// The sum of two lists in a row is the sum of their sums.
pub proof fn total_concat(a: Seq<int>, b: Seq<int>)
    ensures
        total(a + b) == total(a) + total(b),
    decreases b.len(),
{
    if b.len() == 0 {
        assert(a + b =~= a);
    } else {
        assert((a + b).drop_last() =~= a + b.drop_last());
        total_concat(a, b.drop_last());
    }
}

/// Taking one summand out takes it off the sum.
pub proof fn total_remove(s: Seq<int>, i: int)
    requires
        0 <= i < s.len(),
    ensures
        total(s.remove(i)) == total(s) - s[i],
    decreases s.len(),
{
    if i == s.len() - 1 {
        assert(s.remove(i) =~= s.drop_last());
    } else {
        assert(s.remove(i).drop_last() =~= s.drop_last().remove(i));
        assert(s.remove(i).last() == s.last());
        total_remove(s.drop_last(), i);
    }
}

/// Exchanging one summand for another changes the sum by their difference.
pub proof fn total_update(s: Seq<int>, i: int, x: int)
    requires
        0 <= i < s.len(),
    ensures
        total(s.update(i, x)) == total(s) - s[i] + x,
    decreases s.len(),
{
    if i == s.len() - 1 {
        assert(s.update(i, x).drop_last() =~= s.drop_last());
    } else {
        assert(s.update(i, x).drop_last() =~= s.drop_last().update(i, x));
        total_update(s.drop_last(), i, x);
    }
}

/// A list whose checked sum exists has checked sums at every front of it.
pub proof fn checked_total_front(s: Seq<int>, n: int)
    requires
        0 <= n <= s.len(),
        checked_total(s) is Some,
    ensures
        checked_total(s.take(n)) is Some,
    decreases s.len(),
{
    if n == s.len() {
        assert(s.take(n) =~= s);
    } else {
        assert(s.drop_last().take(n) =~= s.take(n));
        checked_total_front(s.drop_last(), n);
    }
}

/// A front of a list that has no checked sum leaves the whole list without one.
pub proof fn checked_total_stops(s: Seq<int>, n: int)
    requires
        0 <= n <= s.len(),
        checked_total(s.take(n)) is None,
    ensures
        checked_total(s) is None,
{
    if checked_total(s) is Some {
        checked_total_front(s, n);
    }
}

/// The sum of nonnegative summands that stays in range is a checked sum.
pub proof fn checked_total_of_naturals(s: Seq<int>)
    requires
        forall|i: int| 0 <= i < s.len() ==> 0 <= #[trigger] s[i],
    ensures
        total(s) >= 0,
        fits_i64(total(s)) ==> checked_total(s) == Some(total(s)),
    decreases s.len(),
{
    if s.len() > 0 {
        assert(s.last() == s[s.len() - 1]);
        checked_total_of_naturals(s.drop_last());
    }
}

/// The negative of an `i64`, where it is one.
pub fn negated(n: i64) -> (r: Option<i64>)
    ensures
        r == if fits_i64(-n) {
            Some((-n) as i64)
        } else {
            None
        },
{
    if n == i64::MIN {
        None
    } else {
        Some(-n)
    }
}

} // verus!
