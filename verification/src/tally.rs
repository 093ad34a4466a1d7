//! Amounts added up under numbers or names.
use vstd::prelude::*;
use vstd::string::*;

use crate::decimal::fits_i64;

verus! {

/// An amount for each of some numbers.
pub struct Tally {
    pub entries: Vec<(i64, i64)>,
}

/// The amount under a number, zero where there is none.
pub open spec fn tallied(entries: Seq<(i64, i64)>, id: i64) -> int
    decreases entries.len(),
{
    if entries.len() == 0 {
        0
    } else if entries.last().0 == id {
        entries.last().1 as int
    } else {
        tallied(entries.drop_last(), id)
    }
}

/// Whether there is an amount under a number.
pub open spec fn has_number(entries: Seq<(i64, i64)>, id: i64) -> bool {
    exists|i: int| 0 <= i < entries.len() && (#[trigger] entries[i]).0 == id
}

/// The number of an entry is found with that entry's amount, as no number occurs twice.
pub proof fn tallied_at(entries: Seq<(i64, i64)>, i: int)
    requires
        0 <= i < entries.len(),
        forall|j: int, k: int|
            0 <= j < k < entries.len() ==> (#[trigger] entries[j]).0 != (#[trigger] entries[k]).0,
    ensures
        tallied(entries, entries[i].0) == entries[i].1,
    decreases entries.len(),
{
    if i < entries.len() - 1 {
        assert(entries[i].0 != entries[entries.len() - 1].0);
        assert(entries.drop_last()[i] == entries[i]);
        tallied_at(entries.drop_last(), i);
    }
}

/// A number without an entry has the amount zero.
pub proof fn tallied_absent(entries: Seq<(i64, i64)>, id: i64)
    requires
        !has_number(entries, id),
    ensures
        tallied(entries, id) == 0,
    decreases entries.len(),
{
    if entries.len() > 0 {
        assert(entries[entries.len() - 1].0 != id);
        assert forall|i: int| 0 <= i < entries.drop_last().len() implies (
        #[trigger] entries.drop_last()[i]).0 != id by {
            assert(entries.drop_last()[i] == entries[i]);
        }
        tallied_absent(entries.drop_last(), id);
    }
}

/// Changing the amount of one entry changes the amount under its number alone.
proof fn tallied_update(entries: Seq<(i64, i64)>, i: int, amount: i64, id: i64)
    requires
        0 <= i < entries.len(),
        forall|j: int, k: int|
            0 <= j < k < entries.len() ==> (#[trigger] entries[j]).0 != (#[trigger] entries[k]).0,
    ensures
        tallied(entries.update(i, (entries[i].0, amount)), id) == if id == entries[i].0 {
            amount as int
        } else {
            tallied(entries, id)
        },
    decreases entries.len(),
{
    let new = entries.update(i, (entries[i].0, amount));
    let last = entries.len() - 1;
    if i == last {
        assert(new.drop_last() =~= entries.drop_last());
    } else {
        assert(new.last() == entries.last());
        assert(new.drop_last() =~= entries.drop_last().update(
            i,
            (entries.drop_last()[i].0, amount),
        ));
        assert(entries[i].0 != entries[last].0);
        tallied_update(entries.drop_last(), i, amount, id);
    }
}

impl Tally {
    /// No number occurs twice.
    pub open spec fn wf(self) -> bool {
        forall|j: int, k: int|
            0 <= j < k < self.entries@.len() ==> (#[trigger] self.entries@[j]).0 != (
            #[trigger] self.entries@[k]).0
    }

    /// The amount under a number, zero where there is none.
    pub open spec fn amount(self, id: i64) -> int {
        tallied(self.entries@, id)
    }

    pub fn new() -> (r: Tally)
        ensures
            r.wf(),
            r.entries@.len() == 0,
            forall|id: i64| #[trigger] r.amount(id) == 0,
    {
        Tally { entries: Vec::new() }
    }

    fn position(&self, id: i64) -> (r: Option<usize>)
        ensures
            match r {
                Some(i) => i < self.entries@.len() && self.entries@[i as int].0 == id,
                None => !has_number(self.entries@, id),
            },
    {
        let mut i: usize = 0;
        while i < self.entries.len()
            invariant
                i <= self.entries@.len(),
                forall|j: int| 0 <= j < i ==> (#[trigger] self.entries@[j]).0 != id,
            decreases self.entries@.len() - i,
        {
            if self.entries[i].0 == id {
                return Some(i);
            }
            i = i + 1;
        }
        None
    }

    /// The amount under a number, zero where there is none.
    pub fn get(&self, id: i64) -> (r: i64)
        requires
            self.wf(),
        ensures
            r == self.amount(id),
    {
        match self.position(id) {
            Some(i) => {
                proof {
                    tallied_at(self.entries@, i as int);
                }
                self.entries[i].1
            },
            None => {
                proof {
                    tallied_absent(self.entries@, id);
                }
                0
            },
        }
    }

    /// Sets the amount under a number.
    pub fn set(&mut self, id: i64, amount: i64)
        requires
            old(self).wf(),
        ensures
            final(self).wf(),
            forall|other: i64| #[trigger]
                final(self).amount(other) == if other == id {
                    amount as int
                } else {
                    old(self).amount(other)
                },
            forall|other: i64| #[trigger]
                has_number(final(self).entries@, other) <==> other == id || has_number(
                    old(self).entries@,
                    other,
                ),
    {
        let ghost before = self.entries@;
        match self.position(id) {
            Some(i) => {
                self.entries.set(i, (id, amount));
                proof {
                    assert forall|other: i64| #[trigger] self.amount(other) == (if other == id {
                        amount as int
                    } else {
                        tallied(before, other)
                    }) by {
                        tallied_update(before, i as int, amount, other);
                    }
                    assert forall|other: i64| #[trigger]
                        has_number(self.entries@, other) <==> other == id || has_number(
                            before,
                            other,
                        ) by {
                        if has_number(before, other) {
                            let k = choose|k: int| 0 <= k < before.len() && (#[trigger] before[k]).0
                                == other;
                            assert(self.entries@[k].0 == other);
                        }
                        if has_number(self.entries@, other) {
                            let k = choose|k: int|
                                0 <= k < before.len() && (#[trigger] self.entries@[k]).0 == other;
                            assert(before[k].0 == other);
                        }
                        assert(self.entries@[i as int].0 == id);
                    }
                }
            },
            None => {
                self.entries.push((id, amount));
                proof {
                    assert(self.entries@.drop_last() =~= before);
                    assert forall|j: int, k: int| 0 <= j < k < self.entries@.len() implies (
                    #[trigger] self.entries@[j]).0 != (#[trigger] self.entries@[k]).0 by {
                        assert(before[j].0 != id);
                    }
                    assert forall|other: i64| #[trigger]
                        has_number(self.entries@, other) <==> other == id || has_number(
                            before,
                            other,
                        ) by {
                        if has_number(before, other) {
                            let k = choose|k: int| 0 <= k < before.len() && (#[trigger] before[k]).0
                                == other;
                            assert(self.entries@[k].0 == other);
                        }
                        assert(self.entries@[before.len() as int].0 == id);
                        if has_number(self.entries@, other) && other != id {
                            let k = choose|k: int|
                                0 <= k < self.entries@.len() && (#[trigger] self.entries@[k]).0
                                    == other;
                            assert(before[k].0 == other);
                        }
                    }
                }
            },
        }
    }

    /// Adds to the amount under a number, unless the sum leaves the range of amounts.
    pub fn add(&mut self, id: i64, x: i64) -> (r: bool)
        requires
            old(self).wf(),
        ensures
            r == fits_i64(old(self).amount(id) + x),
            final(self).wf(),
            r ==> forall|other: i64| #[trigger]
                final(self).amount(other) == if other == id {
                    old(self).amount(id) + x
                } else {
                    old(self).amount(other)
                },
            r ==> forall|other: i64| #[trigger]
                has_number(final(self).entries@, other) <==> other == id || has_number(
                    old(self).entries@,
                    other,
                ),
            !r ==> final(self).entries@ == old(self).entries@,
    {
        let now: i64 = self.get(id);
        match now.checked_add(x) {
            Some(sum) => {
                self.set(id, sum);
                true
            },
            None => false,
        }
    }
}

} // verus!
