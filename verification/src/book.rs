//! The rows of the ledger that its rules read together.
use vstd::prelude::*;

use crate::entity::{
    account, account_detail, balance_adjustment, bill, debt_person, debt_record, transfer,
};

verus! {

/// A row that is found by a number of its own.
pub trait Row: Sized {
    spec fn key(&self) -> i64;

    fn row_key(&self) -> (r: i64)
        ensures
            r == self.key(),
    ;
}

/// The row with a number, where there is one; the last of them, should there be several.
pub open spec fn found<T: Row>(rows: Seq<T>, id: i64) -> Option<T>
    decreases rows.len(),
{
    if rows.len() == 0 {
        None
    } else if rows.last().key() == id {
        Some(rows.last())
    } else {
        found(rows.drop_last(), id)
    }
}

/// The row that was found carries the number that was looked for and is one of the rows.
pub proof fn found_is_row<T: Row>(rows: Seq<T>, id: i64)
    ensures
        found(rows, id) is Some ==> found(rows, id)->0.key() == id && rows.contains(
            found(rows, id)->0,
        ),
        found(rows, id) is None <==> forall|i: int|
            0 <= i < rows.len() ==> (#[trigger] rows[i]).key() != id,
    decreases rows.len(),
{
    if rows.len() > 0 {
        assert(rows.last() == rows[rows.len() - 1]);
        found_is_row(rows.drop_last(), id);
        if rows.last().key() != id {
            let front = rows.drop_last();
            assert forall|i: int| 0 <= i < rows.len() && found(front, id) is None implies (
            #[trigger] rows[i]).key() != id by {
                if i < front.len() {
                    assert(front[i].key() != id);
                }
            }
            if found(front, id) is Some {
                let i = choose|i: int| 0 <= i < front.len() && front[i] == found(front, id)->0;
                assert(rows[i] == found(front, id)->0);
            }
        }
    }
}

/// Finds the row with a number.
pub fn find<T: Row>(rows: &Vec<T>, id: i64) -> (r: Option<&T>)
    ensures
        match r {
            Some(row) => found(rows@, id) == Some(*row),
            None => found(rows@, id) is None,
        },
{
    let mut i: usize = rows.len();
    proof {
        assert(rows@.take(rows@.len() as int) =~= rows@);
    }
    while i > 0
        invariant
            i <= rows.len(),
            found(rows@.take(i as int), id) == found(rows@, id),
        decreases i,
    {
        proof {
            assert(rows@.take(i as int).drop_last() =~= rows@.take(i - 1));
        }
        i = i - 1;
        if rows[i].row_key() == id {
            return Some(&rows[i]);
        }
    }
    None
}

impl Row for account::Model {
    open spec fn key(&self) -> i64 {
        self.id
    }

    fn row_key(&self) -> i64 {
        self.id
    }
}

impl Row for account_detail::Model {
    open spec fn key(&self) -> i64 {
        self.account_id
    }

    fn row_key(&self) -> i64 {
        self.account_id
    }
}

impl Row for bill::Model {
    open spec fn key(&self) -> i64 {
        self.id
    }

    fn row_key(&self) -> i64 {
        self.id
    }
}

impl Row for debt_person::Model {
    open spec fn key(&self) -> i64 {
        self.id
    }

    fn row_key(&self) -> i64 {
        self.id
    }
}

/// The accounts and every record that moves money in or out of them.
pub struct Book {
    pub accounts: Vec<account::Model>,
    pub details: Vec<account_detail::Model>,
    pub bills: Vec<bill::Model>,
    pub transfers: Vec<transfer::Model>,
    pub people: Vec<debt_person::Model>,
    pub debts: Vec<debt_record::Model>,
    pub adjustments: Vec<balance_adjustment::Model>,
}

} // verus!
