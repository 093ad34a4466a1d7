use vstd::prelude::*;

use crate::calendar::DateTime;

verus! {

/// A balance that was set by hand.
///
/// Encrypted with the data key: `from_balance`, `to_balance`.
#[derive(Debug)]
pub struct Model {
    pub id: i64,
    pub account_id: i64,
    pub from_balance: String,
    pub to_balance: String,
    pub happened_at: DateTime,
    pub created_at: DateTime,
}

} // verus!
