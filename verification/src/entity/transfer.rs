use vstd::prelude::*;

use crate::calendar::DateTime;

verus! {

/// Money moved between two accounts.
///
/// Encrypted with the data key: `amount`, `to_amount`, `note`.
#[derive(Debug)]
pub struct Model {
    pub id: i64,
    pub from_account_id: i64,
    pub to_account_id: i64,
    pub amount: String,
    pub to_amount: String,
    pub note: String,
    pub happened_at: DateTime,
    pub created_at: DateTime,
}

} // verus!
