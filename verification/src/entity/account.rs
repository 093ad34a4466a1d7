use vstd::prelude::*;

use crate::calendar::DateTime;

verus! {

/// An account: its balance is the net of its records plus an offset.
///
/// Encrypted with the data key: `name`, `balance_offset`, `note`.
#[derive(Debug)]
pub struct Model {
    pub id: i64,
    pub name: String,
    pub kind: String,
    pub currency: String,
    pub balance_offset: String,
    pub note: String,
    pub created_at: DateTime,
}

} // verus!
