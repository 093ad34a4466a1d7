use vstd::prelude::*;

use crate::calendar::DateTime;

verus! {

/// A text message of the bank, as it was handled.
///
/// Encrypted with the data key: `raw`, `detail`.
#[derive(Debug)]
pub struct Model {
    pub id: i64,
    pub event_hash: String,
    pub occurred_at: DateTime,
    pub kind: String,
    pub status: String,
    pub plan_id: Option<i64>,
    pub transfer_id: Option<i64>,
    pub raw: String,
    pub detail: String,
    pub created_at: DateTime,
}

} // verus!
