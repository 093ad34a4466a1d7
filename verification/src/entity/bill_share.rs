use vstd::prelude::*;

use crate::calendar::DateTime;

verus! {

/// A shared copy of a bill, which no longer changes.
///
/// Encrypted with the data key: `token`, `label`, `snapshot`.
#[derive(Debug)]
pub struct Model {
    pub id: i64,
    pub source_bill_id: i64,
    pub token_hash: Vec<u8>,
    pub token: String,
    pub label: String,
    pub salt: Vec<u8>,
    pub snapshot: String,
    pub has_password: bool,
    pub expires_at: DateTime,
    pub created_at: DateTime,
}

} // verus!
