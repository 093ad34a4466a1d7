use vstd::prelude::*;

use crate::calendar::DateTime;

verus! {

/// A request to pay, answered over a public link.
///
/// Encrypted with the data key: `token`, `label`, `snapshot`, `submission`.
#[derive(Debug)]
pub struct Model {
    pub id: i64,
    pub person_id: Option<i64>,
    pub account_id: i64,
    pub kind: String,
    pub token_hash: Vec<u8>,
    pub token: String,
    pub label: String,
    pub salt: Vec<u8>,
    pub snapshot: String,
    pub submission: String,
    pub request_digest: Vec<u8>,
    pub submission_digest: Vec<u8>,
    pub confirmation_digest: Vec<u8>,
    pub status: String,
    pub expires_at: DateTime,
    pub submitted_at: Option<DateTime>,
    pub confirmed_at: Option<DateTime>,
    pub confirmed_debt_record_id: Option<i64>,
    pub created_at: DateTime,
}

} // verus!
