use vstd::prelude::*;

use crate::calendar::DateTime;

verus! {

/// Money lent, borrowed or paid back.
///
/// Encrypted with the data key: `amount`, `note`.
#[derive(Debug)]
pub struct Model {
    pub id: i64,
    pub person_id: i64,
    pub account_id: i64,
    pub kind: String,
    pub amount: String,
    pub note: String,
    pub happened_at: DateTime,
    pub created_at: DateTime,
}

} // verus!
