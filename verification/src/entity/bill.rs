use vstd::prelude::*;

use crate::calendar::DateTime;

verus! {

/// Money earned or spent.
///
/// Encrypted with the data key: `amount`, `category`, `note`.
#[derive(Debug)]
pub struct Model {
    pub id: i64,
    pub account_id: i64,
    pub kind: String,
    pub amount: String,
    pub category: String,
    pub is_food: bool,
    pub note: String,
    pub happened_at: DateTime,
    pub created_at: DateTime,
}

} // verus!
