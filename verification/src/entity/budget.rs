use vstd::prelude::*;

use crate::calendar::DateTime;

verus! {

/// The limits on spending; an empty text stands for no limit.
///
/// Encrypted with the data key: `daily_amount`, `weekly_amount`, `monthly_amount`.
#[derive(Debug)]
pub struct Model {
    pub id: i32,
    pub daily_amount: String,
    pub weekly_amount: String,
    pub monthly_amount: String,
    pub updated_at: DateTime,
}

} // verus!
