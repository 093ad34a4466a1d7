use vstd::prelude::*;

use crate::calendar::DateTime;

verus! {

/// Something paid for in every period.
///
/// Encrypted with the data key: `name`, `amount`, `category`, `note`.
#[derive(Debug)]
pub struct Model {
    pub id: i64,
    pub name: String,
    pub amount: String,
    pub currency: String,
    pub category: String,
    pub period: String,
    pub expires_at: DateTime,
    pub auto_debit_account_id: Option<i64>,
    pub balance_check_days: i32,
    pub note: String,
    pub created_at: DateTime,
}

} // verus!
