use vstd::prelude::*;

use crate::calendar::{Date, DateTime};

verus! {

/// One payment of an instalment plan.
///
/// Encrypted with the data key: `principal`, `interest`, `fee`, `total`.
#[derive(Debug)]
pub struct Model {
    pub id: i64,
    pub plan_id: i64,
    pub sequence: i32,
    pub due_date: Date,
    pub principal: String,
    pub interest: String,
    pub fee: String,
    pub total: String,
    pub paid_at: Option<DateTime>,
    pub repayment_account_id: Option<i64>,
    pub principal_transfer_id: Option<i64>,
    pub charge_bill_id: Option<i64>,
    pub created_at: DateTime,
}

} // verus!
