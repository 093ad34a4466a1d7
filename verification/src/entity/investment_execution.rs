use vstd::prelude::*;

use crate::calendar::{Date, DateTime};

verus! {

/// A day on which a recurring investment was made.
///
/// Encrypted with the data key: `base_amount`, `multiplier_bps`.
#[derive(Debug)]
pub struct Model {
    pub id: i64,
    pub plan_id: i64,
    pub trade_date: Date,
    pub transfer_id: Option<i64>,
    pub fee_bill_id: Option<i64>,
    pub base_amount: String,
    pub multiplier_bps: String,
    pub strategy: String,
    pub index_code: String,
    pub moving_average_days: i32,
    pub quote_date: Option<Date>,
    pub index_close: String,
    pub moving_average: String,
    pub created_at: DateTime,
}

} // verus!
