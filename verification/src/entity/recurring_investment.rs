use vstd::prelude::*;

use crate::calendar::{Date, DateTime};

verus! {

/// A plan to invest on every trading day.
///
/// Encrypted with the data key: `name`, `amount`, `fee_rate_bps`, `sms_fund_name`, `note`.
#[derive(Debug)]
pub struct Model {
    pub id: i64,
    pub name: String,
    pub from_account_id: i64,
    pub fund_account_id: i64,
    pub amount: String,
    pub fee_rate_bps: String,
    pub strategy: String,
    pub index_code: String,
    pub moving_average_days: i32,
    pub sms_fund_name: String,
    pub start_date: Date,
    pub next_trade_date: Date,
    pub active: bool,
    pub note: String,
    pub created_at: DateTime,
}

} // verus!
