use vstd::prelude::*;

use crate::calendar::{Date, DateTime};

verus! {

/// An expense that is paid in instalments.
///
/// Encrypted with the data key: `annual_rate_bps`, `fee`.
#[derive(Debug)]
pub struct Model {
    pub id: i64,
    pub bill_id: i64,
    pub account_id: i64,
    pub term_months: i32,
    pub method: String,
    pub annual_rate_bps: String,
    pub fee: String,
    pub first_due_date: Date,
    pub created_at: DateTime,
}

} // verus!
