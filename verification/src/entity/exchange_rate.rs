use vstd::prelude::*;

use crate::calendar::{Date, DateTime};

verus! {

/// An exchange rate that was fetched for a day.
#[derive(Debug)]
pub struct Model {
    pub id: String,
    pub requested_date: Date,
    pub rate_date: Date,
    pub base_currency: String,
    pub quote_currency: String,
    pub rate: String,
    pub fetched_at: DateTime,
}

} // verus!
