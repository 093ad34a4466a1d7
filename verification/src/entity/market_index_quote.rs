use vstd::prelude::*;

use crate::calendar::{Date, DateTime};

verus! {

/// The closing value of an index on a day.
#[derive(Debug)]
pub struct Model {
    pub id: String,
    pub index_code: String,
    pub trade_date: Date,
    pub close: String,
    pub source: String,
    pub fetched_at: DateTime,
}

} // verus!
