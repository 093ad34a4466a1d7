use vstd::prelude::*;

use crate::calendar::{Date, DateTime};

verus! {

/// A day on which the market is closed.
#[derive(Debug)]
pub struct Model {
    pub date: Date,
    pub name: String,
    pub source: String,
    pub created_at: DateTime,
}

} // verus!
