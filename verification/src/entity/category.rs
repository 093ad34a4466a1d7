use vstd::prelude::*;

use crate::calendar::DateTime;

verus! {

/// A category of bills.
///
/// Encrypted with the data key: `name`.
#[derive(Debug)]
pub struct Model {
    pub id: i64,
    pub kind: String,
    pub name: String,
    pub is_food: bool,
    pub created_at: DateTime,
}

} // verus!
