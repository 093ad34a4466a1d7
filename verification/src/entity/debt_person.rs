use vstd::prelude::*;

use crate::calendar::DateTime;

verus! {

/// Someone whom money was lent to or borrowed from.
///
/// Encrypted with the data key: `name`, `note`.
#[derive(Debug)]
pub struct Model {
    pub id: i64,
    pub name: String,
    pub note: String,
    pub created_at: DateTime,
}

} // verus!
