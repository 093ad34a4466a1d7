use vstd::prelude::*;

use crate::calendar::DateTime;

verus! {

/// A passkey and the data key as it wraps it.
///
/// Encrypted with the data key: `name`.
#[derive(Debug)]
pub struct Model {
    pub id: i64,
    pub credential_id: Vec<u8>,
    pub credential: String,
    pub name: String,
    pub dek_nonce: Vec<u8>,
    pub wrapped_dek: Vec<u8>,
    pub created_at: DateTime,
}

} // verus!
