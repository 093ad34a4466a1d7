use vstd::prelude::*;

verus! {

/// The data key as the password wraps it.
#[derive(Debug)]
pub struct Model {
    pub id: i32,
    pub salt: Vec<u8>,
    pub dek_nonce: Vec<u8>,
    pub wrapped_dek: Vec<u8>,
}

} // verus!
