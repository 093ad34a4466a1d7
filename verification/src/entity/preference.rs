use vstd::prelude::*;

verus! {

/// The preferences of the user.
///
/// Encrypted with the data key: `owner_name`.
#[derive(Debug)]
pub struct Model {
    pub id: i32,
    pub default_currency: String,
    pub owner_name: String,
    pub sms_api_token_hash: String,
}

} // verus!
