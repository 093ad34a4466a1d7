use vstd::prelude::*;

verus! {

/// What an account has besides its name: card number, user name, credit limit and the day of the
/// month on which it bills.
///
/// Encrypted with the data key: `card_number`, `account_username`, `credit_limit`.
#[derive(Debug)]
pub struct Model {
    pub account_id: i64,
    pub card_number: String,
    pub account_username: String,
    pub credit_limit: String,
    pub billing_day: i32,
}

} // verus!
