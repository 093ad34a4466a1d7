//! The rules behind the pages, one module for each part of the ledger.
use vstd::prelude::*;

use crate::book::{find, found, Row};
use crate::crypto::{cents, decrypt_cents, decrypt_string, plain, Dek};
use crate::entity::{account, debt_person, installment_plan, transfer};

pub mod accounts;
pub mod auth;
pub mod bills;
pub mod budgets;
pub mod currencies;
pub mod dashboard;
pub mod debt_requests;
pub mod debts;
pub mod installments;
pub mod investments;
pub mod passkeys;
pub mod settings;
pub mod shares;
pub mod statistics;
pub mod subscriptions;
pub mod transfers;

verus! {

/// The part of a list that is shown: so many items after so many.
#[derive(Clone, Copy)]
pub struct Page {
    pub start: usize,
    pub per_page: usize,
}

/// The card number and the user name of an account with most of their characters hidden.
pub struct MaskedDetail {
    pub account_id: i64,
    pub card_number: String,
    pub account_username: String,
}

impl Row for MaskedDetail {
    open spec fn key(&self) -> i64 {
        self.account_id
    }

    fn row_key(&self) -> i64 {
        self.account_id
    }
}

/// What the receiving account of a transfer gets; a transfer without an amount of its own for it
/// gives it what the sending account pays.
pub open spec fn received(dek: Seq<u8>, t: transfer::Model) -> int {
    if t.to_amount@.len() == 0 {
        cents(dek, t.amount@)
    } else {
        cents(dek, t.to_amount@)
    }
}

/// What the receiving account of a transfer gets.
pub fn transfer_to_cents(dek: &Dek, t: &transfer::Model) -> (r: i64)
    ensures
        r == received(dek@, *t),
{
    if t.to_amount.as_str().is_empty() {
        decrypt_cents(dek, &t.amount)
    } else {
        decrypt_cents(dek, &t.to_amount)
    }
}

/// The name of an account, or a word for one that is gone.
pub open spec fn account_name(dek: Seq<u8>, accounts: Seq<account::Model>, id: i64) -> Seq<char> {
    match found(accounts, id) {
        Some(a) => plain(dek, a.name@),
        None => "已删除账户"@,
    }
}

pub fn account_name_of(dek: &Dek, accounts: &Vec<account::Model>, id: i64) -> (r: String)
    ensures
        r@ == account_name(dek@, accounts@, id),
{
    match find(accounts, id) {
        Some(a) => decrypt_string(dek, &a.name),
        None => "已删除账户".to_owned(),
    }
}

/// The name of a person, or a word for one that is gone.
pub open spec fn person_name(dek: Seq<u8>, people: Seq<debt_person::Model>, id: i64) -> Seq<char> {
    match found(people, id) {
        Some(p) => plain(dek, p.name@),
        None => "已删除对象"@,
    }
}

pub fn person_name_of(dek: &Dek, people: &Vec<debt_person::Model>, id: i64) -> (r: String)
    ensures
        r@ == person_name(dek@, people@, id),
{
    match find(people, id) {
        Some(p) => decrypt_string(dek, &p.name),
        None => "已删除对象".to_owned(),
    }
}

/// The instalment plan of a bill, where it has one.
pub open spec fn plan_of_bill(plans: Seq<installment_plan::Model>, bill_id: i64) -> Option<i64>
    decreases plans.len(),
{
    if plans.len() == 0 {
        None
    } else if plans.last().bill_id == bill_id {
        Some(plans.last().id)
    } else {
        plan_of_bill(plans.drop_last(), bill_id)
    }
}

pub fn find_plan_of_bill(plans: &Vec<installment_plan::Model>, bill_id: i64) -> (r: Option<i64>)
    ensures
        r == plan_of_bill(plans@, bill_id),
{
    let mut i: usize = plans.len();
    proof {
        assert(plans@.take(plans@.len() as int) =~= plans@);
    }
    while i > 0
        invariant
            i <= plans.len(),
            plan_of_bill(plans@.take(i as int), bill_id) == plan_of_bill(plans@, bill_id),
        decreases i,
    {
        proof {
            assert(plans@.take(i as int).drop_last() =~= plans@.take(i - 1));
        }
        i = i - 1;
        if plans[i].bill_id == bill_id {
            return Some(plans[i].id);
        }
    }
    None
}

/// The sign in front of money that comes in or goes out.
pub open spec fn sign_text(incoming: bool) -> Seq<char> {
    if incoming {
        "+"@
    } else {
        "-"@
    }
}

pub fn sign_of(incoming: bool) -> (r: &'static str)
    ensures
        r@ == sign_text(incoming),
{
    if incoming {
        "+"
    } else {
        "-"
    }
}

/// The style in which money that comes in or goes out is shown.
pub open spec fn money_style(incoming: bool) -> Seq<char> {
    if incoming {
        "text-green-600"@
    } else {
        "text-red-600"@
    }
}

pub fn money_style_of(incoming: bool) -> (r: &'static str)
    ensures
        r@ == money_style(incoming),
{
    if incoming {
        "text-green-600"
    } else {
        "text-red-600"
    }
}

/// The name of a kind of debt record.
pub open spec fn debt_label(kind: Seq<char>) -> Seq<char> {
    if kind == "lend"@ {
        "借出"@
    } else if kind == "borrow"@ {
        "借入"@
    } else if kind == "repayment_received"@ {
        "收回还款"@
    } else if kind == "repayment_paid"@ {
        "归还借款"@
    } else {
        "借还"@
    }
}

/// A header of an answer, by its name and its value.
#[derive(Clone, Copy)]
pub struct Header {
    pub name: &'static str,
    pub value: &'static str,
}

/// What a public page may load. A page that fetches something from the service may connect to it.
pub open spec fn content_policy(connects: bool) -> Seq<char> {
    if connects {
        "default-src 'none'; style-src 'self'; script-src 'unsafe-inline'; connect-src 'self'; form-action 'self'; base-uri 'none'; frame-ancestors 'none'"@
    } else {
        "default-src 'none'; style-src 'self'; script-src 'unsafe-inline'; form-action 'self'; base-uri 'none'; frame-ancestors 'none'"@
    }
}

/// The headers of a page that is shown to others: it is neither cached nor indexed, and tells
/// nobody where it was reached from.
pub fn public_response(connects: bool) -> (r: Vec<Header>)
    ensures
        r@.len() == 6,
        r@[0].name@ == "cache-control"@ && r@[0].value@ == "no-store"@,
        r@[1].name@ == "pragma"@ && r@[1].value@ == "no-cache"@,
        r@[2].name@ == "referrer-policy"@ && r@[2].value@ == "no-referrer"@,
        r@[3].name@ == "x-robots-tag"@ && r@[3].value@ == "noindex, nofollow, noarchive"@,
        r@[4].name@ == "x-content-type-options"@ && r@[4].value@ == "nosniff"@,
        r@[5].name@ == "content-security-policy"@ && r@[5].value@ == content_policy(connects),
{
    let policy = if connects {
        "default-src 'none'; style-src 'self'; script-src 'unsafe-inline'; connect-src 'self'; form-action 'self'; base-uri 'none'; frame-ancestors 'none'"
    } else {
        "default-src 'none'; style-src 'self'; script-src 'unsafe-inline'; form-action 'self'; base-uri 'none'; frame-ancestors 'none'"
    };
    vec![
        Header { name: "cache-control", value: "no-store" },
        Header { name: "pragma", value: "no-cache" },
        Header { name: "referrer-policy", value: "no-referrer" },
        Header { name: "x-robots-tag", value: "noindex, nofollow, noarchive" },
        Header { name: "x-content-type-options", value: "nosniff" },
        Header { name: "content-security-policy", value: policy },
    ]
}

} // verus!
