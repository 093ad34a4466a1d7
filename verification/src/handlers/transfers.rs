//! Money moved between accounts.
use vstd::prelude::*;
use vstd::string::*;

use crate::book::{find, found, Book, Row};
use crate::calendar::{minute_of_text, parse_minute, DateTime};
use crate::crypto::{cents, decrypt_cents, encrypt_cents, encrypt_string, plain, sealable, Dek};
use crate::currency::{convert_cents, converted, is_worth};
use crate::decimal::{cents_text, fits_i64, fmt_cents, money, parse_money, Dec};
use crate::entity::{account, installment_item, investment_execution, transfer};
use crate::error::{
    agrees, bad, bad_request, err500, internal, missing, not_found, ErrorView, HandlerResult,
};
use crate::handlers::accounts::{
    balance, bill_deltas, change_allowed, credit_kind, current_balance, debt_deltas, deltas,
    ensure_balance_delta, is_credit, transfer_delta, transfer_deltas,
};
use crate::handlers::bills::text_view;
use crate::handlers::{received, transfer_to_cents};
use crate::text::{
    ascii_lower_text, ascii_lowercase, contains, has_part, same, trimmed, trimmed_bytes,
};
use crate::totals::negated;

verus! {

/// The form of a transfer.
pub struct TransferFormData {
    pub from_account_id: i64,
    pub to_account_id: i64,
    pub amount: String,
    pub to_amount: String,
    pub note: String,
    pub happened_at: String,
    pub redirect_to: Option<String>,
}

/// The transfer that a quote is asked for.
pub struct QuoteQuery {
    pub from_account_id: i64,
    pub to_account_id: i64,
    pub amount: String,
    pub happened_at: String,
}

/// What the other account of a transfer would receive.
pub struct QuoteResponse {
    pub from_currency: String,
    pub to_currency: String,
    pub to_amount: String,
}

/// The answer when a transfer was stored.
pub struct TransferCreateResponse {
    pub ok: bool,
    pub message: String,
    pub redirect: String,
}

/// Where to go when a transfer is deleted.
pub struct DeleteFormData {
    pub redirect_to: Option<String>,
}

/// The amount above zero that a text gives.
pub open spec fn amount_of_text(s: Seq<char>) -> Result<i64, ErrorView> {
    money(s, 1, "金额格式不正确"@, "金额必须大于 0"@, "金额超出范围"@)
}

pub fn parse_amount(value: &str) -> (r: HandlerResult<i64>)
    ensures
        agrees(r, amount_of_text(value@)),
        r matches Ok(n) ==> n > 0,
{
    parse_money(value, 1, "金额格式不正确", "金额必须大于 0", "金额超出范围")
}

/// Whether a caller asks for JSON, by the value of its `Accept` header.
pub fn accepts_json(accept: Option<&str>) -> (r: bool)
    ensures
        r == (accept matches Some(value) && has_part(
            ascii_lower_text(value@),
            "application/json"@,
        )),
{
    match accept {
        Some(value) => contains(&ascii_lowercase(value), "application/json"),
        None => false,
    }
}

/// The two accounts of a transfer, or why there is none between them.
pub open spec fn both_accounts(book: Book, from: i64, to: i64) -> Result<
    (account::Model, account::Model),
    ErrorView,
> {
    if from == to {
        Err(bad("转出和转入账户不能相同"@))
    } else {
        match found(book.accounts@, from) {
            None => Err(bad("转出账户不存在"@)),
            Some(a) => match found(book.accounts@, to) {
                None => Err(bad("转入账户不存在"@)),
                Some(b) => Ok((a, b)),
            },
        }
    }
}

fn find_both(book: &Book, from: i64, to: i64) -> (r: HandlerResult<
    (&account::Model, &account::Model),
>)
    ensures
        match (r, both_accounts(*book, from, to)) {
            (Ok((a, b)), Ok((x, y))) => *a == x && *b == y,
            (Err(error), Err(wanted)) => error@ == wanted,
            _ => false,
        },
{
    if from == to {
        return Err(bad_request("转出和转入账户不能相同"));
    }
    match find(&book.accounts, from) {
        None => Err(bad_request("转出账户不存在")),
        Some(a) => match find(&book.accounts, to) {
            None => Err(bad_request("转入账户不存在")),
            Some(b) => Ok((a, b)),
        },
    }
}

/// A rate as it was had for a transfer, or the message that says why there is none.
pub open spec fn rate_view(rate: Result<Dec, String>) -> Result<(int, int), Seq<char>> {
    match rate {
        Ok(d) => Ok(d.pair()),
        Err(message) => Err(message@),
    }
}

/// An amount at a rate, or the refusal.
pub open spec fn exchanged(amount: int, rate: Result<(int, int), Seq<char>>) -> Result<
    i64,
    ErrorView,
> {
    match rate {
        Err(message) => Err(internal(message)),
        Ok(rate) => match converted(amount, rate) {
            Ok(n) => Ok(n),
            Err(message) => Err(internal(message)),
        },
    }
}

pub fn exchange(amount: i64, rate: &Result<Dec, String>) -> (r: HandlerResult<i64>)
    requires
        *rate matches Ok(d) ==> d.wf(),
    ensures
        agrees(r, exchanged(amount as int, rate_view(*rate))),
        r matches Ok(n) ==> *rate is Ok && is_worth(n as int, amount as int, rate->Ok_0.pair()),
{
    match rate {
        Err(message) => Err(err500(message)),
        Ok(rate) => match convert_cents(amount, *rate) {
            Ok(n) => Ok(n),
            Err(message) => Err(err500(&message)),
        },
    }
}

/// What the other account of a transfer would receive, or why there is no quote.
pub open spec fn quoted(book: Book, query: QuoteQuery, rate: Result<(int, int), Seq<char>>) -> Result<
    i64,
    ErrorView,
> {
    match both_accounts(book, query.from_account_id, query.to_account_id) {
        Err(e) => Err(e),
        Ok(_) => match amount_of_text(query.amount@) {
            Err(e) => Err(e),
            Ok(amount) => if minute_of_text(query.happened_at@) is None {
                Err(bad("时间格式不正确"@))
            } else {
                exchanged(amount as int, rate)
            },
        },
    }
}

/// Quotes what the other account of a transfer would receive, at the current rate between the two
/// currencies.
pub fn quote(book: &Book, query: &QuoteQuery, rate: &Result<Dec, String>) -> (r: HandlerResult<
    QuoteResponse,
>)
    requires
        *rate matches Ok(d) ==> d.wf(),
    ensures
        match (r, quoted(*book, *query, rate_view(*rate))) {
            (Ok(response), Ok(amount)) => {
                let (a, b) = both_accounts(*book, query.from_account_id, query.to_account_id)->Ok_0;
                &&& *rate is Ok && is_worth(
                    amount as int,
                    amount_of_text(query.amount@)->Ok_0 as int,
                    rate->Ok_0.pair(),
                )
                &&& response.from_currency@ == a.currency@
                &&& response.to_currency@ == b.currency@
                &&& response.to_amount@ == cents_text(amount as int)
            },
            (Err(error), Err(wanted)) => error@ == wanted,
            _ => false,
        },
{
    let (from, to) = match find_both(book, query.from_account_id, query.to_account_id) {
        Ok(both) => both,
        Err(error) => return Err(error),
    };
    let amount: i64 = match parse_amount(&query.amount) {
        Ok(amount) => amount,
        Err(error) => return Err(error),
    };
    if parse_minute(&query.happened_at).is_none() {
        return Err(bad_request("时间格式不正确"));
    }
    match exchange(amount, rate) {
        Err(error) => Err(error),
        Ok(to_amount) => Ok(
            QuoteResponse {
                from_currency: from.currency.clone(),
                to_currency: to.currency.clone(),
                to_amount: fmt_cents(to_amount),
            },
        ),
    }
}

/// A transfer needs a rate: its currencies differ and no amount for the other account is given.
pub open spec fn needs_rate(book: Book, form: TransferFormData) -> bool {
    both_accounts(book, form.from_account_id, form.to_account_id) matches Ok((a, b)) && a.currency@
        != b.currency@ && trimmed(form.to_amount@).len() == 0
}

/// Between which currencies a rate is needed, where one is.
pub fn rate_needed(book: &Book, form: &TransferFormData) -> (r: Option<(String, String)>)
    ensures
        match r {
            Some((from, to)) => needs_rate(*book, *form) && from@ == found(
                book.accounts@,
                form.from_account_id,
            )->0.currency@ && to@ == found(book.accounts@, form.to_account_id)->0.currency@,
            None => !needs_rate(*book, *form),
        },
{
    match find_both(book, form.from_account_id, form.to_account_id) {
        Err(_) => None,
        Ok((a, b)) => if !same(&a.currency, &b.currency)
            && form.to_amount.as_str().trim().is_empty() {
            Some((a.currency.clone(), b.currency.clone()))
        } else {
            None
        },
    }
}

/// What the other account of a transfer receives: the same amount in the same currency, else the
/// amount that is given or the amount at the rate.
pub open spec fn received_amount(
    a: account::Model,
    b: account::Model,
    amount: i64,
    given: Seq<char>,
    rate: Result<(int, int), Seq<char>>,
) -> Result<i64, ErrorView> {
    if a.currency@ == b.currency@ {
        Ok(amount)
    } else if trimmed(given).len() == 0 {
        exchanged(amount as int, rate)
    } else {
        amount_of_text(given)
    }
}

/// Why an account may not send an amount, where it may not: a credit account sends only money that
/// it holds, any other account may not be overdrawn.
pub open spec fn send_refusal(dek: Seq<u8>, book: Book, a: account::Model, id: i64, amount: int) -> Option<
    ErrorView,
> {
    if is_credit(a.kind@) {
        match balance(dek, book, a.id) {
            Err(e) => Some(e),
            Ok(now) => if now <= 0 {
                Some(bad("信用账户只有在余额为正时才允许转出"@))
            } else if amount > now {
                Some(bad("信用账户转出后余额不能低于 0"@))
            } else {
                None
            },
        }
    } else {
        match change_allowed(dek, book, id, -amount) {
            Err(e) => Some(e),
            Ok(_) => None,
        }
    }
}

/// The amounts of a transfer, sent and received, or why it is refused.
pub open spec fn transferred(
    dek: Seq<u8>,
    book: Book,
    form: TransferFormData,
    rate: Result<(int, int), Seq<char>>,
) -> Result<(i64, i64), ErrorView> {
    match both_accounts(book, form.from_account_id, form.to_account_id) {
        Err(e) => Err(e),
        Ok((a, b)) => match amount_of_text(form.amount@) {
            Err(e) => Err(e),
            Ok(amount) => if minute_of_text(form.happened_at@) is None {
                Err(bad("时间格式不正确"@))
            } else {
                match received_amount(a, b, amount, form.to_amount@, rate) {
                    Err(e) => Err(e),
                    Ok(to_amount) => match send_refusal(
                        dek,
                        book,
                        a,
                        form.from_account_id,
                        amount as int,
                    ) {
                        Some(e) => Err(e),
                        None => match change_allowed(
                            dek,
                            book,
                            form.to_account_id,
                            to_amount as int,
                        ) {
                            Err(e) => Err(e),
                            Ok(_) => Ok((amount, to_amount)),
                        },
                    },
                }
            },
        },
    }
}

fn ensure_sendable(dek: &Dek, book: &Book, a: &account::Model, id: i64, amount: i64) -> (r:
    HandlerResult<()>)
    requires
        amount > 0,
    ensures
        match r {
            Ok(_) => send_refusal(dek@, *book, *a, id, amount as int) is None,
            Err(error) => send_refusal(dek@, *book, *a, id, amount as int) == Some(error@),
        },
{
    if credit_kind(&a.kind) {
        match current_balance(dek, book, a.id) {
            Err(error) => Err(error),
            Ok(now) => if now <= 0 {
                Err(bad_request("信用账户只有在余额为正时才允许转出"))
            } else if amount > now {
                Err(bad_request("信用账户转出后余额不能低于 0"))
            } else {
                Ok(())
            },
        }
    } else {
        ensure_balance_delta(dek, book, id, -amount)
    }
}

/// Where to go back to: the ledger where it was asked for, else the dashboard.
pub open spec fn return_target(redirect_to: Option<Seq<char>>) -> Seq<char> {
    if redirect_to == Some("/bills"@) {
        "/bills"@
    } else {
        "/dashboard"@
    }
}

pub fn return_to(redirect_to: &Option<String>) -> (r: &'static str)
    ensures
        r@ == return_target(text_view(*redirect_to)),
{
    match redirect_to {
        Some(target) => if same(target, "/bills") {
            "/bills"
        } else {
            "/dashboard"
        },
        None => "/dashboard",
    }
}

/// Moves money between two accounts: the row to store. The rate between the two currencies counts
/// only where it is needed.
pub fn create(
    dek: &Dek,
    book: &Book,
    form: &TransferFormData,
    rate: &Result<Dec, String>,
    now: DateTime,
) -> (r: HandlerResult<transfer::Model>)
    requires
        sealable(form.note@),
        *rate matches Ok(d) ==> d.wf(),
    ensures
        match (r, transferred(dek@, *book, *form, rate_view(*rate))) {
            (Ok(row), Ok(amounts)) => {
                &&& row.from_account_id == form.from_account_id
                &&& row.to_account_id == form.to_account_id
                &&& cents(dek@, row.amount@) == amounts.0
                &&& cents(dek@, row.to_amount@) == amounts.1
                &&& received(dek@, row) == amounts.1
                &&& needs_rate(*book, *form) ==> *rate is Ok && is_worth(
                    amounts.1 as int,
                    amounts.0 as int,
                    rate->Ok_0.pair(),
                )
                &&& plain(dek@, row.note@) == trimmed(form.note@)
                &&& minute_of_text(form.happened_at@) == Some(row.happened_at)
                &&& row.created_at == now
            },
            (Err(error), Err(wanted)) => error@ == wanted,
            _ => false,
        },
{
    let (from, to) = match find_both(book, form.from_account_id, form.to_account_id) {
        Ok(both) => both,
        Err(error) => return Err(error),
    };
    let amount: i64 = match parse_amount(&form.amount) {
        Ok(amount) => amount,
        Err(error) => return Err(error),
    };
    let happened_at = match parse_minute(&form.happened_at) {
        Some(time) => time,
        None => return Err(bad_request("时间格式不正确")),
    };
    let to_amount: i64 = if same(&from.currency, &to.currency) {
        amount
    } else if form.to_amount.as_str().trim().is_empty() {
        match exchange(amount, rate) {
            Ok(n) => n,
            Err(error) => return Err(error),
        }
    } else {
        match parse_amount(&form.to_amount) {
            Ok(n) => n,
            Err(error) => return Err(error),
        }
    };
    match ensure_sendable(dek, book, from, form.from_account_id, amount) {
        Ok(_) => {},
        Err(error) => return Err(error),
    }
    match ensure_balance_delta(dek, book, form.to_account_id, to_amount) {
        Ok(_) => {},
        Err(error) => return Err(error),
    }
    proof {
        trimmed_bytes(form.note@);
    }
    let to_text = encrypt_cents(dek, to_amount);
    let row = transfer::Model {
        id: 0,
        from_account_id: form.from_account_id,
        to_account_id: form.to_account_id,
        amount: encrypt_cents(dek, amount),
        to_amount: to_text,
        note: encrypt_string(dek, form.note.as_str().trim()),
        happened_at,
        created_at: now,
    };
    Ok(row)
}

impl Row for transfer::Model {
    open spec fn key(&self) -> i64 {
        self.id
    }

    fn row_key(&self) -> i64 {
        self.id
    }
}

/// A transfer pays back a payment of an instalment plan.
pub open spec fn is_repayment(items: Seq<installment_item::Model>, id: i64) -> bool {
    exists|i: int| 0 <= i < items.len() && (#[trigger] items[i]).principal_transfer_id == Some(id)
}

/// A transfer was made by a recurring investment.
pub open spec fn is_investment(executions: Seq<investment_execution::Model>, id: i64) -> bool {
    exists|i: int| 0 <= i < executions.len() && (#[trigger] executions[i]).transfer_id == Some(id)
}

fn repayment(items: &Vec<installment_item::Model>, id: i64) -> (r: bool)
    ensures
        r == is_repayment(items@, id),
{
    let mut i: usize = 0;
    while i < items.len()
        invariant
            i <= items.len(),
            forall|j: int| 0 <= j < i ==> (#[trigger] items@[j]).principal_transfer_id != Some(id),
        decreases items.len() - i,
    {
        if let Some(transfer) = items[i].principal_transfer_id {
            if transfer == id {
                return true;
            }
        }
        i = i + 1;
    }
    false
}

fn investment(executions: &Vec<investment_execution::Model>, id: i64) -> (r: bool)
    ensures
        r == is_investment(executions@, id),
{
    let mut i: usize = 0;
    while i < executions.len()
        invariant
            i <= executions.len(),
            forall|j: int| 0 <= j < i ==> (#[trigger] executions@[j]).transfer_id != Some(id),
        decreases executions.len() - i,
    {
        if let Some(transfer) = executions[i].transfer_id {
            if transfer == id {
                return true;
            }
        }
        i = i + 1;
    }
    false
}

/// Why a transfer cannot be deleted, where it cannot: it belongs to something else, or one of its
/// accounts may not have the balance that would follow.
pub open spec fn delete_refusal(
    dek: Seq<u8>,
    book: Book,
    items: Seq<installment_item::Model>,
    executions: Seq<investment_execution::Model>,
    id: i64,
) -> Option<ErrorView> {
    if is_repayment(items, id) {
        Some(bad("分期还款本金流水不能单独删除，请在分期详情中撤销对应还款"@))
    } else if is_investment(executions, id) {
        Some(bad("定投生成的转账不能单独删除；删除定投计划不会影响已有流水"@))
    } else {
        match found(book.transfers@, id) {
            None => Some(missing("转账不存在"@)),
            Some(t) => match change_allowed(dek, book, t.from_account_id, cents(dek, t.amount@)) {
                Err(e) => Some(e),
                Ok(_) => if !fits_i64(-received(dek, t)) {
                    Some(bad("金额超出范围"@))
                } else {
                    match change_allowed(dek, book, t.to_account_id, -received(dek, t)) {
                        Err(e) => Some(e),
                        Ok(_) => None,
                    }
                },
            },
        }
    }
}

/// Allows or refuses that a transfer is deleted, and says where to go then.
pub fn delete(
    dek: &Dek,
    book: &Book,
    items: &Vec<installment_item::Model>,
    executions: &Vec<investment_execution::Model>,
    id: i64,
    form: &DeleteFormData,
) -> (r: HandlerResult<&'static str>)
    ensures
        match (r, delete_refusal(dek@, *book, items@, executions@, id)) {
            (Ok(target), None) => target@ == return_target(text_view(form.redirect_to)),
            (Err(error), Some(wanted)) => error@ == wanted,
            _ => false,
        },
{
    if repayment(items, id) {
        return Err(
            bad_request("分期还款本金流水不能单独删除，请在分期详情中撤销对应还款"),
        );
    }
    if investment(executions, id) {
        return Err(
            bad_request("定投生成的转账不能单独删除；删除定投计划不会影响已有流水"),
        );
    }
    let t = match find(&book.transfers, id) {
        Some(t) => t,
        None => return Err(not_found("转账不存在")),
    };
    match ensure_balance_delta(dek, book, t.from_account_id, decrypt_cents(dek, &t.amount)) {
        Ok(_) => {},
        Err(error) => return Err(error),
    }
    let back: i64 = match negated(transfer_to_cents(dek, t)) {
        Some(back) => back,
        None => return Err(bad_request("金额超出范围")),
    };
    match ensure_balance_delta(dek, book, t.to_account_id, back) {
        Ok(_) => Ok(return_to(&form.redirect_to)),
        Err(error) => Err(error),
    }
}

/// A transfer goes between two different accounts and moves an amount above zero. The account that
/// sends it holds at least so much, a credit account too. The other account gets the same amount
/// where the currencies are the same; else what the form gives, and where it gives nothing the
/// nearest cent to the amount at the rate.
pub proof fn transfer_moves_what_was_asked(
    dek: &Dek,
    book: &Book,
    form: &TransferFormData,
    rate: &Result<Dec, String>,
    now: DateTime,
    row: transfer::Model,
)
    requires
        sealable(form.note@),
        *rate matches Ok(d) ==> d.wf(),
        call_ensures(create, (dek, book, form, rate, now), Ok(row)),
    ensures
        ({
            let sent = cents(dek@, row.amount@);
            let got = cents(dek@, row.to_amount@);
            let (a, b) = (
                found(book.accounts@, form.from_account_id)->0,
                found(book.accounts@, form.to_account_id)->0,
            );
            &&& row.from_account_id == form.from_account_id
            &&& row.to_account_id == form.to_account_id
            &&& row.from_account_id != row.to_account_id
            &&& found(book.accounts@, form.from_account_id) is Some
            &&& found(book.accounts@, form.to_account_id) is Some
            &&& sent > 0
            &&& amount_of_text(form.amount@) == Ok::<i64, ErrorView>(sent as i64)
            &&& a.currency@ == b.currency@ ==> got == sent
            &&& a.currency@ != b.currency@ && trimmed(form.to_amount@).len() > 0 ==> amount_of_text(
                form.to_amount@,
            ) == Ok::<i64, ErrorView>(got as i64)
            &&& a.currency@ != b.currency@ && trimmed(form.to_amount@).len() == 0 ==> *rate is Ok
                && is_worth(got, sent, rate->Ok_0.pair())
            &&& balance(dek@, *book, form.from_account_id) is Ok
            &&& balance(dek@, *book, form.from_account_id)->Ok_0 >= sent
        }),
{
    crate::book::found_is_row(book.accounts@, form.from_account_id);
    crate::crypto::cents_fit(dek@, row.amount@);
    crate::crypto::cents_fit(dek@, row.to_amount@);
}

/// Two books differ in their transfers alone.
pub open spec fn same_but_transfers(before: Book, after: Book) -> bool {
    &&& after.accounts@ == before.accounts@
    &&& after.details@ == before.details@
    &&& after.bills@ == before.bills@
    &&& after.debts@ == before.debts@
}

/// A book with one more transfer: the balance of every account changes by what the transfer takes
/// from it or brings it.
pub proof fn transfer_added(dek: Seq<u8>, before: Book, after: Book, t: transfer::Model, id: i64)
    requires
        same_but_transfers(before, after),
        after.transfers@ == before.transfers@.push(t),
        balance(dek, before, id) is Ok,
        balance(dek, after, id) is Ok,
    ensures
        balance(dek, after, id)->Ok_0 == balance(dek, before, id)->Ok_0 + transfer_delta(
            dek,
            t,
            id,
        ),
{
    let x = bill_deltas(dek, before.bills@, id);
    let y = transfer_deltas(dek, before.transfers@, id);
    let z = debt_deltas(dek, before.debts@, id);
    let d = transfer_delta(dek, t, id);
    assert(transfer_deltas(dek, after.transfers@, id) =~= y.push(d));
    crate::totals::checked_total_push(y, d);
    crate::totals::total_concat(x, y);
    crate::totals::total_concat(x + y, z);
    crate::totals::total_concat(x, y.push(d));
    crate::totals::total_concat(x + y.push(d), z);
    crate::totals::checked_total_is_total(deltas(dek, before, id));
    crate::totals::checked_total_is_total(deltas(dek, after, id));
}

/// A transfer within one currency takes from one account what it brings the other: the two
/// balances add up to the same as before.
pub proof fn transfer_conserves(
    dek: Seq<u8>,
    before: Book,
    after: Book,
    form: TransferFormData,
    rate: Result<(int, int), Seq<char>>,
    t: transfer::Model,
)
    requires
        transferred(dek, before, form, rate) is Ok,
        found(before.accounts@, form.from_account_id)->0.currency@ == found(
            before.accounts@,
            form.to_account_id,
        )->0.currency@,
        t.from_account_id == form.from_account_id,
        t.to_account_id == form.to_account_id,
        cents(dek, t.amount@) == (transferred(dek, before, form, rate)->Ok_0).0,
        received(dek, t) == (transferred(dek, before, form, rate)->Ok_0).1,
        same_but_transfers(before, after),
        after.transfers@ == before.transfers@.push(t),
        balance(dek, before, t.from_account_id) is Ok,
        balance(dek, before, t.to_account_id) is Ok,
        balance(dek, after, t.from_account_id) is Ok,
        balance(dek, after, t.to_account_id) is Ok,
    ensures
        balance(dek, after, t.from_account_id)->Ok_0 + balance(dek, after, t.to_account_id)->Ok_0
            == balance(dek, before, t.from_account_id)->Ok_0 + balance(
            dek,
            before,
            t.to_account_id,
        )->Ok_0,
{
    transfer_added(dek, before, after, t, t.from_account_id);
    transfer_added(dek, before, after, t, t.to_account_id);
}

/// A credit account never sends money that it does not hold: after a transfer that was accepted
/// its balance is not negative, and an ordinary account is not overdrawn.
pub proof fn sender_not_overdrawn(
    dek: Seq<u8>,
    before: Book,
    after: Book,
    form: TransferFormData,
    rate: Result<(int, int), Seq<char>>,
    t: transfer::Model,
)
    requires
        transferred(dek, before, form, rate) is Ok,
        t.from_account_id == form.from_account_id,
        t.to_account_id == form.to_account_id,
        cents(dek, t.amount@) == (transferred(dek, before, form, rate)->Ok_0).0,
        same_but_transfers(before, after),
        after.transfers@ == before.transfers@.push(t),
        balance(dek, after, t.from_account_id) is Ok,
    ensures
        balance(dek, after, t.from_account_id)->Ok_0 >= 0,
{
    crate::book::found_is_row(before.accounts@, form.from_account_id);
    transfer_added(dek, before, after, t, t.from_account_id);
}

/// The answer to a caller that asks for JSON when a transfer was stored.
pub fn created_response(redirect_to: &Option<String>) -> (r: TransferCreateResponse)
    ensures
        r.ok,
        r.message@ == "转账已记录"@,
        r.redirect@ == return_target(text_view(*redirect_to)),
{
    TransferCreateResponse {
        ok: true,
        message: "转账已记录".to_owned(),
        redirect: return_to(redirect_to).to_owned(),
    }
}

/// A transfer is deleted only where both accounts may have their balances without it: the sender gets
/// its amount back, and the other account gives up what it got.
pub proof fn deleted_transfer_is_covered(
    dek: &Dek,
    book: &Book,
    items: &Vec<installment_item::Model>,
    executions: &Vec<investment_execution::Model>,
    id: i64,
    form: &DeleteFormData,
    target: &'static str,
)
    requires
        call_ensures(delete, (dek, book, items, executions, id, form), Ok(target)),
    ensures
        ({
            let t = found(book.transfers@, id)->0;
            let got = if t.to_amount@.len() == 0 {
                cents(dek@, t.amount@)
            } else {
                cents(dek@, t.to_amount@)
            };
            &&& found(book.transfers@, id) is Some
            &&& (balance(dek@, *book, t.from_account_id) matches Ok(a)
                && crate::handlers::accounts::allowed(
                dek@,
                *book,
                t.from_account_id,
                a + cents(dek@, t.amount@),
            ) is Ok)
            &&& (balance(dek@, *book, t.to_account_id) matches Ok(b)
                && crate::handlers::accounts::allowed(dek@, *book, t.to_account_id, b - got) is Ok)
        }),
{
}

} // verus!
