//! Accounts, their balances and the limits on them.
use vstd::prelude::*;
use vstd::string::*;

use crate::book::{find, found, Book};
use crate::calendar::{from_ymd, month_of, parts, time_text, time_to_text, year_of, Date, DateTime};
use crate::crypto::{
    cents, decrypt_cents, decrypt_string, encrypt_cents, encrypt_string, plain, sealable, Dek,
};
use crate::currency::{amount_text, is_currency, valid};
use crate::decimal::{
    cents_kept, fits_i64, hundredths_of_text, keep_cents, money, parse_hundredths, parse_money,
};
use crate::entity::{
    account, account_detail, balance_adjustment, bill, debt_person, debt_record, installment_item,
    installment_plan, transfer,
};
use crate::error::{
    agrees, bad, bad_request, err500, internal, missing, not_found, ErrorView, HandlerResult,
};
use crate::handlers::bills::debt_kind_label;
use crate::handlers::{
    account_name, account_name_of, debt_label, find_plan_of_bill, money_style, money_style_of,
    person_name, person_name_of, plan_of_bill, received, sign_of, sign_text, transfer_to_cents,
    MaskedDetail, Page,
};
use crate::order::{arrange, arranged, ints, page_of, take_page};
use crate::tally::{has_number, Tally};
use crate::text::{
    bounded, int_text, int_to_text, join2, join3, join4, join5, parse_i32, same, signed_value,
    trimmed, trimmed_bytes,
};
use crate::totals::{
    checked_from, checked_from_stops, checked_total, checked_total_stops, negated, total,
};

verus! {

/// The form of an account.
pub struct AccountFormData {
    pub name: String,
    pub account_kind: String,
    pub currency: String,
    pub card_number: String,
    pub account_username: String,
    pub credit_limit: String,
    pub billing_day: String,
    pub note: String,
}

/// The form that sets the balance of an account.
pub struct AccountBalanceFormData {
    pub balance: String,
}

/// Which part of the list of accounts is asked for.
pub struct AccountsQuery {
    pub page: usize,
    pub per_page: usize,
}

/// Which part of the records of an account is asked for.
pub struct AccountDetailQuery {
    pub page: usize,
    pub per_page: usize,
}

/// The balance of an account, for a form.
pub struct AccountBalanceResponse {
    pub ok: bool,
    pub account_id: i64,
    pub balance: String,
    pub currency: String,
    pub kind: String,
    pub can_transfer_out: bool,
}

/// The number of a card in full.
pub struct CardNumberResponse {
    pub card_number: String,
}

/// The kinds of accounts.
pub open spec fn is_account_kind(kind: Seq<char>) -> bool {
    ||| kind == "payment"@
    ||| kind == "bank"@
    ||| kind == "stored_value"@
    ||| kind == "credit_card"@
    ||| kind == "credit_service"@
    ||| kind == "investment"@
    ||| kind == "other"@
}

/// The kinds of accounts that may be overdrawn, down to a limit.
pub open spec fn is_credit(kind: Seq<char>) -> bool {
    kind == "credit_card"@ || kind == "credit_service"@
}

pub fn valid_account_kind(kind: &str) -> (r: bool)
    ensures
        r == is_account_kind(kind@),
{
    same(kind, "payment") || same(kind, "bank") || same(kind, "stored_value") || same(
        kind,
        "credit_card",
    ) || same(kind, "credit_service") || same(kind, "investment") || same(kind, "other")
}

pub fn credit_kind(kind: &str) -> (r: bool)
    ensures
        r == is_credit(kind@),
{
    same(kind, "credit_card") || same(kind, "credit_service")
}

/// The name of a kind of account.
pub open spec fn kind_label(kind: Seq<char>) -> Seq<char> {
    if kind == "payment"@ {
        "支付账户"@
    } else if kind == "bank"@ {
        "银行账户"@
    } else if kind == "stored_value"@ {
        "储值卡账户"@
    } else if kind == "credit_card"@ {
        "信用卡"@
    } else if kind == "credit_service"@ {
        "信贷服务"@
    } else if kind == "investment"@ {
        "投资账户"@
    } else {
        "其他"@
    }
}

pub fn account_kind_label(kind: &str) -> (r: &'static str)
    ensures
        r@ == kind_label(kind@),
{
    if same(kind, "payment") {
        "支付账户"
    } else if same(kind, "bank") {
        "银行账户"
    } else if same(kind, "stored_value") {
        "储值卡账户"
    } else if same(kind, "credit_card") {
        "信用卡"
    } else if same(kind, "credit_service") {
        "信贷服务"
    } else if same(kind, "investment") {
        "投资账户"
    } else {
        "其他"
    }
}

/// What a bill adds to the balance of an account.
pub open spec fn bill_delta(dek: Seq<u8>, b: bill::Model, id: i64) -> int {
    if b.account_id != id {
        0
    } else if b.kind@ == "income"@ {
        cents(dek, b.amount@)
    } else {
        -cents(dek, b.amount@)
    }
}

/// What a transfer adds to the balance of an account.
pub open spec fn transfer_delta(dek: Seq<u8>, t: transfer::Model, id: i64) -> int {
    if t.to_account_id == id {
        received(dek, t)
    } else if t.from_account_id == id {
        -cents(dek, t.amount@)
    } else {
        0
    }
}

/// Kinds of debt records that bring money in.
pub open spec fn brings_in(kind: Seq<char>) -> bool {
    kind == "borrow"@ || kind == "repayment_received"@
}

/// What a debt record adds to the balance of an account.
pub open spec fn debt_delta(dek: Seq<u8>, d: debt_record::Model, id: i64) -> int {
    if d.account_id != id {
        0
    } else if brings_in(d.kind@) {
        cents(dek, d.amount@)
    } else {
        -cents(dek, d.amount@)
    }
}

/// What the bills add to the balance of an account, one after the other.
pub open spec fn bill_deltas(dek: Seq<u8>, bills: Seq<bill::Model>, id: i64) -> Seq<int> {
    Seq::new(bills.len(), |i: int| bill_delta(dek, bills[i], id))
}

/// What the transfers add to the balance of an account, one after the other.
pub open spec fn transfer_deltas(dek: Seq<u8>, transfers: Seq<transfer::Model>, id: i64) -> Seq<
    int,
> {
    Seq::new(transfers.len(), |i: int| transfer_delta(dek, transfers[i], id))
}

/// What the debt records add to the balance of an account, one after the other.
pub open spec fn debt_deltas(dek: Seq<u8>, debts: Seq<debt_record::Model>, id: i64) -> Seq<int> {
    Seq::new(debts.len(), |i: int| debt_delta(dek, debts[i], id))
}

/// What all records add to the balance of an account, one after the other.
pub open spec fn deltas(dek: Seq<u8>, book: Book, id: i64) -> Seq<int> {
    bill_deltas(dek, book.bills@, id) + transfer_deltas(dek, book.transfers@, id) + debt_deltas(
        dek,
        book.debts@,
        id,
    )
}

/// The net of all records of an account, where no partial sum leaves the range of amounts.
pub open spec fn net(dek: Seq<u8>, book: Book, id: i64) -> Option<int> {
    checked_total(deltas(dek, book, id))
}

/// The net of all records of an account, or the refusal.
pub open spec fn transactions(dek: Seq<u8>, book: Book, id: i64) -> Result<i64, ErrorView> {
    match net(dek, book, id) {
        Some(n) => Ok(n as i64),
        None => Err(internal("余额超出范围"@)),
    }
}

/// The balance of an account: the net of its records and its offset.
pub open spec fn balance(dek: Seq<u8>, book: Book, id: i64) -> Result<i64, ErrorView> {
    match found(book.accounts@, id) {
        None => Err(missing("账户不存在"@)),
        Some(a) => match transactions(dek, book, id) {
            Err(e) => Err(e),
            Ok(n) => if fits_i64(n + cents(dek, a.balance_offset@)) {
                Ok((n + cents(dek, a.balance_offset@)) as i64)
            } else {
                Err(internal("余额超出范围"@))
            },
        },
    }
}

/// Whether an account may have a balance: an ordinary account may not be overdrawn, a credit
/// account only down to its limit, and a credit service never holds money.
pub open spec fn allowed(dek: Seq<u8>, book: Book, id: i64, balance: int) -> Result<
    (),
    ErrorView,
> {
    match found(book.accounts@, id) {
        None => Err(bad("账户不存在"@)),
        Some(a) => if !is_credit(a.kind@) {
            if balance < 0 {
                Err(bad("该账户不允许透支"@))
            } else {
                Ok(())
            }
        } else {
            match found(book.details@, id) {
                None => Err(internal("信用账户缺少授信配置"@)),
                Some(d) => {
                    let limit = cents(dek, d.credit_limit@);
                    if !fits_i64(-limit) {
                        Err(internal("授信额超出范围"@))
                    } else if balance < -limit {
                        Err(bad("操作后将超过该账户的可用授信额度"@))
                    } else if a.kind@ == "credit_service"@ && balance > 0 {
                        Err(bad("信贷服务余额不能高于 0"@))
                    } else {
                        Ok(())
                    }
                },
            }
        },
    }
}

/// Whether the balance of an account may change by an amount.
pub open spec fn change_allowed(dek: Seq<u8>, book: Book, id: i64, delta: int) -> Result<
    (),
    ErrorView,
> {
    match balance(dek, book, id) {
        Err(e) => Err(e),
        Ok(now) => if fits_i64(now + delta) {
            allowed(dek, book, id, now + delta)
        } else {
            Err(bad("余额超出范围"@))
        },
    }
}

/// The net of all records of an account.
pub fn transaction_balance(dek: &Dek, book: &Book, account_id: i64) -> (r: HandlerResult<i64>)
    ensures
        agrees(r, transactions(dek@, *book, account_id)),
{
    let ghost all = deltas(dek@, *book, account_id);
    let ghost first = book.bills@.len() as int;
    let ghost second = first + book.transfers@.len();
    let mut sum: i64 = 0;
    proof {
        assert(all.take(0) =~= Seq::empty());
    }
    let mut i: usize = 0;
    while i < book.bills.len()
        invariant
            i <= book.bills.len(),
            all == deltas(dek@, *book, account_id),
            checked_total(all.take(i as int)) == Some(sum as int),
        decreases book.bills.len() - i,
    {
        let b = &book.bills[i];
        proof {
            assert(all.take(i + 1).drop_last() =~= all.take(i as int));
            assert(all[i as int] == bill_delta(dek@, *b, account_id));
        }
        if b.account_id == account_id {
            let amount: i64 = decrypt_cents(dek, &b.amount);
            let signed = if same(&b.kind, "income") {
                Some(amount)
            } else {
                negated(amount)
            };
            let next = match signed {
                Some(x) => sum.checked_add(x),
                None => None,
            };
            match next {
                Some(n) => {
                    sum = n;
                },
                None => {
                    proof {
                        checked_total_stops(all, i + 1);
                    }
                    return Err(err500("余额超出范围"));
                },
            }
        }
        i = i + 1;
    }
    i = 0;
    while i < book.transfers.len()
        invariant
            i <= book.transfers.len(),
            all == deltas(dek@, *book, account_id),
            first == book.bills@.len(),
            checked_total(all.take(first + i)) == Some(sum as int),
        decreases book.transfers.len() - i,
    {
        let t = &book.transfers[i];
        proof {
            assert(all.take(first + i + 1).drop_last() =~= all.take(first + i));
            assert(all[first + i] == transfer_delta(dek@, *t, account_id));
        }
        if t.to_account_id == account_id || t.from_account_id == account_id {
            let signed = if t.to_account_id == account_id {
                Some(transfer_to_cents(dek, t))
            } else {
                negated(decrypt_cents(dek, &t.amount))
            };
            let next = match signed {
                Some(x) => sum.checked_add(x),
                None => None,
            };
            match next {
                Some(n) => {
                    sum = n;
                },
                None => {
                    proof {
                        checked_total_stops(all, first + i + 1);
                    }
                    return Err(err500("余额超出范围"));
                },
            }
        }
        i = i + 1;
    }
    i = 0;
    while i < book.debts.len()
        invariant
            i <= book.debts.len(),
            all == deltas(dek@, *book, account_id),
            first == book.bills@.len(),
            second == first + book.transfers@.len(),
            checked_total(all.take(second + i)) == Some(sum as int),
        decreases book.debts.len() - i,
    {
        let d = &book.debts[i];
        proof {
            assert(all.take(second + i + 1).drop_last() =~= all.take(second + i));
            assert(all[second + i] == debt_delta(dek@, *d, account_id));
        }
        if d.account_id == account_id {
            let amount: i64 = decrypt_cents(dek, &d.amount);
            let signed = if same(&d.kind, "borrow") || same(&d.kind, "repayment_received") {
                Some(amount)
            } else {
                negated(amount)
            };
            let next = match signed {
                Some(x) => sum.checked_add(x),
                None => None,
            };
            match next {
                Some(n) => {
                    sum = n;
                },
                None => {
                    proof {
                        checked_total_stops(all, second + i + 1);
                    }
                    return Err(err500("余额超出范围"));
                },
            }
        }
        i = i + 1;
    }
    proof {
        assert(all.take(all.len() as int) =~= all);
    }
    Ok(sum)
}

/// The balance of an account.
pub fn current_balance(dek: &Dek, book: &Book, account_id: i64) -> (r: HandlerResult<i64>)
    ensures
        agrees(r, balance(dek@, *book, account_id)),
{
    let account = match find(&book.accounts, account_id) {
        Some(account) => account,
        None => return Err(not_found("账户不存在")),
    };
    match transaction_balance(dek, book, account_id) {
        Err(error) => Err(error),
        Ok(n) => match n.checked_add(decrypt_cents(dek, &account.balance_offset)) {
            Some(sum) => Ok(sum),
            None => Err(err500("余额超出范围")),
        },
    }
}

/// Refuses a balance that an account may not have.
pub fn ensure_allowed_balance(dek: &Dek, book: &Book, account_id: i64, balance: i64) -> (r:
    HandlerResult<()>)
    ensures
        agrees(r, allowed(dek@, *book, account_id, balance as int)),
{
    let account = match find(&book.accounts, account_id) {
        Some(account) => account,
        None => return Err(bad_request("账户不存在")),
    };
    if !credit_kind(&account.kind) {
        if balance < 0 {
            return Err(bad_request("该账户不允许透支"));
        }
        return Ok(());
    }
    let detail = match find(&book.details, account_id) {
        Some(detail) => detail,
        None => return Err(err500("信用账户缺少授信配置")),
    };
    let minimum: i64 = match negated(decrypt_cents(dek, &detail.credit_limit)) {
        Some(minimum) => minimum,
        None => return Err(err500("授信额超出范围")),
    };
    if balance < minimum {
        return Err(bad_request("操作后将超过该账户的可用授信额度"));
    }
    if same(&account.kind, "credit_service") && balance > 0 {
        return Err(bad_request("信贷服务余额不能高于 0"));
    }
    Ok(())
}

/// Refuses a change of an account's balance that leads to one it may not have.
pub fn ensure_balance_delta(dek: &Dek, book: &Book, account_id: i64, delta: i64) -> (r:
    HandlerResult<()>)
    ensures
        agrees(r, change_allowed(dek@, *book, account_id, delta as int)),
{
    match current_balance(dek, book, account_id) {
        Err(error) => Err(error),
        Ok(now) => match now.checked_add(delta) {
            Some(projected) => ensure_allowed_balance(dek, book, account_id, projected),
            None => Err(bad_request("余额超出范围")),
        },
    }
}

/// The balance of an account with what a form needs to know of it.
pub fn balance_summary(dek: &Dek, book: &Book, id: i64) -> (r: HandlerResult<
    AccountBalanceResponse,
>)
    ensures
        match (r, balance(dek@, *book, id)) {
            (Ok(summary), Ok(now)) => {
                let a = found(book.accounts@, id)->0;
                &&& summary.ok
                &&& summary.account_id == id
                &&& summary.balance@ == amount_text(now as int, a.currency@)
                &&& summary.currency@ == a.currency@
                &&& summary.kind@ == a.kind@
                &&& summary.can_transfer_out == (now > 0)
            },
            (Err(error), Err(wanted)) => error@ == wanted,
            _ => false,
        },
{
    let account = match find(&book.accounts, id) {
        Some(account) => account,
        None => return Err(not_found("账户不存在")),
    };
    match current_balance(dek, book, id) {
        Err(error) => Err(error),
        Ok(now) => Ok(
            AccountBalanceResponse {
                ok: true,
                account_id: id,
                balance: crate::currency::format(now, &account.currency),
                currency: account.currency.clone(),
                kind: account.kind.clone(),
                can_transfer_out: now > 0,
            },
        ),
    }
}

/// The balance that a text gives.
pub open spec fn balance_of_text(s: Seq<char>) -> Result<i64, ErrorView> {
    match hundredths_of_text(s) {
        None => Err(bad("余额格式不正确"@)),
        Some(n) => cents_kept(n, "余额超出范围"@),
    }
}

pub fn parse_balance(value: &str) -> (r: HandlerResult<i64>)
    ensures
        agrees(r, balance_of_text(value@)),
{
    match parse_hundredths(value) {
        None => Err(bad_request("余额格式不正确")),
        Some(n) => keep_cents(n, "余额超出范围"),
    }
}

/// The limit and the billing day that a form gives; none for accounts that grant no credit.
pub open spec fn credit_settings(kind: Seq<char>, limit: Seq<char>, day: Seq<char>) -> Result<
    (i64, i32),
    ErrorView,
> {
    if !is_credit(kind) {
        Ok((0, 0))
    } else {
        match money(limit, 0, "授信额格式不正确"@, "授信额不能小于 0"@, "授信额超出范围"@) {
            Err(e) => Err(e),
            Ok(limit) => match bounded(signed_value(trimmed(day)), 1, 31) {
                Some(day) => Ok((limit, day as i32)),
                None => Err(bad("账单日必须是 1 到 31"@)),
            },
        }
    }
}

pub fn parse_credit_settings(kind: &str, limit: &str, day: &str) -> (r: HandlerResult<(i64, i32)>)
    ensures
        agrees(r, credit_settings(kind@, limit@, day@)),
        r matches Ok(pair) ==> pair.0 >= 0,
{
    if !credit_kind(kind) {
        return Ok((0, 0));
    }
    let credit_limit: i64 = match parse_money(
        limit,
        0,
        "授信额格式不正确",
        "授信额不能小于 0",
        "授信额超出范围",
    ) {
        Ok(n) => n,
        Err(error) => return Err(error),
    };
    match parse_i32(day.trim()) {
        Some(billing_day) => if 1 <= billing_day && billing_day <= 31 {
            Ok((credit_limit, billing_day))
        } else {
            Err(bad_request("账单日必须是 1 到 31"))
        },
        None => Err(bad_request("账单日必须是 1 到 31")),
    }
}

/// One line of an account's ledger.
pub struct AccountLedgerRow {
    pub happened_at: String,
    pub record_type: String,
    pub subject: String,
    pub note: String,
    pub amount: String,
    pub money_class: String,
    pub detail_url: String,
}

/// One line of an account's ledger, as values.
pub struct AccountLedgerView {
    pub happened_at: Seq<char>,
    pub record_type: Seq<char>,
    pub subject: Seq<char>,
    pub note: Seq<char>,
    pub amount: Seq<char>,
    pub money_class: Seq<char>,
    pub detail_url: Seq<char>,
}

impl View for AccountLedgerRow {
    type V = AccountLedgerView;

    open spec fn view(&self) -> AccountLedgerView {
        AccountLedgerView {
            happened_at: self.happened_at@,
            record_type: self.record_type@,
            subject: self.subject@,
            note: self.note@,
            amount: self.amount@,
            money_class: self.money_class@,
            detail_url: self.detail_url@,
        }
    }
}

/// The lines of a list of rows.
pub open spec fn line_views(rows: Seq<AccountLedgerRow>) -> Seq<AccountLedgerView> {
    Seq::new(rows.len(), |i: int| rows[i]@)
}

/// The address of an instalment plan, empty where there is none.
pub open spec fn plan_url(plan: Option<i64>) -> Seq<char> {
    match plan {
        Some(id) => "/installments/"@ + int_text(id as int),
        None => Seq::empty(),
    }
}

pub fn plan_url_of(plan: Option<i64>) -> (r: String)
    ensures
        r@ == plan_url(plan),
{
    match plan {
        Some(id) => join2("/installments/", &int_to_text(id)),
        None => String::new(),
    }
}

/// The name of a bill's kind.
pub open spec fn bill_type(incoming: bool, plan: Option<i64>) -> Seq<char> {
    if incoming {
        "收入"@
    } else if plan is Some {
        "支出 · 分期"@
    } else {
        "支出"@
    }
}

pub fn bill_type_of(incoming: bool, plan: Option<i64>) -> (r: &'static str)
    ensures
        r@ == bill_type(incoming, plan),
{
    if incoming {
        "收入"
    } else if plan.is_some() {
        "支出 · 分期"
    } else {
        "支出"
    }
}

/// The line of a bill in its account's ledger.
pub open spec fn bill_line(
    dek: Seq<u8>,
    b: bill::Model,
    currency: Seq<char>,
    plans: Seq<installment_plan::Model>,
) -> AccountLedgerView {
    let incoming = b.kind@ == "income"@;
    let plan = plan_of_bill(plans, b.id);
    AccountLedgerView {
        happened_at: time_text(b.happened_at),
        record_type: bill_type(incoming, plan),
        subject: plain(dek, b.category@),
        note: plain(dek, b.note@),
        amount: sign_text(incoming) + amount_text(cents(dek, b.amount@), currency),
        money_class: money_style(incoming),
        detail_url: plan_url(plan),
    }
}

/// The line of a transfer in the ledger of one of its accounts.
pub open spec fn transfer_line(
    dek: Seq<u8>,
    t: transfer::Model,
    id: i64,
    currency: Seq<char>,
    accounts: Seq<account::Model>,
) -> AccountLedgerView {
    let incoming = t.to_account_id == id;
    AccountLedgerView {
        happened_at: time_text(t.happened_at),
        record_type: if incoming {
            "转入"@
        } else {
            "转出"@
        },
        subject: if incoming {
            "来自 "@ + account_name(dek, accounts, t.from_account_id)
        } else {
            "转至 "@ + account_name(dek, accounts, t.to_account_id)
        },
        note: plain(dek, t.note@),
        amount: sign_text(incoming) + amount_text(
            if incoming {
                received(dek, t)
            } else {
                cents(dek, t.amount@)
            },
            currency,
        ),
        money_class: money_style(incoming),
        detail_url: Seq::empty(),
    }
}

/// The line of a debt record in its account's ledger.
pub open spec fn debt_line(
    dek: Seq<u8>,
    d: debt_record::Model,
    currency: Seq<char>,
    people: Seq<debt_person::Model>,
) -> AccountLedgerView {
    let incoming = brings_in(d.kind@);
    AccountLedgerView {
        happened_at: time_text(d.happened_at),
        record_type: debt_label(d.kind@),
        subject: person_name(dek, people, d.person_id),
        note: plain(dek, d.note@),
        amount: sign_text(incoming) + amount_text(cents(dek, d.amount@), currency),
        money_class: money_style(incoming),
        detail_url: Seq::empty(),
    }
}

/// The line of a balance set by hand in its account's ledger.
pub open spec fn adjustment_line(
    dek: Seq<u8>,
    a: balance_adjustment::Model,
    currency: Seq<char>,
) -> AccountLedgerView {
    AccountLedgerView {
        happened_at: time_text(a.happened_at),
        record_type: "余额调整"@,
        subject: "强制设置余额"@,
        note: amount_text(cents(dek, a.from_balance@), currency) + " → "@ + amount_text(
            cents(dek, a.to_balance@),
            currency,
        ),
        amount: amount_text(cents(dek, a.to_balance@), currency),
        money_class: "text-amber-700"@,
        detail_url: Seq::empty(),
    }
}

/// Lines with the times they are ordered by.
pub struct Lines {
    pub keys: Seq<int>,
    pub lines: Seq<AccountLedgerView>,
}

impl Lines {
    /// The lines with one more.
    pub open spec fn push(self, key: int, line: AccountLedgerView) -> Lines {
        Lines { keys: self.keys.push(key), lines: self.lines.push(line) }
    }
}

/// What an account's ledger is made of.
pub struct LedgerSource {
    pub dek: Seq<u8>,
    pub book: Book,
    pub plans: Seq<installment_plan::Model>,
    pub id: i64,
    pub currency: Seq<char>,
}

/// The lines of the first `n` bills, those of other accounts left out.
pub open spec fn bill_lines(s: LedgerSource, n: int) -> Lines
    decreases n,
{
    if n <= 0 {
        Lines { keys: Seq::empty(), lines: Seq::empty() }
    } else {
        let b = s.book.bills@[n - 1];
        if b.account_id == s.id {
            bill_lines(s, n - 1).push(
                b.happened_at.key(),
                bill_line(s.dek, b, s.currency, s.plans),
            )
        } else {
            bill_lines(s, n - 1)
        }
    }
}

/// The lines of all bills and the first `n` transfers.
pub open spec fn transfer_lines(s: LedgerSource, n: int) -> Lines
    decreases n,
{
    if n <= 0 {
        bill_lines(s, s.book.bills@.len() as int)
    } else {
        let t = s.book.transfers@[n - 1];
        if t.from_account_id == s.id || t.to_account_id == s.id {
            transfer_lines(s, n - 1).push(
                t.happened_at.key(),
                transfer_line(s.dek, t, s.id, s.currency, s.book.accounts@),
            )
        } else {
            transfer_lines(s, n - 1)
        }
    }
}

/// The lines of all bills, all transfers and the first `n` debt records.
pub open spec fn debt_lines(s: LedgerSource, n: int) -> Lines
    decreases n,
{
    if n <= 0 {
        transfer_lines(s, s.book.transfers@.len() as int)
    } else {
        let d = s.book.debts@[n - 1];
        if d.account_id == s.id {
            debt_lines(s, n - 1).push(
                d.happened_at.key(),
                debt_line(s.dek, d, s.currency, s.book.people@),
            )
        } else {
            debt_lines(s, n - 1)
        }
    }
}

/// The lines of all bills, transfers and debt records and the first `n` balances set by hand.
pub open spec fn adjustment_lines(s: LedgerSource, n: int) -> Lines
    decreases n,
{
    if n <= 0 {
        debt_lines(s, s.book.debts@.len() as int)
    } else {
        let a = s.book.adjustments@[n - 1];
        if a.account_id == s.id {
            adjustment_lines(s, n - 1).push(
                a.happened_at.key(),
                adjustment_line(s.dek, a, s.currency),
            )
        } else {
            adjustment_lines(s, n - 1)
        }
    }
}

/// The ledger of an account, the latest line first.
pub open spec fn account_ledger(s: LedgerSource) -> Seq<AccountLedgerView> {
    let all = adjustment_lines(s, s.book.adjustments@.len() as int);
    arranged(all.lines, all.keys)
}

/// The rows and keys built so far are these lines.
spec fn built(rows: Seq<AccountLedgerRow>, keys: Seq<i128>, lines: Lines) -> bool {
    &&& rows.len() == keys.len()
    &&& line_views(rows) == lines.lines
    &&& ints(keys) == lines.keys
}

proof fn built_push(
    rows: Seq<AccountLedgerRow>,
    keys: Seq<i128>,
    lines: Lines,
    row: AccountLedgerRow,
    key: i128,
)
    requires
        built(rows, keys, lines),
    ensures
        built(rows.push(row), keys.push(key), lines.push(key as int, row@)),
{
    assert(line_views(rows.push(row)) =~= line_views(rows).push(row@));
    assert(ints(keys.push(key)) =~= ints(keys).push(key as int));
}

/// The ledger of an account, the latest line first.
pub fn account_ledger_rows(
    dek: &Dek,
    book: &Book,
    plans: &Vec<installment_plan::Model>,
    account: &account::Model,
) -> (r: Vec<AccountLedgerRow>)
    ensures
        line_views(r@) == account_ledger(
            LedgerSource {
                dek: dek@,
                book: *book,
                plans: plans@,
                id: account.id,
                currency: account.currency@,
            },
        ),
{
    let id: i64 = account.id;
    let ghost s = LedgerSource {
        dek: dek@,
        book: *book,
        plans: plans@,
        id: account.id,
        currency: account.currency@,
    };
    let mut rows: Vec<AccountLedgerRow> = Vec::new();
    let mut keys: Vec<i128> = Vec::new();
    proof {
        assert(line_views(rows@) =~= Seq::empty());
        assert(ints(keys@) =~= Seq::empty());
    }
    let mut i: usize = 0;
    while i < book.bills.len()
        invariant
            i <= book.bills.len(),
            id == account.id,
            s == (LedgerSource {
                dek: dek@,
                book: *book,
                plans: plans@,
                id: account.id,
                currency: account.currency@,
            }),
            built(rows@, keys@, bill_lines(s, i as int)),
        decreases book.bills.len() - i,
    {
        let b = &book.bills[i];
        if b.account_id == id {
            let incoming = same(&b.kind, "income");
            let plan = find_plan_of_bill(plans, b.id);
            let amount = crate::currency::format(decrypt_cents(dek, &b.amount), &account.currency);
            let row = AccountLedgerRow {
                happened_at: time_to_text(b.happened_at),
                record_type: bill_type_of(incoming, plan).to_owned(),
                subject: decrypt_string(dek, &b.category),
                note: decrypt_string(dek, &b.note),
                amount: join2(sign_of(incoming), &amount),
                money_class: money_style_of(incoming).to_owned(),
                detail_url: plan_url_of(plan),
            };
            let key: i128 = b.happened_at.sort_key();
            proof {
                built_push(rows@, keys@, bill_lines(s, i as int), row, key);
            }
            rows.push(row);
            keys.push(key);
        }
        i = i + 1;
    }
    i = 0;
    while i < book.transfers.len()
        invariant
            i <= book.transfers.len(),
            id == account.id,
            s == (LedgerSource {
                dek: dek@,
                book: *book,
                plans: plans@,
                id: account.id,
                currency: account.currency@,
            }),
            built(rows@, keys@, transfer_lines(s, i as int)),
        decreases book.transfers.len() - i,
    {
        let t = &book.transfers[i];
        if t.from_account_id == id || t.to_account_id == id {
            let incoming = t.to_account_id == id;
            let amount: i64 = if incoming {
                transfer_to_cents(dek, t)
            } else {
                decrypt_cents(dek, &t.amount)
            };
            let counterpart: i64 = if incoming {
                t.from_account_id
            } else {
                t.to_account_id
            };
            let name = account_name_of(dek, &book.accounts, counterpart);
            let row = AccountLedgerRow {
                happened_at: time_to_text(t.happened_at),
                record_type: (if incoming {
                    "转入"
                } else {
                    "转出"
                }).to_owned(),
                subject: join2(
                    if incoming {
                        "来自 "
                    } else {
                        "转至 "
                    },
                    &name,
                ),
                note: decrypt_string(dek, &t.note),
                amount: join2(
                    sign_of(incoming),
                    &crate::currency::format(amount, &account.currency),
                ),
                money_class: money_style_of(incoming).to_owned(),
                detail_url: String::new(),
            };
            let key: i128 = t.happened_at.sort_key();
            proof {
                built_push(rows@, keys@, transfer_lines(s, i as int), row, key);
            }
            rows.push(row);
            keys.push(key);
        }
        i = i + 1;
    }
    i = 0;
    while i < book.debts.len()
        invariant
            i <= book.debts.len(),
            id == account.id,
            s == (LedgerSource {
                dek: dek@,
                book: *book,
                plans: plans@,
                id: account.id,
                currency: account.currency@,
            }),
            built(rows@, keys@, debt_lines(s, i as int)),
        decreases book.debts.len() - i,
    {
        let d = &book.debts[i];
        if d.account_id == id {
            let incoming = same(&d.kind, "borrow") || same(&d.kind, "repayment_received");
            let amount = crate::currency::format(decrypt_cents(dek, &d.amount), &account.currency);
            let row = AccountLedgerRow {
                happened_at: time_to_text(d.happened_at),
                record_type: debt_kind_label(&d.kind).to_owned(),
                subject: person_name_of(dek, &book.people, d.person_id),
                note: decrypt_string(dek, &d.note),
                amount: join2(sign_of(incoming), &amount),
                money_class: money_style_of(incoming).to_owned(),
                detail_url: String::new(),
            };
            let key: i128 = d.happened_at.sort_key();
            proof {
                built_push(rows@, keys@, debt_lines(s, i as int), row, key);
            }
            rows.push(row);
            keys.push(key);
        }
        i = i + 1;
    }
    i = 0;
    while i < book.adjustments.len()
        invariant
            i <= book.adjustments.len(),
            id == account.id,
            s == (LedgerSource {
                dek: dek@,
                book: *book,
                plans: plans@,
                id: account.id,
                currency: account.currency@,
            }),
            built(rows@, keys@, adjustment_lines(s, i as int)),
        decreases book.adjustments.len() - i,
    {
        let a = &book.adjustments[i];
        if a.account_id == id {
            let from = crate::currency::format(
                decrypt_cents(dek, &a.from_balance),
                &account.currency,
            );
            let to = crate::currency::format(decrypt_cents(dek, &a.to_balance), &account.currency);
            let row = AccountLedgerRow {
                happened_at: time_to_text(a.happened_at),
                record_type: "余额调整".to_owned(),
                subject: "强制设置余额".to_owned(),
                note: join3(&from, " → ", &to),
                amount: to,
                money_class: "text-amber-700".to_owned(),
                detail_url: String::new(),
            };
            let key: i128 = a.happened_at.sort_key();
            proof {
                built_push(rows@, keys@, adjustment_lines(s, i as int), row, key);
            }
            rows.push(row);
            keys.push(key);
        }
        i = i + 1;
    }
    let ghost unsorted = rows@;
    let sorted = arrange(rows, &keys);
    proof {
        crate::order::descending_exists(ints(keys@));
        assert(line_views(sorted@) =~= arranged(line_views(unsorted), ints(keys@)));
    }
    sorted
}

/// What an account earned and spent, in all and in the current month.
pub struct Totals {
    pub income: i64,
    pub expense: i64,
    pub month_income: i64,
    pub month_expense: i64,
}

/// The sums with one more bill, or the refusal.
pub open spec fn totals_with(
    t: Totals,
    amount: int,
    income: bool,
    this_month: bool,
) -> Result<Totals, ErrorView> {
    let sum = (if income {
        t.income
    } else {
        t.expense
    }) + amount;
    let month = (if income {
        t.month_income
    } else {
        t.month_expense
    }) + amount;
    if !fits_i64(sum) {
        Err(internal("账户收支汇总金额超出范围"@))
    } else if this_month && !fits_i64(month) {
        Err(internal("账户月度汇总金额超出范围"@))
    } else {
        Ok(
            Totals {
                income: if income {
                    sum as i64
                } else {
                    t.income
                },
                expense: if income {
                    t.expense
                } else {
                    sum as i64
                },
                month_income: if income && this_month {
                    month as i64
                } else {
                    t.month_income
                },
                month_expense: if !income && this_month {
                    month as i64
                } else {
                    t.month_expense
                },
            },
        )
    }
}

/// What the first `n` bills add up to for an account.
pub open spec fn bill_totals(
    dek: Seq<u8>,
    bills: Seq<bill::Model>,
    id: i64,
    month_start: Date,
    today: Date,
    n: int,
) -> Result<Totals, ErrorView>
    decreases n,
{
    if n <= 0 {
        Ok(Totals { income: 0, expense: 0, month_income: 0, month_expense: 0 })
    } else {
        match bill_totals(dek, bills, id, month_start, today, n - 1) {
            Err(e) => Err(e),
            Ok(t) => {
                let b = bills[n - 1];
                if b.account_id != id {
                    Ok(t)
                } else {
                    totals_with(
                        t,
                        cents(dek, b.amount@),
                        b.kind@ == "income"@,
                        month_start.days <= b.happened_at.date.days <= today.days,
                    )
                }
            },
        }
    }
}

proof fn bill_totals_stop(
    dek: Seq<u8>,
    bills: Seq<bill::Model>,
    id: i64,
    month_start: Date,
    today: Date,
    m: int,
    n: int,
)
    requires
        0 <= m <= n,
        bill_totals(dek, bills, id, month_start, today, m) is Err,
    ensures
        bill_totals(dek, bills, id, month_start, today, n) == bill_totals(
            dek,
            bills,
            id,
            month_start,
            today,
            m,
        ),
    decreases n,
{
    if m < n {
        bill_totals_stop(dek, bills, id, month_start, today, m, n - 1);
    }
}

fn total_bills(dek: &Dek, bills: &Vec<bill::Model>, id: i64, month_start: Date, today: Date) -> (r:
    HandlerResult<Totals>)
    ensures
        agrees(r, bill_totals(dek@, bills@, id, month_start, today, bills@.len() as int)),
{
    let mut income: i64 = 0;
    let mut expense: i64 = 0;
    let mut month_income: i64 = 0;
    let mut month_expense: i64 = 0;
    let mut i: usize = 0;
    while i < bills.len()
        invariant
            i <= bills.len(),
            bill_totals(dek@, bills@, id, month_start, today, i as int) == Ok::<Totals, ErrorView>(
                Totals { income, expense, month_income, month_expense },
            ),
        decreases bills.len() - i,
    {
        let b = &bills[i];
        if b.account_id == id {
            let amount: i64 = decrypt_cents(dek, &b.amount);
            let is_income = same(&b.kind, "income");
            let date = b.happened_at.date;
            let this_month = month_start.days <= date.days && date.days <= today.days;
            let sum = if is_income {
                income.checked_add(amount)
            } else {
                expense.checked_add(amount)
            };
            let month = if is_income {
                month_income.checked_add(amount)
            } else {
                month_expense.checked_add(amount)
            };
            match sum {
                None => {
                    proof {
                        bill_totals_stop(
                            dek@,
                            bills@,
                            id,
                            month_start,
                            today,
                            i + 1,
                            bills@.len() as int,
                        );
                    }
                    return Err(err500("账户收支汇总金额超出范围"));
                },
                Some(sum) => {
                    if is_income {
                        income = sum;
                    } else {
                        expense = sum;
                    }
                },
            }
            if this_month {
                match month {
                    None => {
                        proof {
                            bill_totals_stop(
                                dek@,
                                bills@,
                                id,
                                month_start,
                                today,
                                i + 1,
                                bills@.len() as int,
                            );
                        }
                        return Err(err500("账户月度汇总金额超出范围"));
                    },
                    Some(month) => {
                        if is_income {
                            month_income = month;
                        } else {
                            month_expense = month;
                        }
                    },
                }
            }
        }
        i = i + 1;
    }
    Ok(Totals { income, expense, month_income, month_expense })
}

/// The page of an account.
pub struct AccountDetail {
    pub id: i64,
    pub name: String,
    pub kind_label: String,
    pub is_investment: bool,
    pub currency: String,
    pub card_number_masked: String,
    pub account_username: String,
    pub credit_summary: String,
    pub note: String,
    pub created_at: String,
    pub balance: String,
    pub month_label: String,
    pub month_income: String,
    pub month_expense: String,
    pub month_net: String,
    pub total_income: String,
    pub total_expense: String,
    pub records: Vec<AccountLedgerRow>,
    pub total_records: usize,
}

/// The first day of the month of a day.
pub open spec fn month_start_of(today: Date) -> Option<Date> {
    crate::calendar::dated(year_of(today), month_of(today), 1)
}

/// What the page of an account shows as its limit, with a word behind the day.
pub open spec fn credit_text(
    dek: Seq<u8>,
    detail: Option<account_detail::Model>,
    currency: Seq<char>,
    behind: Seq<char>,
) -> Seq<char> {
    match detail {
        Some(d) => if d.billing_day > 0 {
            "授信额 "@ + amount_text(cents(dek, d.credit_limit@), currency) + " · 每月 "@
                + int_text(d.billing_day as int) + behind
        } else {
            Seq::empty()
        },
        None => Seq::empty(),
    }
}

fn credit_text_of(
    dek: &Dek,
    detail: Option<&account_detail::Model>,
    currency: &str,
    behind: &str,
) -> (r: String)
    ensures
        r@ == credit_text(
            dek@,
            match detail {
                Some(d) => Some(*d),
                None => None,
            },
            currency@,
            behind@,
        ),
{
    match detail {
        Some(d) => if d.billing_day > 0 {
            let limit = crate::currency::format(decrypt_cents(dek, &d.credit_limit), currency);
            join5("授信额 ", &limit, " · 每月 ", &int_to_text(d.billing_day as i64), behind)
        } else {
            String::new()
        },
        None => String::new(),
    }
}

/// Why the page of an account cannot be shown, where it cannot.
pub open spec fn detail_refusal(dek: Seq<u8>, book: Book, id: i64, today: Date) -> Option<
    ErrorView,
> {
    if found(book.accounts@, id) is None {
        Some(missing("账户不存在"@))
    } else {
        match month_start_of(today) {
            None => Some(internal("无法计算本月开始日期"@)),
            Some(month_start) => match bill_totals(
                dek,
                book.bills@,
                id,
                month_start,
                today,
                book.bills@.len() as int,
            ) {
                Err(e) => Some(e),
                Ok(t) => if !fits_i64(t.month_income - t.month_expense) {
                    Some(internal("账户月结余超出范围"@))
                } else {
                    match balance(dek, book, id) {
                        Err(e) => Some(e),
                        Ok(_) => None,
                    }
                },
            },
        }
    }
}

/// The page of an account shows these values.
pub open spec fn is_detail(
    page: AccountDetail,
    dek: Seq<u8>,
    book: Book,
    plans: Seq<installment_plan::Model>,
    id: i64,
    today: Date,
    masked_card: Seq<char>,
    shown: Page,
) -> bool {
    let a = found(book.accounts@, id)->0;
    let d = found(book.details@, id);
    let c = a.currency@;
    let t = bill_totals(
        dek,
        book.bills@,
        id,
        month_start_of(today)->0,
        today,
        book.bills@.len() as int,
    )->Ok_0;
    let ledger = account_ledger(
        LedgerSource { dek, book, plans, id, currency: c },
    );
    &&& page.id == id
    &&& page.name@ == plain(dek, a.name@)
    &&& page.kind_label@ == kind_label(a.kind@)
    &&& page.is_investment == (a.kind@ == "investment"@)
    &&& page.currency@ == c
    &&& page.card_number_masked@ == (if d is Some && plain(dek, d->0.card_number@).len() > 0 {
        masked_card
    } else {
        Seq::empty()
    })
    &&& page.account_username@ == (if d is Some {
        plain(dek, d->0.account_username@)
    } else {
        Seq::empty()
    })
    &&& page.credit_summary@ == credit_text(dek, d, c, " 日出账"@)
    &&& page.note@ == plain(dek, a.note@)
    &&& page.created_at@ == time_text(a.created_at)
    &&& page.balance@ == amount_text(balance(dek, book, id)->Ok_0 as int, c)
    &&& page.month_label@ == int_text(year_of(today)) + " 年 "@ + int_text(month_of(today))
        + " 月"@
    &&& page.month_income@ == amount_text(t.month_income as int, c)
    &&& page.month_expense@ == amount_text(t.month_expense as int, c)
    &&& page.month_net@ == amount_text(t.month_income - t.month_expense, c)
    &&& page.total_income@ == amount_text(t.income as int, c)
    &&& page.total_expense@ == amount_text(t.expense as int, c)
    &&& line_views(page.records@) == page_of(ledger, shown.start as int, shown.per_page as int)
    &&& page.total_records == ledger.len()
}

/// The page of an account: what it earned and spent, its balance and the lines of its ledger.
/// The card number with most of its digits hidden is given.
pub fn detail(
    dek: &Dek,
    book: &Book,
    plans: &Vec<installment_plan::Model>,
    id: i64,
    today: Date,
    masked_card: &str,
    shown: Page,
) -> (r: HandlerResult<AccountDetail>)
    ensures
        match r {
            Ok(page) => detail_refusal(dek@, *book, id, today) is None && is_detail(
                page,
                dek@,
                *book,
                plans@,
                id,
                today,
                masked_card@,
                shown,
            ),
            Err(error) => detail_refusal(dek@, *book, id, today) == Some(error@),
        },
{
    let account = match find(&book.accounts, id) {
        Some(account) => account,
        None => return Err(not_found("账户不存在")),
    };
    proof {
        crate::book::found_is_row(book.accounts@, id);
    }
    let (year, month, _day) = parts(today);
    let month_start = match from_ymd(year, month, 1) {
        Some(month_start) => month_start,
        None => return Err(err500("无法计算本月开始日期")),
    };
    let totals = match total_bills(dek, &book.bills, id, month_start, today) {
        Ok(totals) => totals,
        Err(error) => return Err(error),
    };
    let month_net: i64 = match totals.month_income.checked_sub(totals.month_expense) {
        Some(n) => n,
        None => return Err(err500("账户月结余超出范围")),
    };
    let now: i64 = match current_balance(dek, book, id) {
        Ok(now) => now,
        Err(error) => return Err(error),
    };
    let rows = account_ledger_rows(dek, book, plans, account);
    let total_records: usize = rows.len();
    let ghost all = rows@;
    let records = take_page(rows, shown.start, shown.per_page);
    proof {
        assert(line_views(records@) =~= page_of(
            line_views(all),
            shown.start as int,
            shown.per_page as int,
        ));
    }
    let detail = find(&book.details, id);
    let (card_number, account_username) = match detail {
        Some(d) => (decrypt_string(dek, &d.card_number), decrypt_string(dek, &d.account_username)),
        None => (String::new(), String::new()),
    };
    let c = &account.currency;
    let credit_summary = credit_text_of(dek, detail, c, " 日出账");
    let month_label = join4(
        &int_to_text(year as i64),
        " 年 ",
        &int_to_text(month as i64),
        " 月",
    );
    Ok(
        AccountDetail {
            id,
            name: decrypt_string(dek, &account.name),
            kind_label: account_kind_label(&account.kind).to_owned(),
            is_investment: same(&account.kind, "investment"),
            currency: account.currency.clone(),
            card_number_masked: if card_number.as_str().is_empty() {
                String::new()
            } else {
                masked_card.to_owned()
            },
            account_username,
            credit_summary,
            note: decrypt_string(dek, &account.note),
            created_at: time_to_text(account.created_at),
            balance: crate::currency::format(now, c),
            month_label,
            month_income: crate::currency::format(totals.month_income, c),
            month_expense: crate::currency::format(totals.month_expense, c),
            month_net: crate::currency::format(month_net, c),
            total_income: crate::currency::format(totals.income, c),
            total_expense: crate::currency::format(totals.expense, c),
            records,
            total_records,
        },
    )
}

/// What transfers add to the balance of an account, what it sends and what it receives apart.
pub open spec fn flow_deltas(dek: Seq<u8>, transfers: Seq<transfer::Model>, id: i64) -> Seq<int> {
    Seq::new(
        2 * transfers.len(),
        |k: int|
            if k % 2 == 0 {
                if transfers[k / 2].from_account_id == id {
                    -cents(dek, transfers[k / 2].amount@)
                } else {
                    0
                }
            } else {
                if transfers[k / 2].to_account_id == id {
                    received(dek, transfers[k / 2])
                } else {
                    0
                }
            },
    )
}

/// What all records add to the balance of an account in the list of accounts.
pub open spec fn list_deltas(dek: Seq<u8>, book: Book, id: i64) -> Seq<int> {
    bill_deltas(dek, book.bills@, id) + flow_deltas(dek, book.transfers@, id) + debt_deltas(
        dek,
        book.debts@,
        id,
    )
}

/// The offset of an account, zero for one that is gone.
pub open spec fn offset_of(dek: Seq<u8>, accounts: Seq<account::Model>, id: i64) -> int {
    match found(accounts, id) {
        Some(a) => cents(dek, a.balance_offset@),
        None => 0,
    }
}

/// The balance of an account in the list of accounts.
pub open spec fn listed_balance(dek: Seq<u8>, book: Book, id: i64) -> Option<int> {
    checked_from(offset_of(dek, book.accounts@, id), list_deltas(dek, book, id))
}

/// The amounts so far are the balances after so many records.
spec fn tallies(dek: Seq<u8>, book: Book, sums: Tally, n: int) -> bool {
    forall|id: i64| #[trigger]
        checked_from(offset_of(dek, book.accounts@, id), list_deltas(dek, book, id).take(n))
            == Some(sums.amount(id))
}

/// One more record that concerns one account at most.
proof fn tallies_step(
    dek: Seq<u8>,
    book: Book,
    before: Tally,
    after: Tally,
    n: int,
    account_id: i64,
    x: int,
)
    requires
        tallies(dek, book, before, n),
        0 <= n,
        forall|id: i64| n < (#[trigger] list_deltas(dek, book, id)).len(),
        forall|id: i64| #[trigger]
            list_deltas(dek, book, id)[n] == if id == account_id {
                x
            } else {
                0
            },
        fits_i64(x),
        fits_i64(before.amount(account_id) + x),
        forall|id: i64| #[trigger]
            after.amount(id) == if id == account_id {
                before.amount(account_id) + x
            } else {
                before.amount(id)
            },
        forall|id: i64| fits_i64(#[trigger] before.amount(id)),
    ensures
        tallies(dek, book, after, n + 1),
{
    assert forall|id: i64| #[trigger]
        checked_from(offset_of(dek, book.accounts@, id), list_deltas(dek, book, id).take(n + 1))
            == Some(after.amount(id)) by {
        let all = list_deltas(dek, book, id);
        assert(all.take(n + 1).drop_last() =~= all.take(n));
        assert(checked_from(offset_of(dek, book.accounts@, id), all.take(n)) == Some(
            before.amount(id),
        ));
        assert(all[n] == if id == account_id {
            x
        } else {
            0
        });
    }
}

/// One more record that does not fit leaves its account without a balance.
proof fn tallies_stop(dek: Seq<u8>, book: Book, before: Tally, n: int, account_id: i64, x: int)
    requires
        tallies(dek, book, before, n),
        0 <= n < list_deltas(dek, book, account_id).len(),
        list_deltas(dek, book, account_id)[n] == x,
        !(fits_i64(x) && fits_i64(before.amount(account_id) + x)),
    ensures
        listed_balance(dek, book, account_id) is None,
{
    let all = list_deltas(dek, book, account_id);
    assert(all.take(n + 1).drop_last() =~= all.take(n));
    assert(checked_from(offset_of(dek, book.accounts@, account_id), all.take(n)) == Some(
        before.amount(account_id),
    ));
    checked_from_stops(offset_of(dek, book.accounts@, account_id), all, n + 1);
}

/// An amount under a number is an amount.
proof fn amounts_fit(entries: Seq<(i64, i64)>, id: i64)
    ensures
        fits_i64(crate::tally::tallied(entries, id)),
    decreases entries.len(),
{
    if entries.len() > 0 {
        amounts_fit(entries.drop_last(), id);
    }
}

/// The balances of all accounts, each the offset and then every record.
fn all_balances(dek: &Dek, book: &Book) -> (r: HandlerResult<Tally>)
    ensures
        match r {
            Ok(sums) => sums.wf() && forall|id: i64| #[trigger]
                listed_balance(dek@, *book, id) == Some(sums.amount(id)),
            Err(error) => error@ == internal("余额超出范围"@) && exists|id: i64| #[trigger]
                listed_balance(dek@, *book, id) is None,
        },
{
    let mut sums = Tally::new();
    let mut i: usize = 0;
    while i < book.accounts.len()
        invariant
            i <= book.accounts.len(),
            sums.wf(),
            forall|id: i64| #[trigger]
                sums.amount(id) == offset_of(dek@, book.accounts@.take(i as int), id),
        decreases book.accounts.len() - i,
    {
        let a = &book.accounts[i];
        proof {
            assert(book.accounts@.take(i + 1).drop_last() =~= book.accounts@.take(i as int));
        }
        let ghost before = sums;
        sums.set(a.id, decrypt_cents(dek, &a.balance_offset));
        proof {
            assert forall|id: i64| #[trigger] sums.amount(id) == offset_of(
                dek@,
                book.accounts@.take(i + 1),
                id,
            ) by {
                assert(before.amount(id) == offset_of(dek@, book.accounts@.take(i as int), id));
            }
        }
        i = i + 1;
    }
    proof {
        assert(book.accounts@.take(book.accounts@.len() as int) =~= book.accounts@);
        assert forall|id: i64| #[trigger]
            checked_from(
                offset_of(dek@, book.accounts@, id),
                list_deltas(dek@, *book, id).take(0),
            ) == Some(sums.amount(id)) by {
            assert(list_deltas(dek@, *book, id).take(0) =~= Seq::empty());
        }
    }
    let ghost first = book.bills@.len() as int;
    let ghost second = first + 2 * book.transfers@.len();
    i = 0;
    while i < book.bills.len()
        invariant
            i <= book.bills.len(),
            sums.wf(),
            tallies(dek@, *book, sums, i as int),
        decreases book.bills.len() - i,
    {
        let b = &book.bills[i];
        let amount: i64 = decrypt_cents(dek, &b.amount);
        let signed = if same(&b.kind, "income") {
            Some(amount)
        } else {
            negated(amount)
        };
        let ghost x = if b.kind@ == "income"@ {
            amount as int
        } else {
            -amount
        };
        let ghost before = sums;
        proof {
            assert forall|id: i64| fits_i64(#[trigger] before.amount(id)) by {
                amounts_fit(before.entries@, id);
            }
            assert forall|id: i64| #[trigger]
                list_deltas(dek@, *book, id)[i as int] == if id == b.account_id {
                    x
                } else {
                    0
                } by {
                assert(list_deltas(dek@, *book, id)[i as int] == bill_delta(dek@, *b, id));
            }
        }
        let kept = match signed {
            Some(n) => sums.add(b.account_id, n),
            None => false,
        };
        if !kept {
            proof {
                tallies_stop(dek@, *book, before, i as int, b.account_id, x);
            }
            return Err(err500("余额超出范围"));
        }
        proof {
            tallies_step(dek@, *book, before, sums, i as int, b.account_id, x);
        }
        i = i + 1;
    }
    i = 0;
    while i < book.transfers.len()
        invariant
            i <= book.transfers.len(),
            first == book.bills@.len(),
            sums.wf(),
            tallies(dek@, *book, sums, first + 2 * i),
        decreases book.transfers.len() - i,
    {
        let t = &book.transfers[i];
        let sent: i64 = decrypt_cents(dek, &t.amount);
        let got: i64 = transfer_to_cents(dek, t);
        let ghost before = sums;
        proof {
            assert forall|id: i64| fits_i64(#[trigger] before.amount(id)) by {
                amounts_fit(before.entries@, id);
            }
            assert forall|id: i64| #[trigger]
                list_deltas(dek@, *book, id)[first + 2 * i] == if id == t.from_account_id {
                    -sent
                } else {
                    0
                } by {
                assert(list_deltas(dek@, *book, id)[first + 2 * i] == flow_deltas(
                    dek@,
                    book.transfers@,
                    id,
                )[2 * i]);
            }
        }
        let kept = match negated(sent) {
            Some(n) => sums.add(t.from_account_id, n),
            None => false,
        };
        if !kept {
            proof {
                tallies_stop(dek@, *book, before, first + 2 * i, t.from_account_id, -sent);
            }
            return Err(err500("余额超出范围"));
        }
        proof {
            tallies_step(dek@, *book, before, sums, first + 2 * i, t.from_account_id, -sent);
        }
        let ghost between = sums;
        proof {
            assert forall|id: i64| fits_i64(#[trigger] between.amount(id)) by {
                amounts_fit(between.entries@, id);
            }
            assert forall|id: i64| #[trigger]
                list_deltas(dek@, *book, id)[first + 2 * i + 1] == if id == t.to_account_id {
                    got as int
                } else {
                    0
                } by {
                assert(list_deltas(dek@, *book, id)[first + 2 * i + 1] == flow_deltas(
                    dek@,
                    book.transfers@,
                    id,
                )[2 * i + 1]);
            }
        }
        if !sums.add(t.to_account_id, got) {
            proof {
                tallies_stop(
                    dek@,
                    *book,
                    between,
                    first + 2 * i + 1,
                    t.to_account_id,
                    got as int,
                );
            }
            return Err(err500("余额超出范围"));
        }
        proof {
            tallies_step(
                dek@,
                *book,
                between,
                sums,
                first + 2 * i + 1,
                t.to_account_id,
                got as int,
            );
        }
        i = i + 1;
    }
    i = 0;
    while i < book.debts.len()
        invariant
            i <= book.debts.len(),
            second == book.bills@.len() + 2 * book.transfers@.len(),
            sums.wf(),
            tallies(dek@, *book, sums, second + i),
        decreases book.debts.len() - i,
    {
        let d = &book.debts[i];
        let amount: i64 = decrypt_cents(dek, &d.amount);
        let signed = if same(&d.kind, "borrow") || same(&d.kind, "repayment_received") {
            Some(amount)
        } else {
            negated(amount)
        };
        let ghost x = if brings_in(d.kind@) {
            amount as int
        } else {
            -amount
        };
        let ghost before = sums;
        proof {
            assert forall|id: i64| fits_i64(#[trigger] before.amount(id)) by {
                amounts_fit(before.entries@, id);
            }
            assert forall|id: i64| #[trigger]
                list_deltas(dek@, *book, id)[second + i] == if id == d.account_id {
                    x
                } else {
                    0
                } by {
                assert(list_deltas(dek@, *book, id)[second + i] == debt_delta(dek@, *d, id));
            }
        }
        let kept = match signed {
            Some(n) => sums.add(d.account_id, n),
            None => false,
        };
        if !kept {
            proof {
                tallies_stop(dek@, *book, before, second + i, d.account_id, x);
            }
            return Err(err500("余额超出范围"));
        }
        proof {
            tallies_step(dek@, *book, before, sums, second + i, d.account_id, x);
        }
        i = i + 1;
    }
    proof {
        assert forall|id: i64| #[trigger] listed_balance(dek@, *book, id) == Some(
            sums.amount(id),
        ) by {
            let all = list_deltas(dek@, *book, id);
            assert(all.take(all.len() as int) =~= all);
            assert(checked_from(offset_of(dek@, book.accounts@, id), all.take(second
                + book.debts@.len())) == Some(sums.amount(id)));
        }
    }
    Ok(sums)
}

/// One line of the list of accounts.
pub struct AccountRow {
    pub id: i64,
    pub name: String,
    pub kind_label: String,
    pub card_number: String,
    pub account_username: String,
    pub credit_summary: String,
    pub note: String,
    pub balance: String,
}

/// The line of an account shows these values.
pub open spec fn is_account_row(
    row: AccountRow,
    dek: Seq<u8>,
    book: Book,
    masks: Seq<MaskedDetail>,
    a: account::Model,
) -> bool {
    let mask = found(masks, a.id);
    &&& row.id == a.id
    &&& row.name@ == plain(dek, a.name@)
    &&& row.kind_label@ == kind_label(a.kind@)
    &&& row.card_number@ == (if mask is Some {
        mask->0.card_number@
    } else {
        Seq::empty()
    })
    &&& row.account_username@ == (if mask is Some {
        mask->0.account_username@
    } else {
        Seq::empty()
    })
    &&& row.credit_summary@ == credit_text(dek, found(book.details@, a.id), a.currency@, " 日"@)
    &&& row.note@ == plain(dek, a.note@)
    &&& row.balance@ == amount_text(listed_balance(dek, book, a.id)->0, a.currency@)
}

/// The list of accounts: for each one its balance and what is known of it. The card numbers and
/// user names with most of their characters hidden are given.
pub fn list(dek: &Dek, book: &Book, masks: &Vec<MaskedDetail>, shown: Page) -> (r: HandlerResult<
    Vec<AccountRow>,
>)
    ensures
        match r {
            Ok(rows) => {
                let accounts = page_of(
                    book.accounts@,
                    shown.start as int,
                    shown.per_page as int,
                );
                &&& forall|id: i64| #[trigger] listed_balance(dek@, *book, id) is Some
                &&& rows@.len() == accounts.len()
                &&& forall|i: int|
                    0 <= i < rows@.len() ==> is_account_row(
                        #[trigger] rows@[i],
                        dek@,
                        *book,
                        masks@,
                        accounts[i],
                    )
            },
            Err(error) => error@ == internal("余额超出范围"@) && exists|id: i64| #[trigger]
                listed_balance(dek@, *book, id) is None,
        },
{
    let sums = match all_balances(dek, book) {
        Ok(sums) => sums,
        Err(error) => return Err(error),
    };
    let mut rows: Vec<AccountRow> = Vec::new();
    let mut i: usize = 0;
    while i < book.accounts.len()
        invariant
            i <= book.accounts.len(),
            rows@.len() == i,
            sums.wf(),
            forall|id: i64| #[trigger]
                listed_balance(dek@, *book, id) == Some(sums.amount(id)),
            forall|j: int|
                0 <= j < i ==> is_account_row(
                    #[trigger] rows@[j],
                    dek@,
                    *book,
                    masks@,
                    book.accounts@[j],
                ),
        decreases book.accounts.len() - i,
    {
        let a = &book.accounts[i];
        let (card_number, account_username) = match find(masks, a.id) {
            Some(mask) => (mask.card_number.clone(), mask.account_username.clone()),
            None => (String::new(), String::new()),
        };
        let summary = credit_text_of(dek, find(&book.details, a.id), &a.currency, " 日");
        let row = AccountRow {
            id: a.id,
            name: decrypt_string(dek, &a.name),
            kind_label: account_kind_label(&a.kind).to_owned(),
            card_number,
            account_username,
            credit_summary: summary,
            note: decrypt_string(dek, &a.note),
            balance: crate::currency::format(sums.get(a.id), &a.currency),
        };
        proof {
            assert(listed_balance(dek@, *book, a.id) == Some(sums.amount(a.id)));
        }
        rows.push(row);
        i = i + 1;
    }
    Ok(take_page(rows, shown.start, shown.per_page))
}

/// The limit and the billing day of an account form, or why the form is refused.
pub open spec fn form_checked(form: AccountFormData) -> Result<(i64, i32), ErrorView> {
    if trimmed(form.name@).len() == 0 {
        Err(bad("账户名不能为空"@))
    } else if !is_account_kind(form.account_kind@) {
        Err(bad("账户类型无效"@))
    } else if !is_currency(form.currency@) {
        Err(bad("账户货币无效"@))
    } else {
        credit_settings(form.account_kind@, form.credit_limit@, form.billing_day@)
    }
}

/// Every text of an account form is short enough to be encrypted.
pub open spec fn form_sealable(form: AccountFormData) -> bool {
    sealable(form.name@) && sealable(form.note@) && sealable(form.card_number@) && sealable(
        form.account_username@,
    )
}

fn check_form(form: &AccountFormData) -> (r: HandlerResult<(i64, i32)>)
    ensures
        agrees(r, form_checked(*form)),
        r matches Ok(pair) ==> pair.0 >= 0,
{
    if form.name.as_str().trim().is_empty() {
        return Err(bad_request("账户名不能为空"));
    }
    if !valid_account_kind(&form.account_kind) {
        return Err(bad_request("账户类型无效"));
    }
    if !valid(&form.currency) {
        return Err(bad_request("账户货币无效"));
    }
    parse_credit_settings(&form.account_kind, &form.credit_limit, &form.billing_day)
}

/// An account to be stored, and the credit settings that go with it.
pub struct NewAccount {
    pub account: account::Model,
    pub credit_limit: i64,
    pub billing_day: i32,
}

/// Makes an account from a form: its texts are encrypted and its offset is zero.
pub fn create(dek: &Dek, form: &AccountFormData, now: DateTime) -> (r: HandlerResult<NewAccount>)
    requires
        form_sealable(*form),
    ensures
        match (r, form_checked(*form)) {
            (Ok(new), Ok(credit)) => {
                &&& plain(dek@, new.account.name@) == trimmed(form.name@)
                &&& new.account.kind@ == form.account_kind@
                &&& new.account.currency@ == form.currency@
                &&& cents(dek@, new.account.balance_offset@) == 0
                &&& plain(dek@, new.account.note@) == trimmed(form.note@)
                &&& new.account.created_at == now
                &&& (new.credit_limit, new.billing_day) == credit
            },
            (Err(error), Err(wanted)) => error@ == wanted,
            _ => false,
        },
{
    match check_form(form) {
        Err(error) => Err(error),
        Ok((credit_limit, billing_day)) => {
            proof {
                trimmed_bytes(form.name@);
                trimmed_bytes(form.note@);
            }
            Ok(
                NewAccount {
                    account: account::Model {
                        id: 0,
                        name: encrypt_string(dek, form.name.as_str().trim()),
                        kind: form.account_kind.clone(),
                        currency: form.currency.clone(),
                        balance_offset: encrypt_cents(dek, 0),
                        note: encrypt_string(dek, form.note.as_str().trim()),
                        created_at: now,
                    },
                    credit_limit,
                    billing_day,
                },
            )
        },
    }
}

/// What an account of a kind keeps of a card number, a user name and credit settings.
pub open spec fn kept_detail(
    kind: Seq<char>,
    card_number: Seq<char>,
    account_username: Seq<char>,
    credit_limit: i64,
    billing_day: i32,
) -> (Seq<char>, Seq<char>, i64, i32) {
    if kind == "payment"@ {
        (Seq::empty(), trimmed(account_username), 0, 0)
    } else if kind == "bank"@ || kind == "stored_value"@ {
        (trimmed(card_number), Seq::empty(), 0, 0)
    } else if kind == "credit_card"@ {
        (trimmed(card_number), Seq::empty(), credit_limit, billing_day)
    } else if kind == "credit_service"@ {
        (Seq::empty(), trimmed(account_username), credit_limit, billing_day)
    } else {
        (Seq::empty(), Seq::empty(), 0, 0)
    }
}

/// The row that keeps what an account has besides its name; none where there is nothing to keep
/// and a row that is there is to be removed.
pub fn save_account_detail(
    dek: &Dek,
    account_id: i64,
    kind: &str,
    card_number: &str,
    account_username: &str,
    credit_limit: i64,
    billing_day: i32,
) -> (r: Option<account_detail::Model>)
    requires
        sealable(card_number@),
        sealable(account_username@),
    ensures
        ({
            let kept = kept_detail(
                kind@,
                card_number@,
                account_username@,
                credit_limit,
                billing_day,
            );
            match r {
                Some(row) => (is_credit(kind@) || kept.0.len() > 0 || kept.1.len() > 0)
                    && row.account_id == account_id && plain(dek@, row.card_number@) == kept.0
                    && plain(dek@, row.account_username@) == kept.1 && cents(
                    dek@,
                    row.credit_limit@,
                ) == kept.2 && row.billing_day == kept.3,
                None => !is_credit(kind@) && kept.0.len() == 0 && kept.1.len() == 0,
            }
        }),
{
    proof {
        trimmed_bytes(card_number@);
        trimmed_bytes(account_username@);
        reveal_strlit("");
        assert(""@ =~= Seq::<char>::empty());
    }
    let card = if same(kind, "bank") || same(kind, "stored_value") || same(kind, "credit_card") {
        card_number.trim()
    } else {
        ""
    };
    let username = if same(kind, "payment") || same(kind, "credit_service") {
        account_username.trim()
    } else {
        ""
    };
    let credit = credit_kind(kind);
    proof {
        reveal_strlit("payment");
        reveal_strlit("bank");
        reveal_strlit("stored_value");
        reveal_strlit("credit_card");
        reveal_strlit("credit_service");
        assert("payment"@.len() == 7 && "bank"@.len() == 4 && "stored_value"@.len() == 12
            && "credit_card"@.len() == 11 && "credit_service"@.len() == 14);
    }
    if !credit && card.is_empty() && username.is_empty() {
        return None;
    }
    Some(
        account_detail::Model {
            account_id,
            card_number: encrypt_string(dek, card),
            account_username: encrypt_string(dek, username),
            credit_limit: encrypt_cents(
                dek,
                if credit {
                    credit_limit
                } else {
                    0
                },
            ),
            billing_day: if credit {
                billing_day
            } else {
                0
            },
        },
    )
}

/// An account has a record of any kind.
pub open spec fn has_records(book: Book, id: i64) -> bool {
    ||| exists|i: int| 0 <= i < book.bills@.len() && (#[trigger] book.bills@[i]).account_id == id
    ||| exists|i: int|
        0 <= i < book.transfers@.len() && ((#[trigger] book.transfers@[i]).from_account_id == id
            || book.transfers@[i].to_account_id == id)
    ||| exists|i: int| 0 <= i < book.debts@.len() && (#[trigger] book.debts@[i]).account_id == id
    ||| exists|i: int|
        0 <= i < book.adjustments@.len() && (#[trigger] book.adjustments@[i]).account_id == id
}

fn any_records(book: &Book, id: i64) -> (r: bool)
    ensures
        r == has_records(*book, id),
{
    let mut i: usize = 0;
    while i < book.bills.len()
        invariant
            i <= book.bills.len(),
            forall|j: int| 0 <= j < i ==> (#[trigger] book.bills@[j]).account_id != id,
        decreases book.bills.len() - i,
    {
        if book.bills[i].account_id == id {
            return true;
        }
        i = i + 1;
    }
    i = 0;
    while i < book.transfers.len()
        invariant
            i <= book.transfers.len(),
            forall|j: int|
                0 <= j < i ==> (#[trigger] book.transfers@[j]).from_account_id != id
                    && book.transfers@[j].to_account_id != id,
        decreases book.transfers.len() - i,
    {
        if book.transfers[i].from_account_id == id || book.transfers[i].to_account_id == id {
            return true;
        }
        i = i + 1;
    }
    i = 0;
    while i < book.debts.len()
        invariant
            i <= book.debts.len(),
            forall|j: int| 0 <= j < i ==> (#[trigger] book.debts@[j]).account_id != id,
        decreases book.debts.len() - i,
    {
        if book.debts[i].account_id == id {
            return true;
        }
        i = i + 1;
    }
    i = 0;
    while i < book.adjustments.len()
        invariant
            i <= book.adjustments.len(),
            forall|j: int| 0 <= j < i ==> (#[trigger] book.adjustments@[j]).account_id != id,
        decreases book.adjustments.len() - i,
    {
        if book.adjustments[i].account_id == id {
            return true;
        }
        i = i + 1;
    }
    false
}

/// Why an account cannot be changed as a form says, where it cannot: its currency is fixed once
/// it has a record or an offset, and its balance must be one that the new kind and limit allow.
pub open spec fn update_refusal(dek: Seq<u8>, book: Book, id: i64, form: AccountFormData) -> Option<
    ErrorView,
> {
    match form_checked(form) {
        Err(e) => Some(e),
        Ok(credit) => match balance(dek, book, id) {
            Err(e) => Some(e),
            Ok(now) => {
                let a = found(book.accounts@, id)->0;
                if a.currency@ != form.currency@ && (has_records(book, id) || cents(
                    dek,
                    a.balance_offset@,
                ) != 0) {
                    Some(bad("已有余额或流水的账户不能修改货币；请新建对应货币账户后转账"@))
                } else if is_credit(form.account_kind@) {
                    if now < -credit.0 {
                        Some(bad("当前透支金额超过新的授信额"@))
                    } else if form.account_kind@ == "credit_service"@ && now > 0 {
                        Some(bad("信贷服务余额不能高于 0；请先把正余额转出后再修改账户"@))
                    } else {
                        None
                    }
                } else if now < 0 {
                    Some(bad("当前余额为负，不能改为禁止透支的账户类型"@))
                } else {
                    None
                }
            },
        },
    }
}

/// Changes an account as a form says; its number, its offset and its first day stay.
pub fn update(dek: &Dek, book: &Book, id: i64, form: &AccountFormData) -> (r: HandlerResult<
    NewAccount,
>)
    requires
        form_sealable(*form),
    ensures
        match r {
            Ok(new) => {
                let a = found(book.accounts@, id)->0;
                &&& update_refusal(dek@, *book, id, *form) is None
                &&& new.account.id == id
                &&& plain(dek@, new.account.name@) == trimmed(form.name@)
                &&& new.account.kind@ == form.account_kind@
                &&& new.account.currency@ == form.currency@
                &&& new.account.balance_offset@ == a.balance_offset@
                &&& plain(dek@, new.account.note@) == trimmed(form.note@)
                &&& new.account.created_at == a.created_at
                &&& form_checked(*form) == Ok::<(i64, i32), ErrorView>(
                    (new.credit_limit, new.billing_day),
                )
            },
            Err(error) => update_refusal(dek@, *book, id, *form) == Some(error@),
        },
{
    let (credit_limit, billing_day) = match check_form(form) {
        Ok(credit) => credit,
        Err(error) => return Err(error),
    };
    let account = match find(&book.accounts, id) {
        Some(account) => account,
        None => return Err(not_found("账户不存在")),
    };
    let now: i64 = match current_balance(dek, book, id) {
        Ok(now) => now,
        Err(error) => return Err(error),
    };
    if !same(&account.currency, &form.currency) && (any_records(book, id) || decrypt_cents(
        dek,
        &account.balance_offset,
    ) != 0) {
        return Err(
            bad_request("已有余额或流水的账户不能修改货币；请新建对应货币账户后转账"),
        );
    }
    if credit_kind(&form.account_kind) {
        if now < -credit_limit {
            return Err(bad_request("当前透支金额超过新的授信额"));
        }
        if same(&form.account_kind, "credit_service") && now > 0 {
            return Err(
                bad_request("信贷服务余额不能高于 0；请先把正余额转出后再修改账户"),
            );
        }
    } else if now < 0 {
        return Err(bad_request("当前余额为负，不能改为禁止透支的账户类型"));
    }
    proof {
        trimmed_bytes(form.name@);
        trimmed_bytes(form.note@);
    }
    Ok(
        NewAccount {
            account: account::Model {
                id,
                name: encrypt_string(dek, form.name.as_str().trim()),
                kind: form.account_kind.clone(),
                currency: form.currency.clone(),
                balance_offset: account.balance_offset.clone(),
                note: encrypt_string(dek, form.note.as_str().trim()),
                created_at: account.created_at,
            },
            credit_limit,
            billing_day,
        },
    )
}

/// A balance set by hand: the new offset of the account and the record of the change.
pub struct ForcedBalance {
    pub balance_offset: String,
    pub adjustment: balance_adjustment::Model,
}

/// The offset that gives an account a balance, or why it cannot have it.
pub open spec fn forced_offset(dek: Seq<u8>, book: Book, id: i64, text: Seq<char>) -> Result<
    i64,
    ErrorView,
> {
    if found(book.accounts@, id) is None {
        Err(missing("账户不存在"@))
    } else {
        match balance_of_text(text) {
            Err(e) => Err(e),
            Ok(target) => match allowed(dek, book, id, target as int) {
                Err(e) => Err(e),
                Ok(_) => match balance(dek, book, id) {
                    Err(e) => Err(e),
                    Ok(_) => {
                        let offset = target - net(dek, book, id)->0;
                        if fits_i64(offset) {
                            Ok(offset as i64)
                        } else {
                            Err(bad("余额超出范围"@))
                        }
                    },
                },
            },
        }
    }
}

/// Sets the balance of an account by hand and records what it was before.
pub fn force_balance(
    dek: &Dek,
    book: &Book,
    id: i64,
    form: &AccountBalanceFormData,
    now: DateTime,
) -> (r: HandlerResult<ForcedBalance>)
    ensures
        match (r, forced_offset(dek@, *book, id, form.balance@)) {
            (Ok(forced), Ok(offset)) => {
                &&& cents(dek@, forced.balance_offset@) == offset
                &&& forced.adjustment.account_id == id
                &&& cents(dek@, forced.adjustment.from_balance@) == balance(dek@, *book, id)->Ok_0
                &&& cents(dek@, forced.adjustment.to_balance@) == balance_of_text(
                    form.balance@,
                )->Ok_0
                &&& forced.adjustment.happened_at == now
                &&& forced.adjustment.created_at == now
            },
            (Err(error), Err(wanted)) => error@ == wanted,
            _ => false,
        },
{
    if find(&book.accounts, id).is_none() {
        return Err(not_found("账户不存在"));
    }
    let target: i64 = match parse_balance(&form.balance) {
        Ok(target) => target,
        Err(error) => return Err(error),
    };
    match ensure_allowed_balance(dek, book, id, target) {
        Ok(_) => {},
        Err(error) => return Err(error),
    }
    let previous: i64 = match current_balance(dek, book, id) {
        Ok(previous) => previous,
        Err(error) => return Err(error),
    };
    let sum: i64 = match transaction_balance(dek, book, id) {
        Ok(sum) => sum,
        Err(error) => return Err(error),
    };
    proof {
        crate::totals::checked_total_is_total(deltas(dek@, *book, id));
    }
    match target.checked_sub(sum) {
        None => Err(bad_request("余额超出范围")),
        Some(offset) => Ok(
            ForcedBalance {
                balance_offset: encrypt_cents(dek, offset),
                adjustment: balance_adjustment::Model {
                    id: 0,
                    account_id: id,
                    from_balance: encrypt_cents(dek, previous),
                    to_balance: encrypt_cents(dek, target),
                    happened_at: now,
                    created_at: now,
                },
            },
        ),
    }
}

/// Setting a balance by hand gives the account exactly that balance: in a book with the same
/// records, where the account has the new offset, its balance is the one that was asked for,
/// and one that it is allowed to have.
pub proof fn forced_balance_holds(
    dek: Seq<u8>,
    book: Book,
    after: Book,
    id: i64,
    text: Seq<char>,
)
    requires
        forced_offset(dek, book, id, text) is Ok,
        after.bills@ == book.bills@,
        after.transfers@ == book.transfers@,
        after.debts@ == book.debts@,
        after.details@ == book.details@,
        found(after.accounts@, id) is Some,
        found(after.accounts@, id)->0.kind@ == found(book.accounts@, id)->0.kind@,
        cents(dek, found(after.accounts@, id)->0.balance_offset@) == forced_offset(
            dek,
            book,
            id,
            text,
        )->Ok_0,
    ensures
        balance(dek, after, id) == Ok::<i64, ErrorView>(balance_of_text(text)->Ok_0),
        allowed(dek, after, id, balance_of_text(text)->Ok_0 as int) is Ok,
{
    assert(deltas(dek, after, id) =~= deltas(dek, book, id));
    crate::totals::checked_total_is_total(deltas(dek, book, id));
}

/// What a transfer changes in the balance of another account when an account is deleted: the
/// other account, and by how much.
pub open spec fn undone(dek: Seq<u8>, t: transfer::Model, id: i64) -> (i64, int) {
    if t.from_account_id == id {
        (t.to_account_id, -received(dek, t))
    } else {
        (t.from_account_id, cents(dek, t.amount@))
    }
}

/// By how much the balances of other accounts change when an account is deleted, after the first
/// `n` transfers.
pub open spec fn changes(dek: Seq<u8>, transfers: Seq<transfer::Model>, id: i64, n: int) -> Result<
    Map<i64, int>,
    ErrorView,
>
    decreases n,
{
    if n <= 0 {
        Ok(Map::empty())
    } else {
        match changes(dek, transfers, id, n - 1) {
            Err(e) => Err(e),
            Ok(sums) => {
                let t = transfers[n - 1];
                if t.from_account_id != id && t.to_account_id != id {
                    Ok(sums)
                } else {
                    let (other, delta) = undone(dek, t, id);
                    let now = if sums.dom().contains(other) {
                        sums[other]
                    } else {
                        0
                    };
                    if !fits_i64(delta) {
                        Err(bad("金额超出范围"@))
                    } else if other == id {
                        Ok(sums)
                    } else if !fits_i64(now + delta) {
                        Err(bad("余额超出范围"@))
                    } else {
                        Ok(sums.insert(other, now + delta))
                    }
                }
            },
        }
    }
}

proof fn changes_stop(dek: Seq<u8>, transfers: Seq<transfer::Model>, id: i64, m: int, n: int)
    requires
        0 <= m <= n,
        changes(dek, transfers, id, m) is Err,
    ensures
        changes(dek, transfers, id, n) == changes(dek, transfers, id, m),
    decreases n,
{
    if m < n {
        changes_stop(dek, transfers, id, m, n - 1);
    }
}

/// The amounts of a tally are those of a map.
pub open spec fn same_amounts(sums: Tally, map: Map<i64, int>) -> bool {
    &&& sums.wf()
    &&& forall|id: i64| #[trigger] map.dom().contains(id) <==> has_number(sums.entries@, id)
    &&& forall|id: i64| #[trigger]
        sums.amount(id) == if map.dom().contains(id) {
            map[id]
        } else {
            0
        }
}

fn collect_changes(dek: &Dek, book: &Book, id: i64) -> (r: HandlerResult<Tally>)
    ensures
        match (r, changes(dek@, book.transfers@, id, book.transfers@.len() as int)) {
            (Ok(sums), Ok(map)) => same_amounts(sums, map),
            (Err(error), Err(wanted)) => error@ == wanted,
            _ => false,
        },
{
    let mut sums = Tally::new();
    let mut i: usize = 0;
    while i < book.transfers.len()
        invariant
            i <= book.transfers.len(),
            changes(dek@, book.transfers@, id, i as int) is Ok,
            same_amounts(sums, changes(dek@, book.transfers@, id, i as int)->Ok_0),
        decreases book.transfers.len() - i,
    {
        let t = &book.transfers[i];
        if t.from_account_id == id || t.to_account_id == id {
            let (other, delta) = if t.from_account_id == id {
                (t.to_account_id, negated(transfer_to_cents(dek, t)))
            } else {
                (t.from_account_id, Some(decrypt_cents(dek, &t.amount)))
            };
            match delta {
                None => {
                    proof {
                        changes_stop(
                            dek@,
                            book.transfers@,
                            id,
                            i + 1,
                            book.transfers@.len() as int,
                        );
                    }
                    return Err(bad_request("金额超出范围"));
                },
                Some(delta) => {
                    if other != id {
                        let ghost before = sums;
                        let ghost map = changes(dek@, book.transfers@, id, i as int)->Ok_0;
                        if !sums.add(other, delta) {
                            proof {
                                assert(before.amount(other) == if map.dom().contains(other) {
                                    map[other]
                                } else {
                                    0
                                });
                                changes_stop(
                                    dek@,
                                    book.transfers@,
                                    id,
                                    i + 1,
                                    book.transfers@.len() as int,
                                );
                            }
                            return Err(bad_request("余额超出范围"));
                        }
                        proof {
                            amounts_added(before, sums, map, other, delta as int);
                            assert(before.amount(other) == if map.dom().contains(other) {
                                map[other]
                            } else {
                                0
                            });
                        }
                    }
                },
            }
        }
        i = i + 1;
    }
    Ok(sums)
}

/// Refuses changes of several balances where one of them leads to a balance that its account may
/// not have.
pub(crate) fn ensure_changes(
    dek: &Dek,
    book: &Book,
    sums: &Tally,
    Ghost(map): Ghost<Map<i64, int>>,
) -> (r: HandlerResult<()>)
    requires
        same_amounts(*sums, map),
    ensures
        match r {
            Ok(_) => forall|other: i64| #[trigger]
                map.dom().contains(other) ==> change_allowed(dek@, *book, other, map[other]) is Ok,
            Err(error) => exists|other: i64| #[trigger]
                map.dom().contains(other) && change_allowed(dek@, *book, other, map[other])
                    == Err::<(), ErrorView>(error@),
        },
{
    let mut i: usize = 0;
    while i < sums.entries.len()
        invariant
            i <= sums.entries@.len(),
            same_amounts(*sums, map),
            forall|j: int|
                0 <= j < i ==> change_allowed(
                    dek@,
                    *book,
                    (#[trigger] sums.entries@[j]).0,
                    sums.entries@[j].1 as int,
                ) is Ok,
        decreases sums.entries@.len() - i,
    {
        let (other, delta) = sums.entries[i];
        match ensure_balance_delta(dek, book, other, delta) {
            Ok(_) => {},
            Err(error) => {
                proof {
                    crate::tally::tallied_at(sums.entries@, i as int);
                    assert(has_number(sums.entries@, other));
                    assert(map.dom().contains(other));
                    assert(sums.amount(other) == map[other]);
                }
                return Err(error);
            },
        }
        i = i + 1;
    }
    proof {
        assert forall|other: i64| #[trigger] map.dom().contains(other) implies change_allowed(
            dek@,
            *book,
            other,
            map[other],
        ) is Ok by {
            assert(has_number(sums.entries@, other));
            let j = choose|j: int|
                0 <= j < sums.entries@.len() && (#[trigger] sums.entries@[j]).0 == other;
            crate::tally::tallied_at(sums.entries@, j);
            assert(sums.amount(other) == map[other]);
        }
    }
    Ok(())
}

/// Adding to a tally is adding to the map that it stands for.
pub proof fn amounts_added(before: Tally, after: Tally, map: Map<i64, int>, id: i64, x: int)
    requires
        same_amounts(before, map),
        after.wf(),
        forall|other: i64| #[trigger]
            after.amount(other) == if other == id {
                before.amount(id) + x
            } else {
                before.amount(other)
            },
        forall|other: i64| #[trigger]
            has_number(after.entries@, other) <==> other == id || has_number(
                before.entries@,
                other,
            ),
    ensures
        same_amounts(
            after,
            map.insert(
                id,
                (if map.dom().contains(id) {
                    map[id]
                } else {
                    0
                }) + x,
            ),
        ),
{
    let now = if map.dom().contains(id) {
        map[id]
    } else {
        0
    };
    assert(before.amount(id) == now);
    let more = map.insert(id, now + x);
    assert forall|a: i64| #[trigger] after.amount(a) == if more.dom().contains(a) {
        more[a]
    } else {
        0
    } by {
        assert(before.amount(a) == if map.dom().contains(a) {
            map[a]
        } else {
            0
        });
    }
}

/// Allows or refuses that an account is deleted: the transfers it takes part in go with it, and
/// no other account may be left with a balance that it may not have.
pub fn delete(dek: &Dek, book: &Book, id: i64) -> (r: HandlerResult<()>)
    ensures
        ({
            let sums = changes(dek@, book.transfers@, id, book.transfers@.len() as int);
            if found(book.accounts@, id) is None {
                r matches Err(error) && error@ == missing("账户不存在"@)
            } else {
                match sums {
                    Err(wanted) => r matches Err(error) && error@ == wanted,
                    Ok(map) => match r {
                        Ok(_) => forall|other: i64| #[trigger]
                            map.dom().contains(other) ==> change_allowed(
                                dek@,
                                *book,
                                other,
                                map[other],
                            ) is Ok,
                        Err(error) => exists|other: i64| #[trigger]
                            map.dom().contains(other) && change_allowed(
                                dek@,
                                *book,
                                other,
                                map[other],
                            ) == Err::<(), ErrorView>(error@),
                    },
                }
            }
        }),
{
    if find(&book.accounts, id).is_none() {
        return Err(not_found("账户不存在"));
    }
    let sums = match collect_changes(dek, book, id) {
        Ok(sums) => sums,
        Err(error) => return Err(error),
    };
    let ghost map = changes(dek@, book.transfers@, id, book.transfers@.len() as int)->Ok_0;
    ensure_changes(dek, book, &sums, Ghost(map))
}

/// The payment of an instalment as it is left when the account that paid it is deleted: not paid,
/// and without the records of the payment.
pub fn reset_payment(item: installment_item::Model) -> (r: installment_item::Model)
    ensures
        r.paid_at is None,
        r.repayment_account_id is None,
        r.principal_transfer_id is None,
        r.charge_bill_id is None,
        r.id == item.id,
        r.plan_id == item.plan_id,
        r.sequence == item.sequence,
        r.due_date == item.due_date,
        r.principal@ == item.principal@,
        r.interest@ == item.interest@,
        r.fee@ == item.fee@,
        r.total@ == item.total@,
        r.created_at == item.created_at,
{
    installment_item::Model {
        id: item.id,
        plan_id: item.plan_id,
        sequence: item.sequence,
        due_date: item.due_date,
        principal: item.principal,
        interest: item.interest,
        fee: item.fee,
        total: item.total,
        paid_at: None,
        repayment_account_id: None,
        principal_transfer_id: None,
        charge_bill_id: None,
        created_at: item.created_at,
    }
}

/// The whole card number of an account.
pub fn card_number(dek: &Dek, book: &Book, id: i64) -> (r: HandlerResult<CardNumberResponse>)
    ensures
        match r {
            Ok(response) => found(book.accounts@, id) is Some && found(book.details@, id) is Some
                && response.card_number@ == plain(dek@, found(book.details@, id)->0.card_number@)
                && response.card_number@.len() > 0,
            Err(error) => if found(book.accounts@, id) is None {
                error@ == missing("账户不存在"@)
            } else {
                (found(book.details@, id) is None || plain(
                    dek@,
                    found(book.details@, id)->0.card_number@,
                ).len() == 0) && error@ == missing("这个账户没有卡号"@)
            },
        },
{
    if find(&book.accounts, id).is_none() {
        return Err(not_found("账户不存在"));
    }
    match find(&book.details, id) {
        None => Err(not_found("这个账户没有卡号")),
        Some(detail) => {
            let card_number = decrypt_string(dek, &detail.card_number);
            if card_number.as_str().is_empty() {
                Err(not_found("这个账户没有卡号"))
            } else {
                Ok(CardNumberResponse { card_number })
            }
        },
    }
}

/// The fields of the form that changes an account.
pub struct AccountForm {
    pub heading: String,
    pub action: String,
    pub name: String,
    pub account_kind: String,
    pub currency: String,
    pub card_number: String,
    pub account_username: String,
    pub credit_limit: String,
    pub billing_day: String,
    pub note: String,
}

/// The empty form for a new account.
pub fn new_form(default_currency: &str) -> (r: AccountForm)
    ensures
        r.heading@ == "新建账户"@,
        r.action@ == "/accounts"@,
        r.account_kind@ == "other"@,
        r.currency@ == default_currency@,
        r.name@.len() == 0 && r.card_number@.len() == 0 && r.account_username@.len() == 0
            && r.credit_limit@.len() == 0 && r.billing_day@.len() == 0 && r.note@.len() == 0,
{
    AccountForm {
        heading: "新建账户".to_owned(),
        action: "/accounts".to_owned(),
        name: String::new(),
        account_kind: "other".to_owned(),
        currency: default_currency.to_owned(),
        card_number: String::new(),
        account_username: String::new(),
        credit_limit: String::new(),
        billing_day: String::new(),
        note: String::new(),
    }
}

/// The form that changes an account, filled with what the account has.
pub fn edit_form(dek: &Dek, book: &Book, id: i64) -> (r: HandlerResult<AccountForm>)
    ensures
        match (r, found(book.accounts@, id)) {
            (Ok(form), Some(a)) => {
                let d = found(book.details@, id);
                &&& form.heading@ == "编辑账户"@
                &&& form.action@ == "/accounts/"@ + int_text(id as int) + "/edit"@
                &&& form.name@ == plain(dek@, a.name@)
                &&& form.account_kind@ == a.kind@
                &&& form.currency@ == a.currency@
                &&& form.note@ == plain(dek@, a.note@)
                &&& match d {
                    Some(d) => form.card_number@ == plain(dek@, d.card_number@)
                        && form.account_username@ == plain(dek@, d.account_username@)
                        && form.credit_limit@ == crate::decimal::cents_text(
                        cents(dek@, d.credit_limit@),
                    ) && form.billing_day@ == (if d.billing_day > 0 {
                        int_text(d.billing_day as int)
                    } else {
                        Seq::empty()
                    }),
                    None => form.card_number@.len() == 0 && form.account_username@.len() == 0
                        && form.credit_limit@.len() == 0 && form.billing_day@.len() == 0,
                }
            },
            (Err(error), None) => error@ == missing("账户不存在"@),
            _ => false,
        },
{
    let account = match find(&book.accounts, id) {
        Some(account) => account,
        None => return Err(not_found("账户不存在")),
    };
    let (card_number, account_username, credit_limit, billing_day) = match find(
        &book.details,
        id,
    ) {
        Some(d) => (
            decrypt_string(dek, &d.card_number),
            decrypt_string(dek, &d.account_username),
            crate::decimal::fmt_cents(decrypt_cents(dek, &d.credit_limit)),
            if d.billing_day > 0 {
                int_to_text(d.billing_day as i64)
            } else {
                String::new()
            },
        ),
        None => (String::new(), String::new(), String::new(), String::new()),
    };
    Ok(
        AccountForm {
            heading: "编辑账户".to_owned(),
            action: join3("/accounts/", &int_to_text(id), "/edit"),
            name: decrypt_string(dek, &account.name),
            account_kind: account.kind.clone(),
            currency: account.currency.clone(),
            card_number,
            account_username,
            credit_limit,
            billing_day,
            note: decrypt_string(dek, &account.note),
        },
    )
}

/// The texts of the form that sets a balance by hand.
pub struct AccountBalanceForm {
    pub heading: String,
    pub account_name: String,
    pub current_balance: String,
    pub action: String,
    pub help: String,
    pub confirm_message: String,
    pub button_label: String,
}

/// The form that sets a balance by hand; for an investment account it calibrates a value.
pub fn balance_form(dek: &Dek, book: &Book, id: i64) -> (r: HandlerResult<AccountBalanceForm>)
    ensures
        match (r, balance(dek@, *book, id)) {
            (Ok(form), Ok(now)) => {
                let a = found(book.accounts@, id)->0;
                let investment = a.kind@ == "investment"@;
                &&& form.account_name@ == plain(dek@, a.name@)
                &&& form.current_balance@ == amount_text(now as int, a.currency@)
                &&& form.action@ == "/accounts/"@ + int_text(id as int) + "/balance"@
                &&& form.heading@ == (if investment {
                    "校准持仓价值"@
                } else {
                    "设置账户余额"@
                })
                &&& form.help@ == (if investment {
                    "填写本月查看到的实际持仓总价值。高于当前值会增加账面价值，低于当前值会扣减；差额记录为余额调整，不计入普通收入或支出。"@
                } else {
                    "最多保留两位小数，并会在账单中新增一条不可删除的“余额调整”流水。普通账户不允许负数；信用账户不能低于负授信额。"@
                })
                &&& form.confirm_message@ == (if investment {
                    "确认按当前持仓价值校准该投资账户？"@
                } else {
                    "确认强制设置该账户的余额？"@
                })
                &&& form.button_label@ == (if investment {
                    "确认校准"@
                } else {
                    "设置余额"@
                })
            },
            (Err(error), Err(wanted)) => error@ == wanted,
            _ => false,
        },
{
    let account = match find(&book.accounts, id) {
        Some(account) => account,
        None => return Err(not_found("账户不存在")),
    };
    let now: i64 = match current_balance(dek, book, id) {
        Ok(now) => now,
        Err(error) => return Err(error),
    };
    let investment = same(&account.kind, "investment");
    Ok(
        AccountBalanceForm {
            heading: (if investment {
                "校准持仓价值"
            } else {
                "设置账户余额"
            }).to_owned(),
            account_name: decrypt_string(dek, &account.name),
            current_balance: crate::currency::format(now, &account.currency),
            action: join3("/accounts/", &int_to_text(id), "/balance"),
            help: (if investment {
                "填写本月查看到的实际持仓总价值。高于当前值会增加账面价值，低于当前值会扣减；差额记录为余额调整，不计入普通收入或支出。"
            } else {
                "最多保留两位小数，并会在账单中新增一条不可删除的“余额调整”流水。普通账户不允许负数；信用账户不能低于负授信额。"
            }).to_owned(),
            confirm_message: (if investment {
                "确认按当前持仓价值校准该投资账户？"
            } else {
                "确认强制设置该账户的余额？"
            }).to_owned(),
            button_label: (if investment {
                "确认校准"
            } else {
                "设置余额"
            }).to_owned(),
        },
    )
}

/// A checked sum on top of a first number, where there is one, is the first number and the sum.
proof fn checked_from_is_total(start: int, s: Seq<int>)
    ensures
        checked_from(start, s) is Some ==> checked_from(start, s) == Some(start + total(s)),
    decreases s.len(),
{
    if s.len() > 0 {
        checked_from_is_total(start, s.drop_last());
    }
}

/// Sent and received apart or together, transfers add up to the same.
proof fn flows_add_up(dek: Seq<u8>, transfers: Seq<transfer::Model>, id: i64)
    requires
        forall|i: int|
            0 <= i < transfers.len() ==> (#[trigger] transfers[i]).from_account_id
                != transfers[i].to_account_id,
    ensures
        total(flow_deltas(dek, transfers, id)) == total(transfer_deltas(dek, transfers, id)),
    decreases transfers.len(),
{
    if transfers.len() > 0 {
        let front = transfers.drop_last();
        flows_add_up(dek, front, id);
        let flows = flow_deltas(dek, transfers, id);
        let n = transfers.len() as int;
        assert(transfers[n - 1].from_account_id != transfers[n - 1].to_account_id);
        assert(flows.drop_last().drop_last() =~= flow_deltas(dek, front, id));
        assert(transfer_deltas(dek, transfers, id).drop_last() =~= transfer_deltas(dek, front, id));
        assert((2 * n - 1) / 2 == n - 1 && (2 * n - 2) / 2 == n - 1);
        assert(flows.last() == flows[2 * n - 1]);
        assert(flows.drop_last().last() == flows[2 * n - 2]);
        let most = flows.drop_last();
        assert(total(flows) == total(most) + flows.last());
        assert(total(most) == total(most.drop_last()) + most.last());
        let both = transfer_deltas(dek, transfers, id);
        assert(total(both) == total(both.drop_last()) + both.last());
    }
}

/// The list of accounts and the page of an account show the same balance, as no transfer leads
/// from an account to itself.
pub proof fn list_agrees_with_page(dek: Seq<u8>, book: Book, id: i64)
    requires
        forall|i: int|
            0 <= i < book.transfers@.len() ==> (#[trigger] book.transfers@[i]).from_account_id
                != book.transfers@[i].to_account_id,
        listed_balance(dek, book, id) is Some,
        balance(dek, book, id) is Ok,
    ensures
        listed_balance(dek, book, id) == Some(balance(dek, book, id)->Ok_0 as int),
{
    let a = bill_deltas(dek, book.bills@, id);
    let b = transfer_deltas(dek, book.transfers@, id);
    let f = flow_deltas(dek, book.transfers@, id);
    let c = debt_deltas(dek, book.debts@, id);
    flows_add_up(dek, book.transfers@, id);
    crate::totals::total_concat(a, b);
    crate::totals::total_concat(a + b, c);
    crate::totals::total_concat(a, f);
    crate::totals::total_concat(a + f, c);
    checked_from_is_total(offset_of(dek, book.accounts@, id), list_deltas(dek, book, id));
    crate::totals::checked_total_is_total(deltas(dek, book, id));
}

/// The balance of an account is its offset with all that its records move: an income comes in and
/// any other bill goes out; a transfer takes its amount from the account that sends it and brings the
/// other what it gets, which is the same amount where no other is given; what is borrowed or received
/// back comes in, and what is lent or paid back goes out. Records of other accounts move nothing.
pub proof fn balance_is_what_the_records_leave(dek: &Dek, book: &Book, id: i64, b: i64)
    requires
        call_ensures(current_balance, (dek, book, id), Ok(b)),
    ensures
        ({
            let key = dek@;
            &&& found(book.accounts@, id) is Some
            &&& b == cents(key, found(book.accounts@, id)->0.balance_offset@) + total(
                book.bills@.map_values(
                    |x: bill::Model|
                        if x.account_id == id && x.kind@ == "income"@ {
                            cents(key, x.amount@)
                        } else if x.account_id == id {
                            -cents(key, x.amount@)
                        } else {
                            0
                        },
                ),
            ) + total(
                book.transfers@.map_values(
                    |t: transfer::Model|
                        if t.to_account_id == id && t.to_amount@.len() == 0 {
                            cents(key, t.amount@)
                        } else if t.to_account_id == id {
                            cents(key, t.to_amount@)
                        } else if t.from_account_id == id {
                            -cents(key, t.amount@)
                        } else {
                            0
                        },
                ),
            ) + total(
                book.debts@.map_values(
                    |d: debt_record::Model|
                        if d.account_id == id && (d.kind@ == "borrow"@ || d.kind@
                            == "repayment_received"@) {
                            cents(key, d.amount@)
                        } else if d.account_id == id {
                            -cents(key, d.amount@)
                        } else {
                            0
                        },
                ),
            )
        }),
{
    let key = dek@;
    let (x, y, z) = (
        bill_deltas(key, book.bills@, id),
        transfer_deltas(key, book.transfers@, id),
        debt_deltas(key, book.debts@, id),
    );
    crate::totals::checked_total_is_total(deltas(key, *book, id));
    crate::totals::total_concat(x, y);
    crate::totals::total_concat(x + y, z);
    assert(x =~= book.bills@.map_values(
        |x: bill::Model|
            if x.account_id == id && x.kind@ == "income"@ {
                cents(key, x.amount@)
            } else if x.account_id == id {
                -cents(key, x.amount@)
            } else {
                0
            },
    ));
    assert(y =~= book.transfers@.map_values(
        |t: transfer::Model|
            if t.to_account_id == id && t.to_amount@.len() == 0 {
                cents(key, t.amount@)
            } else if t.to_account_id == id {
                cents(key, t.to_amount@)
            } else if t.from_account_id == id {
                -cents(key, t.amount@)
            } else {
                0
            },
    ));
    assert(z =~= book.debts@.map_values(
        |d: debt_record::Model|
            if d.account_id == id && (d.kind@ == "borrow"@ || d.kind@ == "repayment_received"@) {
                cents(key, d.amount@)
            } else if d.account_id == id {
                -cents(key, d.amount@)
            } else {
                0
            },
    ));
}

/// A change of a balance is accepted only where the account may have the new balance: an ordinary
/// account is never overdrawn, a credit account not beyond its limit, and a credit service holds no
/// money; and a change that keeps to this is accepted.
pub proof fn accepted_change_keeps_limits(
    dek: &Dek,
    book: &Book,
    id: i64,
    delta: i64,
    b: i64,
    r: HandlerResult<()>,
)
    requires
        call_ensures(current_balance, (dek, book, id), Ok(b)),
        call_ensures(ensure_balance_delta, (dek, book, id, delta), r),
    ensures
        ({
            let a = found(book.accounts@, id)->0;
            let detail = found(book.details@, id);
            let limit = cents(dek@, detail->0.credit_limit@);
            let credit = a.kind@ == "credit_card"@ || a.kind@ == "credit_service"@;
            let new = b + delta;
            &&& found(book.accounts@, id) is Some
            &&& r is Ok <==> {
                &&& i64::MIN <= new <= i64::MAX
                &&& !credit ==> new >= 0
                &&& credit ==> detail is Some && new + limit >= 0 && limit > i64::MIN
                &&& a.kind@ == "credit_service"@ ==> new <= 0
            }
        }),
{
    let a = found(book.accounts@, id)->0;
    if found(book.details@, id) is Some {
        crate::crypto::cents_fit(dek@, found(book.details@, id)->0.credit_limit@);
    }
}

/// What the bills of an account come to among the first `n`, bill by bill: the incomes, or all others,
/// from one day to another.
pub open spec fn own_amounts(
    dek: Seq<u8>,
    bills: Seq<bill::Model>,
    id: i64,
    income: bool,
    from: int,
    to: int,
    n: int,
) -> Seq<int> {
    Seq::new(
        n as nat,
        |i: int|
            if bills[i].account_id == id && (bills[i].kind@ == "income"@) == income && from
                <= bills[i].happened_at.date.days <= to {
                cents(dek, bills[i].amount@)
            } else {
                0
            },
    )
}

proof fn bill_totals_are(
    dek: Seq<u8>,
    bills: Seq<bill::Model>,
    id: i64,
    first: Date,
    today: Date,
    n: int,
)
    requires
        0 <= n <= bills.len(),
        bill_totals(dek, bills, id, first, today, n) is Ok,
    ensures
        ({
            let t = bill_totals(dek, bills, id, first, today, n)->Ok_0;
            let (low, high) = (i32::MIN as int, i32::MAX as int);
            let (from, to) = (first.days as int, today.days as int);
            &&& t.income == total(own_amounts(dek, bills, id, true, low, high, n))
            &&& t.expense == total(own_amounts(dek, bills, id, false, low, high, n))
            &&& t.month_income == total(own_amounts(dek, bills, id, true, from, to, n))
            &&& t.month_expense == total(own_amounts(dek, bills, id, false, from, to, n))
        }),
    decreases n,
{
    let (low, high) = (i32::MIN as int, i32::MAX as int);
    let (from, to) = (first.days as int, today.days as int);
    if n > 0 {
        bill_totals_are(dek, bills, id, first, today, n - 1);
        assert(own_amounts(dek, bills, id, true, low, high, n).drop_last() =~= own_amounts(
            dek,
            bills,
            id,
            true,
            low,
            high,
            n - 1,
        ));
        assert(own_amounts(dek, bills, id, false, low, high, n).drop_last() =~= own_amounts(
            dek,
            bills,
            id,
            false,
            low,
            high,
            n - 1,
        ));
        assert(own_amounts(dek, bills, id, true, from, to, n).drop_last() =~= own_amounts(
            dek,
            bills,
            id,
            true,
            from,
            to,
            n - 1,
        ));
        assert(own_amounts(dek, bills, id, false, from, to, n).drop_last() =~= own_amounts(
            dek,
            bills,
            id,
            false,
            from,
            to,
            n - 1,
        ));
    }
}

/// The page of an account says what the account earned and spent, in all and from the first of this
/// month to today, in its own currency; what is left of the month is the difference, and the balance
/// is that of the account.
pub proof fn account_page_says_what_moved(
    dek: &Dek,
    book: &Book,
    plans: &Vec<installment_plan::Model>,
    id: i64,
    today: Date,
    masked_card: &str,
    shown: Page,
    page: AccountDetail,
    b: i64,
    first: Date,
    year: int,
    month: int,
    day: int,
)
    requires
        call_ensures(detail, (dek, book, plans, id, today, masked_card, shown), Ok(page)),
        call_ensures(current_balance, (dek, book, id), Ok(b)),
        crate::calendar::has_parts(today, year, month, day),
        crate::calendar::has_parts(first, year, month, 1),
    ensures
        ({
            let c = found(book.accounts@, id)->0.currency@;
            let n = book.bills@.len() as int;
            let sum = |income: bool, from: int, to: int|
                total(own_amounts(dek@, book.bills@, id, income, from, to, n));
            let (low, high) = (i32::MIN as int, i32::MAX as int);
            let (from, to) = (first.days as int, today.days as int);
            &&& page.balance@ == amount_text(b as int, c)
            &&& page.total_income@ == amount_text(sum(true, low, high), c)
            &&& page.total_expense@ == amount_text(sum(false, low, high), c)
            &&& page.month_income@ == amount_text(sum(true, from, to), c)
            &&& page.month_expense@ == amount_text(sum(false, from, to), c)
            &&& page.month_net@ == amount_text(sum(true, from, to) - sum(false, from, to), c)
        }),
{
    crate::calendar::parts_are(today, year, month, day);
    bill_totals_are(dek@, book.bills@, id, first, today, book.bills@.len() as int);
    assert(month_start_of(today) == Some(first));
}

/// Setting a balance by hand gives the account exactly the balance that the form says: with the
/// offset that is stored, and the same records, the balance is the nearest cent to the number in the
/// form. What is kept of it are the balance before and the new one.
pub proof fn forced_balance_is_what_was_asked(
    dek: &Dek,
    book: &Book,
    id: i64,
    form: &AccountBalanceFormData,
    now: DateTime,
    forced: ForcedBalance,
    after: &Book,
    old_balance: i64,
    new_balance: HandlerResult<i64>,
)
    requires
        call_ensures(force_balance, (dek, book, id, form, now), Ok(forced)),
        call_ensures(current_balance, (dek, book, id), Ok(old_balance)),
        after.bills@ == book.bills@,
        after.transfers@ == book.transfers@,
        after.debts@ == book.debts@,
        found(after.accounts@, id) matches Some(a) && a.balance_offset@ == forced.balance_offset@,
        call_ensures(current_balance, (dek, after, id), new_balance),
    ensures
        new_balance matches Ok(b) && b == balance_of_text(form.balance@)->Ok_0,
        cents(dek@, forced.adjustment.from_balance@) == old_balance,
        cents(dek@, forced.adjustment.to_balance@) == balance_of_text(form.balance@)->Ok_0,
        forced.adjustment.account_id == id,
{
    assert(deltas(dek@, *after, id) =~= deltas(dek@, *book, id));
    crate::totals::checked_total_is_total(deltas(dek@, *book, id));
}

/// The lines of an account's ledger show what their records move in its balance: with a plus what
/// comes in, with a minus what goes out.
pub proof fn lines_show_what_moves(
    dek: Seq<u8>,
    b: bill::Model,
    t: transfer::Model,
    d: debt_record::Model,
    id: i64,
    currency: Seq<char>,
    plans: Seq<installment_plan::Model>,
    accounts: Seq<account::Model>,
    people: Seq<debt_person::Model>,
)
    requires
        b.account_id == id && cents(dek, b.amount@) > 0,
        t.from_account_id == id || t.to_account_id == id,
        cents(dek, t.amount@) > 0 && received(dek, t) > 0,
        d.account_id == id && cents(dek, d.amount@) > 0,
    ensures
        ({
            let moved = bill_delta(dek, b, id);
            bill_line(dek, b, currency, plans).amount == if moved > 0 {
                "+"@ + amount_text(moved, currency)
            } else {
                "-"@ + amount_text(-moved, currency)
            }
        }),
        ({
            let moved = transfer_delta(dek, t, id);
            transfer_line(dek, t, id, currency, accounts).amount == if moved > 0 {
                "+"@ + amount_text(moved, currency)
            } else {
                "-"@ + amount_text(-moved, currency)
            }
        }),
        ({
            let moved = debt_delta(dek, d, id);
            debt_line(dek, d, currency, people).amount == if moved > 0 {
                "+"@ + amount_text(moved, currency)
            } else {
                "-"@ + amount_text(-moved, currency)
            }
        }),
{
}

} // verus!
