//! Money earned and spent, and the ledger of all accounts.
use vstd::prelude::*;
use vstd::string::*;

use crate::book::{find, found, Book};
use crate::calendar::{
    day_of_text, minute_of_text, parse_day, parse_minute, time_text, time_to_text, Date, DateTime,
};
use crate::crypto::{
    cents, decrypt_cents, decrypt_string, encrypt_cents, encrypt_string, plain, sealable, Dek,
};
use crate::currency::{amount_text, is_worth_in, table_converted, RateTable};
use crate::decimal::{cents_text, fits_i64, fmt_cents, money, parse_money};
use crate::entity::{
    account, account_detail, balance_adjustment, bill, category, debt_person, debt_record,
    installment_item, installment_plan, investment_execution, transfer,
};
use crate::error::{
    agrees, bad, bad_request, err500, internal, missing, not_found, ErrorView, HandlerResult,
};
use crate::filter::{any_finds_what_all_find, combine, combined};
use crate::handlers::accounts::{
    balance, bill_delta, bill_deltas, bill_type, bill_type_of, brings_in, change_allowed,
    credit_kind, debt_deltas, deltas, ensure_balance_delta, is_credit, plan_url, plan_url_of,
    transfer_deltas,
};
use crate::handlers::installments::{
    create_plan, input_refusal, parse_input, payments, NewPlan, PlanRows,
};
use crate::handlers::{
    debt_label, find_plan_of_bill, money_style, money_style_of, person_name, person_name_of,
    plan_of_bill, received, sign_of, sign_text, transfer_to_cents, MaskedDetail, Page,
};
use crate::order::{arrange, arranged, ints, page_of, take_page};
use crate::text::{
    bounded, contains, has_part, int_text, int_to_text, join2, join3, join5, lower_text, lowercase,
    parse_i64, same, signed_value, trimmed, trimmed_bytes,
};
use crate::totals::{checked_total, checked_total_stops, negated, total};

verus! {

/// The name of a kind of debt record.
pub fn debt_kind_label(kind: &str) -> (r: &'static str)
    ensures
        r@ == debt_label(kind@),
{
    if same(kind, "lend") {
        "借出"
    } else if same(kind, "borrow") {
        "借入"
    } else if same(kind, "repayment_received") {
        "收回还款"
    } else if same(kind, "repayment_paid") {
        "归还借款"
    } else {
        "借还"
    }
}

/// The name under which an account is shown: with its card number or its user name, most of
/// their characters hidden, and its currency.
pub open spec fn display_name(
    dek: Seq<u8>,
    account: account::Model,
    detail: Option<account_detail::Model>,
    mask: Option<MaskedDetail>,
) -> Seq<char> {
    let name = plain(dek, account.name@);
    let card = if mask is Some {
        mask->0.card_number@
    } else {
        Seq::empty()
    };
    let username = if mask is Some {
        mask->0.account_username@
    } else {
        Seq::empty()
    };
    if detail is Some && plain(dek, detail->0.card_number@).len() > 0 {
        name + " · 卡号 "@ + card + " · "@ + account.currency@
    } else if detail is Some && plain(dek, detail->0.account_username@).len() > 0 {
        name + " · 用户名 "@ + username + " · "@ + account.currency@
    } else {
        name + " · "@ + account.currency@
    }
}

/// An optional row behind a reference.
pub open spec fn row_of<T>(row: Option<&T>) -> Option<T> {
    match row {
        Some(r) => Some(*r),
        None => None,
    }
}

/// The name under which an account is shown. The card number and the user name with most of
/// their characters hidden are given.
pub fn account_display_name(
    dek: &Dek,
    account: &account::Model,
    detail: Option<&account_detail::Model>,
    mask: Option<&MaskedDetail>,
) -> (r: String)
    ensures
        r@ == display_name(dek@, *account, row_of(detail), row_of(mask)),
{
    let name = decrypt_string(dek, &account.name);
    let (card, username) = match mask {
        Some(mask) => (mask.card_number.clone(), mask.account_username.clone()),
        None => (String::new(), String::new()),
    };
    if let Some(detail) = detail {
        if !decrypt_string(dek, &detail.card_number).as_str().is_empty() {
            return join5(&name, " · 卡号 ", &card, " · ", &account.currency);
        }
        if !decrypt_string(dek, &detail.account_username).as_str().is_empty() {
            return join5(&name, " · 用户名 ", &username, " · ", &account.currency);
        }
    }
    join3(&name, " · ", &account.currency)
}

/// One line of the ledger.
pub struct LedgerRow {
    pub happened_at: String,
    pub record_type: String,
    pub account_name: String,
    pub subject: String,
    pub note: String,
    pub amount: String,
    pub money_class: String,
    pub edit_url: String,
    pub detail_url: String,
    pub delete_action: String,
    pub delete_confirm: String,
    pub sort_key: DateTime,
    pub bill_kind: String,
    pub amount_cents: i64,
    pub is_expense: bool,
}

/// One line of the ledger, as values.
pub struct LedgerView {
    pub happened_at: Seq<char>,
    pub record_type: Seq<char>,
    pub account_name: Seq<char>,
    pub subject: Seq<char>,
    pub note: Seq<char>,
    pub amount: Seq<char>,
    pub money_class: Seq<char>,
    pub edit_url: Seq<char>,
    pub detail_url: Seq<char>,
    pub delete_action: Seq<char>,
    pub delete_confirm: Seq<char>,
    pub sort_key: DateTime,
    pub bill_kind: Seq<char>,
    pub amount_cents: i64,
    pub is_expense: bool,
}

impl View for LedgerRow {
    type V = LedgerView;

    open spec fn view(&self) -> LedgerView {
        LedgerView {
            happened_at: self.happened_at@,
            record_type: self.record_type@,
            account_name: self.account_name@,
            subject: self.subject@,
            note: self.note@,
            amount: self.amount@,
            money_class: self.money_class@,
            edit_url: self.edit_url@,
            detail_url: self.detail_url@,
            delete_action: self.delete_action@,
            delete_confirm: self.delete_confirm@,
            sort_key: self.sort_key,
            bill_kind: self.bill_kind@,
            amount_cents: self.amount_cents,
            is_expense: self.is_expense,
        }
    }
}

/// The lines of a list of rows.
pub open spec fn row_views(rows: Seq<LedgerRow>) -> Seq<LedgerView> {
    Seq::new(rows.len(), |i: int| rows[i]@)
}

/// What the ledger is made of.
pub struct LedgerSource {
    pub dek: Seq<u8>,
    pub book: Book,
    pub masks: Seq<MaskedDetail>,
    pub plans: Seq<installment_plan::Model>,
    pub rates: RateTable,
    pub default_currency: Seq<char>,
}

/// The name of an account in the ledger.
pub open spec fn shown_account(
    dek: Seq<u8>,
    book: Book,
    masks: Seq<MaskedDetail>,
    id: i64,
) -> Seq<char> {
    match found(book.accounts@, id) {
        Some(a) => display_name(dek, a, found(book.details@, a.id), found(masks, a.id)),
        None => "已删除账户"@,
    }
}

pub fn shown_account_of(dek: &Dek, book: &Book, masks: &Vec<MaskedDetail>, id: i64) -> (r: String)
    ensures
        r@ == shown_account(dek@, *book, masks@, id),
{
    match find(&book.accounts, id) {
        Some(a) => account_display_name(dek, a, find(&book.details, a.id), find(masks, a.id)),
        None => "已删除账户".to_owned(),
    }
}

/// The currency of an account, or the default one where the account is gone.
pub open spec fn currency_of(
    accounts: Seq<account::Model>,
    id: i64,
    default_currency: Seq<char>,
) -> Seq<char> {
    match found(accounts, id) {
        Some(a) => a.currency@,
        None => default_currency,
    }
}

pub fn find_currency(accounts: &Vec<account::Model>, id: i64, default_currency: &str) -> (r: String)
    ensures
        r@ == currency_of(accounts@, id, default_currency@),
{
    match find(accounts, id) {
        Some(a) => a.currency.clone(),
        None => default_currency.to_owned(),
    }
}

/// An amount in the default currency, or the refusal.
pub open spec fn in_default(rates: RateTable, amount: int, currency: Seq<char>) -> Result<
    i64,
    ErrorView,
> {
    match table_converted(rates, amount, currency) {
        Ok(n) => Ok(n),
        Err(message) => Err(internal(message)),
    }
}

pub fn to_default(rates: &RateTable, amount: i64, currency: &str) -> (r: HandlerResult<i64>)
    requires
        rates.wf(),
    ensures
        agrees(r, in_default(*rates, amount as int, currency@)),
        r matches Ok(n) ==> is_worth_in(n as int, *rates, amount as int, currency@),
{
    match rates.convert(amount, currency) {
        Ok(n) => Ok(n),
        Err(message) => Err(err500(&message)),
    }
}

/// A stored amount on an account is worth so much in the currency of a table: the nearest cent to it
/// at the rate of the currency of the account, or of the default one where the account is gone.
pub open spec fn converts(
    worth: int,
    dek: Seq<u8>,
    rates: RateTable,
    accounts: Seq<account::Model>,
    default_currency: Seq<char>,
    amount: Seq<char>,
    account_id: i64,
) -> bool {
    match found(accounts, account_id) {
        Some(a) => is_worth_in(worth, rates, cents(dek, amount), a.currency@),
        None => is_worth_in(worth, rates, cents(dek, amount), default_currency),
    }
}

/// The line of a bill.
#[verifier::opaque]
pub open spec fn bill_entry(s: LedgerSource, b: bill::Model) -> Result<LedgerView, ErrorView> {
    let incoming = b.kind@ == "income"@;
    let amount = cents(s.dek, b.amount@);
    let c = currency_of(s.book.accounts@, b.account_id, s.default_currency);
    let plan = plan_of_bill(s.plans, b.id);
    match in_default(s.rates, amount, c) {
        Err(e) => Err(e),
        Ok(converted) => Ok(
            LedgerView {
                happened_at: time_text(b.happened_at),
                record_type: bill_type(incoming, plan),
                account_name: shown_account(s.dek, s.book, s.masks, b.account_id),
                subject: plain(s.dek, b.category@),
                note: plain(s.dek, b.note@),
                amount: sign_text(incoming) + amount_text(amount, c),
                money_class: money_style(incoming),
                edit_url: if plan is Some {
                    Seq::empty()
                } else {
                    "/bills/"@ + int_text(b.id as int) + "/edit"@
                },
                detail_url: plan_url(plan),
                delete_action: "/bills/"@ + int_text(b.id as int) + "/delete"@,
                delete_confirm: "确认删除这条账单？"@,
                sort_key: b.happened_at,
                bill_kind: b.kind@,
                amount_cents: converted,
                is_expense: !incoming,
            },
        ),
    }
}

/// The line of a transfer.
#[verifier::opaque]
pub open spec fn transfer_entry(s: LedgerSource, t: transfer::Model) -> Result<
    LedgerView,
    ErrorView,
> {
    let amount = cents(s.dek, t.amount@);
    let from = currency_of(s.book.accounts@, t.from_account_id, s.default_currency);
    let to = currency_of(s.book.accounts@, t.to_account_id, s.default_currency);
    match in_default(s.rates, amount, from) {
        Err(e) => Err(e),
        Ok(converted) => Ok(
            LedgerView {
                happened_at: time_text(t.happened_at),
                record_type: "转账"@,
                account_name: shown_account(s.dek, s.book, s.masks, t.from_account_id) + " → "@
                    + shown_account(s.dek, s.book, s.masks, t.to_account_id),
                subject: "账户间"@,
                note: plain(s.dek, t.note@),
                amount: if from == to {
                    amount_text(amount, from)
                } else {
                    amount_text(amount, from) + " → "@ + amount_text(received(s.dek, t), to)
                },
                money_class: "text-blue-600"@,
                edit_url: Seq::empty(),
                detail_url: Seq::empty(),
                delete_action: "/transfers/"@ + int_text(t.id as int) + "/delete"@,
                delete_confirm: "确认删除这条转账？"@,
                sort_key: t.happened_at,
                bill_kind: Seq::empty(),
                amount_cents: converted,
                is_expense: false,
            },
        ),
    }
}

/// The line of a debt record.
#[verifier::opaque]
pub open spec fn debt_entry(s: LedgerSource, d: debt_record::Model) -> Result<
    LedgerView,
    ErrorView,
> {
    let incoming = brings_in(d.kind@);
    let amount = cents(s.dek, d.amount@);
    let c = currency_of(s.book.accounts@, d.account_id, s.default_currency);
    match in_default(s.rates, amount, c) {
        Err(e) => Err(e),
        Ok(converted) => Ok(
            LedgerView {
                happened_at: time_text(d.happened_at),
                record_type: debt_label(d.kind@),
                account_name: shown_account(s.dek, s.book, s.masks, d.account_id),
                subject: person_name(s.dek, s.book.people@, d.person_id),
                note: plain(s.dek, d.note@),
                amount: sign_text(incoming) + amount_text(amount, c),
                money_class: money_style(incoming),
                edit_url: Seq::empty(),
                detail_url: Seq::empty(),
                delete_action: "/debts/"@ + int_text(d.id as int) + "/delete"@,
                delete_confirm: "确认删除这条借还记录？"@,
                sort_key: d.happened_at,
                bill_kind: Seq::empty(),
                amount_cents: converted,
                is_expense: false,
            },
        ),
    }
}

/// The line of a balance set by hand. It cannot be deleted.
#[verifier::opaque]
pub open spec fn adjustment_entry(s: LedgerSource, a: balance_adjustment::Model) -> LedgerView {
    let c = currency_of(s.book.accounts@, a.account_id, s.default_currency);
    let from = amount_text(cents(s.dek, a.from_balance@), c);
    let to = amount_text(cents(s.dek, a.to_balance@), c);
    LedgerView {
        happened_at: time_text(a.happened_at),
        record_type: "余额调整"@,
        account_name: shown_account(s.dek, s.book, s.masks, a.account_id),
        subject: "强制设置余额"@,
        note: from + " → "@ + to,
        amount: to,
        money_class: "text-amber-700"@,
        edit_url: Seq::empty(),
        detail_url: Seq::empty(),
        delete_action: Seq::empty(),
        delete_confirm: Seq::empty(),
        sort_key: a.happened_at,
        bill_kind: Seq::empty(),
        amount_cents: 0,
        is_expense: false,
    }
}

/// The number of all records.
pub open spec fn record_count(book: Book) -> int {
    (book.bills@.len() + book.transfers@.len() + book.debts@.len() + book.adjustments@.len()) as int
}

/// The line of a record, the records counted through: bills, transfers, debt records and
/// balances set by hand.
pub open spec fn entry(s: LedgerSource, k: int) -> Result<LedgerView, ErrorView> {
    let first = s.book.bills@.len() as int;
    let second = first + s.book.transfers@.len();
    let third = second + s.book.debts@.len();
    if k < first {
        bill_entry(s, s.book.bills@[k])
    } else if k < second {
        transfer_entry(s, s.book.transfers@[k - first])
    } else if k < third {
        debt_entry(s, s.book.debts@[k - second])
    } else {
        Ok(adjustment_entry(s, s.book.adjustments@[k - third]))
    }
}

/// The lines of the first `n` records, or the refusal of the first that has none.
pub open spec fn entries(s: LedgerSource, n: int) -> Result<Seq<LedgerView>, ErrorView>
    decreases n,
{
    if n <= 0 {
        Ok(Seq::empty())
    } else {
        match entries(s, n - 1) {
            Err(e) => Err(e),
            Ok(rows) => match entry(s, n - 1) {
                Err(e) => Err(e),
                Ok(row) => Ok(rows.push(row)),
            },
        }
    }
}

/// The times of lines, as numbers.
pub open spec fn row_keys(rows: Seq<LedgerView>) -> Seq<int> {
    Seq::new(rows.len(), |i: int| rows[i].sort_key.key())
}

/// The ledger of all accounts, the latest line first.
pub open spec fn ledger(s: LedgerSource) -> Result<Seq<LedgerView>, ErrorView> {
    match entries(s, record_count(s.book)) {
        Err(e) => Err(e),
        Ok(rows) => Ok(arranged(rows, row_keys(rows))),
    }
}

proof fn entries_stop(s: LedgerSource, m: int, n: int)
    requires
        0 <= m <= n,
        entries(s, m) is Err,
    ensures
        entries(s, n) == entries(s, m),
    decreases n,
{
    if m < n {
        entries_stop(s, m, n - 1);
    }
}

/// The rows and keys built so far are these lines.
#[verifier::opaque]
spec fn built(rows: Seq<LedgerRow>, keys: Seq<i128>, lines: Result<Seq<LedgerView>, ErrorView>) -> bool {
    &&& rows.len() == keys.len()
    &&& lines == Ok::<Seq<LedgerView>, ErrorView>(row_views(rows))
    &&& ints(keys) == row_keys(row_views(rows))
}

/// Adds the row of the next record.
fn push_row(
    rows: &mut Vec<LedgerRow>,
    keys: &mut Vec<i128>,
    row: LedgerRow,
    Ghost(s): Ghost<LedgerSource>,
    Ghost(n): Ghost<int>,
)
    requires
        n >= 0,
        built(old(rows)@, old(keys)@, entries(s, n)),
        entry(s, n) == Ok::<LedgerView, ErrorView>(row@),
    ensures
        built(final(rows)@, final(keys)@, entries(s, n + 1)),
        entries(s, n + 1) is Ok,
{
    let key: i128 = row.sort_key.sort_key();
    let ghost before = rows@;
    let ghost before_keys = keys@;
    let ghost line = row@;
    rows.push(row);
    keys.push(key);
    proof {
        reveal(built);
        assert(row_views(rows@) =~= row_views(before).push(line));
        assert(ints(keys@) =~= row_keys(row_views(rows@))) by {
            assert forall|i: int| 0 <= i < before.len() implies ints(keys@)[i] == row_keys(
                row_views(rows@),
            )[i] by {
                assert(ints(before_keys)[i] == row_keys(row_views(before))[i]);
            }
        }
    }
}

fn bill_ledger_row(
    dek: &Dek,
    book: &Book,
    masks: &Vec<MaskedDetail>,
    plans: &Vec<installment_plan::Model>,
    rates: &RateTable,
    default_currency: &str,
    b: &bill::Model,
) -> (r: HandlerResult<LedgerRow>)
    requires
        rates.wf(),
    ensures
        match (
            r,
            bill_entry(
                LedgerSource {
                    dek: dek@,
                    book: *book,
                    masks: masks@,
                    plans: plans@,
                    rates: *rates,
                    default_currency: default_currency@,
                },
                *b,
            ),
        ) {
            (Ok(row), Ok(view)) => row@ == view,
            (Err(error), Err(wanted)) => error@ == wanted,
            _ => false,
        },
{
    proof {
        reveal(bill_entry);
    }
    let incoming = same(&b.kind, "income");
    let amount: i64 = decrypt_cents(dek, &b.amount);
    let c = find_currency(&book.accounts, b.account_id, default_currency);
    let plan = find_plan_of_bill(plans, b.id);
    let converted: i64 = match to_default(rates, amount, &c) {
        Ok(n) => n,
        Err(error) => return Err(error),
    };
    let id = int_to_text(b.id);
    Ok(
        LedgerRow {
            happened_at: time_to_text(b.happened_at),
            record_type: bill_type_of(incoming, plan).to_owned(),
            account_name: shown_account_of(dek, book, masks, b.account_id),
            subject: decrypt_string(dek, &b.category),
            note: decrypt_string(dek, &b.note),
            amount: join2(sign_of(incoming), &crate::currency::format(amount, &c)),
            money_class: money_style_of(incoming).to_owned(),
            edit_url: if plan.is_some() {
                String::new()
            } else {
                join3("/bills/", &id, "/edit")
            },
            detail_url: plan_url_of(plan),
            delete_action: join3("/bills/", &id, "/delete"),
            delete_confirm: "确认删除这条账单？".to_owned(),
            sort_key: b.happened_at,
            bill_kind: b.kind.clone(),
            amount_cents: converted,
            is_expense: !incoming,
        },
    )
}

fn transfer_ledger_row(
    dek: &Dek,
    book: &Book,
    masks: &Vec<MaskedDetail>,
    rates: &RateTable,
    default_currency: &str,
    t: &transfer::Model,
    Ghost(plans): Ghost<Seq<installment_plan::Model>>,
) -> (r: HandlerResult<LedgerRow>)
    requires
        rates.wf(),
    ensures
        match (
            r,
            transfer_entry(
                LedgerSource {
                    dek: dek@,
                    book: *book,
                    masks: masks@,
                    plans,
                    rates: *rates,
                    default_currency: default_currency@,
                },
                *t,
            ),
        ) {
            (Ok(row), Ok(view)) => row@ == view,
            (Err(error), Err(wanted)) => error@ == wanted,
            _ => false,
        },
{
    proof {
        reveal(transfer_entry);
    }
    let amount: i64 = decrypt_cents(dek, &t.amount);
    let to_amount: i64 = transfer_to_cents(dek, t);
    let from = find_currency(&book.accounts, t.from_account_id, default_currency);
    let to = find_currency(&book.accounts, t.to_account_id, default_currency);
    let converted: i64 = match to_default(rates, amount, &from) {
        Ok(n) => n,
        Err(error) => return Err(error),
    };
    let sent = crate::currency::format(amount, &from);
    let shown = if same(&from, &to) {
        sent
    } else {
        join3(&sent, " → ", &crate::currency::format(to_amount, &to))
    };
    Ok(
        LedgerRow {
            happened_at: time_to_text(t.happened_at),
            record_type: "转账".to_owned(),
            account_name: join3(
                &shown_account_of(dek, book, masks, t.from_account_id),
                " → ",
                &shown_account_of(dek, book, masks, t.to_account_id),
            ),
            subject: "账户间".to_owned(),
            note: decrypt_string(dek, &t.note),
            amount: shown,
            money_class: "text-blue-600".to_owned(),
            edit_url: String::new(),
            detail_url: String::new(),
            delete_action: join3("/transfers/", &int_to_text(t.id), "/delete"),
            delete_confirm: "确认删除这条转账？".to_owned(),
            sort_key: t.happened_at,
            bill_kind: String::new(),
            amount_cents: converted,
            is_expense: false,
        },
    )
}

fn debt_ledger_row(
    dek: &Dek,
    book: &Book,
    masks: &Vec<MaskedDetail>,
    rates: &RateTable,
    default_currency: &str,
    d: &debt_record::Model,
    Ghost(plans): Ghost<Seq<installment_plan::Model>>,
) -> (r: HandlerResult<LedgerRow>)
    requires
        rates.wf(),
    ensures
        match (
            r,
            debt_entry(
                LedgerSource {
                    dek: dek@,
                    book: *book,
                    masks: masks@,
                    plans,
                    rates: *rates,
                    default_currency: default_currency@,
                },
                *d,
            ),
        ) {
            (Ok(row), Ok(view)) => row@ == view,
            (Err(error), Err(wanted)) => error@ == wanted,
            _ => false,
        },
{
    proof {
        reveal(debt_entry);
    }
    let incoming = same(&d.kind, "borrow") || same(&d.kind, "repayment_received");
    let amount: i64 = decrypt_cents(dek, &d.amount);
    let c = find_currency(&book.accounts, d.account_id, default_currency);
    let converted: i64 = match to_default(rates, amount, &c) {
        Ok(n) => n,
        Err(error) => return Err(error),
    };
    Ok(
        LedgerRow {
            happened_at: time_to_text(d.happened_at),
            record_type: debt_kind_label(&d.kind).to_owned(),
            account_name: shown_account_of(dek, book, masks, d.account_id),
            subject: person_name_of(dek, &book.people, d.person_id),
            note: decrypt_string(dek, &d.note),
            amount: join2(sign_of(incoming), &crate::currency::format(amount, &c)),
            money_class: money_style_of(incoming).to_owned(),
            edit_url: String::new(),
            detail_url: String::new(),
            delete_action: join3("/debts/", &int_to_text(d.id), "/delete"),
            delete_confirm: "确认删除这条借还记录？".to_owned(),
            sort_key: d.happened_at,
            bill_kind: String::new(),
            amount_cents: converted,
            is_expense: false,
        },
    )
}

fn adjustment_ledger_row(
    dek: &Dek,
    book: &Book,
    masks: &Vec<MaskedDetail>,
    default_currency: &str,
    a: &balance_adjustment::Model,
    Ghost(s): Ghost<LedgerSource>,
) -> (r: LedgerRow)
    requires
        s.dek == dek@,
        s.book == *book,
        s.masks == masks@,
        s.default_currency == default_currency@,
    ensures
        r@ == adjustment_entry(s, *a),
{
    proof {
        reveal(adjustment_entry);
    }
    let c = find_currency(&book.accounts, a.account_id, default_currency);
    let from = crate::currency::format(decrypt_cents(dek, &a.from_balance), &c);
    let to = crate::currency::format(decrypt_cents(dek, &a.to_balance), &c);
    LedgerRow {
        happened_at: time_to_text(a.happened_at),
        record_type: "余额调整".to_owned(),
        account_name: shown_account_of(dek, book, masks, a.account_id),
        subject: "强制设置余额".to_owned(),
        note: join3(&from, " → ", &to),
        amount: to,
        money_class: "text-amber-700".to_owned(),
        edit_url: String::new(),
        detail_url: String::new(),
        delete_action: String::new(),
        delete_confirm: String::new(),
        sort_key: a.happened_at,
        bill_kind: String::new(),
        amount_cents: 0,
        is_expense: false,
    }
}

/// The ledger of all accounts, the latest line first: bills, transfers, debt records and balances
/// set by hand.
pub fn ledger_rows(
    dek: &Dek,
    book: &Book,
    masks: &Vec<MaskedDetail>,
    plans: &Vec<installment_plan::Model>,
    rates: &RateTable,
    default_currency: &str,
) -> (r: HandlerResult<Vec<LedgerRow>>)
    requires
        rates.wf(),
    ensures
        match (
            r,
            ledger(
                LedgerSource {
                    dek: dek@,
                    book: *book,
                    masks: masks@,
                    plans: plans@,
                    rates: *rates,
                    default_currency: default_currency@,
                },
            ),
        ) {
            (Ok(rows), Ok(views)) => row_views(rows@) == views,
            (Err(error), Err(wanted)) => error@ == wanted,
            _ => false,
        },
{
    let ghost s = LedgerSource {
        dek: dek@,
        book: *book,
        masks: masks@,
        plans: plans@,
        rates: *rates,
        default_currency: default_currency@,
    };
    let ghost first = book.bills@.len() as int;
    let ghost second = first + book.transfers@.len();
    let ghost third = second + book.debts@.len();
    let mut rows: Vec<LedgerRow> = Vec::new();
    let mut keys: Vec<i128> = Vec::new();
    proof {
        reveal(built);
        assert(row_views(rows@) =~= Seq::empty());
        assert(ints(keys@) =~= row_keys(row_views(rows@)));
    }
    let mut i: usize = 0;
    while i < book.bills.len()
        invariant
            i <= book.bills.len(),
            rates.wf(),
            s == (LedgerSource {
                dek: dek@,
                book: *book,
                masks: masks@,
                plans: plans@,
                rates: *rates,
                default_currency: default_currency@,
            }),
            built(rows@, keys@, entries(s, i as int)),
            entries(s, i as int) is Ok,
        decreases book.bills.len() - i,
    {
        let b = &book.bills[i];
        match bill_ledger_row(dek, book, masks, plans, rates, default_currency, b) {
            Err(error) => {
                proof {
                    entries_stop(s, i + 1, record_count(*book));
                }
                return Err(error);
            },
            Ok(row) => {
                push_row(&mut rows, &mut keys, row, Ghost(s), Ghost(i as int));
            },
        }
        i = i + 1;
    }
    i = 0;
    while i < book.transfers.len()
        invariant
            i <= book.transfers.len(),
            rates.wf(),
            first == book.bills@.len(),
            s == (LedgerSource {
                dek: dek@,
                book: *book,
                masks: masks@,
                plans: plans@,
                rates: *rates,
                default_currency: default_currency@,
            }),
            built(rows@, keys@, entries(s, first + i)),
            entries(s, first + i) is Ok,
        decreases book.transfers.len() - i,
    {
        let t = &book.transfers[i];
        match transfer_ledger_row(dek, book, masks, rates, default_currency, t, Ghost(plans@)) {
            Err(error) => {
                proof {
                    entries_stop(s, first + i + 1, record_count(*book));
                }
                return Err(error);
            },
            Ok(row) => {
                push_row(&mut rows, &mut keys, row, Ghost(s), Ghost(first + i));
            },
        }
        i = i + 1;
    }
    i = 0;
    while i < book.debts.len()
        invariant
            i <= book.debts.len(),
            rates.wf(),
            second == book.bills@.len() + book.transfers@.len(),
            s == (LedgerSource {
                dek: dek@,
                book: *book,
                masks: masks@,
                plans: plans@,
                rates: *rates,
                default_currency: default_currency@,
            }),
            built(rows@, keys@, entries(s, second + i)),
            entries(s, second + i) is Ok,
        decreases book.debts.len() - i,
    {
        let d = &book.debts[i];
        match debt_ledger_row(dek, book, masks, rates, default_currency, d, Ghost(plans@)) {
            Err(error) => {
                proof {
                    entries_stop(s, second + i + 1, record_count(*book));
                }
                return Err(error);
            },
            Ok(row) => {
                push_row(&mut rows, &mut keys, row, Ghost(s), Ghost(second + i));
            },
        }
        i = i + 1;
    }
    i = 0;
    while i < book.adjustments.len()
        invariant
            i <= book.adjustments.len(),
            third == book.bills@.len() + book.transfers@.len() + book.debts@.len(),
            s == (LedgerSource {
                dek: dek@,
                book: *book,
                masks: masks@,
                plans: plans@,
                rates: *rates,
                default_currency: default_currency@,
            }),
            built(rows@, keys@, entries(s, third + i)),
            entries(s, third + i) is Ok,
        decreases book.adjustments.len() - i,
    {
        let a = &book.adjustments[i];
        let row = adjustment_ledger_row(dek, book, masks, default_currency, a, Ghost(s));
        push_row(&mut rows, &mut keys, row, Ghost(s), Ghost(third + i));
        i = i + 1;
    }
    let ghost unsorted = rows@;
    proof {
        reveal(built);
    }
    let sorted = arrange(rows, &keys);
    proof {
        crate::order::descending_exists(ints(keys@));
        assert(row_views(sorted@) =~= arranged(row_views(unsorted), ints(keys@)));
    }
    Ok(sorted)
}

/// The form of a bill.
pub struct BillFormData {
    pub account_id: String,
    pub kind: String,
    pub amount: String,
    pub category: String,
    pub note: String,
    pub happened_at: String,
    pub use_installment: bool,
    pub installment_term: String,
    pub installment_method: String,
    pub installment_annual_rate: String,
    pub installment_fee: String,
    pub installment_first_due_date: String,
    pub redirect_to: Option<String>,
}

/// Where to go when a bill is deleted.
pub struct DeleteFormData {
    pub redirect_to: Option<String>,
}

/// What is looked for in the ledger.
pub struct BillsQuery {
    pub page: usize,
    pub per_page: usize,
    pub mode: String,
    pub start_date: String,
    pub end_date: String,
    pub flow_kind: String,
    pub category: String,
    pub min_income: String,
    pub max_income: String,
    pub min_expense: String,
    pub max_expense: String,
    pub keyword: String,
}

/// What a query looks for, as values.
pub struct QueryView {
    pub page: usize,
    pub per_page: usize,
    pub mode: Seq<char>,
    pub start_date: Seq<char>,
    pub end_date: Seq<char>,
    pub flow_kind: Seq<char>,
    pub category: Seq<char>,
    pub min_income: Seq<char>,
    pub max_income: Seq<char>,
    pub min_expense: Seq<char>,
    pub max_expense: Seq<char>,
    pub keyword: Seq<char>,
}

impl View for BillsQuery {
    type V = QueryView;

    open spec fn view(&self) -> QueryView {
        QueryView {
            page: self.page,
            per_page: self.per_page,
            mode: self.mode@,
            start_date: self.start_date@,
            end_date: self.end_date@,
            flow_kind: self.flow_kind@,
            category: self.category@,
            min_income: self.min_income@,
            max_income: self.max_income@,
            min_expense: self.min_expense@,
            max_expense: self.max_expense@,
            keyword: self.keyword@,
        }
    }
}

/// Where to go back to: only the dashboard can be asked for.
pub open spec fn redirect_target(redirect_to: Option<Seq<char>>) -> Seq<char> {
    if redirect_to == Some("/dashboard"@) {
        "/dashboard"@
    } else {
        "/bills"@
    }
}

/// An optional text as its characters.
pub open spec fn text_view(text: Option<String>) -> Option<Seq<char>> {
    match text {
        Some(t) => Some(t@),
        None => None,
    }
}

pub fn ledger_redirect(redirect_to: &Option<String>) -> (r: &'static str)
    ensures
        r@ == redirect_target(text_view(*redirect_to)),
{
    match redirect_to {
        Some(target) => if same(target, "/dashboard") {
            "/dashboard"
        } else {
            "/bills"
        },
        None => "/bills",
    }
}

/// The day of a search field; none where the field is empty.
pub open spec fn search_date(value: Seq<char>, label: Seq<char>) -> Result<
    Option<Date>,
    ErrorView,
> {
    if trimmed(value).len() == 0 {
        Ok(None)
    } else {
        match day_of_text(value) {
            Some(date) => Ok(Some(date)),
            None => Err(bad(label + "格式不正确"@)),
        }
    }
}

pub fn parse_search_date(value: &str, label: &str) -> (r: HandlerResult<Option<Date>>)
    ensures
        agrees(r, search_date(value@, label@)),
{
    if value.trim().is_empty() {
        return Ok(None);
    }
    match parse_day(value) {
        Some(date) => Ok(Some(date)),
        None => Err(bad_request(&join2(label, "格式不正确"))),
    }
}

/// The amount of a search field; none where the field is empty.
pub open spec fn search_amount(value: Seq<char>, label: Seq<char>) -> Result<
    Option<i64>,
    ErrorView,
> {
    if trimmed(value).len() == 0 {
        Ok(None)
    } else {
        match money(
            value,
            0,
            label + "格式不正确"@,
            label + "不能小于 0"@,
            label + "超出范围"@,
        ) {
            Ok(n) => Ok(Some(n)),
            Err(e) => Err(e),
        }
    }
}

pub fn parse_search_amount(value: &str, label: &str) -> (r: HandlerResult<Option<i64>>)
    ensures
        agrees(r, search_amount(value@, label@)),
{
    if value.trim().is_empty() {
        return Ok(None);
    }
    match parse_money(
        value,
        0,
        &join2(label, "格式不正确"),
        &join2(label, "不能小于 0"),
        &join2(label, "超出范围"),
    ) {
        Ok(n) => Ok(Some(n)),
        Err(error) => Err(error),
    }
}

/// Which lines of the ledger are looked for.
pub struct LedgerFilter {
    pub mode_or: bool,
    pub start_date: Option<Date>,
    pub end_date: Option<Date>,
    pub flow_kind: String,
    pub category: String,
    pub min_income: Option<i64>,
    pub max_income: Option<i64>,
    pub min_expense: Option<i64>,
    pub max_expense: Option<i64>,
    pub keyword: String,
}

/// Which lines of the ledger are looked for, as values.
pub struct FilterView {
    pub mode_or: bool,
    pub start_date: Option<Date>,
    pub end_date: Option<Date>,
    pub flow_kind: Seq<char>,
    pub category: Seq<char>,
    pub min_income: Option<i64>,
    pub max_income: Option<i64>,
    pub min_expense: Option<i64>,
    pub max_expense: Option<i64>,
    pub keyword: Seq<char>,
}

impl View for LedgerFilter {
    type V = FilterView;

    open spec fn view(&self) -> FilterView {
        FilterView {
            mode_or: self.mode_or,
            start_date: self.start_date,
            end_date: self.end_date,
            flow_kind: self.flow_kind@,
            category: self.category@,
            min_income: self.min_income,
            max_income: self.max_income,
            min_expense: self.min_expense,
            max_expense: self.max_expense,
            keyword: self.keyword@,
        }
    }
}

/// Both bounds are given and the first is above the second.
pub open spec fn crossed(low: Option<i64>, high: Option<i64>) -> bool {
    low is Some && high is Some && low->0 > high->0
}

/// Both days are given and the first is after the second.
pub open spec fn crossed_days(start: Option<Date>, end: Option<Date>) -> bool {
    start is Some && end is Some && start->0.days > end->0.days
}

/// The filter that a query asks for, or the refusal.
pub open spec fn filter_of(q: QueryView) -> Result<FilterView, ErrorView> {
    match search_date(q.start_date, "开始日期"@) {
        Err(e) => Err(e),
        Ok(start_date) => match search_date(q.end_date, "结束日期"@) {
            Err(e) => Err(e),
            Ok(end_date) => if crossed_days(start_date, end_date) {
                Err(bad("开始日期不能晚于结束日期"@))
            } else {
                match search_amount(q.min_income, "最低收入"@) {
                    Err(e) => Err(e),
                    Ok(min_income) => match search_amount(q.max_income, "最高收入"@) {
                        Err(e) => Err(e),
                        Ok(max_income) => if crossed(min_income, max_income) {
                            Err(bad("最低收入不能大于最高收入"@))
                        } else {
                            match search_amount(q.min_expense, "最低支出"@) {
                                Err(e) => Err(e),
                                Ok(min_expense) => match search_amount(
                                    q.max_expense,
                                    "最高支出"@,
                                ) {
                                    Err(e) => Err(e),
                                    Ok(max_expense) => if crossed(min_expense, max_expense) {
                                        Err(bad("最低支出不能大于最高支出"@))
                                    } else {
                                        Ok(
                                            FilterView {
                                                mode_or: q.mode == "or"@,
                                                start_date,
                                                end_date,
                                                flow_kind: if q.flow_kind == "income"@
                                                    || q.flow_kind == "expense"@ {
                                                    q.flow_kind
                                                } else {
                                                    Seq::empty()
                                                },
                                                category: trimmed(q.category),
                                                min_income,
                                                max_income,
                                                min_expense,
                                                max_expense,
                                                keyword: lower_text(trimmed(q.keyword)),
                                            },
                                        )
                                    },
                                },
                            }
                        },
                    },
                }
            },
        },
    }
}

/// A bound is met; a bound that is not given always is.
pub open spec fn between(n: int, low: Option<i64>, high: Option<i64>) -> bool {
    (low is Some ==> n >= low->0) && (high is Some ==> n <= high->0)
}

/// A day lies between two others; one that is not given bounds nothing.
pub open spec fn between_days(date: Date, start: Option<Date>, end: Option<Date>) -> bool {
    (start is Some ==> date.days >= start->0.days) && (end is Some ==> date.days <= end->0.days)
}

/// What the conditions of a filter say of a line, each where the filter has it: the day, the kind,
/// the category, the amount and the keyword.
pub open spec fn conditions(f: FilterView, row: LedgerView) -> Seq<Option<bool>> {
    let income = f.min_income is Some || f.max_income is Some;
    let expense = f.min_expense is Some || f.max_expense is Some;
    seq![
        if f.start_date is Some || f.end_date is Some {
            Some(between_days(row.sort_key.date, f.start_date, f.end_date))
        } else {
            None
        },
        if f.flow_kind.len() > 0 {
            Some(row.bill_kind == f.flow_kind)
        } else {
            None
        },
        if f.category.len() > 0 {
            Some(row.bill_kind.len() > 0 && row.subject == f.category)
        } else {
            None
        },
        if income || expense {
            Some(
                (income && row.bill_kind == "income"@ && between(
                    row.amount_cents as int,
                    f.min_income,
                    f.max_income,
                )) || (expense && row.is_expense && between(
                    row.amount_cents as int,
                    f.min_expense,
                    f.max_expense,
                )),
            )
        } else {
            None
        },
        if f.keyword.len() > 0 {
            Some(has_part(lower_text(searched(row)), f.keyword))
        } else {
            None
        },
    ]
}

impl FilterView {
    /// The filter has a condition.
    pub open spec fn active(self) -> bool {
        ||| self.start_date is Some
        ||| self.end_date is Some
        ||| self.flow_kind.len() > 0
        ||| self.category.len() > 0
        ||| self.min_income is Some
        ||| self.max_income is Some
        ||| self.min_expense is Some
        ||| self.max_expense is Some
        ||| self.keyword.len() > 0
    }
}

/// The text of a line that a keyword is looked for in.
pub open spec fn searched(row: LedgerView) -> Seq<char> {
    row.record_type + " "@ + row.account_name + " "@ + row.subject + (" "@ + row.note)
}

/// A line is looked for.
pub open spec fn selected(f: FilterView, row: LedgerView) -> bool {
    combined(conditions(f, row), f.mode_or)
}

/// Whether a day lies between two others.
pub fn day_allowed(date: Date, start: Option<Date>, end: Option<Date>) -> (r: bool)
    ensures
        r == between_days(date, start, end),
{
    (match start {
        Some(start) => date.days >= start.days,
        None => true,
    }) && (match end {
        Some(end) => date.days <= end.days,
        None => true,
    })
}

/// Whether an amount lies between two bounds.
pub fn amount_allowed(n: i64, low: Option<i64>, high: Option<i64>) -> (r: bool)
    ensures
        r == between(n as int, low, high),
{
    (match low {
        Some(low) => n >= low,
        None => true,
    }) && (match high {
        Some(high) => n <= high,
        None => true,
    })
}

/// Whether the first of two bounds is above the second.
pub fn crossed_amounts(low: Option<i64>, high: Option<i64>) -> (r: bool)
    ensures
        r == crossed(low, high),
{
    match (low, high) {
        (Some(low), Some(high)) => low > high,
        _ => false,
    }
}

impl LedgerFilter {
    /// Reads a query.
    pub fn from_query(query: &BillsQuery) -> (r: HandlerResult<LedgerFilter>)
        ensures
            match (r, filter_of(query@)) {
                (Ok(filter), Ok(wanted)) => filter@ == wanted,
                (Err(error), Err(wanted)) => error@ == wanted,
                _ => false,
            },
    {
        let start_date = match parse_search_date(&query.start_date, "开始日期") {
            Ok(date) => date,
            Err(error) => return Err(error),
        };
        let end_date = match parse_search_date(&query.end_date, "结束日期") {
            Ok(date) => date,
            Err(error) => return Err(error),
        };
        if let (Some(start), Some(end)) = (start_date, end_date) {
            if start.days > end.days {
                return Err(bad_request("开始日期不能晚于结束日期"));
            }
        }
        let flow_kind = if same(&query.flow_kind, "income") || same(&query.flow_kind, "expense") {
            query.flow_kind.clone()
        } else {
            String::new()
        };
        let min_income = match parse_search_amount(&query.min_income, "最低收入") {
            Ok(n) => n,
            Err(error) => return Err(error),
        };
        let max_income = match parse_search_amount(&query.max_income, "最高收入") {
            Ok(n) => n,
            Err(error) => return Err(error),
        };
        if crossed_amounts(min_income, max_income) {
            return Err(bad_request("最低收入不能大于最高收入"));
        }
        let min_expense = match parse_search_amount(&query.min_expense, "最低支出") {
            Ok(n) => n,
            Err(error) => return Err(error),
        };
        let max_expense = match parse_search_amount(&query.max_expense, "最高支出") {
            Ok(n) => n,
            Err(error) => return Err(error),
        };
        if crossed_amounts(min_expense, max_expense) {
            return Err(bad_request("最低支出不能大于最高支出"));
        }
        Ok(
            LedgerFilter {
                mode_or: same(&query.mode, "or"),
                start_date,
                end_date,
                flow_kind,
                category: query.category.as_str().trim().to_owned(),
                min_income,
                max_income,
                min_expense,
                max_expense,
                keyword: lowercase(query.keyword.as_str().trim()),
            },
        )
    }

    /// Whether the filter has a condition.
    pub fn is_active(&self) -> (r: bool)
        ensures
            r == self@.active(),
    {
        self.start_date.is_some() || self.end_date.is_some() || !self.flow_kind.as_str().is_empty()
            || !self.category.as_str().is_empty() || self.min_income.is_some()
            || self.max_income.is_some() || self.min_expense.is_some()
            || self.max_expense.is_some() || !self.keyword.as_str().is_empty()
    }

    /// Whether a line is looked for.
    pub fn matches(&self, row: &LedgerRow) -> (r: bool)
        ensures
            r == selected(self@, row@),
    {
        let day = if self.start_date.is_some() || self.end_date.is_some() {
            Some(day_allowed(row.sort_key.date, self.start_date, self.end_date))
        } else {
            None
        };
        let flow = if !self.flow_kind.as_str().is_empty() {
            Some(same(&row.bill_kind, &self.flow_kind))
        } else {
            None
        };
        let category = if !self.category.as_str().is_empty() {
            Some(!row.bill_kind.as_str().is_empty() && same(&row.subject, &self.category))
        } else {
            None
        };
        let income = self.min_income.is_some() || self.max_income.is_some();
        let expense = self.min_expense.is_some() || self.max_expense.is_some();
        let amount = if income || expense {
            Some(
                (income && same(&row.bill_kind, "income") && amount_allowed(
                    row.amount_cents,
                    self.min_income,
                    self.max_income,
                )) || (expense && row.is_expense && amount_allowed(
                    row.amount_cents,
                    self.min_expense,
                    self.max_expense,
                )),
            )
        } else {
            None
        };
        let keyword = if !self.keyword.as_str().is_empty() {
            let front = join5(&row.record_type, " ", &row.account_name, " ", &row.subject);
            let haystack = join2(&front, &join2(" ", &row.note));
            Some(contains(&lowercase(&haystack), &self.keyword))
        } else {
            None
        };
        let all = vec![day, flow, category, amount, keyword];
        proof {
            assert(all@ =~= conditions(self@, row@));
        }
        combine(&all, self.mode_or)
    }
}

/// A filter without conditions selects every line; what all conditions select, any of them
/// selects too.
pub proof fn filter_law(f: FilterView, g: FilterView, row: LedgerView)
    requires
        g == (FilterView { mode_or: true, ..f }),
    ensures
        !f.active() ==> selected(f, row),
        !f.mode_or && selected(f, row) ==> selected(g, row),
{
    let c = conditions(f, row);
    assert(c =~= conditions(g, row));
    any_finds_what_all_find(c);
    if !f.active() {
        assert forall|i: int| 0 <= i < c.len() implies (#[trigger] c[i]) is None by {
            assert(c[0] is None && c[1] is None && c[2] is None && c[3] is None && c[4] is None);
        }
    }
}

/// The lines that a filter selects among the first `n`.
pub open spec fn selection(f: FilterView, rows: Seq<LedgerView>, n: int) -> Seq<LedgerView>
    decreases n,
{
    if n <= 0 {
        Seq::empty()
    } else if selected(f, rows[n - 1]) {
        selection(f, rows, n - 1).push(rows[n - 1])
    } else {
        selection(f, rows, n - 1)
    }
}

/// The amounts of the lines of a kind, zero for all others.
pub open spec fn kind_amounts(rows: Seq<LedgerView>, kind: Seq<char>) -> Seq<int> {
    Seq::new(
        rows.len(),
        |i: int|
            if rows[i].bill_kind == kind {
                rows[i].amount_cents as int
            } else {
                0
            },
    )
}

/// What the lines earn, spend and leave over, or the refusal.
pub open spec fn flow_totals(rows: Seq<LedgerView>) -> Result<(i64, i64, i64), ErrorView> {
    match (
        checked_total(kind_amounts(rows, "income"@)),
        checked_total(kind_amounts(rows, "expense"@)),
    ) {
        (Some(income), Some(expense)) => if fits_i64(income - expense) {
            Ok((income as i64, expense as i64, (income - expense) as i64))
        } else {
            Err(internal("汇总金额超出范围"@))
        },
        _ => Err(internal("汇总金额超出范围"@)),
    }
}

fn sum_flows(rows: &Vec<LedgerRow>) -> (r: HandlerResult<(i64, i64, i64)>)
    ensures
        agrees(r, flow_totals(row_views(rows@))),
{
    let ghost views = row_views(rows@);
    let ghost a = kind_amounts(views, "income"@);
    let ghost b = kind_amounts(views, "expense"@);
    let mut income: i64 = 0;
    let mut expense: i64 = 0;
    let mut i: usize = 0;
    proof {
        reveal_strlit("income");
        reveal_strlit("expense");
        assert("income"@.len() == 6 && "expense"@.len() == 7);
        assert(a.take(0) =~= Seq::empty());
        assert(b.take(0) =~= Seq::empty());
    }
    while i < rows.len()
        invariant
            i <= rows.len(),
            views == row_views(rows@),
            "income"@ != "expense"@,
            a == kind_amounts(views, "income"@),
            b == kind_amounts(views, "expense"@),
            checked_total(a.take(i as int)) == Some(income as int),
            checked_total(b.take(i as int)) == Some(expense as int),
        decreases rows.len() - i,
    {
        let row = &rows[i];
        proof {
            assert(views[i as int] == row@);
            assert(a.take(i + 1).drop_last() =~= a.take(i as int));
            assert(b.take(i + 1).drop_last() =~= b.take(i as int));
        }
        if same(&row.bill_kind, "income") {
            match income.checked_add(row.amount_cents) {
                Some(n) => {
                    income = n;
                },
                None => {
                    proof {
                        checked_total_stops(a, i + 1);
                    }
                    return Err(err500("汇总金额超出范围"));
                },
            }
        } else if same(&row.bill_kind, "expense") {
            match expense.checked_add(row.amount_cents) {
                Some(n) => {
                    expense = n;
                },
                None => {
                    proof {
                        checked_total_stops(b, i + 1);
                    }
                    return Err(err500("汇总金额超出范围"));
                },
            }
        }
        i = i + 1;
    }
    proof {
        assert(a.take(a.len() as int) =~= a);
        assert(b.take(b.len() as int) =~= b);
    }
    match income.checked_sub(expense) {
        Some(net) => Ok((income, expense, net)),
        None => Err(err500("汇总金额超出范围")),
    }
}

fn select_rows(filter: &LedgerFilter, rows: Vec<LedgerRow>) -> (r: Vec<LedgerRow>)
    ensures
        row_views(r@) == selection(filter@, row_views(rows@), rows@.len() as int),
{
    let ghost all = rows@;
    let mut kept: Vec<LedgerRow> = Vec::new();
    proof {
        assert(row_views(kept@) =~= Seq::empty());
    }
    for row in it: rows
        invariant
            it.seq() == all,
            row_views(kept@) == selection(filter@, row_views(all), it.index() as int),
    {
        proof {
            assert(row_views(all)[it.index() as int] == row@);
        }
        let ghost before = kept@;
        if filter.matches(&row) {
            let ghost line = row@;
            kept.push(row);
            proof {
                assert(row_views(kept@) =~= row_views(before).push(line));
            }
        }
    }
    kept
}

/// A category to choose from.
pub struct CategoryOption {
    pub kind: String,
    pub name: String,
}

/// The categories to choose from.
pub open spec fn are_categories(
    options: Seq<CategoryOption>,
    dek: Seq<u8>,
    categories: Seq<category::Model>,
) -> bool {
    &&& options.len() == categories.len()
    &&& forall|i: int|
        0 <= i < options.len() ==> (#[trigger] options[i]).kind@ == categories[i].kind@
            && options[i].name@ == plain(dek, categories[i].name@)
}

pub fn category_options(dek: &Dek, categories: &Vec<category::Model>) -> (r: Vec<CategoryOption>)
    ensures
        are_categories(r@, dek@, categories@),
{
    let mut options: Vec<CategoryOption> = Vec::new();
    let mut i: usize = 0;
    while i < categories.len()
        invariant
            i <= categories.len(),
            options@.len() == i,
            forall|j: int|
                0 <= j < i ==> (#[trigger] options@[j]).kind@ == categories@[j].kind@
                    && options@[j].name@ == plain(dek@, categories@[j].name@),
        decreases categories.len() - i,
    {
        options.push(
            CategoryOption {
                kind: categories[i].kind.clone(),
                name: decrypt_string(dek, &categories[i].name),
            },
        );
        i = i + 1;
    }
    options
}

/// Whether the category of a kind with a name is one of food; refused where there is none.
pub open spec fn food_category(
    dek: Seq<u8>,
    categories: Seq<category::Model>,
    kind: Seq<char>,
    name: Seq<char>,
) -> Result<bool, ErrorView>
    decreases categories.len(),
{
    if categories.len() == 0 {
        Err(bad("请选择设置中已有的对应收支分类"@))
    } else if categories[0].kind@ == kind && plain(dek, categories[0].name@) == name {
        Ok(categories[0].is_food)
    } else {
        food_category(dek, categories.drop_first(), kind, name)
    }
}

pub fn category_is_food(dek: &Dek, categories: &Vec<category::Model>, kind: &str, name: &str) -> (r:
    HandlerResult<bool>)
    ensures
        agrees(r, food_category(dek@, categories@, kind@, name@)),
{
    let mut i: usize = 0;
    proof {
        assert(categories@.skip(0) =~= categories@);
    }
    while i < categories.len()
        invariant
            i <= categories.len(),
            food_category(dek@, categories@, kind@, name@) == food_category(
                dek@,
                categories@.skip(i as int),
                kind@,
                name@,
            ),
        decreases categories.len() - i,
    {
        let c = &categories[i];
        if same(&c.kind, kind) && same(&decrypt_string(dek, &c.name), name) {
            return Ok(c.is_food);
        }
        proof {
            assert(categories@.skip(i as int).drop_first() =~= categories@.skip(i + 1));
        }
        i = i + 1;
    }
    Err(bad_request("请选择设置中已有的对应收支分类"))
}

/// The page of the ledger.
pub struct BillsPage {
    pub page_heading: String,
    pub search_action: String,
    pub records: Vec<LedgerRow>,
    pub total_income: String,
    pub total_expense: String,
    pub net: String,
    pub search_mode: String,
    pub query: BillsQuery,
    pub has_filters: bool,
    pub search_categories: Vec<CategoryOption>,
    pub total_records: usize,
}

/// The part of a query that counts: the whole of it in the advanced search, else its days and its
/// keyword.
pub open spec fn narrowed(q: QueryView, advanced: bool) -> QueryView {
    if advanced {
        q
    } else {
        QueryView {
            mode: "and"@,
            flow_kind: Seq::empty(),
            category: Seq::empty(),
            min_income: Seq::empty(),
            max_income: Seq::empty(),
            min_expense: Seq::empty(),
            max_expense: Seq::empty(),
            ..q
        }
    }
}

fn narrow_query(query: BillsQuery, advanced_search: bool) -> (r: BillsQuery)
    ensures
        r@ == narrowed(query@, advanced_search),
{
    if advanced_search {
        query
    } else {
        BillsQuery {
            page: query.page,
            per_page: query.per_page,
            mode: "and".to_owned(),
            start_date: query.start_date,
            end_date: query.end_date,
            flow_kind: String::new(),
            category: String::new(),
            min_income: String::new(),
            max_income: String::new(),
            min_expense: String::new(),
            max_expense: String::new(),
            keyword: query.keyword,
        }
    }
}

/// The page of the ledger shows these values.
pub open spec fn is_bills_page(
    page: BillsPage,
    s: LedgerSource,
    filter: FilterView,
    advanced: bool,
    categories: Seq<category::Model>,
    shown: Page,
) -> bool {
    let all = ledger(s)->Ok_0;
    let rows = selection(filter, all, all.len() as int);
    let sums = flow_totals(rows)->Ok_0;
    &&& page.page_heading@ == (if advanced {
        "高级搜索"@
    } else {
        "账单"@
    })
    &&& page.search_action@ == (if advanced {
        "/bills/search"@
    } else {
        "/bills"@
    })
    &&& row_views(page.records@) == page_of(rows, shown.start as int, shown.per_page as int)
    &&& page.total_income@ == amount_text(sums.0 as int, s.default_currency)
    &&& page.total_expense@ == amount_text(sums.1 as int, s.default_currency)
    &&& page.net@ == amount_text(sums.2 as int, s.default_currency)
    &&& page.search_mode@ == (if filter.mode_or {
        "or"@
    } else {
        "and"@
    })
    &&& page.has_filters == filter.active()
    &&& page.total_records == rows.len()
    &&& if advanced {
        are_categories(page.search_categories@, s.dek, categories)
    } else {
        page.search_categories@.len() == 0
    }
}

/// Why the page of the ledger cannot be shown, where it cannot.
pub open spec fn page_refusal(s: LedgerSource, q: QueryView) -> Option<ErrorView> {
    match filter_of(q) {
        Err(e) => Some(e),
        Ok(filter) => match ledger(s) {
            Err(e) => Some(e),
            Ok(all) => match flow_totals(selection(filter, all, all.len() as int)) {
                Err(e) => Some(e),
                Ok(_) => None,
            },
        },
    }
}

/// The page of the ledger: the lines that a query looks for and what they add up to.
pub fn render_list(
    dek: &Dek,
    book: &Book,
    masks: &Vec<MaskedDetail>,
    plans: &Vec<installment_plan::Model>,
    rates: &RateTable,
    default_currency: &str,
    categories: &Vec<category::Model>,
    query: BillsQuery,
    advanced_search: bool,
    shown: Page,
) -> (r: HandlerResult<BillsPage>)
    requires
        rates.wf(),
    ensures
        ({
            let s = LedgerSource {
                dek: dek@,
                book: *book,
                masks: masks@,
                plans: plans@,
                rates: *rates,
                default_currency: default_currency@,
            };
            let q = narrowed(query@, advanced_search);
            match r {
                Ok(page) => page_refusal(s, q) is None && is_bills_page(
                    page,
                    s,
                    filter_of(q)->Ok_0,
                    advanced_search,
                    categories@,
                    shown,
                ) && page.query@ == q,
                Err(error) => page_refusal(s, q) == Some(error@),
            }
        }),
{
    let query = narrow_query(query, advanced_search);
    let filter = match LedgerFilter::from_query(&query) {
        Ok(filter) => filter,
        Err(error) => return Err(error),
    };
    let rows = match ledger_rows(dek, book, masks, plans, rates, default_currency) {
        Ok(rows) => rows,
        Err(error) => return Err(error),
    };
    let kept = select_rows(&filter, rows);
    let sums = match sum_flows(&kept) {
        Ok(sums) => sums,
        Err(error) => return Err(error),
    };
    let total_records: usize = kept.len();
    let ghost all = kept@;
    let records = take_page(kept, shown.start, shown.per_page);
    proof {
        assert(row_views(records@) =~= page_of(
            row_views(all),
            shown.start as int,
            shown.per_page as int,
        ));
    }
    Ok(
        BillsPage {
            page_heading: (if advanced_search {
                "高级搜索"
            } else {
                "账单"
            }).to_owned(),
            search_action: (if advanced_search {
                "/bills/search"
            } else {
                "/bills"
            }).to_owned(),
            records,
            total_income: crate::currency::format(sums.0, default_currency),
            total_expense: crate::currency::format(sums.1, default_currency),
            net: crate::currency::format(sums.2, default_currency),
            search_mode: (if filter.mode_or {
                "or"
            } else {
                "and"
            }).to_owned(),
            query,
            has_filters: filter.is_active(),
            search_categories: if advanced_search {
                category_options(dek, categories)
            } else {
                Vec::new()
            },
            total_records,
        },
    )
}

/// A bill as a form gives it.
pub struct ParsedBill {
    pub account_id: i64,
    pub kind: String,
    pub amount: i64,
    pub category: String,
    pub note: String,
    pub happened_at: DateTime,
    pub redirect_to: String,
    pub installment: Option<NewPlan>,
}

/// An amount with the sign of a bill's kind, or the refusal.
pub open spec fn signed(kind: Seq<char>, amount: int) -> Result<i64, ErrorView> {
    if kind == "income"@ {
        Ok(amount as i64)
    } else if fits_i64(-amount) {
        Ok((-amount) as i64)
    } else {
        Err(bad("金额超出范围"@))
    }
}

pub fn signed_amount(kind: &str, amount: i64) -> (r: HandlerResult<i64>)
    ensures
        agrees(r, signed(kind@, amount as int)),
{
    if same(kind, "income") {
        Ok(amount)
    } else {
        match negated(amount) {
            Some(n) => Ok(n),
            None => Err(bad_request("金额超出范围")),
        }
    }
}

/// The amount of a bill form.
pub open spec fn form_amount(form: BillFormData) -> Result<i64, ErrorView> {
    money(form.amount@, 1, "金额格式不正确"@, "金额必须大于 0"@, "金额超出范围"@)
}

/// Why a bill form is refused, where it is.
pub open spec fn form_refusal(form: BillFormData) -> Option<ErrorView> {
    if bounded(signed_value(form.account_id@), i64::MIN as int, i64::MAX as int) is None {
        Some(bad("账户无效"@))
    } else if form.kind@ != "income"@ && form.kind@ != "expense"@ {
        Some(bad("类型必须是收入或支出"@))
    } else {
        match form_amount(form) {
            Err(e) => Some(e),
            Ok(_) => if trimmed(form.category@).len() == 0 {
                Some(bad("分类不能为空"@))
            } else if minute_of_text(form.happened_at@) is None {
                Some(bad("时间格式不正确"@))
            } else if form.use_installment {
                input_refusal(
                    form.installment_term@,
                    form.installment_method@,
                    form.installment_annual_rate@,
                    form.installment_fee@,
                    form.installment_first_due_date@,
                )
            } else {
                None
            },
        }
    }
}

/// A plan is the one that the fields of a bill form give.
pub open spec fn is_form_plan(plan: NewPlan, form: BillFormData) -> bool {
    &&& plan.wf()
    &&& signed_value(trimmed(form.installment_term@)) == Some(plan.term_months as int)
    &&& plan.method@ == form.installment_method@
    &&& crate::decimal::hundredths_of_text(form.installment_annual_rate@) == Some(
        plan.annual_rate_bps as int,
    )
    &&& crate::decimal::hundredths_of_text(form.installment_fee@) == Some(plan.fee as int)
    &&& day_of_text(form.installment_first_due_date@) == Some(plan.first_due_date)
}

/// A bill is the one that a form gives.
pub open spec fn is_parsed(p: ParsedBill, form: BillFormData) -> bool {
    &&& signed_value(form.account_id@) == Some(p.account_id as int)
    &&& p.kind@ == form.kind@
    &&& form_amount(form) == Ok::<i64, ErrorView>(p.amount)
    &&& p.amount > 0
    &&& p.category@ == trimmed(form.category@)
    &&& p.note@ == trimmed(form.note@)
    &&& minute_of_text(form.happened_at@) == Some(p.happened_at)
    &&& p.redirect_to@ == redirect_target(text_view(form.redirect_to))
    &&& match p.installment {
        Some(plan) => form.use_installment && is_form_plan(plan, form),
        None => !form.use_installment,
    }
}

/// Reads a bill form.
pub fn parse_form(form: &BillFormData) -> (r: HandlerResult<ParsedBill>)
    ensures
        match r {
            Ok(parsed) => form_refusal(*form) is None && is_parsed(parsed, *form),
            Err(error) => form_refusal(*form) == Some(error@),
        },
{
    let account_id: i64 = match parse_i64(&form.account_id) {
        Some(id) => id,
        None => return Err(bad_request("账户无效")),
    };
    if !same(&form.kind, "income") && !same(&form.kind, "expense") {
        return Err(bad_request("类型必须是收入或支出"));
    }
    let amount: i64 = match parse_money(
        &form.amount,
        1,
        "金额格式不正确",
        "金额必须大于 0",
        "金额超出范围",
    ) {
        Ok(n) => n,
        Err(error) => return Err(error),
    };
    if form.category.as_str().trim().is_empty() {
        return Err(bad_request("分类不能为空"));
    }
    let happened_at = match parse_minute(&form.happened_at) {
        Some(time) => time,
        None => return Err(bad_request("时间格式不正确")),
    };
    let installment = if form.use_installment {
        match parse_input(
            &form.installment_term,
            &form.installment_method,
            &form.installment_annual_rate,
            &form.installment_fee,
            &form.installment_first_due_date,
        ) {
            Ok(plan) => Some(plan),
            Err(error) => return Err(error),
        }
    } else {
        None
    };
    Ok(
        ParsedBill {
            account_id,
            kind: form.kind.clone(),
            amount,
            category: form.category.as_str().trim().to_owned(),
            note: form.note.as_str().trim().to_owned(),
            happened_at,
            redirect_to: ledger_redirect(&form.redirect_to).to_owned(),
            installment,
        },
    )
}

/// Every text of a bill form is short enough to be encrypted.
pub open spec fn form_sealable(form: BillFormData) -> bool {
    sealable(form.category@) && sealable(form.note@)
}

/// A bill to be stored, with the plan of its instalments where it has one.
pub struct NewBill {
    pub bill: bill::Model,
    pub plan: Option<PlanRows>,
    pub redirect_to: String,
}

/// The account of a bill form.
pub open spec fn form_account(form: BillFormData) -> i64 {
    signed_value(form.account_id@)->0 as i64
}

/// Why the bill of a form cannot be added, apart from its instalments, where it cannot: the form
/// is refused, the account is not there, only credit accounts pay expenses in instalments, there
/// is no such category, or the account may not have the balance that would follow.
pub open spec fn create_refusal(
    dek: Seq<u8>,
    book: Book,
    categories: Seq<category::Model>,
    form: BillFormData,
) -> Option<ErrorView> {
    match form_refusal(form) {
        Some(e) => Some(e),
        None => match found(book.accounts@, form_account(form)) {
            None => Some(bad("账户不存在"@)),
            Some(a) => if form.use_installment && (form.kind@ != "expense"@ || !is_credit(
                a.kind@,
            )) {
                Some(bad("只有信用卡或信贷服务的支出可以设置分期"@))
            } else {
                match food_category(dek, categories, form.kind@, trimmed(form.category@)) {
                    Err(e) => Some(e),
                    Ok(_) => match signed(form.kind@, form_amount(form)->Ok_0 as int) {
                        Err(e) => Some(e),
                        Ok(delta) => match change_allowed(
                            dek,
                            book,
                            form_account(form),
                            delta as int,
                        ) {
                            Err(e) => Some(e),
                            Ok(_) => None,
                        },
                    },
                }
            },
        },
    }
}

/// A row stores the bill of a form.
pub open spec fn stores(
    row: bill::Model,
    dek: Seq<u8>,
    categories: Seq<category::Model>,
    form: BillFormData,
) -> bool {
    &&& row.account_id == form_account(form)
    &&& row.kind@ == form.kind@
    &&& cents(dek, row.amount@) == form_amount(form)->Ok_0
    &&& plain(dek, row.category@) == trimmed(form.category@)
    &&& food_category(dek, categories, form.kind@, trimmed(form.category@)) == Ok::<
        bool,
        ErrorView,
    >(row.is_food)
    &&& plain(dek, row.note@) == trimmed(form.note@)
    &&& minute_of_text(form.happened_at@) == Some(row.happened_at)
}

/// The plan of a new bill is the one that the form gives, or the refusal is that of its schedule.
pub open spec fn plan_agrees(
    plan: HandlerResult<Option<PlanRows>>,
    dek: Seq<u8>,
    form: BillFormData,
    now: DateTime,
) -> bool {
    let amount = form_amount(form)->Ok_0;
    if !form.use_installment {
        plan matches Ok(None)
    } else {
        exists|input: NewPlan| #[trigger]
            is_form_plan(input, form) && match (plan, payments(amount as int, input)) {
                (Ok(Some(rows)), Ok(amounts)) => {
                    &&& rows.amounts@ == amounts
                    &&& rows.plan.account_id == form_account(form)
                    &&& rows.plan.term_months == input.term_months
                    &&& rows.plan.method@ == input.method@
                    &&& cents(dek, rows.plan.annual_rate_bps@) == input.annual_rate_bps
                    &&& cents(dek, rows.plan.fee@) == input.fee
                    &&& rows.plan.first_due_date == input.first_due_date
                    &&& rows.plan.created_at == now
                },
                (Err(error), Err(wanted)) => error@ == wanted,
                _ => false,
            }
    }
}

/// Adds the bill of a form: the row to store and, for an expense that is paid in instalments, the
/// plan. The plan is given the number of the bill once it has one.
pub fn create(
    dek: &Dek,
    book: &Book,
    categories: &Vec<category::Model>,
    form: &BillFormData,
    now: DateTime,
) -> (r: HandlerResult<NewBill>)
    requires
        form_sealable(*form),
    ensures
        match create_refusal(dek@, *book, categories@, *form) {
            Some(wanted) => r matches Err(error) && error@ == wanted,
            None => match r {
                Ok(new) => {
                    &&& stores(new.bill, dek@, categories@, *form)
                    &&& new.bill.created_at == now
                    &&& new.redirect_to@ == redirect_target(text_view(form.redirect_to))
                    &&& plan_agrees(Ok(new.plan), dek@, *form, now)
                },
                Err(error) => plan_agrees(Err(error), dek@, *form, now),
            },
        },
{
    let parsed = match parse_form(form) {
        Ok(parsed) => parsed,
        Err(error) => return Err(error),
    };
    let account = match find(&book.accounts, parsed.account_id) {
        Some(account) => account,
        None => return Err(bad_request("账户不存在")),
    };
    if parsed.installment.is_some() && (!same(&parsed.kind, "expense") || !credit_kind(
        &account.kind,
    )) {
        return Err(bad_request("只有信用卡或信贷服务的支出可以设置分期"));
    }
    let is_food = match category_is_food(dek, categories, &parsed.kind, &parsed.category) {
        Ok(is_food) => is_food,
        Err(error) => return Err(error),
    };
    let delta: i64 = match signed_amount(&parsed.kind, parsed.amount) {
        Ok(delta) => delta,
        Err(error) => return Err(error),
    };
    match ensure_balance_delta(dek, book, parsed.account_id, delta) {
        Ok(_) => {},
        Err(error) => return Err(error),
    }
    proof {
        trimmed_bytes(form.category@);
        trimmed_bytes(form.note@);
    }
    let row = bill::Model {
        id: 0,
        account_id: parsed.account_id,
        amount: encrypt_cents(dek, parsed.amount),
        category: encrypt_string(dek, &parsed.category),
        is_food,
        note: encrypt_string(dek, &parsed.note),
        happened_at: parsed.happened_at,
        created_at: now,
        kind: parsed.kind,
    };
    let plan = match parsed.installment {
        Some(input) => match create_plan(dek, 0, parsed.account_id, parsed.amount, input, now) {
            Ok(rows) => {
                proof {
                    assert(is_form_plan(input, *form));
                }
                Some(rows)
            },
            Err(error) => {
                proof {
                    assert(is_form_plan(input, *form));
                }
                return Err(error);
            },
        },
        None => None,
    };
    Ok(NewBill { bill: row, plan, redirect_to: parsed.redirect_to })
}

/// Where to go once a bill was added: to its instalments where it has some.
pub fn created_target(redirect_to: String, plan_id: Option<i64>) -> (r: String)
    ensures
        r@ == (match plan_id {
            Some(id) => "/installments/"@ + int_text(id as int),
            None => redirect_to@,
        }),
{
    match plan_id {
        Some(id) => join2("/installments/", &int_to_text(id)),
        None => redirect_to,
    }
}

/// A bill is the fee of a recurring investment.
pub open spec fn is_investment_fee(executions: Seq<investment_execution::Model>, id: i64) -> bool {
    exists|i: int| 0 <= i < executions.len() && (#[trigger] executions[i]).fee_bill_id == Some(id)
}

/// A bill is the charge of a payment of an instalment plan.
pub open spec fn is_instalment_charge(items: Seq<installment_item::Model>, id: i64) -> bool {
    exists|i: int| 0 <= i < items.len() && (#[trigger] items[i]).charge_bill_id == Some(id)
}

fn investment_fee(executions: &Vec<investment_execution::Model>, id: i64) -> (r: bool)
    ensures
        r == is_investment_fee(executions@, id),
{
    let mut i: usize = 0;
    while i < executions.len()
        invariant
            i <= executions.len(),
            forall|j: int| 0 <= j < i ==> (#[trigger] executions@[j]).fee_bill_id != Some(id),
        decreases executions.len() - i,
    {
        if let Some(fee) = executions[i].fee_bill_id {
            if fee == id {
                return true;
            }
        }
        i = i + 1;
    }
    false
}

fn instalment_charge(items: &Vec<installment_item::Model>, id: i64) -> (r: bool)
    ensures
        r == is_instalment_charge(items@, id),
{
    let mut i: usize = 0;
    while i < items.len()
        invariant
            i <= items.len(),
            forall|j: int| 0 <= j < i ==> (#[trigger] items@[j]).charge_bill_id != Some(id),
        decreases items.len() - i,
    {
        if let Some(charge) = items[i].charge_bill_id {
            if charge == id {
                return true;
            }
        }
        i = i + 1;
    }
    false
}

/// Why a bill cannot be changed on its own, where it cannot.
pub open spec fn edit_guard(
    executions: Seq<investment_execution::Model>,
    items: Seq<installment_item::Model>,
    plans: Seq<installment_plan::Model>,
    id: i64,
) -> Option<ErrorView> {
    if is_investment_fee(executions, id) {
        Some(bad("定投手续费流水不能单独编辑；删除定投计划不会影响已有手续费流水"@))
    } else if is_instalment_charge(items, id) {
        Some(bad("分期还款费用流水不能单独编辑，请在分期详情中撤销后重新还款"@))
    } else if plan_of_bill(plans, id) is Some {
        Some(bad("分期账单不能直接编辑；如需重建计划，请删除账单后重新记录"@))
    } else {
        None
    }
}

/// Refuses to change a bill that cannot be changed on its own.
pub fn ensure_editable(
    executions: &Vec<investment_execution::Model>,
    items: &Vec<installment_item::Model>,
    plans: &Vec<installment_plan::Model>,
    id: i64,
) -> (r: HandlerResult<()>)
    ensures
        match r {
            Ok(_) => edit_guard(executions@, items@, plans@, id) is None,
            Err(error) => edit_guard(executions@, items@, plans@, id) == Some(error@),
        },
{
    if investment_fee(executions, id) {
        return Err(
            bad_request("定投手续费流水不能单独编辑；删除定投计划不会影响已有手续费流水"),
        );
    }
    if instalment_charge(items, id) {
        return Err(
            bad_request("分期还款费用流水不能单独编辑，请在分期详情中撤销后重新还款"),
        );
    }
    if find_plan_of_bill(plans, id).is_some() {
        return Err(
            bad_request("分期账单不能直接编辑；如需重建计划，请删除账单后重新记录"),
        );
    }
    Ok(())
}

/// The form that changes a bill, filled with what the bill has.
pub struct BillForm {
    pub heading: String,
    pub action: String,
    pub account_id: i64,
    pub kind: String,
    pub amount: String,
    pub category: String,
    pub note: String,
    pub happened_at: String,
}

/// The form that changes a bill.
pub fn edit_form(
    dek: &Dek,
    book: &Book,
    executions: &Vec<investment_execution::Model>,
    items: &Vec<installment_item::Model>,
    plans: &Vec<installment_plan::Model>,
    id: i64,
) -> (r: HandlerResult<BillForm>)
    ensures
        match edit_guard(executions@, items@, plans@, id) {
            Some(wanted) => r matches Err(error) && error@ == wanted,
            None => match (r, found(book.bills@, id)) {
                (Ok(form), Some(b)) => {
                    &&& form.heading@ == "编辑账单"@
                    &&& form.action@ == "/bills/"@ + int_text(id as int) + "/edit"@
                    &&& form.account_id == b.account_id
                    &&& form.kind@ == b.kind@
                    &&& form.amount@ == cents_text(cents(dek@, b.amount@))
                    &&& form.category@ == plain(dek@, b.category@)
                    &&& form.note@ == plain(dek@, b.note@)
                    &&& form.happened_at@ == time_text(b.happened_at)
                },
                (Err(error), None) => error@ == missing("账单不存在"@),
                _ => false,
            },
        },
{
    match ensure_editable(executions, items, plans, id) {
        Ok(_) => {},
        Err(error) => return Err(error),
    }
    match find(&book.bills, id) {
        None => Err(not_found("账单不存在")),
        Some(b) => Ok(
            BillForm {
                heading: "编辑账单".to_owned(),
                action: join3("/bills/", &int_to_text(id), "/edit"),
                account_id: b.account_id,
                kind: b.kind.clone(),
                amount: fmt_cents(decrypt_cents(dek, &b.amount)),
                category: decrypt_string(dek, &b.category),
                note: decrypt_string(dek, &b.note),
                happened_at: time_to_text(b.happened_at),
            },
        ),
    }
}

/// Why replacing one bill by another is refused, where it is: on the same account the difference
/// counts, else each account on its own.
pub open spec fn exchange_refusal(
    dek: Seq<u8>,
    book: Book,
    old_account: i64,
    old_delta: int,
    new_account: i64,
    new_delta: int,
) -> Option<ErrorView> {
    if old_account == new_account {
        if !fits_i64(new_delta - old_delta) {
            Some(bad("金额超出范围"@))
        } else {
            match change_allowed(dek, book, old_account, new_delta - old_delta) {
                Err(e) => Some(e),
                Ok(_) => None,
            }
        }
    } else if !fits_i64(-old_delta) {
        Some(bad("金额超出范围"@))
    } else {
        match change_allowed(dek, book, old_account, -old_delta) {
            Err(e) => Some(e),
            Ok(_) => match change_allowed(dek, book, new_account, new_delta) {
                Err(e) => Some(e),
                Ok(_) => None,
            },
        }
    }
}

fn ensure_exchange(
    dek: &Dek,
    book: &Book,
    old_account: i64,
    old_delta: i64,
    new_account: i64,
    new_delta: i64,
) -> (r: HandlerResult<()>)
    ensures
        ({
            let refusal = exchange_refusal(
                dek@,
                *book,
                old_account,
                old_delta as int,
                new_account,
                new_delta as int,
            );
            match r {
                Ok(_) => refusal is None,
                Err(error) => refusal == Some(error@),
            }
        }),
{
    if old_account == new_account {
        match new_delta.checked_sub(old_delta) {
            None => Err(bad_request("金额超出范围")),
            Some(delta) => ensure_balance_delta(dek, book, old_account, delta),
        }
    } else {
        match negated(old_delta) {
            None => Err(bad_request("金额超出范围")),
            Some(back) => match ensure_balance_delta(dek, book, old_account, back) {
                Err(error) => Err(error),
                Ok(_) => ensure_balance_delta(dek, book, new_account, new_delta),
            },
        }
    }
}

/// Why a bill cannot be changed as a form says, once it can be changed on its own.
pub open spec fn update_refusal(
    dek: Seq<u8>,
    book: Book,
    categories: Seq<category::Model>,
    id: i64,
    form: BillFormData,
) -> Option<ErrorView> {
    match form_refusal(form) {
        Some(e) => Some(e),
        None => match food_category(dek, categories, form.kind@, trimmed(form.category@)) {
            Err(e) => Some(e),
            Ok(_) => match found(book.bills@, id) {
                None => Some(missing("账单不存在"@)),
                Some(b) => match signed(b.kind@, cents(dek, b.amount@)) {
                    Err(e) => Some(e),
                    Ok(old_delta) => match signed(form.kind@, form_amount(form)->Ok_0 as int) {
                        Err(e) => Some(e),
                        Ok(new_delta) => exchange_refusal(
                            dek,
                            book,
                            b.account_id,
                            old_delta as int,
                            form_account(form),
                            new_delta as int,
                        ),
                    },
                },
            },
        },
    }
}

/// Changes a bill as a form says: the row to store in its place.
pub fn update(
    dek: &Dek,
    book: &Book,
    categories: &Vec<category::Model>,
    executions: &Vec<investment_execution::Model>,
    items: &Vec<installment_item::Model>,
    plans: &Vec<installment_plan::Model>,
    id: i64,
    form: &BillFormData,
) -> (r: HandlerResult<bill::Model>)
    requires
        form_sealable(*form),
    ensures
        match edit_guard(executions@, items@, plans@, id) {
            Some(wanted) => r matches Err(error) && error@ == wanted,
            None => match update_refusal(dek@, *book, categories@, id, *form) {
                Some(wanted) => r matches Err(error) && error@ == wanted,
                None => r matches Ok(row) && stores(row, dek@, categories@, *form) && row.id == id
                    && row.created_at == found(book.bills@, id)->0.created_at,
            },
        },
{
    match ensure_editable(executions, items, plans, id) {
        Ok(_) => {},
        Err(error) => return Err(error),
    }
    let parsed = match parse_form(form) {
        Ok(parsed) => parsed,
        Err(error) => return Err(error),
    };
    let is_food = match category_is_food(dek, categories, &parsed.kind, &parsed.category) {
        Ok(is_food) => is_food,
        Err(error) => return Err(error),
    };
    let b = match find(&book.bills, id) {
        Some(b) => b,
        None => return Err(not_found("账单不存在")),
    };
    let old_delta: i64 = match signed_amount(&b.kind, decrypt_cents(dek, &b.amount)) {
        Ok(n) => n,
        Err(error) => return Err(error),
    };
    let new_delta: i64 = match signed_amount(&parsed.kind, parsed.amount) {
        Ok(n) => n,
        Err(error) => return Err(error),
    };
    match ensure_exchange(dek, book, b.account_id, old_delta, parsed.account_id, new_delta) {
        Ok(_) => {},
        Err(error) => return Err(error),
    }
    proof {
        trimmed_bytes(form.category@);
        trimmed_bytes(form.note@);
    }
    Ok(
        bill::Model {
            id,
            account_id: parsed.account_id,
            amount: encrypt_cents(dek, parsed.amount),
            category: encrypt_string(dek, &parsed.category),
            is_food,
            note: encrypt_string(dek, &parsed.note),
            happened_at: parsed.happened_at,
            created_at: b.created_at,
            kind: parsed.kind,
        },
    )
}

/// A payment of a plan is paid.
pub open spec fn has_paid_item(items: Seq<installment_item::Model>, plan: i64) -> bool {
    exists|i: int|
        0 <= i < items.len() && (#[trigger] items[i]).plan_id == plan && items[i].paid_at is Some
}

fn any_paid_item(items: &Vec<installment_item::Model>, plan: i64) -> (r: bool)
    ensures
        r == has_paid_item(items@, plan),
{
    let mut i: usize = 0;
    while i < items.len()
        invariant
            i <= items.len(),
            forall|j: int|
                0 <= j < i ==> !((#[trigger] items@[j]).plan_id == plan
                    && items@[j].paid_at is Some),
        decreases items.len() - i,
    {
        if items[i].plan_id == plan && items[i].paid_at.is_some() {
            return true;
        }
        i = i + 1;
    }
    false
}

/// Why a bill cannot be deleted, where it cannot: it is a fee or a charge of something else, a
/// payment of its instalments is paid, or its account may not have the balance that would follow.
pub open spec fn delete_refusal(
    dek: Seq<u8>,
    book: Book,
    executions: Seq<investment_execution::Model>,
    items: Seq<installment_item::Model>,
    plans: Seq<installment_plan::Model>,
    id: i64,
) -> Option<ErrorView> {
    if is_investment_fee(executions, id) {
        Some(bad("定投手续费流水不能单独删除；删除定投计划不会影响已有手续费流水"@))
    } else if is_instalment_charge(items, id) {
        Some(bad("分期还款费用流水不能单独删除，请在分期详情中撤销对应还款"@))
    } else {
        match found(book.bills@, id) {
            None => Some(missing("账单不存在"@)),
            Some(b) => if plan_of_bill(plans, id) is Some && has_paid_item(
                items,
                plan_of_bill(plans, id)->0,
            ) {
                Some(
                    bad("该分期已有实际还款，请先在分期详情逐期撤销还款，再删除原账单"@),
                )
            } else {
                match signed(b.kind@, cents(dek, b.amount@)) {
                    Err(e) => Some(e),
                    Ok(delta) => if !fits_i64(-delta) {
                        Some(bad("金额超出范围"@))
                    } else {
                        match change_allowed(dek, book, b.account_id, -delta) {
                            Err(e) => Some(e),
                            Ok(_) => None,
                        }
                    },
                }
            },
        }
    }
}

/// Allows or refuses that a bill is deleted, and says where to go then.
pub fn delete(
    dek: &Dek,
    book: &Book,
    executions: &Vec<investment_execution::Model>,
    items: &Vec<installment_item::Model>,
    plans: &Vec<installment_plan::Model>,
    id: i64,
    form: &DeleteFormData,
) -> (r: HandlerResult<&'static str>)
    ensures
        match (r, delete_refusal(dek@, *book, executions@, items@, plans@, id)) {
            (Ok(target), None) => target@ == redirect_target(text_view(form.redirect_to)),
            (Err(error), Some(wanted)) => error@ == wanted,
            _ => false,
        },
{
    if investment_fee(executions, id) {
        return Err(
            bad_request("定投手续费流水不能单独删除；删除定投计划不会影响已有手续费流水"),
        );
    }
    if instalment_charge(items, id) {
        return Err(
            bad_request("分期还款费用流水不能单独删除，请在分期详情中撤销对应还款"),
        );
    }
    let b = match find(&book.bills, id) {
        Some(b) => b,
        None => return Err(not_found("账单不存在")),
    };
    if let Some(plan) = find_plan_of_bill(plans, id) {
        if any_paid_item(items, plan) {
            return Err(
                bad_request("该分期已有实际还款，请先在分期详情逐期撤销还款，再删除原账单"),
            );
        }
    }
    let delta: i64 = match signed_amount(&b.kind, decrypt_cents(dek, &b.amount)) {
        Ok(delta) => delta,
        Err(error) => return Err(error),
    };
    let back: i64 = match negated(delta) {
        Some(back) => back,
        None => return Err(bad_request("金额超出范围")),
    };
    match ensure_balance_delta(dek, book, b.account_id, back) {
        Ok(_) => Ok(ledger_redirect(&form.redirect_to)),
        Err(error) => Err(error),
    }
}

/// What the bills of a kind come to, bill by bill in the default currency, nothing for the others.
pub open spec fn bill_amounts(s: LedgerSource, kind: Seq<char>, n: int) -> Seq<int> {
    Seq::new(
        n as nat,
        |i: int|
            {
                let b = s.book.bills@[i];
                if b.kind@ == kind {
                    in_default(
                        s.rates,
                        cents(s.dek, b.amount@),
                        currency_of(s.book.accounts@, b.account_id, s.default_currency),
                    )->Ok_0 as int
                } else {
                    0
                }
            },
    )
}

proof fn entries_are_records(s: LedgerSource, n: int, kind: Seq<char>)
    requires
        0 <= n <= record_count(s.book),
        entries(s, n) is Ok,
        kind.len() > 0,
    ensures
        entries(s, n)->Ok_0.len() == n,
        total(kind_amounts(entries(s, n)->Ok_0, kind)) == total(
            bill_amounts(
                s,
                kind,
                if n <= s.book.bills@.len() {
                    n
                } else {
                    s.book.bills@.len() as int
                },
            ),
        ),
    decreases n,
{
    reveal(bill_entry);
    reveal(transfer_entry);
    reveal(debt_entry);
    reveal(adjustment_entry);
    let rows = entries(s, n)->Ok_0;
    if n > 0 {
        entries_are_records(s, n - 1, kind);
        let front = entries(s, n - 1)->Ok_0;
        assert(kind_amounts(rows, kind).drop_last() =~= kind_amounts(front, kind));
        assert(kind_amounts(rows, kind).last() == kind_amounts(rows, kind)[n - 1]);
        if n <= s.book.bills@.len() {
            assert(bill_amounts(s, kind, n).drop_last() =~= bill_amounts(s, kind, n - 1));
        }
    } else {
        assert(kind_amounts(rows, kind) =~= bill_amounts(s, kind, 0));
    }
}

proof fn everything_selected(f: FilterView, rows: Seq<LedgerView>, n: int)
    requires
        0 <= n <= rows.len(),
        !f.active(),
    ensures
        selection(f, rows, n) == rows.take(n),
    decreases n,
{
    if n > 0 {
        everything_selected(f, rows, n - 1);
        filter_law(f, FilterView { mode_or: true, ..f }, rows[n - 1]);
        assert(rows.take(n) =~= rows.take(n - 1).push(rows[n - 1]));
    } else {
        assert(rows.take(0) =~= Seq::empty());
    }
}

/// The page of the ledger, where nothing is looked for, shows every record, and adds the bills up:
/// what was earned are the incomes, what was spent the expenses, each in the default currency, and
/// what is left over is their difference. Transfers, debts and balances set by hand are neither.
pub proof fn ledger_adds_the_bills_up(
    dek: &Dek,
    book: &Book,
    masks: &Vec<MaskedDetail>,
    plans: &Vec<installment_plan::Model>,
    rates: &RateTable,
    default_currency: &str,
    categories: &Vec<category::Model>,
    query: BillsQuery,
    advanced_search: bool,
    shown: Page,
    page: BillsPage,
)
    requires
        rates.wf(),
        call_ensures(
            render_list,
            (
                dek,
                book,
                masks,
                plans,
                rates,
                default_currency,
                categories,
                query,
                advanced_search,
                shown,
            ),
            Ok(page),
        ),
        !page.has_filters,
    ensures
        ({
            let s = LedgerSource {
                dek: dek@,
                book: *book,
                masks: masks@,
                plans: plans@,
                rates: *rates,
                default_currency: default_currency@,
            };
            let n = book.bills@.len() as int;
            let earned = total(bill_amounts(s, "income"@, n));
            let spent = total(bill_amounts(s, "expense"@, n));
            &&& page.total_records == book.bills@.len() + book.transfers@.len() + book.debts@.len()
                + book.adjustments@.len()
            &&& page.total_income@ == amount_text(earned, default_currency@)
            &&& page.total_expense@ == amount_text(spent, default_currency@)
            &&& page.net@ == amount_text(earned - spent, default_currency@)
        }),
{
    let s = LedgerSource {
        dek: dek@,
        book: *book,
        masks: masks@,
        plans: plans@,
        rates: *rates,
        default_currency: default_currency@,
    };
    let filter = filter_of(narrowed(query@, advanced_search))->Ok_0;
    let all = ledger(s)->Ok_0;
    let n = record_count(*book);
    let lines = entries(s, n)->Ok_0;
    everything_selected(filter, all, all.len() as int);
    assert(all.take(all.len() as int) =~= all);
    reveal_strlit("income");
    reveal_strlit("expense");
    assert("income"@.len() == 6 && "expense"@.len() == 7);
    entries_are_records(s, n, "income"@);
    entries_are_records(s, n, "expense"@);
    kind_total_of_arranged(lines, "income"@);
    kind_total_of_arranged(lines, "expense"@);
    crate::totals::checked_total_is_total(kind_amounts(all, "income"@));
    crate::totals::checked_total_is_total(kind_amounts(all, "expense"@));
}

proof fn kind_total_of_arranged(lines: Seq<LedgerView>, kind: Seq<char>)
    ensures
        total(kind_amounts(arranged(lines, row_keys(lines)), kind)) == total(
            kind_amounts(lines, kind),
        ),
{
    let f = |row: LedgerView|
        if row.bill_kind == kind {
            row.amount_cents as int
        } else {
            0
        };
    let sorted = arranged(lines, row_keys(lines));
    crate::order::arranged_total(lines, row_keys(lines), f);
    assert(Seq::new(sorted.len(), |i: int| f(sorted[i])) =~= kind_amounts(sorted, kind));
    assert(Seq::new(lines.len(), |i: int| f(lines[i])) =~= kind_amounts(lines, kind));
}

/// A search for all conditions finds only lines that keep to each of them: from the first day to the
/// last one, of the kind, of the category, with the amount between the bounds for its kind, and with
/// the keyword in one of its texts.
pub proof fn search_keeps_to_its_conditions(f: FilterView, row: LedgerView)
    requires
        !f.mode_or,
        selected(f, row),
    ensures
        f.start_date is Some ==> row.sort_key.date.days >= f.start_date->0.days,
        f.end_date is Some ==> row.sort_key.date.days <= f.end_date->0.days,
        f.flow_kind.len() > 0 ==> row.bill_kind == f.flow_kind,
        f.category.len() > 0 ==> row.subject == f.category && row.bill_kind.len() > 0,
        f.min_income is Some && f.min_expense is None && f.max_expense is None ==> row.bill_kind
            == "income"@ && row.amount_cents >= f.min_income->0,
        f.max_income is Some && f.min_expense is None && f.max_expense is None ==> row.bill_kind
            == "income"@ && row.amount_cents <= f.max_income->0,
        f.min_expense is Some && f.min_income is None && f.max_income is None ==> row.is_expense
            && row.amount_cents >= f.min_expense->0,
        f.max_expense is Some && f.min_income is None && f.max_income is None ==> row.is_expense
            && row.amount_cents <= f.max_expense->0,
        f.keyword.len() > 0 ==> has_part(
            lower_text(
                row.record_type + " "@ + row.account_name + " "@ + row.subject + (" "@ + row.note),
            ),
            f.keyword,
        ),
{
    let c = conditions(f, row);
    assert(c[0] != Some(false) && c[1] != Some(false) && c[2] != Some(false) && c[3] != Some(false)
        && c[4] != Some(false)) by {
        if forall|i: int| 0 <= i < c.len() ==> (#[trigger] c[i]) is None {
            assert(c[0] is None && c[1] is None && c[2] is None && c[3] is None && c[4] is None);
        }
    }
}

/// Two books differ in their bills alone.
pub open spec fn same_but_bills(before: Book, after: Book) -> bool {
    &&& after.accounts@ == before.accounts@
    &&& after.details@ == before.details@
    &&& after.transfers@ == before.transfers@
    &&& after.debts@ == before.debts@
}

/// A book with one more bill: the balance of every account changes by what the bill adds to it,
/// by nothing for the accounts that it does not belong to.
pub proof fn bill_added(dek: Seq<u8>, before: Book, after: Book, b: bill::Model, id: i64)
    requires
        same_but_bills(before, after),
        after.bills@ == before.bills@.push(b),
        balance(dek, before, id) is Ok,
        balance(dek, after, id) is Ok,
    ensures
        balance(dek, after, id)->Ok_0 == balance(dek, before, id)->Ok_0 + bill_delta(dek, b, id),
{
    let x = bill_deltas(dek, before.bills@, id);
    let y = transfer_deltas(dek, before.transfers@, id);
    let z = debt_deltas(dek, before.debts@, id);
    assert(bill_deltas(dek, after.bills@, id) =~= x.push(bill_delta(dek, b, id)));
    crate::totals::checked_total_push(x, bill_delta(dek, b, id));
    crate::totals::total_concat(x, y);
    crate::totals::total_concat(x + y, z);
    crate::totals::total_concat(x.push(bill_delta(dek, b, id)), y);
    crate::totals::total_concat(x.push(bill_delta(dek, b, id)) + y, z);
    crate::totals::checked_total_is_total(deltas(dek, before, id));
    crate::totals::checked_total_is_total(deltas(dek, after, id));
}

/// A book with one bill fewer: the balance of every account goes back by what the bill added.
pub proof fn bill_removed(dek: Seq<u8>, before: Book, after: Book, i: int, id: i64)
    requires
        same_but_bills(before, after),
        0 <= i < before.bills@.len(),
        after.bills@ == before.bills@.remove(i),
        balance(dek, before, id) is Ok,
        balance(dek, after, id) is Ok,
    ensures
        balance(dek, after, id)->Ok_0 == balance(dek, before, id)->Ok_0 - bill_delta(
            dek,
            before.bills@[i],
            id,
        ),
{
    let x = bill_deltas(dek, before.bills@, id);
    let y = transfer_deltas(dek, before.transfers@, id);
    let z = debt_deltas(dek, before.debts@, id);
    assert(bill_deltas(dek, after.bills@, id) =~= x.remove(i));
    crate::totals::total_remove(x, i);
    crate::totals::total_concat(x, y);
    crate::totals::total_concat(x + y, z);
    crate::totals::total_concat(x.remove(i), y);
    crate::totals::total_concat(x.remove(i) + y, z);
    crate::totals::checked_total_is_total(deltas(dek, before, id));
    crate::totals::checked_total_is_total(deltas(dek, after, id));
}

/// A bill that was accepted leaves its account with a balance that it may have.
pub proof fn accepted_bill_keeps_limits(
    dek: Seq<u8>,
    before: Book,
    after: Book,
    categories: Seq<category::Model>,
    form: BillFormData,
    b: bill::Model,
)
    requires
        create_refusal(dek, before, categories, form) is None,
        stores(b, dek, categories, form),
        same_but_bills(before, after),
        after.bills@ == before.bills@.push(b),
        balance(dek, after, b.account_id) is Ok,
    ensures
        crate::handlers::accounts::allowed(
            dek,
            after,
            b.account_id,
            balance(dek, after, b.account_id)->Ok_0 as int,
        ) is Ok,
{
    bill_added(dek, before, after, b, b.account_id);
}

/// An account to choose.
pub struct AccountOption {
    pub id: i64,
    pub name: String,
    pub kind: String,
    pub currency: String,
}

/// The accounts to choose from.
pub open spec fn are_accounts(
    options: Seq<AccountOption>,
    dek: Seq<u8>,
    book: Book,
    masks: Seq<MaskedDetail>,
) -> bool {
    &&& options.len() == book.accounts@.len()
    &&& forall|i: int|
        0 <= i < options.len() ==> {
            let a = book.accounts@[i];
            (#[trigger] options[i]).id == a.id && options[i].kind@ == a.kind@
                && options[i].currency@ == a.currency@ && options[i].name@ == display_name(
                dek,
                a,
                found(book.details@, a.id),
                found(masks, a.id),
            )
        }
}

/// Each account, to choose from.
pub fn account_choices(dek: &Dek, book: &Book, masks: &Vec<MaskedDetail>) -> (r: Vec<AccountOption>)
    ensures
        are_accounts(r@, dek@, *book, masks@),
{
    let mut options: Vec<AccountOption> = Vec::new();
    let mut i: usize = 0;
    while i < book.accounts.len()
        invariant
            i <= book.accounts.len(),
            options@.len() == i,
            forall|j: int|
                0 <= j < i ==> {
                    let a = book.accounts@[j];
                    (#[trigger] options@[j]).id == a.id && options@[j].kind@ == a.kind@
                        && options@[j].currency@ == a.currency@ && options@[j].name@
                        == display_name(
                        dek@,
                        a,
                        found(book.details@, a.id),
                        found(masks@, a.id),
                    )
                },
        decreases book.accounts.len() - i,
    {
        let a = &book.accounts[i];
        options.push(
            AccountOption {
                id: a.id,
                name: account_display_name(
                    dek,
                    a,
                    find(&book.details, a.id),
                    find(masks, a.id),
                ),
                kind: a.kind.clone(),
                currency: a.currency.clone(),
            },
        );
        i = i + 1;
    }
    options
}

/// The accounts to choose from; without any account there is nothing to enter.
pub fn account_options(dek: &Dek, book: &Book, masks: &Vec<MaskedDetail>) -> (r: HandlerResult<
    Vec<AccountOption>,
>)
    ensures
        match r {
            Ok(options) => book.accounts@.len() > 0 && are_accounts(
                options@,
                dek@,
                *book,
                masks@,
            ),
            Err(error) => book.accounts@.len() == 0 && error@ == bad("请先创建账户"@),
        },
{
    if book.accounts.len() == 0 {
        return Err(bad_request("请先创建账户"));
    }
    Ok(account_choices(dek, book, masks))
}

/// The accounts that money can be transferred from: those that grant no credit.
pub open spec fn sources(options: Seq<AccountOption>, n: int) -> Seq<int>
    decreases n,
{
    if n <= 0 {
        Seq::empty()
    } else if is_credit(options[n - 1].kind@) {
        sources(options, n - 1)
    } else {
        sources(options, n - 1).push(n - 1)
    }
}

/// The positions of the accounts that money can be transferred from.
pub fn transfer_sources(options: &Vec<AccountOption>) -> (r: Vec<usize>)
    ensures
        crate::order::positions(r@) == sources(options@, options@.len() as int),
{
    let mut chosen: Vec<usize> = Vec::new();
    let mut i: usize = 0;
    proof {
        assert(crate::order::positions(chosen@) =~= Seq::empty());
    }
    while i < options.len()
        invariant
            i <= options.len(),
            crate::order::positions(chosen@) == sources(options@, i as int),
        decreases options.len() - i,
    {
        let ghost before = chosen@;
        if !credit_kind(&options[i].kind) {
            chosen.push(i);
            proof {
                assert(crate::order::positions(chosen@) =~= crate::order::positions(before).push(
                    i as int,
                ));
            }
        }
        i = i + 1;
    }
    chosen
}

/// A person to choose.
pub struct PersonOption {
    pub id: i64,
    pub name: String,
}

/// The people to choose from.
pub fn people_options(dek: &Dek, people: &Vec<debt_person::Model>) -> (r: Vec<PersonOption>)
    ensures
        r@.len() == people@.len(),
        forall|i: int|
            0 <= i < r@.len() ==> (#[trigger] r@[i]).id == people@[i].id && r@[i].name@ == plain(
                dek@,
                people@[i].name@,
            ),
{
    let mut options: Vec<PersonOption> = Vec::new();
    let mut i: usize = 0;
    while i < people.len()
        invariant
            i <= people.len(),
            options@.len() == i,
            forall|j: int|
                0 <= j < i ==> (#[trigger] options@[j]).id == people@[j].id && options@[j].name@
                    == plain(dek@, people@[j].name@),
        decreases people.len() - i,
    {
        options.push(
            PersonOption { id: people[i].id, name: decrypt_string(dek, &people[i].name) },
        );
        i = i + 1;
    }
    options
}

/// What a bill moves on its account: an income comes in, an expense goes out.
pub open spec fn moves(b: bill::Model, dek: Seq<u8>) -> int {
    if b.kind@ == "income"@ {
        cents(dek, b.amount@)
    } else {
        -cents(dek, b.amount@)
    }
}

/// A bill that is stored has the kind, the account, the time and the amount of the form, and its
/// account may have the balance that it leaves: what it moves is added to the balance before.
pub proof fn stored_bill_is_covered(
    dek: &Dek,
    book: &Book,
    categories: &Vec<category::Model>,
    form: &BillFormData,
    now: DateTime,
    new: NewBill,
)
    requires
        form_sealable(*form),
        call_ensures(create, (dek, book, categories, form, now), Ok(new)),
    ensures
        ({
            let b = new.bill;
            &&& b.kind@ == form.kind@
            &&& b.kind@ == "income"@ || b.kind@ == "expense"@
            &&& (form_amount(*form) matches Ok(n) && cents(dek@, b.amount@) == n)
            &&& minute_of_text(form.happened_at@) == Some(b.happened_at)
            &&& (balance(dek@, *book, b.account_id) matches Ok(was) && crate::handlers::accounts::allowed(
                dek@,
                *book,
                b.account_id,
                was + moves(b, dek@),
            ) is Ok)
        }),
{
}

/// A bill that is changed takes back what the old one moved and moves what the new one says: on one
/// account together, on two accounts each on its own; the accounts may have the balances that are
/// left.
pub proof fn changed_bill_is_covered(
    dek: &Dek,
    book: &Book,
    categories: &Vec<category::Model>,
    executions: &Vec<investment_execution::Model>,
    items: &Vec<installment_item::Model>,
    plans: &Vec<installment_plan::Model>,
    id: i64,
    form: &BillFormData,
    row: bill::Model,
)
    requires
        form_sealable(*form),
        call_ensures(
            update,
            (dek, book, categories, executions, items, plans, id, form),
            Ok(row),
        ),
    ensures
        ({
            let old_row = found(book.bills@, id)->0;
            let (a, b) = (old_row.account_id, row.account_id);
            let (was, now) = (balance(dek@, *book, a), balance(dek@, *book, b));
            let (back, forth) = (moves(old_row, dek@), moves(row, dek@));
            &&& found(book.bills@, id) is Some
            &&& row.id == id
            &&& row.kind@ == form.kind@
            &&& was is Ok && now is Ok
            &&& a == b ==> crate::handlers::accounts::allowed(
                dek@,
                *book,
                a,
                was->Ok_0 - back + forth,
            ) is Ok
            &&& a != b ==> crate::handlers::accounts::allowed(
                dek@,
                *book,
                a,
                was->Ok_0 - back,
            ) is Ok && crate::handlers::accounts::allowed(dek@, *book, b, now->Ok_0 + forth) is Ok
        }),
{
}

/// A bill is deleted only where its account may have the balance without it.
pub proof fn deleted_bill_is_covered(
    dek: &Dek,
    book: &Book,
    executions: &Vec<investment_execution::Model>,
    items: &Vec<installment_item::Model>,
    plans: &Vec<installment_plan::Model>,
    id: i64,
    form: &DeleteFormData,
    target: &'static str,
)
    requires
        call_ensures(delete, (dek, book, executions, items, plans, id, form), Ok(target)),
    ensures
        ({
            let b = found(book.bills@, id)->0;
            &&& found(book.bills@, id) is Some
            &&& (balance(dek@, *book, b.account_id) matches Ok(was) && crate::handlers::accounts::allowed(
                dek@,
                *book,
                b.account_id,
                was - moves(b, dek@),
            ) is Ok)
        }),
{
}

/// The lines of the ledger show what their records move: a bill and a debt record with a plus what comes
/// in on their account and with a minus what goes out, in the currency of the account; a transfer what
/// is sent, and what is received where the currencies differ.
pub proof fn ledger_lines_show_what_moves(
    s: LedgerSource,
    b: bill::Model,
    t: transfer::Model,
    d: debt_record::Model,
)
    requires
        cents(s.dek, b.amount@) > 0,
        cents(s.dek, d.amount@) > 0,
        bill_entry(s, b) is Ok,
        transfer_entry(s, t) is Ok,
        debt_entry(s, d) is Ok,
    ensures
        ({
            let moved = crate::handlers::accounts::bill_delta(s.dek, b, b.account_id);
            let c = currency_of(s.book.accounts@, b.account_id, s.default_currency);
            bill_entry(s, b)->Ok_0.amount == if moved > 0 {
                "+"@ + amount_text(moved, c)
            } else {
                "-"@ + amount_text(-moved, c)
            }
        }),
        bill_entry(s, b)->Ok_0.sort_key == b.happened_at,
        bill_entry(s, b)->Ok_0.bill_kind == b.kind@,
        ({
            let moved = crate::handlers::accounts::debt_delta(s.dek, d, d.account_id);
            let c = currency_of(s.book.accounts@, d.account_id, s.default_currency);
            debt_entry(s, d)->Ok_0.amount == if moved > 0 {
                "+"@ + amount_text(moved, c)
            } else {
                "-"@ + amount_text(-moved, c)
            }
        }),
        debt_entry(s, d)->Ok_0.sort_key == d.happened_at,
        debt_entry(s, d)->Ok_0.bill_kind.len() == 0,
        transfer_entry(s, t)->Ok_0.sort_key == t.happened_at,
        transfer_entry(s, t)->Ok_0.bill_kind.len() == 0,
        ({
            let from = currency_of(s.book.accounts@, t.from_account_id, s.default_currency);
            let to = currency_of(s.book.accounts@, t.to_account_id, s.default_currency);
            let sent = amount_text(cents(s.dek, t.amount@), from);
            transfer_entry(s, t)->Ok_0.amount == if from == to {
                sent
            } else {
                sent + " → "@ + amount_text(received(s.dek, t), to)
            }
        }),
{
    reveal(bill_entry);
    reveal(transfer_entry);
    reveal(debt_entry);
}

/// The plan of an expense that is paid in instalments pays the expense back: the parts of its payments
/// are together the amount of the bill, their fees the fee of the plan, and there is one payment for
/// each of its months.
pub proof fn plan_pays_the_bill_back(
    dek: &Dek,
    book: &Book,
    categories: &Vec<category::Model>,
    form: &BillFormData,
    now: DateTime,
    new: NewBill,
)
    requires
        form_sealable(*form),
        call_ensures(create, (dek, book, categories, form, now), Ok(new)),
        new.plan is Some,
    ensures
        ({
            let rows = new.plan->0;
            &&& form.use_installment
            &&& new.bill.kind@ == "expense"@
            &&& rows.plan.account_id == new.bill.account_id
            &&& rows.amounts@.len() == rows.plan.term_months
            &&& crate::handlers::installments::principal_sum(rows.amounts@) == cents(
                dek@,
                new.bill.amount@,
            )
            &&& crate::handlers::installments::fee_sum(rows.amounts@) == cents(dek@, rows.plan.fee@)
        }),
{
    let amount = form_amount(*form)->Ok_0;
    let rows = new.plan->0;
    let input = choose|input: NewPlan| #[trigger]
        is_form_plan(input, *form) && match (
            Ok::<Option<PlanRows>, crate::error::HandlerError>(new.plan),
            payments(amount as int, input),
        ) {
            (Ok(Some(rows)), Ok(amounts)) => {
                &&& rows.amounts@ == amounts
                &&& rows.plan.account_id == form_account(*form)
                &&& rows.plan.term_months == input.term_months
                &&& rows.plan.method@ == input.method@
                &&& cents(dek@, rows.plan.annual_rate_bps@) == input.annual_rate_bps
                &&& cents(dek@, rows.plan.fee@) == input.fee
                &&& rows.plan.first_due_date == input.first_due_date
                &&& rows.plan.created_at == now
            },
            _ => false,
        };
    crate::handlers::installments::schedule_pays_all(amount, input);
}

} // verus!
