//! Money lent, borrowed and paid back, and who owes how much.
use vstd::prelude::*;
use vstd::string::*;

use crate::book::{find, found, Book, Row};
use crate::calendar::{minute_of_text, parse_minute, DateTime};
use crate::crypto::{
    cents, decrypt_cents, decrypt_string, encrypt_cents, encrypt_string, plain, sealable, Dek,
};
use crate::currency::{amount_text, RateTable};
use crate::decimal::{fits_i64, parse_money};
use crate::entity::{account, debt_person, debt_record};
use crate::error::{
    agrees, bad, bad_request, err500, internal, missing, not_found, ErrorView, HandlerResult,
};
use crate::filter::{combine, combined};
use crate::handlers::accounts::{
    allowed, amounts_added, balance, bill_deltas, brings_in, change_allowed, debt_delta,
    debt_deltas, deltas, ensure_balance_delta, ensure_changes, same_amounts, transfer_deltas,
};
use crate::handlers::bills::{
    amount_allowed, between, converts, crossed, crossed_amounts, currency_of, find_currency, in_default, parse_search_amount, search_amount, text_view, to_default,
};
use crate::handlers::transfers::{amount_of_text, return_target, return_to};
use crate::handlers::Page;
use crate::order::{page_of, take_page};
use crate::tally::Tally;
use crate::text::{
    contains, has_part, int_text, int_to_text, join3, lower_text, lowercase, same, trimmed,
    trimmed_bytes,
};
use crate::totals::{negated, total};

verus! {

/// The form of a debt record.
pub struct DebtRecordFormData {
    pub person_id: i64,
    pub account_id: i64,
    pub kind: String,
    pub amount: String,
    pub note: String,
    pub happened_at: String,
    pub redirect_to: Option<String>,
}

/// The answer when a debt record was stored.
pub struct DebtCreateResponse {
    pub ok: bool,
    pub message: String,
    pub redirect: String,
}

/// Where to go when a debt record is deleted.
pub struct DeleteRecordFormData {
    pub redirect_to: Option<String>,
}

/// The form of a person.
pub struct DebtPersonFormData {
    pub name: String,
    pub note: String,
}

/// What is looked for among the people.
pub struct DebtPeopleQuery {
    pub page: usize,
    pub per_page: usize,
    pub mode: String,
    pub keyword: String,
    pub relationship: String,
    pub min_receivable: String,
    pub max_receivable: String,
    pub min_payable: String,
    pub max_payable: String,
}

impl Row for debt_record::Model {
    open spec fn key(&self) -> i64 {
        self.id
    }

    fn row_key(&self) -> i64 {
        self.id
    }
}

/// The kinds of debt records.
pub open spec fn is_debt_kind(kind: Seq<char>) -> bool {
    kind == "lend"@ || kind == "borrow"@ || kind == "repayment_received"@ || kind
        == "repayment_paid"@
}

pub fn valid_kind(kind: &str) -> (r: bool)
    ensures
        r == is_debt_kind(kind@),
{
    same(kind, "lend") || same(kind, "borrow") || same(kind, "repayment_received") || same(
        kind,
        "repayment_paid",
    )
}

/// What a record adds to the balance of its account, or the refusal.
pub open spec fn record_delta(kind: Seq<char>, amount: int) -> Result<i64, ErrorView> {
    if brings_in(kind) {
        Ok(amount as i64)
    } else if fits_i64(-amount) {
        Ok((-amount) as i64)
    } else {
        Err(bad("金额超出范围"@))
    }
}

pub fn account_delta(kind: &str, amount: i64) -> (r: HandlerResult<i64>)
    ensures
        agrees(r, record_delta(kind@, amount as int)),
{
    if same(kind, "borrow") || same(kind, "repayment_received") {
        Ok(amount)
    } else {
        match negated(amount) {
            Some(n) => Ok(n),
            None => Err(bad_request("金额超出范围")),
        }
    }
}

/// The amount above zero that a text gives.
pub fn parse_amount(value: &str) -> (r: HandlerResult<i64>)
    ensures
        agrees(r, amount_of_text(value@)),
        r matches Ok(n) ==> n > 0,
{
    parse_money(value, 1, "金额格式不正确", "金额必须大于 0", "金额超出范围")
}

/// What someone owes and is owed once a record counts: lending and borrowing raise it, paying back
/// lowers it.
pub open spec fn owed_with(kind: Seq<char>, amount: int, owed: (int, int)) -> (int, int) {
    if kind == "lend"@ {
        (owed.0 + amount, owed.1)
    } else if kind == "repayment_received"@ {
        (owed.0 - amount, owed.1)
    } else if kind == "borrow"@ {
        (owed.0, owed.1 + amount)
    } else if kind == "repayment_paid"@ {
        (owed.0, owed.1 - amount)
    } else {
        owed
    }
}

/// Counts a record: the new amounts, or the refusal where one of them is out of range.
pub fn apply_outstanding(kind: &str, amount: i64, receivable: i64, payable: i64) -> (r:
    HandlerResult<(i64, i64)>)
    ensures
        ({
            let owed = owed_with(kind@, amount as int, (receivable as int, payable as int));
            match r {
                Ok(new) => new.0 == owed.0 && new.1 == owed.1,
                Err(error) => !(fits_i64(owed.0) && fits_i64(owed.1)) && error@ == internal(
                    "借贷金额超出范围"@,
                ),
            }
        }),
{
    let first = if same(kind, "lend") {
        receivable.checked_add(amount)
    } else if same(kind, "repayment_received") {
        receivable.checked_sub(amount)
    } else {
        Some(receivable)
    };
    let lending = same(kind, "lend") || same(kind, "repayment_received");
    let second = if lending {
        Some(payable)
    } else if same(kind, "borrow") {
        payable.checked_add(amount)
    } else if same(kind, "repayment_paid") {
        payable.checked_sub(amount)
    } else {
        Some(payable)
    };
    match (first, second) {
        (Some(a), Some(b)) => Ok((a, b)),
        _ => Err(err500("借贷金额超出范围")),
    }
}

/// Paying back what was lent, or what was borrowed, leaves what was owed before.
pub proof fn repaying_settles(amount: int, owed: (int, int))
    ensures
        owed_with("repayment_received"@, amount, owed_with("lend"@, amount, owed)) == owed,
        owed_with("repayment_paid"@, amount, owed_with("borrow"@, amount, owed)) == owed,
{
    reveal_strlit("lend");
    reveal_strlit("borrow");
    reveal_strlit("repayment_received");
    reveal_strlit("repayment_paid");
    assert("lend"@.len() == 4 && "borrow"@.len() == 6 && "repayment_received"@.len() == 18
        && "repayment_paid"@.len() == 14);
}

/// What debts are reckoned from.
pub struct DebtSource {
    pub dek: Seq<u8>,
    pub records: Seq<debt_record::Model>,
    pub accounts: Seq<account::Model>,
    pub rates: RateTable,
    pub default_currency: Seq<char>,
}

/// The amount of a record in the default currency, or the refusal.
pub open spec fn record_amount(s: DebtSource, d: debt_record::Model) -> Result<i64, ErrorView> {
    in_default(
        s.rates,
        cents(s.dek, d.amount@),
        currency_of(s.accounts, d.account_id, s.default_currency),
    )
}

/// What a person owes and is owed after the first `n` records.
pub open spec fn owed(s: DebtSource, person: i64, n: int) -> (int, int)
    decreases n,
{
    if n <= 0 {
        (0, 0)
    } else {
        let d = s.records[n - 1];
        let before = owed(s, person, n - 1);
        if d.person_id != person || record_amount(s, d) is Err {
            before
        } else {
            owed_with(d.kind@, record_amount(s, d)->Ok_0 as int, before)
        }
    }
}

/// Why a record cannot be counted, where it cannot.
pub open spec fn record_refusal(s: DebtSource, n: int) -> Option<ErrorView> {
    let d = s.records[n];
    match record_amount(s, d) {
        Err(e) => Some(e),
        Ok(_) => {
            let after = owed(s, d.person_id, n + 1);
            if fits_i64(after.0) && fits_i64(after.1) {
                None
            } else {
                Some(internal("借贷金额超出范围"@))
            }
        },
    }
}

/// Why the first `n` records cannot be counted, where they cannot: for all people, or for one.
pub open spec fn records_refusal(s: DebtSource, person: Option<i64>, n: int) -> Option<ErrorView>
    decreases n,
{
    if n <= 0 {
        None
    } else {
        match records_refusal(s, person, n - 1) {
            Some(e) => Some(e),
            None => if person is Some && s.records[n - 1].person_id != person->0 {
                None
            } else {
                record_refusal(s, n - 1)
            },
        }
    }
}

proof fn refusal_stops(s: DebtSource, person: Option<i64>, m: int, n: int)
    requires
        0 <= m <= n,
        records_refusal(s, person, m) is Some,
    ensures
        records_refusal(s, person, n) == records_refusal(s, person, m),
    decreases n,
{
    if m < n {
        refusal_stops(s, person, m, n - 1);
    }
}

/// What each of the first `n` records with a person comes to is its amount in the default currency.
pub open spec fn records_convert(s: DebtSource, person: i64, n: int) -> bool {
    forall|i: int|
        0 <= i < n && (#[trigger] s.records[i]).person_id == person ==> record_amount(
            s,
            s.records[i],
        ) is Ok && converts(
            record_amount(s, s.records[i])->Ok_0 as int,
            s.dek,
            s.rates,
            s.accounts,
            s.default_currency,
            s.records[i].amount@,
            s.records[i].account_id,
        )
}

/// What a person owes is what was lent to the person but not received back, and what is owed to the
/// person is what was borrowed but not paid back; each record counts in the default currency, and
/// those with other people do not count.
pub proof fn outstanding_is_not_paid_back(
    dek: &Dek,
    book: &Book,
    rates: &RateTable,
    default_currency: &str,
    person_id: i64,
    sums: (i64, i64),
)
    requires
        rates.wf(),
        call_ensures(person_outstanding, (dek, book, rates, default_currency, person_id), Ok(sums)),
    ensures
        ({
            let s = DebtSource {
                dek: dek@,
                records: book.debts@,
                accounts: book.accounts@,
                rates: *rates,
                default_currency: default_currency@,
            };
            let amounts = |kind: Seq<char>| kind_total(s, person_id, kind, book.debts@.len() as int);
            &&& sums.0 == amounts("lend"@) - amounts("repayment_received"@)
            &&& sums.1 == amounts("borrow"@) - amounts("repayment_paid"@)
            &&& records_convert(s, person_id, book.debts@.len() as int)
        }),
{
    let s = DebtSource {
        dek: dek@,
        records: book.debts@,
        accounts: book.accounts@,
        rates: *rates,
        default_currency: default_currency@,
    };
    let n = book.debts@.len() as int;
    owed_is_difference(s, person_id, n);
}

proof fn owed_is_difference(s: DebtSource, person: i64, n: int)
    requires
        0 <= n <= s.records.len(),
        forall|i: int|
            0 <= i < n && (#[trigger] s.records[i]).person_id == person ==> record_amount(
                s,
                s.records[i],
            ) is Ok,
    ensures
        ({
            let amounts = |kind: Seq<char>| kind_total(s, person, kind, n);
            &&& owed(s, person, n).0 == amounts("lend"@) - amounts("repayment_received"@)
            &&& owed(s, person, n).1 == amounts("borrow"@) - amounts("repayment_paid"@)
        }),
    decreases n,
{
    reveal_strlit("lend");
    reveal_strlit("borrow");
    reveal_strlit("repayment_received");
    reveal_strlit("repayment_paid");
    assert("lend"@.len() == 4 && "borrow"@.len() == 6 && "repayment_received"@.len() == 18
        && "repayment_paid"@.len() == 14);
    if n > 0 {
        owed_is_difference(s, person, n - 1);
        amounts_step(s, person, n, "lend"@);
        amounts_step(s, person, n, "repayment_received"@);
        amounts_step(s, person, n, "borrow"@);
        amounts_step(s, person, n, "repayment_paid"@);
    }
}

proof fn amounts_step(s: DebtSource, person: i64, n: int, kind: Seq<char>)
    requires
        0 < n <= s.records.len(),
    ensures
        kind_total(s, person, kind, n) == kind_total(s, person, kind, n - 1) + (if s.records[n
            - 1].person_id == person && s.records[n - 1].kind@ == kind {
            record_amount(s, s.records[n - 1])->Ok_0 as int
        } else {
            0
        }),
{
    assert(kind_amounts(s, person, kind, n).drop_last() =~= kind_amounts(s, person, kind, n - 1));
}

/// What each of the first `n` records comes to where it is of a kind and with a person, else nothing.
pub open spec fn kind_amounts(s: DebtSource, person: i64, kind: Seq<char>, n: int) -> Seq<int> {
    Seq::new(
        n as nat,
        |i: int|
            if s.records[i].person_id == person && s.records[i].kind@ == kind {
                record_amount(s, s.records[i])->Ok_0 as int
            } else {
                0
            },
    )
}

/// What the records of a kind with a person come to among the first `n`.
pub open spec fn kind_total(s: DebtSource, person: i64, kind: Seq<char>, n: int) -> int {
    total(kind_amounts(s, person, kind, n))
}

/// What a person owes and is owed, in the default currency.
pub fn person_outstanding(
    dek: &Dek,
    book: &Book,
    rates: &RateTable,
    default_currency: &str,
    person_id: i64,
) -> (r: HandlerResult<(i64, i64)>)
    requires
        rates.wf(),
    ensures
        ({
            let s = DebtSource {
                dek: dek@,
                records: book.debts@,
                accounts: book.accounts@,
                rates: *rates,
                default_currency: default_currency@,
            };
            let n = book.debts@.len() as int;
            match r {
                Ok(sums) => records_refusal(s, Some(person_id), n) is None && owed(s, person_id, n)
                    == (sums.0 as int, sums.1 as int) && records_convert(s, person_id, n),
                Err(error) => records_refusal(s, Some(person_id), n) == Some(error@),
            }
        }),
{
    let ghost s = DebtSource {
        dek: dek@,
        records: book.debts@,
        accounts: book.accounts@,
        rates: *rates,
        default_currency: default_currency@,
    };
    let ghost n = book.debts@.len() as int;
    let mut receivable: i64 = 0;
    let mut payable: i64 = 0;
    let mut i: usize = 0;
    while i < book.debts.len()
        invariant
            i <= book.debts.len(),
            n == book.debts@.len(),
            rates.wf(),
            s == (DebtSource {
                dek: dek@,
                records: book.debts@,
                accounts: book.accounts@,
                rates: *rates,
                default_currency: default_currency@,
            }),
            records_refusal(s, Some(person_id), i as int) is None,
            owed(s, person_id, i as int) == (receivable as int, payable as int),
            records_convert(s, person_id, i as int),
        decreases book.debts.len() - i,
    {
        let d = &book.debts[i];
        if d.person_id == person_id {
            let c = find_currency(&book.accounts, d.account_id, default_currency);
            let amount: i64 = match to_default(rates, decrypt_cents(dek, &d.amount), &c) {
                Ok(amount) => amount,
                Err(error) => {
                    proof {
                        refusal_stops(s, Some(person_id), i + 1, n);
                    }
                    return Err(error);
                },
            };
            match apply_outstanding(&d.kind, amount, receivable, payable) {
                Ok(sums) => {
                    receivable = sums.0;
                    payable = sums.1;
                },
                Err(error) => {
                    proof {
                        refusal_stops(s, Some(person_id), i + 1, n);
                    }
                    return Err(error);
                },
            }
        }
        i = i + 1;
    }
    Ok((receivable, payable))
}

/// Why a debt record cannot be added, where it cannot: nobody pays back more than is owed, and the
/// account may not be left with a balance that it may not have.
pub open spec fn create_refusal(
    dek: Seq<u8>,
    book: Book,
    rates: RateTable,
    default_currency: Seq<char>,
    form: DebtRecordFormData,
) -> Option<ErrorView> {
    let s = DebtSource {
        dek,
        records: book.debts@,
        accounts: book.accounts@,
        rates,
        default_currency,
    };
    let n = book.debts@.len() as int;
    if !is_debt_kind(form.kind@) {
        Some(bad("借还类型无效"@))
    } else if found(book.people@, form.person_id) is None {
        Some(bad("借贷对象不存在"@))
    } else {
        match found(book.accounts@, form.account_id) {
            None => Some(bad("账户不存在"@)),
            Some(a) => match amount_of_text(form.amount@) {
                Err(e) => Some(e),
                Ok(amount) => match records_refusal(s, Some(form.person_id), n) {
                    Some(e) => Some(e),
                    None => match in_default(rates, amount as int, a.currency@) {
                        Err(e) => Some(e),
                        Ok(worth) => {
                            let (receivable, payable) = owed(s, form.person_id, n);
                            if form.kind@ == "repayment_received"@ && worth > receivable {
                                Some(bad("还款金额超过对方尚欠金额"@))
                            } else if form.kind@ == "repayment_paid"@ && worth > payable {
                                Some(bad("还款金额超过尚欠对方金额"@))
                            } else {
                                match record_delta(form.kind@, amount as int) {
                                    Err(e) => Some(e),
                                    Ok(delta) => match change_allowed(
                                        dek,
                                        book,
                                        form.account_id,
                                        delta as int,
                                    ) {
                                        Err(e) => Some(e),
                                        Ok(_) => if minute_of_text(form.happened_at@) is None {
                                            Some(bad("时间格式不正确"@))
                                        } else {
                                            None
                                        },
                                    },
                                }
                            }
                        },
                    },
                },
            },
        }
    }
}

/// A row stores the debt record of a form.
pub open spec fn stores(row: debt_record::Model, dek: Seq<u8>, form: DebtRecordFormData) -> bool {
    &&& row.person_id == form.person_id
    &&& row.account_id == form.account_id
    &&& row.kind@ == form.kind@
    &&& amount_of_text(form.amount@) is Ok
    &&& cents(dek, row.amount@) == amount_of_text(form.amount@)->Ok_0
    &&& plain(dek, row.note@) == trimmed(form.note@)
    &&& minute_of_text(form.happened_at@) == Some(row.happened_at)
}

/// Adds a debt record: the row to store.
pub fn create_record(
    dek: &Dek,
    book: &Book,
    rates: &RateTable,
    default_currency: &str,
    form: &DebtRecordFormData,
    now: DateTime,
) -> (r: HandlerResult<debt_record::Model>)
    requires
        rates.wf(),
        sealable(form.note@),
    ensures
        match (r, create_refusal(dek@, *book, *rates, default_currency@, *form)) {
            (Ok(row), None) => stores(row, dek@, *form) && row.created_at == now,
            (Err(error), Some(wanted)) => error@ == wanted,
            _ => false,
        },
{
    if !valid_kind(&form.kind) {
        return Err(bad_request("借还类型无效"));
    }
    if find(&book.people, form.person_id).is_none() {
        return Err(bad_request("借贷对象不存在"));
    }
    let account = match find(&book.accounts, form.account_id) {
        Some(account) => account,
        None => return Err(bad_request("账户不存在")),
    };
    let amount: i64 = match parse_amount(&form.amount) {
        Ok(amount) => amount,
        Err(error) => return Err(error),
    };
    let (receivable, payable) = match person_outstanding(
        dek,
        book,
        rates,
        default_currency,
        form.person_id,
    ) {
        Ok(sums) => sums,
        Err(error) => return Err(error),
    };
    let worth: i64 = match to_default(rates, amount, &account.currency) {
        Ok(worth) => worth,
        Err(error) => return Err(error),
    };
    if same(&form.kind, "repayment_received") && worth > receivable {
        return Err(bad_request("还款金额超过对方尚欠金额"));
    }
    if same(&form.kind, "repayment_paid") && worth > payable {
        return Err(bad_request("还款金额超过尚欠对方金额"));
    }
    let delta: i64 = match account_delta(&form.kind, amount) {
        Ok(delta) => delta,
        Err(error) => return Err(error),
    };
    match ensure_balance_delta(dek, book, form.account_id, delta) {
        Ok(_) => {},
        Err(error) => return Err(error),
    }
    let happened_at = match parse_minute(&form.happened_at) {
        Some(time) => time,
        None => return Err(bad_request("时间格式不正确")),
    };
    proof {
        trimmed_bytes(form.note@);
    }
    Ok(
        debt_record::Model {
            id: 0,
            person_id: form.person_id,
            account_id: form.account_id,
            kind: form.kind.clone(),
            amount: encrypt_cents(dek, amount),
            note: encrypt_string(dek, form.note.as_str().trim()),
            happened_at,
            created_at: now,
        },
    )
}

/// Paying back is never recorded beyond what is owed: after a repayment that was accepted, neither
/// side owes less than nothing on that account, where it did not before.
pub proof fn repayment_never_exceeds_debt(
    dek: Seq<u8>,
    book: Book,
    rates: RateTable,
    default_currency: Seq<char>,
    form: DebtRecordFormData,
    row: debt_record::Model,
)
    requires
        create_refusal(dek, book, rates, default_currency, form) is None,
        stores(row, dek, form),
        form.kind@ == "repayment_received"@ || form.kind@ == "repayment_paid"@,
    ensures
        ({
            let after = DebtSource {
                dek,
                records: book.debts@.push(row),
                accounts: book.accounts@,
                rates,
                default_currency,
            };
            let sums = owed(after, form.person_id, (book.debts@.len() + 1) as int);
            if form.kind@ == "repayment_received"@ {
                sums.0 >= 0
            } else {
                sums.1 >= 0
            }
        }),
{
    let before = DebtSource {
        dek,
        records: book.debts@,
        accounts: book.accounts@,
        rates,
        default_currency,
    };
    let after = DebtSource { records: book.debts@.push(row), ..before };
    owed_front(before, after, form.person_id, book.debts@.len() as int);
    reveal_strlit("lend");
    reveal_strlit("borrow");
    reveal_strlit("repayment_received");
    reveal_strlit("repayment_paid");
    assert("lend"@.len() == 4 && "borrow"@.len() == 6 && "repayment_received"@.len() == 18
        && "repayment_paid"@.len() == 14);
}

proof fn owed_front(a: DebtSource, b: DebtSource, person: i64, n: int)
    requires
        0 <= n <= a.records.len() <= b.records.len(),
        forall|i: int| 0 <= i < a.records.len() ==> a.records[i] == b.records[i],
        b == (DebtSource { records: b.records, ..a }),
    ensures
        owed(a, person, n) == owed(b, person, n),
    decreases n,
{
    if n > 0 {
        owed_front(a, b, person, n - 1);
    }
}

/// Two books differ in their debt records alone.
pub open spec fn same_but_debts(before: Book, after: Book) -> bool {
    &&& after.accounts@ == before.accounts@
    &&& after.details@ == before.details@
    &&& after.bills@ == before.bills@
    &&& after.transfers@ == before.transfers@
}

/// A book with one more debt record: the balance of every account changes by what the record adds
/// to it.
pub proof fn debt_added(dek: Seq<u8>, before: Book, after: Book, d: debt_record::Model, id: i64)
    requires
        same_but_debts(before, after),
        after.debts@ == before.debts@.push(d),
        balance(dek, before, id) is Ok,
        balance(dek, after, id) is Ok,
    ensures
        balance(dek, after, id)->Ok_0 == balance(dek, before, id)->Ok_0 + debt_delta(dek, d, id),
{
    let x = bill_deltas(dek, before.bills@, id) + transfer_deltas(dek, before.transfers@, id);
    let z = debt_deltas(dek, before.debts@, id);
    let y = debt_delta(dek, d, id);
    assert(debt_deltas(dek, after.debts@, id) =~= z.push(y));
    crate::totals::checked_total_push(z, y);
    crate::totals::total_concat(x, z);
    crate::totals::total_concat(x, z.push(y));
    crate::totals::checked_total_is_total(deltas(dek, before, id));
    crate::totals::checked_total_is_total(deltas(dek, after, id));
}

/// A debt record that was accepted leaves its account with a balance that it may have.
pub proof fn accepted_record_keeps_limits(
    dek: Seq<u8>,
    before: Book,
    after: Book,
    rates: RateTable,
    default_currency: Seq<char>,
    form: DebtRecordFormData,
    row: debt_record::Model,
)
    requires
        create_refusal(dek, before, rates, default_currency, form) is None,
        stores(row, dek, form),
        same_but_debts(before, after),
        after.debts@ == before.debts@.push(row),
        balance(dek, after, row.account_id) is Ok,
    ensures
        allowed(
            dek,
            after,
            row.account_id,
            balance(dek, after, row.account_id)->Ok_0 as int,
        ) is Ok,
{
    debt_added(dek, before, after, row, row.account_id);
}

/// What deleting a record does to the balance of its account, or the refusal.
pub open spec fn undo_delta(dek: Seq<u8>, d: debt_record::Model) -> Result<i64, ErrorView> {
    match record_delta(d.kind@, cents(dek, d.amount@)) {
        Err(e) => Err(e),
        Ok(delta) => if fits_i64(-delta) {
            Ok((-delta) as i64)
        } else {
            Err(bad("金额超出范围"@))
        },
    }
}

fn find_undo_delta(dek: &Dek, d: &debt_record::Model) -> (r: HandlerResult<i64>)
    ensures
        agrees(r, undo_delta(dek@, *d)),
{
    match account_delta(&d.kind, decrypt_cents(dek, &d.amount)) {
        Err(error) => Err(error),
        Ok(delta) => match negated(delta) {
            Some(back) => Ok(back),
            None => Err(bad_request("金额超出范围")),
        },
    }
}

/// Allows or refuses that a debt record is deleted, and says where to go then.
pub fn delete_record(dek: &Dek, book: &Book, id: i64, form: &DeleteRecordFormData) -> (r:
    HandlerResult<&'static str>)
    ensures
        match found(book.debts@, id) {
            None => r matches Err(error) && error@ == missing("借还记录不存在"@),
            Some(d) => match undo_delta(dek@, d) {
                Err(wanted) => r matches Err(error) && error@ == wanted,
                Ok(delta) => match (r, change_allowed(dek@, *book, d.account_id, delta as int)) {
                    (Ok(target), Ok(_)) => target@ == return_target(text_view(form.redirect_to)),
                    (Err(error), Err(wanted)) => error@ == wanted,
                    _ => false,
                },
            },
        },
{
    let d = match find(&book.debts, id) {
        Some(d) => d,
        None => return Err(not_found("借还记录不存在")),
    };
    let delta: i64 = match find_undo_delta(dek, d) {
        Ok(delta) => delta,
        Err(error) => return Err(error),
    };
    match ensure_balance_delta(dek, book, d.account_id, delta) {
        Ok(_) => Ok(return_to(&form.redirect_to)),
        Err(error) => Err(error),
    }
}

/// By how much balances change when the first `n` records of a person are deleted.
pub open spec fn changes(dek: Seq<u8>, records: Seq<debt_record::Model>, person: i64, n: int) -> Result<
    Map<i64, int>,
    ErrorView,
>
    decreases n,
{
    if n <= 0 {
        Ok(Map::empty())
    } else {
        match changes(dek, records, person, n - 1) {
            Err(e) => Err(e),
            Ok(sums) => {
                let d = records[n - 1];
                if d.person_id != person {
                    Ok(sums)
                } else {
                    match undo_delta(dek, d) {
                        Err(e) => Err(e),
                        Ok(delta) => {
                            let now = if sums.dom().contains(d.account_id) {
                                sums[d.account_id]
                            } else {
                                0
                            };
                            if fits_i64(now + delta) {
                                Ok(sums.insert(d.account_id, now + delta))
                            } else {
                                Err(bad("余额超出范围"@))
                            }
                        },
                    }
                }
            },
        }
    }
}

proof fn changes_stop(dek: Seq<u8>, records: Seq<debt_record::Model>, person: i64, m: int, n: int)
    requires
        0 <= m <= n,
        changes(dek, records, person, m) is Err,
    ensures
        changes(dek, records, person, n) == changes(dek, records, person, m),
    decreases n,
{
    if m < n {
        changes_stop(dek, records, person, m, n - 1);
    }
}

fn collect_changes(dek: &Dek, records: &Vec<debt_record::Model>, person: i64) -> (r: HandlerResult<
    Tally,
>)
    ensures
        match (r, changes(dek@, records@, person, records@.len() as int)) {
            (Ok(sums), Ok(map)) => same_amounts(sums, map),
            (Err(error), Err(wanted)) => error@ == wanted,
            _ => false,
        },
{
    let mut sums = Tally::new();
    let mut i: usize = 0;
    while i < records.len()
        invariant
            i <= records.len(),
            changes(dek@, records@, person, i as int) is Ok,
            same_amounts(sums, changes(dek@, records@, person, i as int)->Ok_0),
        decreases records.len() - i,
    {
        let d = &records[i];
        if d.person_id == person {
            let ghost map = changes(dek@, records@, person, i as int)->Ok_0;
            let ghost before = sums;
            match find_undo_delta(dek, d) {
                Err(error) => {
                    proof {
                        changes_stop(dek@, records@, person, i + 1, records@.len() as int);
                    }
                    return Err(error);
                },
                Ok(delta) => {
                    let kept = sums.add(d.account_id, delta);
                    proof {
                        assert(before.amount(d.account_id) == if map.dom().contains(d.account_id) {
                            map[d.account_id]
                        } else {
                            0
                        });
                    }
                    if !kept {
                        proof {
                            changes_stop(dek@, records@, person, i + 1, records@.len() as int);
                        }
                        return Err(bad_request("余额超出范围"));
                    }
                    proof {
                        amounts_added(before, sums, map, d.account_id, delta as int);
                    }
                },
            }
        }
        i = i + 1;
    }
    Ok(sums)
}

/// Allows or refuses that a person is deleted: the records with the person go too, and no account
/// may be left with a balance that it may not have.
pub fn delete_person(dek: &Dek, book: &Book, id: i64) -> (r: HandlerResult<()>)
    ensures
        if found(book.people@, id) is None {
            r matches Err(error) && error@ == missing("借贷对象不存在"@)
        } else {
            match changes(dek@, book.debts@, id, book.debts@.len() as int) {
                Err(wanted) => r matches Err(error) && error@ == wanted,
                Ok(map) => match r {
                    Ok(_) => forall|account: i64| #[trigger]
                        map.dom().contains(account) ==> change_allowed(
                            dek@,
                            *book,
                            account,
                            map[account],
                        ) is Ok,
                    Err(error) => exists|account: i64| #[trigger]
                        map.dom().contains(account) && change_allowed(
                            dek@,
                            *book,
                            account,
                            map[account],
                        ) == Err::<(), ErrorView>(error@),
                },
            }
        },
{
    if find(&book.people, id).is_none() {
        return Err(not_found("借贷对象不存在"));
    }
    let sums = match collect_changes(dek, &book.debts, id) {
        Ok(sums) => sums,
        Err(error) => return Err(error),
    };
    let ghost map = changes(dek@, book.debts@, id, book.debts@.len() as int)->Ok_0;
    ensure_changes(dek, book, &sums, Ghost(map))
}

/// Makes a person: the row to store.
pub fn create_person(dek: &Dek, form: &DebtPersonFormData, now: DateTime) -> (r: HandlerResult<
    debt_person::Model,
>)
    requires
        sealable(form.name@),
        sealable(form.note@),
    ensures
        match r {
            Ok(row) => trimmed(form.name@).len() > 0 && plain(dek@, row.name@) == trimmed(
                form.name@,
            ) && plain(dek@, row.note@) == trimmed(form.note@) && row.created_at == now,
            Err(error) => trimmed(form.name@).len() == 0 && error@ == bad("姓名不能为空"@),
        },
{
    if form.name.as_str().trim().is_empty() {
        return Err(bad_request("姓名不能为空"));
    }
    proof {
        trimmed_bytes(form.name@);
        trimmed_bytes(form.note@);
    }
    Ok(
        debt_person::Model {
            id: 0,
            name: encrypt_string(dek, form.name.as_str().trim()),
            note: encrypt_string(dek, form.note.as_str().trim()),
            created_at: now,
        },
    )
}

/// Changes the name and the note of a person: the row to store in its place.
pub fn update_person(dek: &Dek, book: &Book, id: i64, form: &DebtPersonFormData) -> (r:
    HandlerResult<debt_person::Model>)
    requires
        sealable(form.name@),
        sealable(form.note@),
    ensures
        if trimmed(form.name@).len() == 0 {
            r matches Err(error) && error@ == bad("姓名不能为空"@)
        } else {
            match (r, found(book.people@, id)) {
                (Ok(row), Some(p)) => row.id == id && plain(dek@, row.name@) == trimmed(form.name@)
                    && plain(dek@, row.note@) == trimmed(form.note@) && row.created_at
                    == p.created_at,
                (Err(error), None) => error@ == missing("借贷对象不存在"@),
                _ => false,
            }
        },
{
    if form.name.as_str().trim().is_empty() {
        return Err(bad_request("姓名不能为空"));
    }
    proof {
        trimmed_bytes(form.name@);
        trimmed_bytes(form.note@);
    }
    match find(&book.people, id) {
        None => Err(not_found("借贷对象不存在")),
        Some(p) => Ok(
            debt_person::Model {
                id,
                name: encrypt_string(dek, form.name.as_str().trim()),
                note: encrypt_string(dek, form.note.as_str().trim()),
                created_at: p.created_at,
            },
        ),
    }
}

/// The form for a person.
pub struct DebtPersonForm {
    pub heading: String,
    pub action: String,
    pub name: String,
    pub note: String,
}

/// The empty form for a new person.
pub fn new_person_form() -> (r: DebtPersonForm)
    ensures
        r.heading@ == "新增借贷对象"@,
        r.action@ == "/debt-people"@,
        r.name@.len() == 0,
        r.note@.len() == 0,
{
    DebtPersonForm {
        heading: "新增借贷对象".to_owned(),
        action: "/debt-people".to_owned(),
        name: String::new(),
        note: String::new(),
    }
}

/// The form that changes a person.
pub fn edit_person_form(dek: &Dek, book: &Book, id: i64) -> (r: HandlerResult<DebtPersonForm>)
    ensures
        match (r, found(book.people@, id)) {
            (Ok(form), Some(p)) => form.heading@ == "编辑借贷对象"@ && form.action@
                == "/debt-people/"@ + int_text(id as int) + "/edit"@ && form.name@ == plain(
                dek@,
                p.name@,
            ) && form.note@ == plain(dek@, p.note@),
            (Err(error), None) => error@ == missing("借贷对象不存在"@),
            _ => false,
        },
{
    match find(&book.people, id) {
        None => Err(not_found("借贷对象不存在")),
        Some(p) => Ok(
            DebtPersonForm {
                heading: "编辑借贷对象".to_owned(),
                action: join3("/debt-people/", &int_to_text(id), "/edit"),
                name: decrypt_string(dek, &p.name),
                note: decrypt_string(dek, &p.note),
            },
        ),
    }
}

/// What a search among people looks for, as values.
pub struct PeopleQueryView {
    pub page: usize,
    pub per_page: usize,
    pub mode: Seq<char>,
    pub keyword: Seq<char>,
    pub relationship: Seq<char>,
    pub min_receivable: Seq<char>,
    pub max_receivable: Seq<char>,
    pub min_payable: Seq<char>,
    pub max_payable: Seq<char>,
}

impl View for DebtPeopleQuery {
    type V = PeopleQueryView;

    open spec fn view(&self) -> PeopleQueryView {
        PeopleQueryView {
            page: self.page,
            per_page: self.per_page,
            mode: self.mode@,
            keyword: self.keyword@,
            relationship: self.relationship@,
            min_receivable: self.min_receivable@,
            max_receivable: self.max_receivable@,
            min_payable: self.min_payable@,
            max_payable: self.max_payable@,
        }
    }
}

/// The relationships that can be searched for.
pub open spec fn is_relationship(s: Seq<char>) -> bool {
    s == "receivable"@ || s == "payable"@ || s == "both"@ || s == "settled"@
}

/// The part of a query that counts: outside the advanced search only its keyword, and a
/// relationship only where it can be searched for.
pub open spec fn narrowed(q: PeopleQueryView, advanced: bool) -> PeopleQueryView {
    if advanced {
        PeopleQueryView {
            relationship: if is_relationship(q.relationship) {
                q.relationship
            } else {
                Seq::empty()
            },
            ..q
        }
    } else {
        PeopleQueryView {
            page: q.page,
            per_page: q.per_page,
            mode: "and"@,
            keyword: q.keyword,
            relationship: Seq::empty(),
            min_receivable: Seq::empty(),
            max_receivable: Seq::empty(),
            min_payable: Seq::empty(),
            max_payable: Seq::empty(),
        }
    }
}

fn narrow_query(query: DebtPeopleQuery, advanced_search: bool) -> (r: DebtPeopleQuery)
    ensures
        r@ == narrowed(query@, advanced_search),
{
    if advanced_search {
        let known = same(&query.relationship, "receivable") || same(
            &query.relationship,
            "payable",
        ) || same(&query.relationship, "both") || same(&query.relationship, "settled");
        DebtPeopleQuery {
            relationship: if known {
                query.relationship
            } else {
                String::new()
            },
            page: query.page,
            per_page: query.per_page,
            mode: query.mode,
            keyword: query.keyword,
            min_receivable: query.min_receivable,
            max_receivable: query.max_receivable,
            min_payable: query.min_payable,
            max_payable: query.max_payable,
        }
    } else {
        DebtPeopleQuery {
            page: query.page,
            per_page: query.per_page,
            mode: "and".to_owned(),
            keyword: query.keyword,
            relationship: String::new(),
            min_receivable: String::new(),
            max_receivable: String::new(),
            min_payable: String::new(),
            max_payable: String::new(),
        }
    }
}

/// Bounds on what a person owes and is owed.
pub struct OwedBounds {
    pub min_receivable: Option<i64>,
    pub max_receivable: Option<i64>,
    pub min_payable: Option<i64>,
    pub max_payable: Option<i64>,
}

/// The bounds of a query, or the refusal.
pub open spec fn bounds_of(q: PeopleQueryView) -> Result<OwedBounds, ErrorView> {
    match search_amount(q.min_receivable, "最低应收"@) {
        Err(e) => Err(e),
        Ok(min_receivable) => match search_amount(q.max_receivable, "最高应收"@) {
            Err(e) => Err(e),
            Ok(max_receivable) => match search_amount(q.min_payable, "最低应付"@) {
                Err(e) => Err(e),
                Ok(min_payable) => match search_amount(q.max_payable, "最高应付"@) {
                    Err(e) => Err(e),
                    Ok(max_payable) => if crossed(min_receivable, max_receivable) {
                        Err(bad("最低应收不能大于最高应收"@))
                    } else if crossed(min_payable, max_payable) {
                        Err(bad("最低应付不能大于最高应付"@))
                    } else {
                        Ok(
                            OwedBounds {
                                min_receivable,
                                max_receivable,
                                min_payable,
                                max_payable,
                            },
                        )
                    },
                },
            },
        },
    }
}

/// The amount of a search field; none where the field is empty.
pub fn parse_optional_amount(value: &str, label: &str) -> (r: HandlerResult<Option<i64>>)
    ensures
        agrees(r, search_amount(value@, label@)),
{
    parse_search_amount(value, label)
}

fn read_bounds(query: &DebtPeopleQuery) -> (r: HandlerResult<OwedBounds>)
    ensures
        agrees(r, bounds_of(query@)),
{
    let min_receivable = match parse_optional_amount(&query.min_receivable, "最低应收") {
        Ok(n) => n,
        Err(error) => return Err(error),
    };
    let max_receivable = match parse_optional_amount(&query.max_receivable, "最高应收") {
        Ok(n) => n,
        Err(error) => return Err(error),
    };
    let min_payable = match parse_optional_amount(&query.min_payable, "最低应付") {
        Ok(n) => n,
        Err(error) => return Err(error),
    };
    let max_payable = match parse_optional_amount(&query.max_payable, "最高应付") {
        Ok(n) => n,
        Err(error) => return Err(error),
    };
    if crossed_amounts(min_receivable, max_receivable) {
        return Err(bad_request("最低应收不能大于最高应收"));
    }
    if crossed_amounts(min_payable, max_payable) {
        return Err(bad_request("最低应付不能大于最高应付"));
    }
    Ok(OwedBounds { min_receivable, max_receivable, min_payable, max_payable })
}

/// One line of the list of people.
pub struct DebtPersonRow {
    pub id: i64,
    pub name: String,
    pub note: String,
    pub receivable: String,
    pub payable: String,
    pub receivable_cents: i64,
    pub payable_cents: i64,
}

/// One line of the list of people, as values.
pub struct PersonView {
    pub id: i64,
    pub name: Seq<char>,
    pub note: Seq<char>,
    pub receivable: Seq<char>,
    pub payable: Seq<char>,
    pub receivable_cents: i64,
    pub payable_cents: i64,
}

impl View for DebtPersonRow {
    type V = PersonView;

    open spec fn view(&self) -> PersonView {
        PersonView {
            id: self.id,
            name: self.name@,
            note: self.note@,
            receivable: self.receivable@,
            payable: self.payable@,
            receivable_cents: self.receivable_cents,
            payable_cents: self.payable_cents,
        }
    }
}

/// The lines of a list of rows.
pub open spec fn person_views(rows: Seq<DebtPersonRow>) -> Seq<PersonView> {
    Seq::new(rows.len(), |i: int| rows[i]@)
}

/// The line of a person.
pub open spec fn person_line(s: DebtSource, p: debt_person::Model) -> PersonView {
    let sums = owed(s, p.id, s.records.len() as int);
    PersonView {
        id: p.id,
        name: plain(s.dek, p.name@),
        note: plain(s.dek, p.note@),
        receivable: amount_text(sums.0, s.default_currency),
        payable: amount_text(sums.1, s.default_currency),
        receivable_cents: sums.0 as i64,
        payable_cents: sums.1 as i64,
    }
}

/// What the conditions of a search say of a person, each where the search has it.
pub open spec fn person_conditions(q: PeopleQueryView, b: OwedBounds, row: PersonView) -> Seq<
    Option<bool>,
> {
    let keyword = lower_text(trimmed(q.keyword));
    seq![
        if keyword.len() > 0 {
            Some(has_part(lower_text(row.name + " "@ + row.note), keyword))
        } else {
            None
        },
        if q.relationship.len() > 0 {
            Some(
                if q.relationship == "receivable"@ {
                    row.receivable_cents > 0
                } else if q.relationship == "payable"@ {
                    row.payable_cents > 0
                } else if q.relationship == "both"@ {
                    row.receivable_cents > 0 && row.payable_cents > 0
                } else if q.relationship == "settled"@ {
                    row.receivable_cents == 0 && row.payable_cents == 0
                } else {
                    true
                },
            )
        } else {
            None
        },
        if b.min_receivable is Some || b.max_receivable is Some {
            Some(between(row.receivable_cents as int, b.min_receivable, b.max_receivable))
        } else {
            None
        },
        if b.min_payable is Some || b.max_payable is Some {
            Some(between(row.payable_cents as int, b.min_payable, b.max_payable))
        } else {
            None
        },
    ]
}

/// A search has a condition.
pub open spec fn searches(q: PeopleQueryView, b: OwedBounds) -> bool {
    ||| lower_text(trimmed(q.keyword)).len() > 0
    ||| q.relationship.len() > 0
    ||| b.min_receivable is Some
    ||| b.max_receivable is Some
    ||| b.min_payable is Some
    ||| b.max_payable is Some
}

/// The people among the first `n` that a search finds.
pub open spec fn people_found(
    s: DebtSource,
    people: Seq<debt_person::Model>,
    q: PeopleQueryView,
    b: OwedBounds,
    n: int,
) -> Seq<PersonView>
    decreases n,
{
    if n <= 0 {
        Seq::empty()
    } else {
        let row = person_line(s, people[n - 1]);
        let front = people_found(s, people, q, b, n - 1);
        if combined(person_conditions(q, b, row), q.mode == "or"@) {
            front.push(row)
        } else {
            front
        }
    }
}

fn matches_person(row: &DebtPersonRow, query: &DebtPeopleQuery, keyword: &str, b: &OwedBounds) -> (r:
    bool)
    requires
        keyword@ == lower_text(trimmed(query.keyword@)),
    ensures
        r == combined(person_conditions(query@, *b, row@), query.mode@ == "or"@),
{
    let word = if !keyword.is_empty() {
        Some(contains(&lowercase(&join3(&row.name, " ", &row.note)), keyword))
    } else {
        None
    };
    let relationship = if !query.relationship.as_str().is_empty() {
        Some(
            if same(&query.relationship, "receivable") {
                row.receivable_cents > 0
            } else if same(&query.relationship, "payable") {
                row.payable_cents > 0
            } else if same(&query.relationship, "both") {
                row.receivable_cents > 0 && row.payable_cents > 0
            } else if same(&query.relationship, "settled") {
                row.receivable_cents == 0 && row.payable_cents == 0
            } else {
                true
            },
        )
    } else {
        None
    };
    let receivable = if b.min_receivable.is_some() || b.max_receivable.is_some() {
        Some(amount_allowed(row.receivable_cents, b.min_receivable, b.max_receivable))
    } else {
        None
    };
    let payable = if b.min_payable.is_some() || b.max_payable.is_some() {
        Some(amount_allowed(row.payable_cents, b.min_payable, b.max_payable))
    } else {
        None
    };
    let all = vec![word, relationship, receivable, payable];
    proof {
        assert(all@ =~= person_conditions(query@, *b, row@));
    }
    combine(&all, same(&query.mode, "or"))
}

/// What everyone owes and is owed.
struct AllOwed {
    receivable: Tally,
    payable: Tally,
}

/// The amounts are those after the first `n` records.
spec fn owes(all: AllOwed, s: DebtSource, n: int) -> bool {
    &&& all.receivable.wf()
    &&& all.payable.wf()
    &&& forall|p: i64| #[trigger]
        owed(s, p, n) == (all.receivable.amount(p), all.payable.amount(p))
}

fn sum_owed(dek: &Dek, book: &Book, rates: &RateTable, default_currency: &str) -> (r: HandlerResult<
    AllOwed,
>)
    requires
        rates.wf(),
    ensures
        ({
            let s = DebtSource {
                dek: dek@,
                records: book.debts@,
                accounts: book.accounts@,
                rates: *rates,
                default_currency: default_currency@,
            };
            let n = book.debts@.len() as int;
            match r {
                Ok(all) => records_refusal(s, None, n) is None && owes(all, s, n),
                Err(error) => records_refusal(s, None, n) == Some(error@),
            }
        }),
{
    let ghost s = DebtSource {
        dek: dek@,
        records: book.debts@,
        accounts: book.accounts@,
        rates: *rates,
        default_currency: default_currency@,
    };
    let ghost n = book.debts@.len() as int;
    let mut receivable = Tally::new();
    let mut payable = Tally::new();
    let mut i: usize = 0;
    while i < book.debts.len()
        invariant
            i <= book.debts.len(),
            n == book.debts@.len(),
            rates.wf(),
            s == (DebtSource {
                dek: dek@,
                records: book.debts@,
                accounts: book.accounts@,
                rates: *rates,
                default_currency: default_currency@,
            }),
            records_refusal(s, None, i as int) is None,
            receivable.wf(),
            payable.wf(),
            forall|p: i64| #[trigger]
                owed(s, p, i as int) == (receivable.amount(p), payable.amount(p)),
        decreases book.debts.len() - i,
    {
        let d = &book.debts[i];
        let c = find_currency(&book.accounts, d.account_id, default_currency);
        let amount: i64 = match to_default(rates, decrypt_cents(dek, &d.amount), &c) {
            Ok(amount) => amount,
            Err(error) => {
                proof {
                    refusal_stops(s, None, i + 1, n);
                }
                return Err(error);
            },
        };
        let ghost old_receivable = receivable;
        let ghost old_payable = payable;
        let a: i64 = receivable.get(d.person_id);
        let b: i64 = payable.get(d.person_id);
        proof {
            assert(owed(s, d.person_id, i as int) == (a as int, b as int));
        }
        match apply_outstanding(&d.kind, amount, a, b) {
            Ok(sums) => {
                receivable.set(d.person_id, sums.0);
                payable.set(d.person_id, sums.1);
                proof {
                    assert forall|p: i64| #[trigger] owed(s, p, i + 1) == (
                        receivable.amount(p),
                        payable.amount(p),
                    ) by {
                        assert(owed(s, p, i as int) == (
                            old_receivable.amount(p),
                            old_payable.amount(p),
                        ));
                    }
                }
            },
            Err(error) => {
                proof {
                    refusal_stops(s, None, i + 1, n);
                }
                return Err(error);
            },
        }
        i = i + 1;
    }
    Ok(AllOwed { receivable, payable })
}

/// The page of the people.
pub struct PeoplePage {
    pub page_heading: String,
    pub search_action: String,
    pub people: Vec<DebtPersonRow>,
    pub mode: String,
    pub query: DebtPeopleQuery,
    pub has_filters: bool,
    pub total_records: usize,
}

/// Why the page of the people cannot be shown, where it cannot.
pub open spec fn people_refusal(s: DebtSource, q: PeopleQueryView) -> Option<ErrorView> {
    match bounds_of(q) {
        Err(e) => Some(e),
        Ok(_) => records_refusal(s, None, s.records.len() as int),
    }
}

/// The page of the people shows these values.
pub open spec fn is_people_page(
    page: PeoplePage,
    s: DebtSource,
    people: Seq<debt_person::Model>,
    q: PeopleQueryView,
    advanced: bool,
    shown: Page,
) -> bool {
    let b = bounds_of(q)->Ok_0;
    let rows = people_found(s, people, q, b, people.len() as int);
    &&& page.page_heading@ == (if advanced {
        "借贷对象高级搜索"@
    } else {
        "借贷对象"@
    })
    &&& page.search_action@ == (if advanced {
        "/debt-people/search"@
    } else {
        "/debt-people"@
    })
    &&& person_views(page.people@) == page_of(rows, shown.start as int, shown.per_page as int)
    &&& page.mode@ == (if q.mode == "or"@ {
        "or"@
    } else {
        "and"@
    })
    &&& page.query@ == q
    &&& page.has_filters == searches(q, b)
    &&& page.total_records == rows.len()
}

/// The page of the people: what each owes and is owed, in the default currency.
pub fn render_people(
    dek: &Dek,
    book: &Book,
    rates: &RateTable,
    default_currency: &str,
    query: DebtPeopleQuery,
    advanced_search: bool,
    shown: Page,
) -> (r: HandlerResult<PeoplePage>)
    requires
        rates.wf(),
    ensures
        ({
            let s = DebtSource {
                dek: dek@,
                records: book.debts@,
                accounts: book.accounts@,
                rates: *rates,
                default_currency: default_currency@,
            };
            let q = narrowed(query@, advanced_search);
            match r {
                Ok(page) => people_refusal(s, q) is None && is_people_page(
                    page,
                    s,
                    book.people@,
                    q,
                    advanced_search,
                    shown,
                ),
                Err(error) => people_refusal(s, q) == Some(error@),
            }
        }),
{
    let query = narrow_query(query, advanced_search);
    let bounds = match read_bounds(&query) {
        Ok(bounds) => bounds,
        Err(error) => return Err(error),
    };
    let all = match sum_owed(dek, book, rates, default_currency) {
        Ok(all) => all,
        Err(error) => return Err(error),
    };
    let ghost s = DebtSource {
        dek: dek@,
        records: book.debts@,
        accounts: book.accounts@,
        rates: *rates,
        default_currency: default_currency@,
    };
    let keyword = lowercase(query.keyword.as_str().trim());
    let mut rows: Vec<DebtPersonRow> = Vec::new();
    let mut i: usize = 0;
    proof {
        assert(person_views(rows@) =~= Seq::empty());
    }
    while i < book.people.len()
        invariant
            i <= book.people.len(),
            s == (DebtSource {
                dek: dek@,
                records: book.debts@,
                accounts: book.accounts@,
                rates: *rates,
                default_currency: default_currency@,
            }),
            owes(all, s, book.debts@.len() as int),
            keyword@ == lower_text(trimmed(query.keyword@)),
            person_views(rows@) == people_found(s, book.people@, query@, bounds, i as int),
        decreases book.people.len() - i,
    {
        let p = &book.people[i];
        let receivable: i64 = all.receivable.get(p.id);
        let payable: i64 = all.payable.get(p.id);
        proof {
            assert(owed(s, p.id, book.debts@.len() as int) == (
                receivable as int,
                payable as int,
            ));
        }
        let row = DebtPersonRow {
            id: p.id,
            name: decrypt_string(dek, &p.name),
            note: decrypt_string(dek, &p.note),
            receivable: crate::currency::format(receivable, default_currency),
            payable: crate::currency::format(payable, default_currency),
            receivable_cents: receivable,
            payable_cents: payable,
        };
        let ghost before = rows@;
        let ghost line = row@;
        proof {
            assert(line == person_line(s, *p));
        }
        if matches_person(&row, &query, &keyword, &bounds) {
            rows.push(row);
            proof {
                assert(person_views(rows@) =~= person_views(before).push(line));
            }
        }
        i = i + 1;
    }
    let total_records: usize = rows.len();
    let ghost found_rows = rows@;
    let people = take_page(rows, shown.start, shown.per_page);
    proof {
        assert(person_views(people@) =~= page_of(
            person_views(found_rows),
            shown.start as int,
            shown.per_page as int,
        ));
    }
    let has_filters = !keyword.as_str().is_empty() || !query.relationship.as_str().is_empty()
        || bounds.min_receivable.is_some() || bounds.max_receivable.is_some()
        || bounds.min_payable.is_some() || bounds.max_payable.is_some();
    Ok(
        PeoplePage {
            page_heading: (if advanced_search {
                "借贷对象高级搜索"
            } else {
                "借贷对象"
            }).to_owned(),
            search_action: (if advanced_search {
                "/debt-people/search"
            } else {
                "/debt-people"
            }).to_owned(),
            people,
            mode: (if same(&query.mode, "or") {
                "or"
            } else {
                "and"
            }).to_owned(),
            query,
            has_filters,
            total_records,
        },
    )
}

/// The answer to a caller that asks for JSON when a debt record was stored.
pub fn created_response(redirect_to: &Option<String>) -> (r: DebtCreateResponse)
    ensures
        r.ok,
        r.message@ == "借还记录已保存"@,
        r.redirect@ == return_target(text_view(*redirect_to)),
{
    DebtCreateResponse {
        ok: true,
        message: "借还记录已保存".to_owned(),
        redirect: return_to(redirect_to).to_owned(),
    }
}

/// A debt record that is stored has the kind, the person, the account and the amount of the form, and
/// its account may have the balance that is left: what is borrowed or received back comes in, what is
/// lent or paid back goes out.
pub proof fn stored_record_is_covered(
    dek: &Dek,
    book: &Book,
    rates: &RateTable,
    default_currency: &str,
    form: &DebtRecordFormData,
    now: DateTime,
    row: debt_record::Model,
)
    requires
        rates.wf(),
        sealable(form.note@),
        call_ensures(create_record, (dek, book, rates, default_currency, form, now), Ok(row)),
    ensures
        ({
            let amount = cents(dek@, row.amount@);
            let moved = if row.kind@ == "borrow"@ || row.kind@ == "repayment_received"@ {
                amount
            } else {
                -amount
            };
            &&& row.kind@ == form.kind@
            &&& row.kind@ == "borrow"@ || row.kind@ == "repayment_received"@ || row.kind@ == "lend"@
                || row.kind@ == "repayment_paid"@
            &&& row.person_id == form.person_id && row.account_id == form.account_id
            &&& amount_of_text(form.amount@) == Ok::<i64, ErrorView>(amount as i64)
            &&& (balance(dek@, *book, row.account_id) matches Ok(was) && allowed(
                dek@,
                *book,
                row.account_id,
                was + moved,
            ) is Ok)
        }),
{
    crate::crypto::cents_fit(dek@, row.amount@);
}

/// A debt record is deleted only where its account may have the balance without it.
pub proof fn deleted_record_is_covered(
    dek: &Dek,
    book: &Book,
    id: i64,
    form: &DeleteRecordFormData,
    target: &'static str,
)
    requires
        call_ensures(delete_record, (dek, book, id, form), Ok(target)),
    ensures
        ({
            let d = found(book.debts@, id)->0;
            let amount = cents(dek@, d.amount@);
            let moved = if d.kind@ == "borrow"@ || d.kind@ == "repayment_received"@ {
                amount
            } else {
                -amount
            };
            &&& found(book.debts@, id) is Some
            &&& (balance(dek@, *book, d.account_id) matches Ok(was) && allowed(
                dek@,
                *book,
                d.account_id,
                was - moved,
            ) is Ok)
        }),
{
    crate::crypto::cents_fit(dek@, found(book.debts@, id)->0.amount@);
}

proof fn counted_records_fit(s: DebtSource, person: i64, n: int)
    requires
        0 <= n <= s.records.len(),
        records_refusal(s, None, n) is None,
    ensures
        forall|i: int| 0 <= i < n ==> record_amount(s, #[trigger] s.records[i]) is Ok,
        fits_i64(owed(s, person, n).0),
        fits_i64(owed(s, person, n).1),
    decreases n,
{
    if n > 0 {
        counted_records_fit(s, person, n - 1);
    }
}

proof fn found_is_a_person(
    s: DebtSource,
    people: Seq<debt_person::Model>,
    q: PeopleQueryView,
    b: OwedBounds,
    n: int,
    i: int,
) -> (k: int)
    requires
        0 <= n <= people.len(),
        0 <= i < people_found(s, people, q, b, n).len(),
    ensures
        0 <= k < n,
        people_found(s, people, q, b, n)[i] == person_line(s, people[k]),
    decreases n,
{
    let front = people_found(s, people, q, b, n - 1);
    if i < front.len() {
        found_is_a_person(s, people, q, b, n - 1, i)
    } else {
        n - 1
    }
}

/// Each line of the page of the people shows one of them: what the person owes is what was lent but
/// not received back, and what is owed to the person is what was borrowed but not paid back.
pub proof fn people_page_shows_what_is_owed(
    dek: &Dek,
    book: &Book,
    rates: &RateTable,
    default_currency: &str,
    query: DebtPeopleQuery,
    advanced_search: bool,
    shown: Page,
    page: PeoplePage,
    i: int,
) -> (k: int)
    requires
        rates.wf(),
        call_ensures(
            render_people,
            (dek, book, rates, default_currency, query, advanced_search, shown),
            Ok(page),
        ),
        0 <= i < page.people@.len(),
    ensures
        0 <= k < book.people@.len(),
        ({
            let s = DebtSource {
                dek: dek@,
                records: book.debts@,
                accounts: book.accounts@,
                rates: *rates,
                default_currency: default_currency@,
            };
            let (row, p) = (page.people@[i], book.people@[k]);
            let amounts = |kind: Seq<char>| kind_total(s, p.id, kind, book.debts@.len() as int);
            &&& row.id == p.id
            &&& row.name@ == plain(dek@, p.name@)
            &&& row.receivable_cents == amounts("lend"@) - amounts("repayment_received"@)
            &&& row.payable_cents == amounts("borrow"@) - amounts("repayment_paid"@)
            &&& row.receivable@ == amount_text(row.receivable_cents as int, default_currency@)
            &&& row.payable@ == amount_text(row.payable_cents as int, default_currency@)
        }),
{
    let s = DebtSource {
        dek: dek@,
        records: book.debts@,
        accounts: book.accounts@,
        rates: *rates,
        default_currency: default_currency@,
    };
    let q = narrowed(query@, advanced_search);
    let b = bounds_of(q)->Ok_0;
    let n = book.people@.len() as int;
    let rows = people_found(s, book.people@, q, b, n);
    let views = person_views(page.people@);
    assert(views.len() == page.people@.len());
    assert(views[i] == page.people@[i]@);
    let from = if shown.start < rows.len() {
        shown.start as int
    } else {
        rows.len() as int
    };
    assert(views[i] == rows[from + i]);
    let k = found_is_a_person(s, book.people@, q, b, n, from + i);
    let p = book.people@[k];
    counted_records_fit(s, p.id, book.debts@.len() as int);
    owed_is_difference(s, p.id, book.debts@.len() as int);
    k
}

/// A search for all conditions finds only people that keep to each of them: with the keyword in the name
/// or the note, in the relationship that is looked for, and owing and being owed amounts between the
/// bounds.
pub proof fn search_keeps_to_its_conditions(q: PeopleQueryView, b: OwedBounds, row: PersonView)
    requires
        combined(person_conditions(q, b, row), false),
    ensures
        lower_text(trimmed(q.keyword)).len() > 0 ==> has_part(
            lower_text(row.name + " "@ + row.note),
            lower_text(trimmed(q.keyword)),
        ),
        q.relationship == "receivable"@ ==> row.receivable_cents > 0,
        q.relationship == "payable"@ ==> row.payable_cents > 0,
        q.relationship == "both"@ ==> row.receivable_cents > 0 && row.payable_cents > 0,
        q.relationship == "settled"@ ==> row.receivable_cents == 0 && row.payable_cents == 0,
        b.min_receivable is Some ==> row.receivable_cents >= b.min_receivable->0,
        b.max_receivable is Some ==> row.receivable_cents <= b.max_receivable->0,
        b.min_payable is Some ==> row.payable_cents >= b.min_payable->0,
        b.max_payable is Some ==> row.payable_cents <= b.max_payable->0,
{
    reveal_strlit("receivable");
    reveal_strlit("payable");
    reveal_strlit("both");
    reveal_strlit("settled");
    assert("receivable"@.len() == 10 && "payable"@.len() == 7 && "both"@.len() == 4
        && "settled"@.len() == 7);
    assert("payable"@[0] == 'p' && "settled"@[0] == 's');
    let c = person_conditions(q, b, row);
    assert(c[0] != Some(false) && c[1] != Some(false) && c[2] != Some(false) && c[3] != Some(false))
        by {
        if forall|i: int| 0 <= i < c.len() ==> (#[trigger] c[i]) is None {
            assert(c[0] is None && c[1] is None && c[2] is None && c[3] is None);
        }
    }
}

} // verus!
