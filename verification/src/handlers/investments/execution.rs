//! Carrying out a plan on a day.
use vstd::prelude::*;
use vstd::string::*;

use crate::book::{find, found, Book};
use crate::calendar::{date_text, date_to_text, day_of_text, parse_day, plus_days, Date, DateTime};
use crate::crypto::{
    cents, decrypt_cents, decrypt_string, encrypt_cents, encrypt_string, is_sealable, plain,
    sealable, utf8_length, Dek,
};
use crate::decimal::{decimal_text, decimal_to_text, fits_i64, normal, normalize, Dec};
use crate::entity::{
    bill, category, investment_execution, investment_sms_event, market_closed_day,
    market_index_quote, recurring_investment, transfer,
};
use crate::error::{
    bad, bad_request, missing, not_found, text_too_long, too_long, ErrorView, HandlerResult,
};
use crate::handlers::accounts::{
    balance, bill_delta, bill_deltas, change_allowed, credit_kind, debt_deltas, deltas,
    ensure_balance_delta, is_credit, transfer_delta, transfer_deltas,
};
use crate::handlers::investments::trading::{
    calculate_fee, fee_result, invested, is_trading_day, next_open, next_trading_day, parse_amount,
    trades_on,
};
use crate::market_data::{
    adjusted, adjusted_amount, decision_average, decision_close, decision_multiplier,
    decision_refusal, format_multiplier, index_named, is_decision, latest_quotes, multiplier_text,
    smart_decision, SmartDecision,
};
use crate::text::{int_text, int_to_text, join2, join5, same};
use crate::totals::{checked_total_is_total, checked_total_push, negated, total_concat};

verus! {

/// The records that investments are made on and leave behind.
pub struct Ledger {
    pub book: Book,
    pub categories: Vec<category::Model>,
    pub closed: Vec<market_closed_day::Model>,
    pub executions: Vec<investment_execution::Model>,
    pub events: Vec<investment_sms_event::Model>,
}

/// A plan was carried out on a day.
pub open spec fn was_executed(
    executions: Seq<investment_execution::Model>,
    plan_id: i64,
    date: Date,
) -> bool {
    exists|i: int|
        0 <= i < executions.len() && (#[trigger] executions[i]).plan_id == plan_id
            && executions[i].trade_date == date
}

/// Whether a plan was carried out on a day.
pub fn find_executed(
    executions: &Vec<investment_execution::Model>,
    plan_id: i64,
    date: Date,
) -> (r: bool)
    ensures
        r == was_executed(executions@, plan_id, date),
{
    let mut i: usize = 0;
    while i < executions.len()
        invariant
            i <= executions.len(),
            forall|j: int|
                0 <= j < i ==> (#[trigger] executions@[j]).plan_id != plan_id
                    || executions@[j].trade_date != date,
        decreases executions.len() - i,
    {
        if executions[i].plan_id == plan_id && executions[i].trade_date.days == date.days {
            return true;
        }
        i = i + 1;
    }
    false
}

/// The name of the category of fees.
pub open spec fn fee_category() -> Seq<char> {
    "投资手续费"@
}

/// There is a category of fees.
pub open spec fn has_fee_category(dek: Seq<u8>, categories: Seq<category::Model>) -> bool {
    exists|i: int|
        0 <= i < categories.len() && (#[trigger] categories[i]).kind@ == "expense"@ && plain(
            dek,
            categories[i].name@,
        ) == fee_category()
}

/// A category is the one of fees.
pub open spec fn is_fee_category(c: category::Model, dek: Seq<u8>, now: DateTime) -> bool {
    &&& c.kind@ == "expense"@
    &&& plain(dek, c.name@) == fee_category()
    &&& !c.is_food
    &&& c.created_at == now
}

/// The categories with the one of fees among them: it is added where it is not there.
pub open spec fn fee_category_ensured(
    before: Seq<category::Model>,
    after: Seq<category::Model>,
    dek: Seq<u8>,
    now: DateTime,
) -> bool {
    if has_fee_category(dek, before) {
        after == before
    } else {
        after.len() == before.len() + 1 && after.drop_last() == before && is_fee_category(
            after.last(),
            dek,
            now,
        )
    }
}

/// Adds the category of fees where it is not there.
pub fn ensure_fee_category(dek: &Dek, categories: &mut Vec<category::Model>, now: DateTime)
    ensures
        fee_category_ensured(old(categories)@, final(categories)@, dek@, now),
{
    let mut i: usize = 0;
    while i < categories.len()
        invariant
            i <= categories.len(),
            categories@ == old(categories)@,
            forall|j: int|
                0 <= j < i ==> (#[trigger] categories@[j]).kind@ != "expense"@ || plain(
                    dek@,
                    categories@[j].name@,
                ) != fee_category(),
        decreases categories.len() - i,
    {
        if same(&categories[i].kind, "expense") && same(
            &decrypt_string(dek, &categories[i].name),
            "投资手续费",
        ) {
            return ;
        }
        i = i + 1;
    }
    proof {
        reveal_strlit("投资手续费");
        utf8_length("投资手续费"@);
    }
    categories.push(
        category::Model {
            id: 0,
            kind: "expense".to_owned(),
            name: encrypt_string(dek, "投资手续费"),
            is_food: false,
            created_at: now,
        },
    );
    proof {
        assert(categories@.drop_last() =~= old(categories)@);
    }
}

/// The amounts of an investment.
pub struct DayAmounts {
    pub base: int,
    pub multiplier: int,
    pub amount: int,
    pub fee: int,
}

/// The quotes that a plan is decided on, the latest first.
pub open spec fn plan_quotes(
    plan: recurring_investment::Model,
    quotes: Seq<market_index_quote::Model>,
    date: Date,
) -> Seq<market_index_quote::Model> {
    latest_quotes(quotes, plan.index_code@, date)
}

/// The part of its base amount that a plan invests on a day, or the refusal.
pub open spec fn decided(
    plan: recurring_investment::Model,
    quotes: Seq<market_index_quote::Model>,
    date: Date,
) -> Result<int, ErrorView> {
    if plan.strategy@ == "smart"@ {
        let latest = plan_quotes(plan, quotes, date);
        match decision_refusal(plan.index_code@, plan.moving_average_days as int, latest) {
            Some(message) => Err(bad(message)),
            None => Ok(decision_multiplier(plan.moving_average_days as int, latest)),
        }
    } else {
        Ok(10_000)
    }
}

/// Why the accounts of a plan cannot be used, where they cannot.
pub open spec fn plan_accounts_refusal(book: Book, plan: recurring_investment::Model) -> Option<
    ErrorView,
> {
    match found(book.accounts@, plan.from_account_id) {
        None => Some(bad("定投扣款账户不存在"@)),
        Some(from) => match found(book.accounts@, plan.fund_account_id) {
            None => Some(bad("定投基金账户不存在"@)),
            Some(fund) => if is_credit(from.kind@) {
                Some(bad("信用卡和信贷服务不能作为定投扣款账户"@))
            } else if fund.kind@ != "investment"@ {
                Some(bad("定投基金账户不再是投资账户，请先修改计划"@))
            } else if from.currency@ != fund.currency@ {
                Some(bad("定投两端账户货币不一致，请先修改计划"@))
            } else {
                None
            },
        },
    }
}

/// The amount is given for each day.
pub open spec fn is_given(strategy: Seq<char>) -> bool {
    strategy == "manual"@ || strategy == "sms"@
}

/// The base amount on a day: the one that is given, or the one of the plan.
pub open spec fn day_base(dek: Seq<u8>, plan: recurring_investment::Model, given: Option<i64>) -> Result<
    int,
    ErrorView,
> {
    if is_given(plan.strategy@) {
        match given {
            Some(amount) => Ok(amount as int),
            None => Err(bad("手动金额计划需要填写本期定投金额"@)),
        }
    } else {
        Ok(cents(dek, plan.amount@))
    }
}

/// The amounts that follow from a base amount and the part of it that is invested, or the refusal.
/// The account is charged the amount and the fee, and may not be overdrawn.
pub open spec fn charged(
    dek: Seq<u8>,
    book: Book,
    plan: recurring_investment::Model,
    base: int,
    multiplier: int,
) -> Result<DayAmounts, ErrorView> {
    let amount = adjusted(base, multiplier);
    let rate = if plan.strategy@ == "sms"@ {
        0
    } else {
        cents(dek, plan.fee_rate_bps@)
    };
    if !fits_i64(amount) {
        Err(bad("聪明定投金额计算超出范围"@))
    } else {
        match fee_result(amount, rate) {
            Err(e) => Err(e),
            Ok(fee) => if !fits_i64(amount + fee) {
                Err(bad("定投本金和手续费合计超出范围"@))
            } else if !fits_i64(-(amount + fee)) {
                Err(bad("定投金额超出范围"@))
            } else {
                match change_allowed(dek, book, plan.from_account_id, -(amount + fee)) {
                    Err(e) => Err(e),
                    Ok(_) => Ok(DayAmounts { base, multiplier, amount, fee: fee as int }),
                }
            },
        }
    }
}

/// What a plan invests on a day, or why it does not.
pub open spec fn day_amounts(
    dek: Seq<u8>,
    book: Book,
    plan: recurring_investment::Model,
    quotes: Seq<market_index_quote::Model>,
    date: Date,
    given: Option<i64>,
) -> Result<DayAmounts, ErrorView> {
    match plan_accounts_refusal(book, plan) {
        Some(e) => Err(e),
        None => match day_base(dek, plan, given) {
            Err(e) => Err(e),
            Ok(base) => match decided(plan, quotes, date) {
                Err(e) => Err(e),
                Ok(multiplier) => charged(dek, book, plan, base, multiplier),
            },
        },
    }
}

/// The day on which a plan is to be carried out next after a day, or the refusal. Messages of the
/// bank come on any day.
pub open spec fn day_after(
    closed: Seq<market_closed_day::Model>,
    strategy: Seq<char>,
    date: Date,
) -> Result<Date, ErrorView> {
    match plus_days(date, 1) {
        None => Err(bad("下一日期超出范围"@)),
        Some(next) => if strategy == "sms"@ {
            Ok(next)
        } else {
            next_open(closed, next)
        },
    }
}

fn find_day_after(closed: &Vec<market_closed_day::Model>, strategy: &str, date: Date) -> (r:
    HandlerResult<Date>)
    ensures
        crate::error::agrees(r, day_after(closed@, strategy@, date)),
{
    match date.add_days(1) {
        None => Err(bad_request("下一日期超出范围")),
        Some(next) => if same(strategy, "sms") {
            Ok(next)
        } else {
            next_trading_day(closed, next)
        },
    }
}

/// The note of the transfer that an investment makes.
pub open spec fn transfer_note(
    dek: Seq<u8>,
    plan: recurring_investment::Model,
    quotes: Seq<market_index_quote::Model>,
    date: Date,
) -> Seq<char> {
    let name = plain(dek, plan.name@);
    if plan.strategy@ == "smart"@ {
        "聪明定投 · "@ + name + " · "@ + (index_named(plan.index_code@)->0).0 + (" "@ + int_text(
            plan.moving_average_days as int,
        ) + " · "@ + multiplier_text(
            decision_multiplier(
                plan.moving_average_days as int,
                plan_quotes(plan, quotes, date),
            ),
        ))
    } else if plan.strategy@ == "sms"@ {
        "招商银行短信定投 · "@ + name
    } else if plan.strategy@ == "manual"@ {
        "手动金额定投 · "@ + name
    } else {
        "每日定投 · "@ + name
    }
}

/// The note of the fee that an investment costs.
pub open spec fn fee_note(dek: Seq<u8>, plan: recurring_investment::Model) -> Seq<char> {
    "每日定投手续费 · "@ + plain(dek, plan.name@)
}

/// The notes of an investment are short enough to be encrypted.
pub open spec fn notes_fit(
    dek: Seq<u8>,
    plan: recurring_investment::Model,
    quotes: Seq<market_index_quote::Model>,
    date: Date,
) -> bool {
    sealable(transfer_note(dek, plan, quotes, date)) && sealable(fee_note(dek, plan))
}

/// A number without the zeros at the end.
pub open spec fn short_text(value: (int, int)) -> Seq<char> {
    let n = normal(value.0, value.1);
    decimal_text(n.0, n.1)
}

/// What is carried out: a plan on a day.
pub struct Occasion {
    pub dek: Seq<u8>,
    pub plan: recurring_investment::Model,
    pub quotes: Seq<market_index_quote::Model>,
    pub date: Date,
    pub given: Option<i64>,
    pub at: Option<DateTime>,
    pub now: DateTime,
}

/// When an investment counts as made: at the time given, else at seven o'clock in universal time,
/// which is three in the afternoon in Beijing.
pub open spec fn happened(o: Occasion) -> DateTime {
    match o.at {
        Some(time) => time,
        None => DateTime { date: o.date, second: 25200, nano: 0 },
    }
}

/// The transfer that an investment makes.
pub open spec fn is_day_transfer(t: transfer::Model, o: Occasion, a: DayAmounts) -> bool {
    &&& t.from_account_id == o.plan.from_account_id
    &&& t.to_account_id == o.plan.fund_account_id
    &&& cents(o.dek, t.amount@) == a.amount
    &&& crate::handlers::received(o.dek, t) == a.amount
    &&& plain(o.dek, t.note@) == transfer_note(o.dek, o.plan, o.quotes, o.date)
    &&& t.happened_at == happened(o)
    &&& t.created_at == o.now
}

/// The bill of the fee that an investment costs.
pub open spec fn is_day_fee(b: bill::Model, o: Occasion, a: DayAmounts) -> bool {
    &&& b.account_id == o.plan.from_account_id
    &&& b.kind@ == "expense"@
    &&& cents(o.dek, b.amount@) == a.fee
    &&& plain(o.dek, b.category@) == fee_category()
    &&& !b.is_food
    &&& plain(o.dek, b.note@) == fee_note(o.dek, o.plan)
    &&& b.happened_at == happened(o)
    &&& b.created_at == o.now
}

/// The record of an investment. The numbers of the rows that it points to are given when these are
/// stored.
pub open spec fn is_day_execution(
    e: investment_execution::Model,
    o: Occasion,
    a: DayAmounts,
) -> bool {
    let smart = o.plan.strategy@ == "smart"@;
    let days = o.plan.moving_average_days as int;
    let latest = plan_quotes(o.plan, o.quotes, o.date);
    &&& e.plan_id == o.plan.id
    &&& e.trade_date == o.date
    &&& e.transfer_id is None
    &&& e.fee_bill_id is None
    &&& cents(o.dek, e.base_amount@) == a.base
    &&& cents(o.dek, e.multiplier_bps@) == a.multiplier
    &&& e.strategy@ == o.plan.strategy@
    &&& e.index_code@ == (if smart {
        o.plan.index_code@
    } else {
        Seq::empty()
    })
    &&& e.moving_average_days == (if smart {
        days
    } else {
        0
    })
    &&& e.quote_date == (if smart {
        Some(latest[0].trade_date)
    } else {
        None
    })
    &&& e.index_close@ == (if smart {
        short_text(decision_close(days, latest))
    } else {
        Seq::empty()
    })
    &&& e.moving_average@ == (if smart {
        short_text(decision_average(days, latest))
    } else {
        Seq::empty()
    })
    &&& e.created_at == o.now
}

/// Where the rows of an investment stand in the ledger.
#[derive(Clone, Copy, Debug, PartialEq, Eq, Structural)]
pub struct DayEntry {
    pub transfer: usize,
    pub fee_bill: Option<usize>,
    pub execution: usize,
    pub category: Option<usize>,
}

/// What came of a plan on a day: the day on which it is to be carried out next, and the rows that
/// were added. There are none where it was carried out on that day before.
#[derive(Clone, Copy, Debug, PartialEq, Eq, Structural)]
pub struct DayRun {
    pub next_date: Date,
    pub entry: Option<DayEntry>,
}

/// One ledger is another with the rows of an investment added.
pub open spec fn invests(
    before: Ledger,
    after: Ledger,
    entry: DayEntry,
    o: Occasion,
    a: DayAmounts,
) -> bool {
    let b = before.book;
    let c = after.book;
    &&& same_but_money(before, after)
    &&& after.events == before.events
    &&& if a.fee > 0 {
        fee_category_ensured(before.categories@, after.categories@, o.dek, o.now)
    } else {
        after.categories@ == before.categories@
    }
    &&& c.transfers@.len() == b.transfers@.len() + 1
    &&& c.transfers@.drop_last() == b.transfers@
    &&& is_day_transfer(c.transfers@.last(), o, a)
    &&& if a.fee > 0 {
        &&& c.bills@.len() == b.bills@.len() + 1
        &&& c.bills@.drop_last() == b.bills@
        &&& is_day_fee(c.bills@.last(), o, a)
    } else {
        c.bills@ == b.bills@
    }
    &&& after.executions@.len() == before.executions@.len() + 1
    &&& after.executions@.drop_last() == before.executions@
    &&& is_day_execution(after.executions@.last(), o, a)
    &&& entry.transfer == b.transfers@.len()
    &&& entry.fee_bill == (if a.fee > 0 {
        Some(b.bills@.len() as usize)
    } else {
        None
    })
    &&& entry.execution == before.executions@.len()
    &&& entry.category == (if a.fee > 0 && !has_fee_category(o.dek, before.categories@) {
        Some(before.categories@.len() as usize)
    } else {
        None
    })
}

/// Two ledgers have the same accounts, people, debts and closed days.
pub open spec fn same_but_money(before: Ledger, after: Ledger) -> bool {
    &&& after.book.accounts == before.book.accounts
    &&& after.book.details == before.book.details
    &&& after.book.people == before.book.people
    &&& after.book.debts == before.book.debts
    &&& after.book.adjustments == before.book.adjustments
    &&& after.closed == before.closed
}

/// Two ledgers differ in the category of fees alone.
pub open spec fn same_but_fee_category(
    before: Ledger,
    after: Ledger,
    dek: Seq<u8>,
    fee: int,
    now: DateTime,
) -> bool {
    &&& after.book == before.book
    &&& after.closed == before.closed
    &&& after.executions == before.executions
    &&& after.events == before.events
    &&& if fee > 0 {
        fee_category_ensured(before.categories@, after.categories@, dek, now)
    } else {
        after.categories@ == before.categories@
    }
}

/// What comes of a plan on a day, and what the ledger is then.
///
/// Except for messages of the bank the market has to be open. A plan is carried out once on a day:
/// where it was, only its next day moves on.
#[verifier::opaque]
pub open spec fn day_carried_out(
    before: Ledger,
    after: Ledger,
    r: Result<DayRun, ErrorView>,
    o: Occasion,
) -> bool {
    let next = day_after(before.closed@, o.plan.strategy@, o.date);
    if o.plan.strategy@ != "sms"@ && !trades_on(before.closed@, o.date.days as int) {
        after == before && r == Err::<DayRun, ErrorView>(
            bad(date_text(o.date) + " 不是中国大陆交易日"@),
        )
    } else if was_executed(before.executions@, o.plan.id, o.date) {
        after == before && match next {
            Err(e) => r == Err::<DayRun, ErrorView>(e),
            Ok(next_date) => r == Ok::<DayRun, ErrorView>(DayRun { next_date, entry: None }),
        }
    } else {
        match day_amounts(o.dek, before.book, o.plan, o.quotes, o.date, o.given) {
            Err(e) => after == before && r == Err::<DayRun, ErrorView>(e),
            Ok(a) => match next {
                Err(e) => same_but_fee_category(before, after, o.dek, a.fee, o.now) && r == Err::<
                    DayRun,
                    ErrorView,
                >(e),
                Ok(next_date) => if !notes_fit(o.dek, o.plan, o.quotes, o.date) {
                    same_but_fee_category(before, after, o.dek, a.fee, o.now) && r == Err::<
                        DayRun,
                        ErrorView,
                    >(too_long())
                } else {
                    r matches Ok(run) && run.next_date == next_date && run.entry is Some && invests(
                        before,
                        after,
                        run.entry->0,
                        o,
                        a,
                    )
                },
            },
        }
    }
}

fn check_plan_accounts(book: &Book, plan: &recurring_investment::Model) -> (r: HandlerResult<()>)
    ensures
        match (r, plan_accounts_refusal(*book, *plan)) {
            (Ok(_), None) => true,
            (Err(error), Some(wanted)) => error@ == wanted,
            _ => false,
        },
{
    let from = match find(&book.accounts, plan.from_account_id) {
        Some(from) => from,
        None => return Err(bad_request("定投扣款账户不存在")),
    };
    let fund = match find(&book.accounts, plan.fund_account_id) {
        Some(fund) => fund,
        None => return Err(bad_request("定投基金账户不存在")),
    };
    if credit_kind(&from.kind) {
        return Err(bad_request("信用卡和信贷服务不能作为定投扣款账户"));
    }
    if !same(&fund.kind, "investment") {
        return Err(bad_request("定投基金账户不再是投资账户，请先修改计划"));
    }
    if !same(&from.currency, &fund.currency) {
        return Err(bad_request("定投两端账户货币不一致，请先修改计划"));
    }
    Ok(())
}

/// The amounts of an investment, in cents and in hundredths of a percent, and what it was decided
/// on.
struct Computed {
    base: i64,
    multiplier: i64,
    amount: i64,
    fee: i64,
    decision: Option<SmartDecision>,
}

impl Computed {
    spec fn amounts(self) -> DayAmounts {
        DayAmounts {
            base: self.base as int,
            multiplier: self.multiplier as int,
            amount: self.amount as int,
            fee: self.fee as int,
        }
    }
}

fn decide(
    plan: &recurring_investment::Model,
    quotes: &Vec<market_index_quote::Model>,
    date: Date,
) -> (r: HandlerResult<Option<SmartDecision>>)
    ensures
        match (r, decided(*plan, quotes@, date)) {
            (Ok(None), Ok(multiplier)) => plan.strategy@ != "smart"@ && multiplier == 10_000,
            (Ok(Some(d)), Ok(multiplier)) => plan.strategy@ == "smart"@ && multiplier
                == d.multiplier_bps && decision_refusal(
                plan.index_code@,
                plan.moving_average_days as int,
                plan_quotes(*plan, quotes@, date),
            ) is None && is_decision(
                d,
                plan.index_code@,
                plan.moving_average_days as int,
                plan_quotes(*plan, quotes@, date),
            ),
            (Err(error), Err(wanted)) => error@ == wanted,
            _ => false,
        },
{
    if !same(&plan.strategy, "smart") {
        return Ok(None);
    }
    match smart_decision(&plan.index_code, plan.moving_average_days, date, quotes) {
        Ok(d) => Ok(Some(d)),
        Err(message) => Err(bad_request(&message)),
    }
}

fn compute(
    dek: &Dek,
    book: &Book,
    plan: &recurring_investment::Model,
    quotes: &Vec<market_index_quote::Model>,
    date: Date,
    given: Option<i64>,
) -> (r: HandlerResult<Computed>)
    ensures
        match (r, day_amounts(dek@, *book, *plan, quotes@, date, given)) {
            (Ok(c), Ok(wanted)) => c.amounts() == wanted && (match c.decision {
                Some(d) => plan.strategy@ == "smart"@ && decision_refusal(
                    plan.index_code@,
                    plan.moving_average_days as int,
                    plan_quotes(*plan, quotes@, date),
                ) is None && is_decision(
                    d,
                    plan.index_code@,
                    plan.moving_average_days as int,
                    plan_quotes(*plan, quotes@, date),
                ),
                None => plan.strategy@ != "smart"@,
            }),
            (Err(error), Err(wanted)) => error@ == wanted,
            _ => false,
        },
{
    match check_plan_accounts(book, plan) {
        Ok(_) => {},
        Err(error) => return Err(error),
    }
    let sms: bool = same(&plan.strategy, "sms");
    let base: i64 = if sms || same(&plan.strategy, "manual") {
        match given {
            Some(amount) => amount,
            None => return Err(bad_request("手动金额计划需要填写本期定投金额")),
        }
    } else {
        decrypt_cents(dek, &plan.amount)
    };
    let decision = match decide(plan, quotes, date) {
        Ok(decision) => decision,
        Err(error) => return Err(error),
    };
    let multiplier: i64 = match &decision {
        Some(d) => d.multiplier_bps,
        None => 10_000,
    };
    let amount: i64 = match adjusted_amount(base, multiplier) {
        Ok(amount) => amount,
        Err(message) => return Err(bad_request(&message)),
    };
    let rate: i64 = if sms {
        0
    } else {
        decrypt_cents(dek, &plan.fee_rate_bps)
    };
    let fee: i64 = match calculate_fee(amount, rate) {
        Ok(fee) => fee,
        Err(error) => return Err(error),
    };
    let sum: i64 = match amount.checked_add(fee) {
        Some(sum) => sum,
        None => return Err(bad_request("定投本金和手续费合计超出范围")),
    };
    let charge: i64 = match negated(sum) {
        Some(charge) => charge,
        None => return Err(bad_request("定投金额超出范围")),
    };
    match ensure_balance_delta(dek, book, plan.from_account_id, charge) {
        Ok(_) => Ok(Computed { base, multiplier, amount, fee, decision }),
        Err(error) => Err(error),
    }
}

fn write_transfer_note(
    dek: &Dek,
    plan: &recurring_investment::Model,
    decision: &Option<SmartDecision>,
    Ghost(quotes): Ghost<Seq<market_index_quote::Model>>,
    Ghost(date): Ghost<Date>,
) -> (r: String)
    requires
        match *decision {
            Some(d) => plan.strategy@ == "smart"@ && decision_refusal(
                plan.index_code@,
                plan.moving_average_days as int,
                plan_quotes(*plan, quotes, date),
            ) is None && is_decision(
                d,
                plan.index_code@,
                plan.moving_average_days as int,
                plan_quotes(*plan, quotes, date),
            ),
            None => plan.strategy@ != "smart"@,
        },
    ensures
        r@ == transfer_note(dek@, *plan, quotes, date),
{
    let name = decrypt_string(dek, &plan.name);
    match decision {
        Some(d) => {
            let rest = join5(
                " ",
                &int_to_text(d.moving_average_days as i64),
                " · ",
                &format_multiplier(d.multiplier_bps),
                "",
            );
            let note = join5("聪明定投 · ", &name, " · ", &d.index_name, &rest);
            proof {
                reveal_strlit("");
                assert(note@ =~= transfer_note(dek@, *plan, quotes, date));
            }
            note
        },
        None => if same(&plan.strategy, "sms") {
            join2("招商银行短信定投 · ", &name)
        } else if same(&plan.strategy, "manual") {
            join2("手动金额定投 · ", &name)
        } else {
            join2("每日定投 · ", &name)
        },
    }
}

fn write_short(value: Dec) -> (r: String)
    requires
        value.wf(),
    ensures
        r@ == short_text(value.pair()),
{
    decimal_to_text(normalize(value))
}

fn execution_row(
    dek: &Dek,
    plan: &recurring_investment::Model,
    c: &Computed,
    date: Date,
    now: DateTime,
    Ghost(o): Ghost<Occasion>,
) -> (r: investment_execution::Model)
    requires
        o.dek == dek@,
        o.plan == *plan,
        o.date == date,
        o.now == now,
        match c.decision {
            Some(d) => plan.strategy@ == "smart"@ && is_decision(
                d,
                plan.index_code@,
                plan.moving_average_days as int,
                plan_quotes(*plan, o.quotes, date),
            ),
            None => plan.strategy@ != "smart"@,
        },
    ensures
        is_day_execution(r, o, c.amounts()),
{
    let mut index_code = String::new();
    let mut moving_average_days: i32 = 0;
    let mut quote_date: Option<Date> = None;
    let mut index_close = String::new();
    let mut moving_average = String::new();
    if let Some(d) = &c.decision {
        index_code = d.index_code.clone();
        moving_average_days = d.moving_average_days;
        quote_date = Some(d.quote_date);
        index_close = write_short(d.close);
        moving_average = write_short(d.moving_average);
    } else {
        proof {
            assert(index_code@ =~= Seq::empty());
            assert(index_close@ =~= Seq::empty());
            assert(moving_average@ =~= Seq::empty());
        }
    }
    investment_execution::Model {
        id: 0,
        plan_id: plan.id,
        trade_date: date,
        transfer_id: None,
        fee_bill_id: None,
        base_amount: encrypt_cents(dek, c.base),
        multiplier_bps: encrypt_cents(dek, c.multiplier),
        strategy: plan.strategy.clone(),
        index_code,
        moving_average_days,
        quote_date,
        index_close,
        moving_average,
        created_at: now,
    }
}

/// Carries out a plan on a day: the rows of the investment are added to the ledger.
///
/// `given` is the amount of a plan whose amount is given for each day, `at` the time at which the
/// investment was made where it is known.
pub fn execute_plan_day(
    dek: &Dek,
    ledger: &mut Ledger,
    plan: &recurring_investment::Model,
    quotes: &Vec<market_index_quote::Model>,
    trade_date: Date,
    given: Option<i64>,
    at: Option<DateTime>,
    now: DateTime,
) -> (r: HandlerResult<DayRun>)
    ensures
        day_carried_out(
            *old(ledger),
            *final(ledger),
            run_view(r),
            Occasion { dek: dek@, plan: *plan, quotes: quotes@, date: trade_date, given, at, now },
        ),
{
    proof {
        reveal(day_carried_out);
    }
    let ghost o = Occasion {
        dek: dek@,
        plan: *plan,
        quotes: quotes@,
        date: trade_date,
        given,
        at,
        now,
    };
    let ghost before = *ledger;
    if !same(&plan.strategy, "sms") && !is_trading_day(&ledger.closed, trade_date) {
        return Err(bad_request(&join2(&date_to_text(trade_date), " 不是中国大陆交易日")));
    }
    if find_executed(&ledger.executions, plan.id, trade_date) {
        return match find_day_after(&ledger.closed, &plan.strategy, trade_date) {
            Ok(next_date) => Ok(DayRun { next_date, entry: None }),
            Err(error) => Err(error),
        };
    }
    let c = match compute(dek, &ledger.book, plan, quotes, trade_date, given) {
        Ok(c) => c,
        Err(error) => return Err(error),
    };
    let first_category: usize = ledger.categories.len();
    if c.fee > 0 {
        ensure_fee_category(dek, &mut ledger.categories, now);
    }
    let added: bool = ledger.categories.len() > first_category;
    let next_date = match find_day_after(&ledger.closed, &plan.strategy, trade_date) {
        Ok(next_date) => next_date,
        Err(error) => return Err(error),
    };
    let note = write_transfer_note(dek, plan, &c.decision, Ghost(quotes@), Ghost(trade_date));
    let fee_text = join2("每日定投手续费 · ", &decrypt_string(dek, &plan.name));
    if !is_sealable(&note) || !is_sealable(&fee_text) {
        return Err(text_too_long());
    }
    let happened_at = match at {
        Some(time) => time,
        None => DateTime { date: trade_date, second: 25200, nano: 0 },
    };
    let entry = DayEntry {
        transfer: ledger.book.transfers.len(),
        fee_bill: if c.fee > 0 {
            Some(ledger.book.bills.len())
        } else {
            None
        },
        execution: ledger.executions.len(),
        category: if added {
            Some(first_category)
        } else {
            None
        },
    };
    let to_amount = encrypt_cents(dek, c.amount);
    ledger.book.transfers.push(
        transfer::Model {
            id: 0,
            from_account_id: plan.from_account_id,
            to_account_id: plan.fund_account_id,
            amount: encrypt_cents(dek, c.amount),
            to_amount,
            note: encrypt_string(dek, &note),
            happened_at,
            created_at: now,
        },
    );
    if c.fee > 0 {
        proof {
            reveal_strlit("投资手续费");
            utf8_length("投资手续费"@);
        }
        ledger.book.bills.push(
            bill::Model {
                id: 0,
                account_id: plan.from_account_id,
                kind: "expense".to_owned(),
                amount: encrypt_cents(dek, c.fee),
                category: encrypt_string(dek, "投资手续费"),
                is_food: false,
                note: encrypt_string(dek, &fee_text),
                happened_at,
                created_at: now,
            },
        );
    }
    ledger.executions.push(execution_row(dek, plan, &c, trade_date, now, Ghost(o)));
    proof {
        assert(ledger.book.transfers@.drop_last() =~= before.book.transfers@);
        if c.fee > 0 {
            assert(ledger.book.bills@.drop_last() =~= before.book.bills@);
        }
        assert(ledger.executions@.drop_last() =~= before.executions@);
        assert(invests(before, *ledger, entry, o, c.amounts()));
    }
    Ok(DayRun { next_date, entry: Some(entry) })
}

/// The day and the amount of a plan whose amount is given by hand.
pub struct ManualExecuteFormData {
    pub trade_date: String,
    pub amount: String,
}

/// Why a plan cannot be carried out with an amount given by hand, where it cannot.
pub open spec fn manual_refusal(
    plans: Seq<recurring_investment::Model>,
    id: i64,
    form: ManualExecuteFormData,
    today: Date,
) -> Option<ErrorView> {
    match day_of_text(form.trade_date@) {
        None => Some(bad("待执行交易日格式不正确"@)),
        Some(date) => match invested(form.amount@) {
            Err(e) => Some(e),
            Ok(_) => match found(plans, id) {
                None => Some(missing("定投计划不存在"@)),
                Some(plan) => if plan.strategy@ != "manual"@ {
                    Some(bad("这个计划不是每日手动金额策略"@))
                } else if !plan.active {
                    Some(bad("这个定投计划已暂停"@))
                } else if date != plan.next_trade_date {
                    Some(bad("待执行日期已经变化，请刷新页面后重新填写"@))
                } else if date.days > today.days {
                    Some(bad("尚未到这个交易日，不能提前执行"@))
                } else {
                    None
                },
            },
        },
    }
}

/// A result as a value.
pub open spec fn run_view(r: HandlerResult<DayRun>) -> Result<DayRun, ErrorView> {
    match r {
        Ok(run) => Ok(run),
        Err(error) => Err(error@),
    }
}

/// Carries out a plan with an amount given by hand, on the day for which it is due.
pub fn execute_manual(
    dek: &Dek,
    ledger: &mut Ledger,
    plans: &Vec<recurring_investment::Model>,
    quotes: &Vec<market_index_quote::Model>,
    id: i64,
    form: &ManualExecuteFormData,
    today: Date,
    now: DateTime,
) -> (r: HandlerResult<DayRun>)
    ensures
        match manual_refusal(plans@, id, *form, today) {
            Some(wanted) => *final(ledger) == *old(ledger) && (r matches Err(error) && error@
                == wanted),
            None => day_carried_out(
                *old(ledger),
                *final(ledger),
                run_view(r),
                Occasion {
                    dek: dek@,
                    plan: found(plans@, id)->0,
                    quotes: quotes@,
                    date: day_of_text(form.trade_date@)->0,
                    given: Some(invested(form.amount@)->Ok_0),
                    at: None,
                    now,
                },
            ),
        },
{
    let trade_date = match parse_day(&form.trade_date) {
        Some(date) => date,
        None => return Err(bad_request("待执行交易日格式不正确")),
    };
    let amount: i64 = match parse_amount(&form.amount) {
        Ok(amount) => amount,
        Err(error) => return Err(error),
    };
    let plan = match find(plans, id) {
        Some(plan) => plan,
        None => return Err(not_found("定投计划不存在")),
    };
    if !same(&plan.strategy, "manual") {
        return Err(bad_request("这个计划不是每日手动金额策略"));
    }
    if !plan.active {
        return Err(bad_request("这个定投计划已暂停"));
    }
    if trade_date.days != plan.next_trade_date.days {
        return Err(bad_request("待执行日期已经变化，请刷新页面后重新填写"));
    }
    if trade_date.days > today.days {
        return Err(bad_request("尚未到这个交易日，不能提前执行"));
    }
    execute_plan_day(dek, ledger, plan, quotes, trade_date, Some(amount), None, now)
}

/// A plan is carried out once on a day: after it was, carrying it out again on that day, with
/// whatever amount, changes nothing.
pub proof fn carried_out_once(
    before: Ledger,
    after: Ledger,
    run: DayRun,
    o: Occasion,
    later: Ledger,
    r: Result<DayRun, ErrorView>,
    again: Occasion,
)
    requires
        day_carried_out(before, after, Ok(run), o),
        again.plan.id == o.plan.id,
        again.date == o.date,
        day_carried_out(after, later, r, again),
    ensures
        was_executed(after.executions@, o.plan.id, o.date),
        later == after,
{
    reveal(day_carried_out);
    if run.entry is Some {
        let e = after.executions@.last();
        assert(after.executions@[after.executions@.len() - 1] == e);
    }
}

/// What an investment does to the balances, where the two accounts of its plan differ: the account
/// that pays has the amount and the fee less, the account of the fund has the amount more, and no
/// other balance changes.
pub proof fn investment_moves_money(
    before: Ledger,
    after: Ledger,
    entry: DayEntry,
    o: Occasion,
    a: DayAmounts,
    id: i64,
)
    requires
        invests(before, after, entry, o, a),
        o.plan.from_account_id != o.plan.fund_account_id,
        a.fee >= 0,
        balance(o.dek, before.book, id) is Ok,
        balance(o.dek, after.book, id) is Ok,
    ensures
        balance(o.dek, after.book, id)->Ok_0 == balance(o.dek, before.book, id)->Ok_0 - (if id
            == o.plan.from_account_id {
            a.amount + a.fee
        } else {
            0
        }) + (if id == o.plan.fund_account_id {
            a.amount
        } else {
            0
        }),
{
    let b = before.book;
    let c = after.book;
    let t = c.transfers@.last();
    let x = bill_deltas(o.dek, b.bills@, id);
    let y = transfer_deltas(o.dek, b.transfers@, id);
    let z = debt_deltas(o.dek, b.debts@, id);
    assert(c.transfers@ =~= b.transfers@.push(t));
    assert(transfer_deltas(o.dek, c.transfers@, id) =~= y.push(transfer_delta(o.dek, t, id)));
    checked_total_push(y, transfer_delta(o.dek, t, id));
    let x2 = bill_deltas(o.dek, c.bills@, id);
    if a.fee > 0 {
        let f = c.bills@.last();
        assert(c.bills@ =~= b.bills@.push(f));
        assert(x2 =~= x.push(bill_delta(o.dek, f, id)));
        checked_total_push(x, bill_delta(o.dek, f, id));
        reveal_strlit("expense");
        reveal_strlit("income");
        assert("expense"@.len() != "income"@.len());
    }
    total_concat(x, y);
    total_concat(x + y, z);
    total_concat(x2, y.push(transfer_delta(o.dek, t, id)));
    total_concat(x2 + y.push(transfer_delta(o.dek, t, id)), z);
    checked_total_is_total(deltas(o.dek, b, id));
    checked_total_is_total(deltas(o.dek, c, id));
}

/// An investment that is carried out does not overdraw the account that pays.
pub proof fn investment_is_covered(
    before: Ledger,
    after: Ledger,
    run: DayRun,
    o: Occasion,
)
    requires
        day_carried_out(before, after, Ok(run), o),
        run.entry is Some,
    ensures
        ({
            let a = day_amounts(o.dek, before.book, o.plan, o.quotes, o.date, o.given)->Ok_0;
            &&& invests(before, after, run.entry->0, o, a)
            &&& (balance(o.dek, before.book, o.plan.from_account_id) matches Ok(now) && now
                >= a.amount + a.fee)
        }),
{
    reveal(day_carried_out);
}

/// What an investment comes to. A fixed plan invests its amount, a plan whose amount is given for each
/// day invests that, and a smart plan the nearest cent to its amount times the part that is decided
/// on. The fee is the nearest cent to the rate of the plan on what is invested, none on a message of
/// the bank, and is a bill of its own where it is above zero. The money goes from the account that
/// pays to the account of the fund.
pub proof fn investment_comes_to(
    before: Ledger,
    after: Ledger,
    run: DayRun,
    o: Occasion,
    index_code: &str,
    quotes: &Vec<market_index_quote::Model>,
    d: SmartDecision,
)
    requires
        day_carried_out(before, after, Ok(run), o),
        run.entry is Some,
        o.plan.strategy@ == "smart"@ ==> index_code@ == o.plan.index_code@ && quotes@ == o.quotes
            && call_ensures(
            smart_decision,
            (index_code, o.plan.moving_average_days, o.date, quotes),
            Ok(d),
        ),
    ensures
        ({
            let (b, c) = (before.book, after.book);
            let t = c.transfers@.last();
            let amount = cents(o.dek, t.amount@);
            let strategy = o.plan.strategy@;
            let base = cents(o.dek, o.plan.amount@);
            let rate = if strategy == "sms"@ {
                0
            } else {
                cents(o.dek, o.plan.fee_rate_bps@)
            };
            let charged = amount >= 0 && 0 <= rate <= 10_000;
            &&& c.transfers@ == b.transfers@.push(t)
            &&& t.from_account_id == o.plan.from_account_id
            &&& t.to_account_id == o.plan.fund_account_id
            &&& crate::handlers::received(o.dek, t) == amount
            &&& (strategy == "manual"@ || strategy == "sms"@) ==> o.given is Some && (o.given->0 >= 0
                ==> amount == o.given->0)
            &&& strategy == "smart"@ && base >= 0 ==> -5_000 <= base * d.multiplier_bps - 10_000
                * amount < 5_000
            &&& strategy != "manual"@ && strategy != "sms"@ && strategy != "smart"@ && base >= 0
                ==> amount == base
            &&& charged && c.bills@.len() > b.bills@.len() ==> {
                let f = c.bills@.last();
                let fee = cents(o.dek, f.amount@);
                &&& c.bills@ == b.bills@.push(f)
                &&& f.kind@ == "expense"@
                &&& f.account_id == o.plan.from_account_id
                &&& plain(o.dek, f.category@) == "投资手续费"@
                &&& fee > 0
                &&& -5_000 <= amount * rate - 10_000 * fee < 5_000
            }
            &&& charged && c.bills@.len() <= b.bills@.len() ==> c.bills@ == b.bills@ && amount * rate
                < 5_000
        }),
{
    reveal(day_carried_out);
    reveal_strlit("manual");
    reveal_strlit("sms");
    reveal_strlit("smart");
    assert("manual"@.len() == 6 && "sms"@.len() == 3 && "smart"@.len() == 5);
    let a = day_amounts(o.dek, before.book, o.plan, o.quotes, o.date, o.given)->Ok_0;
    let (b, c) = (before.book, after.book);
    assert(c.transfers@ =~= b.transfers@.push(c.transfers@.last()));
    if a.fee > 0 {
        assert(c.bills@ =~= b.bills@.push(c.bills@.last()));
    }
    if a.base >= 0 {
        if a.multiplier >= 0 {
            crate::market_data::adjusted_is_nearest(a.base, a.multiplier);
        }
    }
    let rate = if o.plan.strategy@ == "sms"@ {
        0
    } else {
        cents(o.dek, o.plan.fee_rate_bps@)
    };
    if a.amount >= 0 && 0 <= rate <= 10_000 {
        crate::handlers::investments::trading::fee_is_nearest(a.amount, rate);
    }
    assert(a.multiplier * a.base == a.base * a.multiplier) by (nonlinear_arith);
}

} // verus!
