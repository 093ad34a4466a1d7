//! Plans of recurring investments: their form, and what is kept of them.
use vstd::prelude::*;
use vstd::string::*;

use crate::book::{find, found, Book, Row};
use crate::calendar::{date_text, date_to_text, day_of_text, parse_day, Date, DateTime};
use crate::crypto::{
    cents, decrypt_cents, decrypt_string, encrypt_cents, encrypt_string, plain, sealable, Dek,
};
use crate::decimal::{cents_text, fmt_cents};
use crate::entity::{account, market_closed_day, recurring_investment};
use crate::error::{bad, bad_request, missing, not_found, ErrorView, HandlerResult};
use crate::handlers::accounts::{credit_kind, is_credit};
use crate::handlers::bills::AccountOption;
use crate::handlers::investments::trading::{
    are_averages, fee_rate, invested, moving_average_options, next_open, next_trading_day,
    parse_amount, parse_fee_rate_bps, MovingAverageOption,
};
use crate::market_data::{
    index_named, index_option, index_options, is_moving_average, valid_moving_average, IndexOption,
};
use crate::text::{
    bounded, digits_of, int_text, int_to_text, join3, keep_digits, parse_i32, same, signed_value,
    trimmed, trimmed_bytes,
};

verus! {

/// The form of a plan.
pub struct InvestmentFormData {
    pub name: String,
    pub amount: String,
    pub fee_rate: String,
    pub strategy: String,
    pub index_code: String,
    pub sms_fund_name: String,
    pub moving_average_days: String,
    pub from_account_id: i64,
    pub fund_account_id: i64,
    pub start_date: String,
    pub note: String,
    pub active: Option<String>,
}

impl Row for recurring_investment::Model {
    open spec fn key(&self) -> i64 {
        self.id
    }

    fn row_key(&self) -> i64 {
        self.id
    }
}

/// A plan invests in one of these ways.
pub open spec fn is_strategy(strategy: Seq<char>) -> bool {
    strategy == "fixed"@ || strategy == "smart"@ || strategy == "manual"@ || strategy == "sms"@
}

/// The number of days that a form gives for the moving average.
pub open spec fn form_days(form: InvestmentFormData) -> Option<int> {
    bounded(signed_value(form.moving_average_days@), i32::MIN as int, i32::MAX as int)
}

/// Why the accounts of a form cannot be those of a plan, where they cannot.
pub open spec fn accounts_refusal(book: Book, form: InvestmentFormData) -> Option<ErrorView> {
    if form.from_account_id == form.fund_account_id {
        Some(bad("扣款账户和基金账户不能相同"@))
    } else {
        match found(book.accounts@, form.from_account_id) {
            None => Some(bad("扣款账户不存在"@)),
            Some(from) => if is_credit(from.kind@) {
                Some(bad("信用卡和信贷服务不能作为定投扣款账户"@))
            } else {
                match found(book.accounts@, form.fund_account_id) {
                    None => Some(bad("基金账户不存在"@)),
                    Some(fund) => if fund.kind@ != "investment"@ {
                        Some(bad("定投的固定基金账户必须是投资账户"@))
                    } else if from.currency@ != fund.currency@ {
                        Some(bad("定投扣款账户和基金账户必须使用相同货币"@))
                    } else {
                        None
                    },
                }
            },
        }
    }
}

/// Why the index of a form cannot be followed, where it cannot.
pub open spec fn index_refusal(form: InvestmentFormData) -> Option<ErrorView> {
    if index_named(trimmed(form.index_code@)) is None {
        Some(bad("请选择支持的跟踪指数"@))
    } else {
        match form_days(form) {
            None => Some(bad("均线周期格式不正确"@)),
            Some(days) => if !is_moving_average(days) {
                Some(bad("请选择支持的均线周期"@))
            } else {
                None
            },
        }
    }
}

/// Why the messages of the bank cannot be followed, where they cannot.
pub open spec fn sms_refusal(dek: Seq<u8>, book: Book, form: InvestmentFormData) -> Option<
    ErrorView,
> {
    let from = found(book.accounts@, form.from_account_id)->0;
    if from.currency@ != "CNY"@ {
        Some(bad("招商银行短信实扣模式目前只支持 CNY 账户"@))
    } else if trimmed(form.sms_fund_name@).len() == 0 {
        Some(bad("短信实扣模式必须填写短信中的基金名称"@))
    } else {
        match found(book.details@, from.id) {
            None => Some(bad("短信实扣模式的扣款账户必须配置银行卡号"@)),
            Some(detail) => if digits_of(plain(dek, detail.card_number@)).len() < 4 {
                Some(bad("短信实扣模式的扣款账户必须配置有效银行卡号"@))
            } else {
                None
            },
        }
    }
}

/// The base amount of a plan, or why it is refused. What the bank reports needs none; an amount
/// that is entered each time needs none either.
pub open spec fn base_amount(form: InvestmentFormData) -> Result<i64, ErrorView> {
    if form.strategy@ == "sms"@ || form.strategy@ == "manual"@ && trimmed(form.amount@).len() == 0 {
        Ok(0)
    } else {
        invested(form.amount@)
    }
}

/// The part of an amount that a plan pays as a fee, or why it is refused.
pub open spec fn form_fee_rate(form: InvestmentFormData) -> Result<i64, ErrorView> {
    if form.strategy@ == "sms"@ {
        Ok(0)
    } else {
        fee_rate(form.fee_rate@)
    }
}

/// Why a form is refused, where it is.
pub open spec fn form_refusal(dek: Seq<u8>, book: Book, form: InvestmentFormData) -> Option<
    ErrorView,
> {
    if trimmed(form.name@).len() == 0 {
        Some(bad("定投计划名不能为空"@))
    } else if accounts_refusal(book, form) is Some {
        accounts_refusal(book, form)
    } else if day_of_text(form.start_date@) is None {
        Some(bad("开始日期格式不正确"@))
    } else if !is_strategy(form.strategy@) {
        Some(bad("请选择支持的扣款策略"@))
    } else if form.strategy@ == "smart"@ && index_refusal(form) is Some {
        index_refusal(form)
    } else if form.strategy@ == "sms"@ && sms_refusal(dek, book, form) is Some {
        sms_refusal(dek, book, form)
    } else {
        match base_amount(form) {
            Err(e) => Some(e),
            Ok(_) => match form_fee_rate(form) {
                Err(e) => Some(e),
                Ok(_) => None,
            },
        }
    }
}

/// What a form gives.
pub struct ParsedInvestment {
    pub name: String,
    pub amount: i64,
    pub fee_rate_bps: i64,
    pub strategy: String,
    pub index_code: String,
    pub sms_fund_name: String,
    pub moving_average_days: i32,
    pub from_account_id: i64,
    pub fund_account_id: i64,
    pub start_date: Date,
    pub note: String,
    pub active: bool,
}

/// The index that a form follows, if it follows one.
pub open spec fn form_index(form: InvestmentFormData) -> Seq<char> {
    if form.strategy@ == "smart"@ {
        trimmed(form.index_code@)
    } else {
        Seq::empty()
    }
}

/// The number of days of the moving average of a form.
pub open spec fn form_average(form: InvestmentFormData) -> int {
    if form.strategy@ == "smart"@ {
        form_days(form)->0
    } else {
        180
    }
}

/// The fund that a form looks for in the messages of the bank, if it does.
pub open spec fn form_fund(form: InvestmentFormData) -> Seq<char> {
    if form.strategy@ == "sms"@ {
        trimmed(form.sms_fund_name@)
    } else {
        Seq::empty()
    }
}

/// A form gives these values.
pub open spec fn gives(form: InvestmentFormData, parsed: ParsedInvestment) -> bool {
    &&& parsed.name@ == trimmed(form.name@)
    &&& base_amount(form) == Ok::<i64, ErrorView>(parsed.amount)
    &&& form_fee_rate(form) == Ok::<i64, ErrorView>(parsed.fee_rate_bps)
    &&& parsed.strategy@ == form.strategy@
    &&& parsed.index_code@ == form_index(form)
    &&& parsed.moving_average_days == form_average(form)
    &&& parsed.sms_fund_name@ == form_fund(form)
    &&& parsed.from_account_id == form.from_account_id
    &&& parsed.fund_account_id == form.fund_account_id
    &&& day_of_text(form.start_date@) == Some(parsed.start_date)
    &&& parsed.note@ == trimmed(form.note@)
    &&& parsed.active == (form.active is Some)
}

fn check_accounts(book: &Book, form: &InvestmentFormData) -> (r: HandlerResult<()>)
    ensures
        match (r, accounts_refusal(*book, *form)) {
            (Ok(_), None) => true,
            (Err(error), Some(wanted)) => error@ == wanted,
            _ => false,
        },
{
    if form.from_account_id == form.fund_account_id {
        return Err(bad_request("扣款账户和基金账户不能相同"));
    }
    let from = match find(&book.accounts, form.from_account_id) {
        Some(from) => from,
        None => return Err(bad_request("扣款账户不存在")),
    };
    if credit_kind(&from.kind) {
        return Err(bad_request("信用卡和信贷服务不能作为定投扣款账户"));
    }
    let fund = match find(&book.accounts, form.fund_account_id) {
        Some(fund) => fund,
        None => return Err(bad_request("基金账户不存在")),
    };
    if !same(&fund.kind, "investment") {
        return Err(bad_request("定投的固定基金账户必须是投资账户"));
    }
    if !same(&from.currency, &fund.currency) {
        return Err(bad_request("定投扣款账户和基金账户必须使用相同货币"));
    }
    Ok(())
}

fn check_index(form: &InvestmentFormData) -> (r: HandlerResult<i32>)
    ensures
        match (r, index_refusal(*form)) {
            (Ok(days), None) => form_days(*form) == Some(days as int),
            (Err(error), Some(wanted)) => error@ == wanted,
            _ => false,
        },
{
    if index_option(form.index_code.as_str().trim()).is_none() {
        return Err(bad_request("请选择支持的跟踪指数"));
    }
    match parse_i32(&form.moving_average_days) {
        None => Err(bad_request("均线周期格式不正确")),
        Some(days) => if !valid_moving_average(days) {
            Err(bad_request("请选择支持的均线周期"))
        } else {
            Ok(days)
        },
    }
}

fn check_sms(dek: &Dek, book: &Book, form: &InvestmentFormData) -> (r: HandlerResult<()>)
    requires
        found(book.accounts@, form.from_account_id) is Some,
    ensures
        match (r, sms_refusal(dek@, *book, *form)) {
            (Ok(_), None) => true,
            (Err(error), Some(wanted)) => error@ == wanted,
            _ => false,
        },
{
    let from = find(&book.accounts, form.from_account_id).unwrap();
    if !same(&from.currency, "CNY") {
        return Err(bad_request("招商银行短信实扣模式目前只支持 CNY 账户"));
    }
    if form.sms_fund_name.as_str().trim().is_empty() {
        return Err(bad_request("短信实扣模式必须填写短信中的基金名称"));
    }
    match find(&book.details, from.id) {
        None => Err(bad_request("短信实扣模式的扣款账户必须配置银行卡号")),
        Some(detail) => {
            let digits = keep_digits(&decrypt_string(dek, &detail.card_number));
            if digits.as_str().unicode_len() < 4 {
                Err(bad_request("短信实扣模式的扣款账户必须配置有效银行卡号"))
            } else {
                Ok(())
            }
        },
    }
}

/// Reads the form of a plan.
pub fn parse_form(dek: &Dek, book: &Book, form: &InvestmentFormData) -> (r: HandlerResult<
    ParsedInvestment,
>)
    ensures
        match (r, form_refusal(dek@, *book, *form)) {
            (Ok(parsed), None) => gives(*form, parsed),
            (Err(error), Some(wanted)) => error@ == wanted,
            _ => false,
        },
{
    let name = form.name.as_str().trim();
    if name.is_empty() {
        return Err(bad_request("定投计划名不能为空"));
    }
    match check_accounts(book, form) {
        Ok(_) => {},
        Err(error) => return Err(error),
    }
    let start_date = match parse_day(&form.start_date) {
        Some(date) => date,
        None => return Err(bad_request("开始日期格式不正确")),
    };
    let strategy = form.strategy.as_str();
    let smart: bool = same(strategy, "smart");
    let manual: bool = same(strategy, "manual");
    let sms: bool = same(strategy, "sms");
    proof {
        reveal_strlit("fixed");
        reveal_strlit("smart");
        reveal_strlit("manual");
        reveal_strlit("sms");
        assert("sms"@.len() != "smart"@.len());
        assert("smart"@.len() != "manual"@.len());
    }
    if !same(strategy, "fixed") && !smart && !manual && !sms {
        return Err(bad_request("请选择支持的扣款策略"));
    }
    let mut index_code = String::new();
    let mut moving_average_days: i32 = 180;
    if smart {
        match check_index(form) {
            Ok(days) => {
                index_code = form.index_code.as_str().trim().to_owned();
                moving_average_days = days;
            },
            Err(error) => return Err(error),
        }
    }
    let mut sms_fund_name = String::new();
    if sms {
        match check_sms(dek, book, form) {
            Ok(_) => {
                sms_fund_name = form.sms_fund_name.as_str().trim().to_owned();
            },
            Err(error) => return Err(error),
        }
    }
    proof {
        assert(index_code@ =~= form_index(*form));
        assert(sms_fund_name@ =~= form_fund(*form));
    }
    let amount: i64 = if sms || manual && form.amount.as_str().trim().is_empty() {
        0
    } else {
        match parse_amount(&form.amount) {
            Ok(amount) => amount,
            Err(error) => return Err(error),
        }
    };
    let fee_rate_bps: i64 = if sms {
        0
    } else {
        match parse_fee_rate_bps(&form.fee_rate) {
            Ok(bps) => bps,
            Err(error) => return Err(error),
        }
    };
    Ok(
        ParsedInvestment {
            name: name.to_owned(),
            amount,
            fee_rate_bps,
            strategy: strategy.to_owned(),
            index_code,
            sms_fund_name,
            moving_average_days,
            from_account_id: form.from_account_id,
            fund_account_id: form.fund_account_id,
            start_date,
            note: form.note.as_str().trim().to_owned(),
            active: form.active.is_some(),
        },
    )
}

/// A row keeps what a form gives, and the day of the next investment.
pub open spec fn keeps_plan(
    row: recurring_investment::Model,
    dek: Seq<u8>,
    form: InvestmentFormData,
    next_trade_date: Date,
) -> bool {
    &&& plain(dek, row.name@) == trimmed(form.name@)
    &&& row.from_account_id == form.from_account_id
    &&& row.fund_account_id == form.fund_account_id
    &&& base_amount(form) == Ok::<i64, ErrorView>(cents(dek, row.amount@) as i64)
    &&& form_fee_rate(form) == Ok::<i64, ErrorView>(cents(dek, row.fee_rate_bps@) as i64)
    &&& row.strategy@ == form.strategy@
    &&& row.index_code@ == form_index(form)
    &&& row.moving_average_days == form_average(form)
    &&& plain(dek, row.sms_fund_name@) == form_fund(form)
    &&& day_of_text(form.start_date@) == Some(row.start_date)
    &&& row.next_trade_date == next_trade_date
    &&& row.active == (form.active is Some)
    &&& plain(dek, row.note@) == trimmed(form.note@)
}

fn plan_row(
    dek: &Dek,
    form: &InvestmentFormData,
    parsed: &ParsedInvestment,
    id: i64,
    next_trade_date: Date,
    created_at: DateTime,
) -> (r: recurring_investment::Model)
    requires
        gives(*form, *parsed),
        sealable(form.name@),
        sealable(form.note@),
        sealable(form.sms_fund_name@),
    ensures
        keeps_plan(r, dek@, *form, next_trade_date),
        r.id == id,
        r.created_at == created_at,
{
    proof {
        trimmed_bytes(form.name@);
        trimmed_bytes(form.note@);
        trimmed_bytes(form.sms_fund_name@);
    }
    recurring_investment::Model {
        id,
        name: encrypt_string(dek, &parsed.name),
        from_account_id: parsed.from_account_id,
        fund_account_id: parsed.fund_account_id,
        amount: encrypt_cents(dek, parsed.amount),
        fee_rate_bps: encrypt_cents(dek, parsed.fee_rate_bps),
        strategy: parsed.strategy.clone(),
        index_code: parsed.index_code.clone(),
        moving_average_days: parsed.moving_average_days,
        sms_fund_name: encrypt_string(dek, &parsed.sms_fund_name),
        start_date: parsed.start_date,
        next_trade_date,
        active: parsed.active,
        note: encrypt_string(dek, &parsed.note),
        created_at,
    }
}

/// The day of the first investment of a new plan, or why there is no such plan.
pub open spec fn first_trade_date(
    dek: Seq<u8>,
    book: Book,
    closed: Seq<market_closed_day::Model>,
    form: InvestmentFormData,
    today: Date,
) -> Result<Date, ErrorView> {
    match form_refusal(dek, book, form) {
        Some(e) => Err(e),
        None => {
            let start = day_of_text(form.start_date@)->0;
            if start.days < today.days {
                Err(bad("新定投计划不能从过去日期开始"@))
            } else {
                next_open(closed, start)
            }
        },
    }
}

/// Makes a plan: the row to store.
pub fn create(
    dek: &Dek,
    book: &Book,
    closed: &Vec<market_closed_day::Model>,
    form: &InvestmentFormData,
    today: Date,
    now: DateTime,
) -> (r: HandlerResult<recurring_investment::Model>)
    requires
        sealable(form.name@),
        sealable(form.note@),
        sealable(form.sms_fund_name@),
    ensures
        match (r, first_trade_date(dek@, *book, closed@, *form, today)) {
            (Ok(row), Ok(first)) => keeps_plan(row, dek@, *form, first) && row.created_at == now,
            (Err(error), Err(wanted)) => error@ == wanted,
            _ => false,
        },
{
    let parsed = match parse_form(dek, book, form) {
        Ok(parsed) => parsed,
        Err(error) => return Err(error),
    };
    if parsed.start_date.days < today.days {
        return Err(bad_request("新定投计划不能从过去日期开始"));
    }
    match next_trading_day(closed, parsed.start_date) {
        Err(error) => Err(error),
        Ok(first) => Ok(plan_row(dek, form, &parsed, 0, first, now)),
    }
}

/// The later of two days.
pub open spec fn later(a: Date, b: Date) -> Date {
    if a.days < b.days {
        b
    } else {
        a
    }
}

fn later_of(a: Date, b: Date) -> (r: Date)
    ensures
        r == later(a, b),
{
    if a.days < b.days {
        b
    } else {
        a
    }
}

/// The day of the next investment of a plan that is changed, or why it cannot be changed. A plan
/// that is resumed, or that starts only after its next day, is scheduled anew.
pub open spec fn changed_trade_date(
    dek: Seq<u8>,
    book: Book,
    closed: Seq<market_closed_day::Model>,
    plans: Seq<recurring_investment::Model>,
    id: i64,
    form: InvestmentFormData,
    today: Date,
) -> Result<Date, ErrorView> {
    match form_refusal(dek, book, form) {
        Some(e) => Err(e),
        None => match found(plans, id) {
            None => Err(missing("定投计划不存在"@)),
            Some(plan) => {
                let start = day_of_text(form.start_date@)->0;
                if !plan.active && form.active is Some || start.days > plan.next_trade_date.days {
                    next_open(closed, later(start, today))
                } else {
                    Ok(plan.next_trade_date)
                }
            },
        },
    }
}

/// Changes a plan: the row to store in its place.
pub fn update(
    dek: &Dek,
    book: &Book,
    closed: &Vec<market_closed_day::Model>,
    plans: &Vec<recurring_investment::Model>,
    id: i64,
    form: &InvestmentFormData,
    today: Date,
) -> (r: HandlerResult<recurring_investment::Model>)
    requires
        sealable(form.name@),
        sealable(form.note@),
        sealable(form.sms_fund_name@),
    ensures
        match (r, changed_trade_date(dek@, *book, closed@, plans@, id, *form, today)) {
            (Ok(row), Ok(next)) => keeps_plan(row, dek@, *form, next) && row.id == id
                && row.created_at == found(plans@, id)->0.created_at,
            (Err(error), Err(wanted)) => error@ == wanted,
            _ => false,
        },
{
    let parsed = match parse_form(dek, book, form) {
        Ok(parsed) => parsed,
        Err(error) => return Err(error),
    };
    let plan = match find(plans, id) {
        Some(plan) => plan,
        None => return Err(not_found("定投计划不存在")),
    };
    let next: Date = if !plan.active && parsed.active || parsed.start_date.days
        > plan.next_trade_date.days {
        match next_trading_day(closed, later_of(parsed.start_date, today)) {
            Ok(next) => next,
            Err(error) => return Err(error),
        }
    } else {
        plan.next_trade_date
    };
    Ok(plan_row(dek, form, &parsed, id, next, plan.created_at))
}

/// Whether a plan is active once it is switched, and the day of its next investment, or why it
/// cannot be switched. A plan that is resumed is scheduled anew.
pub open spec fn switched(
    closed: Seq<market_closed_day::Model>,
    plans: Seq<recurring_investment::Model>,
    id: i64,
    today: Date,
) -> Result<(bool, Date), ErrorView> {
    match found(plans, id) {
        None => Err(missing("定投计划不存在"@)),
        Some(plan) => if plan.active {
            Ok((false, plan.next_trade_date))
        } else {
            match next_open(closed, later(plan.start_date, today)) {
                Err(e) => Err(e),
                Ok(next) => Ok((true, next)),
            }
        },
    }
}

/// Pauses a plan that is active, and resumes one that is paused.
pub fn toggle(
    closed: &Vec<market_closed_day::Model>,
    plans: &Vec<recurring_investment::Model>,
    id: i64,
    today: Date,
) -> (r: HandlerResult<(bool, Date)>)
    ensures
        crate::error::agrees(r, switched(closed@, plans@, id, today)),
{
    let plan = match find(plans, id) {
        Some(plan) => plan,
        None => return Err(not_found("定投计划不存在")),
    };
    if plan.active {
        return Ok((false, plan.next_trade_date));
    }
    match next_trading_day(closed, later_of(plan.start_date, today)) {
        Ok(next) => Ok((true, next)),
        Err(error) => Err(error),
    }
}

/// Deletes a plan.
pub fn delete(plans: &Vec<recurring_investment::Model>, id: i64) -> (r: HandlerResult<()>)
    ensures
        match (r, found(plans@, id)) {
            (Ok(_), Some(_)) => true,
            (Err(error), None) => error@ == missing("定投计划不存在"@),
            _ => false,
        },
{
    match find(plans, id) {
        Some(_) => Ok(()),
        None => Err(not_found("定投计划不存在")),
    }
}

/// An account can be chosen for a purpose.
#[derive(Clone, Copy, Debug, PartialEq, Eq, Structural)]
pub enum Purpose {
    /// Any purpose.
    Any,
    /// To pay investments from.
    Source,
    /// To invest in.
    Fund,
    /// To receive what the bank reports as transferred.
    Target,
    /// To receive what the bank reports as repaid.
    Repayment,
}

/// An account can be chosen for a purpose.
pub open spec fn serves(purpose: Purpose, a: account::Model) -> bool {
    match purpose {
        Purpose::Any => true,
        Purpose::Source => !is_credit(a.kind@),
        Purpose::Fund => a.kind@ == "investment"@,
        Purpose::Target => a.currency@ == "CNY"@,
        Purpose::Repayment => a.currency@ == "CNY"@ && is_credit(a.kind@),
    }
}

fn can_serve(purpose: Purpose, a: &account::Model) -> (r: bool)
    ensures
        r == serves(purpose, *a),
{
    match purpose {
        Purpose::Any => true,
        Purpose::Source => !credit_kind(&a.kind),
        Purpose::Fund => same(&a.kind, "investment"),
        Purpose::Target => same(&a.currency, "CNY"),
        Purpose::Repayment => same(&a.currency, "CNY") && credit_kind(&a.kind),
    }
}

/// The accounts among the first `n` that can be chosen for a purpose.
pub open spec fn serving(accounts: Seq<account::Model>, purpose: Purpose, n: int) -> Seq<
    account::Model,
>
    decreases n,
{
    if n <= 0 {
        Seq::empty()
    } else if serves(purpose, accounts[n - 1]) {
        serving(accounts, purpose, n - 1).push(accounts[n - 1])
    } else {
        serving(accounts, purpose, n - 1)
    }
}

/// These are the accounts to choose from for a purpose.
pub open spec fn are_options(
    options: Seq<AccountOption>,
    dek: Seq<u8>,
    accounts: Seq<account::Model>,
    purpose: Purpose,
) -> bool {
    let wanted = serving(accounts, purpose, accounts.len() as int);
    &&& options.len() == wanted.len()
    &&& forall|i: int|
        0 <= i < wanted.len() ==> is_option(#[trigger] options[i], dek, wanted[i])
}

/// An account to choose shows these values.
pub open spec fn is_option(option: AccountOption, dek: Seq<u8>, a: account::Model) -> bool {
    &&& option.id == a.id
    &&& option.name@ == plain(dek, a.name@)
    &&& option.kind@ == a.kind@
    &&& option.currency@ == a.currency@
}

/// The accounts to choose from for a purpose.
pub fn account_options(dek: &Dek, accounts: &Vec<account::Model>, purpose: Purpose) -> (r: Vec<
    AccountOption,
>)
    ensures
        are_options(r@, dek@, accounts@, purpose),
{
    let mut options: Vec<AccountOption> = Vec::new();
    let mut i: usize = 0;
    while i < accounts.len()
        invariant
            i <= accounts.len(),
            options@.len() == serving(accounts@, purpose, i as int).len(),
            forall|j: int|
                0 <= j < options@.len() ==> is_option(
                    #[trigger] options@[j],
                    dek@,
                    serving(accounts@, purpose, i as int)[j],
                ),
        decreases accounts.len() - i,
    {
        let a = &accounts[i];
        if can_serve(purpose, a) {
            options.push(
                AccountOption {
                    id: a.id,
                    name: decrypt_string(dek, &a.name),
                    kind: a.kind.clone(),
                    currency: a.currency.clone(),
                },
            );
        }
        i = i + 1;
    }
    options
}

/// The page with the form of a plan.
pub struct InvestmentForm {
    pub heading: String,
    pub action: String,
    pub name: String,
    pub amount: String,
    pub fee_rate: String,
    pub strategy: String,
    pub index_code: String,
    pub sms_fund_name: String,
    pub from_account_id: i64,
    pub fund_account_id: i64,
    pub start_date: String,
    pub note: String,
    pub active: bool,
    pub min_start_date: String,
    pub source_accounts: Vec<AccountOption>,
    pub fund_accounts: Vec<AccountOption>,
    pub index_options: Vec<IndexOption>,
    pub moving_average_options: Vec<MovingAverageOption>,
}

/// What can be chosen on the page.
pub open spec fn form_choices(
    page: InvestmentForm,
    dek: Seq<u8>,
    accounts: Seq<account::Model>,
    days: i32,
) -> bool {
    &&& are_options(page.source_accounts@, dek, accounts, Purpose::Source)
    &&& are_options(page.fund_accounts@, dek, accounts, Purpose::Fund)
    &&& crate::market_data::are_indexes(page.index_options@)
    &&& are_averages(page.moving_average_options@, days)
}

/// The page to enter a new plan.
pub fn new_form(dek: &Dek, accounts: &Vec<account::Model>, today: Date) -> (r: InvestmentForm)
    ensures
        r.heading@ == "新增每日定投"@,
        r.action@ == "/investments"@,
        r.name@.len() == 0,
        r.amount@.len() == 0,
        r.fee_rate@ == "0.00"@,
        r.strategy@ == "fixed"@,
        r.index_code@ == "000300"@,
        r.sms_fund_name@.len() == 0,
        r.from_account_id == 0,
        r.fund_account_id == 0,
        r.start_date@ == date_text(today),
        r.note@.len() == 0,
        r.active,
        r.min_start_date@ == date_text(today),
        form_choices(r, dek@, accounts@, 180),
{
    InvestmentForm {
        heading: "新增每日定投".to_owned(),
        action: "/investments".to_owned(),
        name: String::new(),
        amount: String::new(),
        fee_rate: "0.00".to_owned(),
        strategy: "fixed".to_owned(),
        index_code: "000300".to_owned(),
        sms_fund_name: String::new(),
        from_account_id: 0,
        fund_account_id: 0,
        start_date: date_to_text(today),
        note: String::new(),
        active: true,
        min_start_date: date_to_text(today),
        source_accounts: account_options(dek, accounts, Purpose::Source),
        fund_accounts: account_options(dek, accounts, Purpose::Fund),
        index_options: index_options(),
        moving_average_options: moving_average_options(180),
    }
}

/// The page to change a plan shows these values.
pub open spec fn shows_plan(
    page: InvestmentForm,
    dek: Seq<u8>,
    plan: recurring_investment::Model,
    id: i64,
) -> bool {
    &&& page.heading@ == "编辑每日定投"@
    &&& page.action@ == "/investments/"@ + int_text(id as int) + "/edit"@
    &&& page.name@ == plain(dek, plan.name@)
    &&& page.amount@ == (if plan.strategy@ == "manual"@ && cents(dek, plan.amount@) == 0 {
        Seq::empty()
    } else {
        cents_text(cents(dek, plan.amount@))
    })
    &&& page.fee_rate@ == cents_text(cents(dek, plan.fee_rate_bps@))
    &&& page.strategy@ == plan.strategy@
    &&& page.index_code@ == plan.index_code@
    &&& page.sms_fund_name@ == plain(dek, plan.sms_fund_name@)
    &&& page.from_account_id == plan.from_account_id
    &&& page.fund_account_id == plan.fund_account_id
    &&& page.start_date@ == date_text(plan.start_date)
    &&& page.note@ == plain(dek, plan.note@)
    &&& page.active == plan.active
    &&& page.min_start_date@ == date_text(plan.start_date)
}

/// The page to change a plan.
pub fn edit_form(
    dek: &Dek,
    accounts: &Vec<account::Model>,
    plans: &Vec<recurring_investment::Model>,
    id: i64,
) -> (r: HandlerResult<InvestmentForm>)
    ensures
        match (r, found(plans@, id)) {
            (Ok(page), Some(plan)) => shows_plan(page, dek@, plan, id) && form_choices(
                page,
                dek@,
                accounts@,
                plan.moving_average_days,
            ),
            (Err(error), None) => error@ == missing("定投计划不存在"@),
            _ => false,
        },
{
    let plan = match find(plans, id) {
        Some(plan) => plan,
        None => return Err(not_found("定投计划不存在")),
    };
    let stored: i64 = decrypt_cents(dek, &plan.amount);
    let amount = if same(&plan.strategy, "manual") && stored == 0 {
        String::new()
    } else {
        fmt_cents(stored)
    };
    proof {
        if plan.strategy@ == "manual"@ && stored == 0 {
            assert(amount@ =~= Seq::empty());
        }
    }
    Ok(
        InvestmentForm {
            heading: "编辑每日定投".to_owned(),
            action: join3("/investments/", &int_to_text(id), "/edit"),
            name: decrypt_string(dek, &plan.name),
            amount,
            fee_rate: fmt_cents(decrypt_cents(dek, &plan.fee_rate_bps)),
            strategy: plan.strategy.clone(),
            index_code: plan.index_code.clone(),
            sms_fund_name: decrypt_string(dek, &plan.sms_fund_name),
            from_account_id: plan.from_account_id,
            fund_account_id: plan.fund_account_id,
            start_date: date_to_text(plan.start_date),
            note: decrypt_string(dek, &plan.note),
            active: plan.active,
            min_start_date: date_to_text(plan.start_date),
            source_accounts: account_options(dek, accounts, Purpose::Source),
            fund_accounts: account_options(dek, accounts, Purpose::Fund),
            index_options: index_options(),
            moving_average_options: moving_average_options(plan.moving_average_days),
        },
    )
}

} // verus!
