//! The days on which the market is open, and the amounts of an investment.
use vstd::prelude::*;

use crate::calendar::{day_of_text, in_calendar, parse_day, Date, DateTime};
use crate::decimal::{
    decimal_text, decimal_to_text, fits_i64, hundredths_of_text, money, normal, normalize,
    parse_hundredths, parse_money, Dec,
};
use crate::entity::market_closed_day;
use crate::error::{
    agrees, bad, bad_request, missing, not_found, ErrorView, HandlerResult,
};
use crate::market_data::{is_moving_average, quotient_towards_zero};
use crate::text::{join2, same, trimmed};

verus! {

/// The amount above zero that a text gives.
pub open spec fn invested(s: Seq<char>) -> Result<i64, ErrorView> {
    money(s, 1, "定投金额格式不正确"@, "定投金额必须大于 0"@, "定投金额超出范围"@)
}

/// Reads the amount of an investment.
pub fn parse_amount(value: &str) -> (r: HandlerResult<i64>)
    ensures
        agrees(r, invested(value@)),
        r matches Ok(n) ==> n > 0,
{
    parse_money(
        value,
        1,
        "定投金额格式不正确",
        "定投金额必须大于 0",
        "定投金额超出范围",
    )
}

/// The amount of at least zero that a text gives; the refusals name the field.
pub open spec fn nonnegative(s: Seq<char>, field: Seq<char>) -> Result<i64, ErrorView> {
    money(s, 0, field + "格式不正确"@, field + "不能小于 0"@, field + "超出范围"@)
}

/// Reads an amount of at least zero.
pub fn parse_nonnegative_amount(value: &str, field: &str) -> (r: HandlerResult<i64>)
    ensures
        agrees(r, nonnegative(value@, field@)),
        r matches Ok(n) ==> n >= 0,
{
    parse_money(
        value,
        0,
        &join2(field, "格式不正确"),
        &join2(field, "不能小于 0"),
        &join2(field, "超出范围"),
    )
}

/// The part of an amount, in hundredths of a percent, that a text gives in percent. An empty text
/// stands for zero.
pub open spec fn fee_rate(s: Seq<char>) -> Result<i64, ErrorView> {
    if trimmed(s).len() == 0 {
        Ok(0)
    } else {
        match hundredths_of_text(s) {
            None => Err(bad("手续费率格式不正确"@)),
            Some(bps) => if 0 <= bps <= 10_000 {
                Ok(bps as i64)
            } else {
                Err(bad("手续费率必须位于 0% 到 100% 之间"@))
            },
        }
    }
}

/// Reads a part of an amount, in hundredths of a percent.
pub fn parse_fee_rate_bps(value: &str) -> (r: HandlerResult<i64>)
    ensures
        agrees(r, fee_rate(value@)),
        r matches Ok(n) ==> 0 <= n <= 10_000,
{
    if value.trim().is_empty() {
        return Ok(0);
    }
    match parse_hundredths(value) {
        None => Err(bad_request("手续费率格式不正确")),
        Some(bps) => if 0 <= bps && bps <= 10_000 {
            Ok(bps as i64)
        } else {
            Err(bad_request("手续费率必须位于 0% 到 100% 之间"))
        },
    }
}

/// A part of an amount, in percent.
pub open spec fn fee_rate_text(bps: int) -> Seq<char> {
    let n = normal(bps, 2);
    decimal_text(n.0, n.1) + "%"@
}

/// Writes a part of an amount in percent.
pub fn format_fee_rate(bps: i64) -> (r: String)
    ensures
        r@ == fee_rate_text(bps as int),
{
    join2(&decimal_to_text(normalize(Dec { mantissa: bps as i128, scale: 2 })), "%")
}

/// The fee on an amount: half a cent added and the fraction dropped.
pub open spec fn fee_of(amount: int, fee_rate_bps: int) -> int {
    quotient_towards_zero(amount * fee_rate_bps + 5_000, 10_000)
}

/// The fee on an amount, or the refusal.
pub open spec fn fee_result(amount: int, fee_rate_bps: int) -> Result<i64, ErrorView> {
    if fits_i64(fee_of(amount, fee_rate_bps)) {
        Ok(fee_of(amount, fee_rate_bps) as i64)
    } else {
        Err(bad("手续费计算超出范围"@))
    }
}

/// The fee on an amount.
pub fn calculate_fee(amount: i64, fee_rate_bps: i64) -> (r: HandlerResult<i64>)
    ensures
        agrees(r, fee_result(amount as int, fee_rate_bps as int)),
{
    proof {
        let a = amount as int;
        let b = fee_rate_bps as int;
        assert(-0x4000_0000_0000_0000_0000_0000_0000_0000 <= a * b
            <= 0x4000_0000_0000_0000_0000_0000_0000_0000) by (nonlinear_arith)
            requires
                -0x8000_0000_0000_0000 <= a <= 0x7fff_ffff_ffff_ffff,
                -0x8000_0000_0000_0000 <= b <= 0x7fff_ffff_ffff_ffff,
        ;
    }
    let product: i128 = amount as i128 * fee_rate_bps as i128 + 5_000;
    let rounded: i128 = if product < 0 {
        -((-product) / 10_000)
    } else {
        product / 10_000
    };
    if rounded < (i64::MIN as i128) || rounded > (i64::MAX as i128) {
        Err(bad_request("手续费计算超出范围"))
    } else {
        Ok(rounded as i64)
    }
}

/// A fee is the nearest cent to its exact value, and never more than the amount.
pub proof fn fee_is_nearest(amount: int, fee_rate_bps: int)
    requires
        amount >= 0,
        0 <= fee_rate_bps <= 10_000,
    ensures
        -5_000 <= amount * fee_rate_bps - fee_of(amount, fee_rate_bps) * 10_000 < 5_000,
        0 <= fee_of(amount, fee_rate_bps) <= amount,
{
    let product = amount * fee_rate_bps;
    assert(0 <= product <= amount * 10_000) by (nonlinear_arith)
        requires
            product == amount * fee_rate_bps,
            amount >= 0,
            0 <= fee_rate_bps <= 10_000,
    ;
}

/// The market is closed on a day by a list.
pub open spec fn is_closed(closed: Seq<market_closed_day::Model>, day: int) -> bool {
    exists|i: int| 0 <= i < closed.len() && (#[trigger] closed[i]).date.days == day
}

/// The market is open on a day: from Monday to Friday, unless the list has it as closed.
pub open spec fn trades_on(closed: Seq<market_closed_day::Model>, day: int) -> bool {
    (day - 1) % 7 < 5 && !is_closed(closed, day)
}

fn find_closed(closed: &Vec<market_closed_day::Model>, date: Date) -> (r: Option<usize>)
    ensures
        match r {
            Some(i) => i < closed@.len() && closed@[i as int].date == date && forall|j: int|
                0 <= j < i ==> (#[trigger] closed@[j]).date != date,
            None => !is_closed(closed@, date.days as int),
        },
{
    let mut i: usize = 0;
    while i < closed.len()
        invariant
            i <= closed.len(),
            forall|j: int| 0 <= j < i ==> (#[trigger] closed@[j]).date.days != date.days,
        decreases closed.len() - i,
    {
        if closed[i].date.days == date.days {
            return Some(i);
        }
        i = i + 1;
    }
    None
}

/// Whether the market is open on a day.
pub fn is_trading_day(closed: &Vec<market_closed_day::Model>, date: Date) -> (r: bool)
    ensures
        r == trades_on(closed@, date.days as int),
{
    if date.weekday() >= 5 {
        return false;
    }
    find_closed(closed, date).is_none()
}

/// How many days ahead an open market is looked for.
pub const DAYS_AHEAD: u32 = 370;

/// The first of `left` days from a day on which the market is open, or the refusal.
pub open spec fn open_from(closed: Seq<market_closed_day::Model>, day: int, left: int) -> Result<
    Date,
    ErrorView,
>
    decreases left,
{
    if left <= 0 {
        Err(bad("未来一年内没有可用的中国大陆交易日"@))
    } else if trades_on(closed, day) {
        Ok(Date { days: day as i32 })
    } else if !in_calendar(day + 1) {
        Err(bad("下一交易日超出支持范围"@))
    } else {
        open_from(closed, day + 1, left - 1)
    }
}

/// The first day from a day on, within a year, on which the market is open, or the refusal.
pub open spec fn next_open(closed: Seq<market_closed_day::Model>, date: Date) -> Result<
    Date,
    ErrorView,
> {
    open_from(closed, date.days as int, DAYS_AHEAD + 1)
}

/// The first day from a day on, within a year, on which the market is open.
pub fn next_trading_day(closed: &Vec<market_closed_day::Model>, date: Date) -> (r: HandlerResult<
    Date,
>)
    ensures
        agrees(r, next_open(closed@, date)),
{
    let mut day = date;
    let mut left: u32 = DAYS_AHEAD + 1;
    while left > 0
        invariant
            left <= DAYS_AHEAD + 1,
            next_open(closed@, date) == open_from(closed@, day.days as int, left as int),
        decreases left,
    {
        if is_trading_day(closed, day) {
            return Ok(day);
        }
        match day.add_days(1) {
            Some(next) => {
                day = next;
            },
            None => return Err(bad_request("下一交易日超出支持范围")),
        }
        left = left - 1;
    }
    Err(bad_request("未来一年内没有可用的中国大陆交易日"))
}

/// The next open day is the first one: the market is open on it, it does not lie before the day
/// asked for nor more than a year after it, and the market is closed on every day in between.
/// Where none is found, the market is closed on all of these days that the calendar has.
pub proof fn next_open_is_first(closed: Seq<market_closed_day::Model>, date: Date)
    requires
        in_calendar(date.days as int),
    ensures
        match next_open(closed, date) {
            Ok(next) => {
                &&& trades_on(closed, next.days as int)
                &&& date.days <= next.days <= date.days + DAYS_AHEAD
                &&& forall|day: int|
                    date.days <= day < next.days ==> !#[trigger] trades_on(closed, day)
            },
            Err(_) => forall|day: int|
                date.days <= day <= date.days + DAYS_AHEAD && in_calendar(day)
                    ==> !#[trigger] trades_on(closed, day),
        },
{
    open_from_is_first(closed, date.days as int, DAYS_AHEAD + 1);
}

proof fn open_from_is_first(closed: Seq<market_closed_day::Model>, day: int, left: int)
    requires
        0 <= left,
        i32::MIN <= day <= i32::MAX,
    ensures
        match open_from(closed, day, left) {
            Ok(next) => {
                &&& trades_on(closed, next.days as int)
                &&& day <= next.days < day + left
                &&& forall|d: int| day <= d < next.days ==> !#[trigger] trades_on(closed, d)
            },
            Err(_) => in_calendar(day) ==> forall|d: int|
                day <= d < day + left && in_calendar(d) ==> !#[trigger] trades_on(closed, d),
        },
    decreases left,
{
    if left > 0 && !trades_on(closed, day) && in_calendar(day + 1) {
        open_from_is_first(closed, day + 1, left - 1);
    }
}

/// The number of days of a moving average, to choose.
pub struct MovingAverageOption {
    pub days: i32,
    pub selected: bool,
}

/// The moving averages to choose from.
pub open spec fn are_averages(options: Seq<MovingAverageOption>, selected: i32) -> bool {
    &&& options.len() == 4
    &&& options[0].days == 120
    &&& options[1].days == 180
    &&& options[2].days == 250
    &&& options[3].days == 500
    &&& forall|i: int| 0 <= i < 4 ==> (#[trigger] options[i]).selected == (options[i].days == selected)
    &&& forall|i: int| 0 <= i < 4 ==> is_moving_average((#[trigger] options[i]).days as int)
}

pub fn moving_average_options(selected: i32) -> (r: Vec<MovingAverageOption>)
    ensures
        are_averages(r@, selected),
{
    vec![
        MovingAverageOption { days: 120, selected: selected == 120 },
        MovingAverageOption { days: 180, selected: selected == 180 },
        MovingAverageOption { days: 250, selected: selected == 250 },
        MovingAverageOption { days: 500, selected: selected == 500 },
    ]
}

/// The form of a closed day.
pub struct ClosedDayFormData {
    pub date: String,
    pub name: String,
}

/// Why a day cannot be entered as closed, where it cannot.
pub open spec fn closed_day_refusal(
    closed: Seq<market_closed_day::Model>,
    form: ClosedDayFormData,
) -> Option<ErrorView> {
    match day_of_text(form.date@) {
        None => Some(bad("休市日期格式不正确"@)),
        Some(date) => if trimmed(form.name@).len() == 0 {
            Some(bad("休市原因不能为空"@))
        } else if is_closed(closed, date.days as int) {
            Some(bad("该日期已经登记为休市日"@))
        } else {
            None
        },
    }
}

/// Enters a day on which the market is closed: the row to store.
pub fn create_closed_day(
    closed: &Vec<market_closed_day::Model>,
    form: &ClosedDayFormData,
    now: DateTime,
) -> (r: HandlerResult<market_closed_day::Model>)
    ensures
        match (r, closed_day_refusal(closed@, *form)) {
            (Ok(row), None) => {
                &&& day_of_text(form.date@) == Some(row.date)
                &&& row.name@ == trimmed(form.name@)
                &&& row.source@ == "user"@
                &&& row.created_at == now
            },
            (Err(error), Some(wanted)) => error@ == wanted,
            _ => false,
        },
{
    let date = match parse_day(&form.date) {
        Some(date) => date,
        None => return Err(bad_request("休市日期格式不正确")),
    };
    let name = form.name.as_str().trim();
    if name.is_empty() {
        return Err(bad_request("休市原因不能为空"));
    }
    if find_closed(closed, date).is_some() {
        return Err(bad_request("该日期已经登记为休市日"));
    }
    Ok(
        market_closed_day::Model {
            date,
            name: name.to_owned(),
            source: "user".to_owned(),
            created_at: now,
        },
    )
}

/// The day that a text denotes exactly, with nothing around it.
pub open spec fn exact_day(text: Seq<char>) -> Option<Date> {
    match crate::calendar::date_of_text(text, "%Y-%m-%d"@) {
        Some(days) => Some(Date { days: days as i32 }),
        None => None,
    }
}

/// Why a day cannot be taken off the list of closed days, where it cannot. Each day stands on the
/// list at most once.
pub open spec fn open_day_refusal(closed: Seq<market_closed_day::Model>, text: Seq<char>) -> Option<
    ErrorView,
> {
    match exact_day(text) {
        None => Some(bad("休市日期格式不正确"@)),
        Some(date) => if !is_closed(closed, date.days as int) {
            Some(missing("休市日不存在"@))
        } else if closed[first_closed(closed, date)].source@ != "user"@ {
            Some(bad("内置的官方休市日不能删除"@))
        } else {
            None
        },
    }
}

/// The first place of a day on the list of closed days.
pub open spec fn first_closed(closed: Seq<market_closed_day::Model>, date: Date) -> int {
    choose|i: int|
        0 <= i < closed.len() && (#[trigger] closed[i]).date == date && forall|j: int|
            0 <= j < i ==> (#[trigger] closed[j]).date != date
}

/// Takes a day that the user entered off the list of closed days: the day to remove.
pub fn delete_closed_day(closed: &Vec<market_closed_day::Model>, date: &str) -> (r: HandlerResult<
    Date,
>)
    ensures
        match (r, open_day_refusal(closed@, date@)) {
            (Ok(day), None) => exact_day(date@) == Some(day),
            (Err(error), Some(wanted)) => error@ == wanted,
            _ => false,
        },
{
    let day = match crate::calendar::parse_date(date, "%Y-%m-%d") {
        Some(day) => day,
        None => return Err(bad_request("休市日期格式不正确")),
    };
    match find_closed(closed, day) {
        None => Err(not_found("休市日不存在")),
        Some(i) => {
            proof {
                let k = first_closed(closed@, day);
                assert(closed@[i as int].date.days == day.days);
                assert(0 <= k < closed@.len() && closed@[k].date == day && forall|j: int|
                    0 <= j < k ==> (#[trigger] closed@[j]).date != day);
                if k < i {
                    assert(closed@[k].date != day);
                }
                if i < k {
                    assert(closed@[i as int].date != day);
                }
            }
            if !same(&closed[i].source, "user") {
                Err(bad_request("内置的官方休市日不能删除"))
            } else {
                Ok(day)
            }
        },
    }
}

/// The day in Beijing at a time in universal time, eight hours ahead.
pub open spec fn beijing_day(now: DateTime) -> int {
    if now.second + 28800 >= 86400 {
        now.date.days + 1
    } else {
        now.date.days as int
    }
}

/// The day in Beijing at a time in universal time.
pub fn china_today(now: DateTime) -> (r: Date)
    requires
        now.second < 86400,
        in_calendar(now.date.days + 1),
    ensures
        r.days == beijing_day(now),
{
    if now.second + 28800 >= 86400 {
        Date { days: now.date.days + 1 }
    } else {
        now.date
    }
}

/// The market is open exactly on the days from a Monday to the Friday after it that are not listed as
/// closed.
pub proof fn market_is_open_on_weekdays(
    closed: &Vec<market_closed_day::Model>,
    date: Date,
    r: bool,
    monday: int,
)
    requires
        call_ensures(is_trading_day, (closed, date), r),
        monday % 7 == 1,
        monday <= date.days < monday + 7,
    ensures
        r <==> date.days <= monday + 4 && forall|i: int|
            0 <= i < closed@.len() ==> (#[trigger] closed@[i]).date.days != date.days,
{
}

} // verus!
