//! Limits on what is spent in a day, a week and a month.
use vstd::prelude::*;
use vstd::string::*;

use crate::calendar::{
    date_text, date_to_text, has_parts, in_calendar, month_day_text, month_day_to_text, month_of, parts,
    push_year, weekday_of, year_of, year_text, Date, DateTime,
};
use crate::crypto::{cents, decrypt_cents, encrypt_cents, Dek};
use crate::currency::{amount_text, is_worth_in, RateTable};
use crate::decimal::{
    cents_text, decimal_product, decimal_quotient, decimal_text, decimal_to_text, divide, fits_i64,
    fmt_cents, is_near, is_near_or_tiny, is_pair, magnitude, many, money, multiply, nearest, number,
    padded, parse_money, pow10, product_number, push_padded, quotient_number, round_dp,
    rounded_number, rounded_to, size, size_scaled, to_i64, whole, whole_number, Dec,
};
use crate::entity::{account, bill, budget};
use crate::error::{
    agrees, arithmetic_overflow, err500, internal, overflowed, ErrorView, HandlerResult,
};
use crate::handlers::bills::{currency_of, find_currency, in_default, to_default};
use crate::text::{join2, join3, same, trimmed};
use crate::totals::total;

verus! {

/// The form of the budgets.
pub struct BudgetFormData {
    pub daily_amount: String,
    pub weekly_amount: String,
    pub monthly_amount: String,
}

/// How far a budget is used up.
pub struct BudgetStatus {
    pub label: String,
    pub period_label: String,
    pub budget: String,
    pub used: String,
    pub remaining: String,
    pub percent: String,
    pub bar_percent: i64,
    pub over_budget: bool,
    pub near_limit: bool,
}

/// The budget of a field; none where the field is empty.
pub open spec fn budget_of_text(value: Seq<char>, label: Seq<char>) -> Result<
    Option<i64>,
    ErrorView,
> {
    if trimmed(value).len() == 0 {
        Ok(None)
    } else {
        match money(
            value,
            1,
            label + "格式不正确"@,
            label + "必须大于 0；留空可停用"@,
            label + "超出范围"@,
        ) {
            Ok(n) => Ok(Some(n)),
            Err(e) => Err(e),
        }
    }
}

pub fn parse_budget(value: &str, label: &str) -> (r: HandlerResult<Option<i64>>)
    ensures
        agrees(r, budget_of_text(value@, label@)),
        r matches Ok(Some(n)) ==> n > 0,
{
    if value.trim().is_empty() {
        return Ok(None);
    }
    match parse_money(
        value,
        1,
        &join2(label, "格式不正确"),
        &join2(label, "必须大于 0；留空可停用"),
        &join2(label, "超出范围"),
    ) {
        Ok(n) => Ok(Some(n)),
        Err(error) => Err(error),
    }
}

/// The budget that a stored text holds; none where the text is empty.
pub open spec fn stored_budget(dek: Seq<u8>, amount: Seq<char>) -> Option<int> {
    if amount.len() == 0 {
        None
    } else {
        Some(cents(dek, amount))
    }
}

/// Encrypts a budget; none is stored as the empty text.
pub fn encrypt_optional(dek: &Dek, amount: Option<i64>) -> (r: String)
    ensures
        stored_budget(dek@, r@) == (match amount {
            Some(n) => Some(n as int),
            None => None,
        }),
{
    match amount {
        Some(n) => encrypt_cents(dek, n),
        None => String::new(),
    }
}

/// Decrypts a budget.
pub fn decrypt_optional(dek: &Dek, amount: &str) -> (r: Option<i64>)
    ensures
        match r {
            Some(n) => stored_budget(dek@, amount@) == Some(n as int),
            None => stored_budget(dek@, amount@) is None,
        },
{
    if amount.is_empty() {
        None
    } else {
        Some(decrypt_cents(dek, amount))
    }
}

/// A budget as the field of a form shows it.
pub fn input_amount(amount: Option<i64>) -> (r: String)
    ensures
        r@ == (match amount {
            Some(n) => cents_text(n as int),
            None => Seq::empty(),
        }),
{
    match amount {
        Some(n) => fmt_cents(n),
        None => String::new(),
    }
}

/// A part of a whole in percent, with at most one digit behind the point; none for a whole of
/// nothing.
pub open spec fn percent_of(used: int, limit: int) -> Option<(int, int)> {
    match decimal_product((used, 0int), (100int, 0int)) {
        None => None,
        Some(hundred) => match decimal_quotient(hundred, (limit, 0int)) {
            None => None,
            Some(quotient) => Some(rounded_to(quotient.0, quotient.1, 1)),
        },
    }
}

/// A percentage says how many hundredths of a whole a part is, rounded to one digit behind the point.
pub open spec fn is_percent(percent: (int, int), part: int, whole: int) -> bool {
    size(number(percent) * whole as real - 100real * part as real) * 1000real <= 51real
        * whole as real
}

proof fn rounded_is_percent(part: int, limit: int, hundred: (int, int), quotient: (int, int))
    requires
        fits_i64(part),
        0 < limit <= i64::MAX,
        hundred.1 >= 0,
        quotient.1 >= 0,
        is_near(hundred, part * 100, pow10(0)),
        is_near_or_tiny(quotient, hundred.0 * pow10(0), limit * pow10(hundred.1)),
    ensures
        is_percent(rounded_to(quotient.0, quotient.1, 1), part, limit),
{
    whole_number(part);
    whole_number(100);
    whole_number(limit);
    product_number((part, 0), (100, 0), hundred);
    quotient_number(hundred, (limit, 0), quotient);
    rounded_number(quotient, 1);
    let p = number(rounded_to(quotient.0, quotient.1, 1));
    let (h, q, n, x) = (number(hundred), number(quotient), limit as real, part as real);
    assert(pow10(1) == 10 * pow10(0));
    let ratio = h / n;
    assert(ratio * n == h) by (nonlinear_arith)
        requires
            ratio == h / n,
            n > 0real,
    ;
    assert(size(h) <= 1000000000000000000000real);
    assert(size(ratio) <= size(h)) by (nonlinear_arith)
        requires
            ratio * n == h,
            n >= 1real,
            size(ratio) == (if ratio < 0real {
                -ratio
            } else {
                ratio
            }),
            size(h) == (if h < 0real {
                -h
            } else {
                h
            }),
    ;
    let e = size(p - ratio);
    assert(pow10(1) as real == 10real);
    let (d, sq) = (size(q - ratio), size(q));
    assert(size(p - q) * 20real <= 1real) by (nonlinear_arith)
        requires
            2real * size(p - q) * 10real <= 1real,
    ;
    assert(sq <= size(ratio) + d);
    assert(d * many() <= 1real + sq);
    assert(d * 100000real <= 1real);
    assert(e * 100000real <= 5001real);
    size_scaled(p - ratio, n);
    assert((p - ratio) * n == p * n - h) by (nonlinear_arith)
        requires
            ratio * n == h,
    ;
    assert(e * n * 100000real <= 5001real * n) by (nonlinear_arith)
        requires
            e * 100000real <= 5001real,
            n > 0real,
    ;
    assert(size(h - 100real * x) * 10000000real <= 100real);
}

pub fn percentage(used: i64, limit: i64) -> (r: Option<Dec>)
    ensures
        is_pair(r, percent_of(used as int, limit as int)),
        limit == 0 ==> r is None,
        r matches Some(d) ==> limit > 0 ==> is_percent(d.pair(), used as int, limit as int),
{
    match multiply(whole(used), whole(100)) {
        None => None,
        Some(hundred) => match divide(hundred, whole(limit)) {
            None => None,
            Some(quotient) => {
                proof {
                    if limit > 0 {
                        rounded_is_percent(
                            used as int,
                            limit as int,
                            hundred.pair(),
                            quotient.pair(),
                        );
                    }
                }
                Some(round_dp(quotient, 1))
            },
        },
    }
}

/// A number held between zero and a hundred; a number that is no `i64` counts as the largest.
pub open spec fn bar_length(percent: (int, int)) -> int {
    let n = nearest(percent.0, percent.1);
    if !fits_i64(n) || n > 100 {
        100
    } else if n < 0 {
        0
    } else {
        n
    }
}

/// A difference held in the range of amounts.
pub open spec fn saturated(n: int) -> int {
    if n > i64::MAX {
        i64::MAX as int
    } else if n < i64::MIN {
        i64::MIN as int
    } else {
        n
    }
}

/// How far a budget is used up shows these values. The warning comes once four fifths of the
/// budget are used.
pub open spec fn is_status(
    s: BudgetStatus,
    label: Seq<char>,
    period_label: Seq<char>,
    limit: int,
    used: int,
    currency: Seq<char>,
) -> bool {
    let percent = percent_of(used, limit)->0;
    &&& s.label@ == label
    &&& s.period_label@ == period_label
    &&& s.budget@ == amount_text(limit, currency)
    &&& s.used@ == amount_text(used, currency)
    &&& s.remaining@ == amount_text(saturated(magnitude(saturated(limit - used))), currency)
    &&& s.percent@ == decimal_text(percent.0, percent.1)
    &&& limit > 0 ==> is_percent(percent, used, limit)
    &&& s.bar_percent == bar_length(percent)
    &&& s.over_budget == (used > limit)
    &&& s.near_limit == (5 * used >= 4 * limit)
}

/// How far a budget is used up; refused for a budget of nothing.
pub fn make_status(
    label: &str,
    period_label: String,
    limit: i64,
    used: i64,
    default_currency: &str,
) -> (r: HandlerResult<BudgetStatus>)
    ensures
        match r {
            Ok(s) => percent_of(used as int, limit as int) is Some && is_status(
                s,
                label@,
                period_label@,
                limit as int,
                used as int,
                default_currency@,
            ),
            Err(error) => percent_of(used as int, limit as int) is None && error@ == overflowed(),
        },
{
    let percent = match percentage(used, limit) {
        Some(percent) => percent,
        None => return Err(arithmetic_overflow()),
    };
    let bar_percent: i64 = match to_i64(percent) {
        Some(n) => if n > 100 {
            100
        } else if n < 0 {
            0
        } else {
            n
        },
        None => 100,
    };
    let difference: i128 = limit as i128 - used as i128;
    let size: i128 = if difference < 0 {
        -difference
    } else {
        difference
    };
    let remaining: i64 = if size > i64::MAX as i128 {
        i64::MAX
    } else {
        size as i64
    };
    Ok(
        BudgetStatus {
            label: label.to_owned(),
            period_label,
            budget: crate::currency::format(limit, default_currency),
            used: crate::currency::format(used, default_currency),
            remaining: crate::currency::format(remaining, default_currency),
            percent: decimal_to_text(percent),
            bar_percent,
            over_budget: used > limit,
            near_limit: 5 * (used as i128) >= 4 * (limit as i128),
        },
    )
}

/// What was spent today, this week and this month.
pub struct Spent {
    pub daily: i64,
    pub weekly: i64,
    pub monthly: i64,
}

/// The first day of a month.
pub open spec fn month_start(today: Date) -> Option<Date> {
    crate::calendar::dated(year_of(today), month_of(today), 1)
}

/// The Monday of a week.
pub open spec fn week_start(today: Date) -> int {
    today.days - weekday_of(today)
}

/// One more expense on a day, or the refusal.
pub open spec fn spent_with(
    s: Spent,
    date: int,
    amount: int,
    today: int,
    week: int,
    month: int,
) -> Result<Spent, ErrorView> {
    let daily = if date == today {
        s.daily + amount
    } else {
        s.daily as int
    };
    let weekly = if date >= week {
        s.weekly + amount
    } else {
        s.weekly as int
    };
    let monthly = if date >= month {
        s.monthly + amount
    } else {
        s.monthly as int
    };
    if fits_i64(daily) && fits_i64(weekly) && fits_i64(monthly) {
        Ok(Spent { daily: daily as i64, weekly: weekly as i64, monthly: monthly as i64 })
    } else {
        Err(internal("预算金额超出范围"@))
    }
}

/// What budgets are reckoned from.
pub struct BudgetSource {
    pub dek: Seq<u8>,
    pub bills: Seq<bill::Model>,
    pub accounts: Seq<account::Model>,
    pub rates: RateTable,
    pub default_currency: Seq<char>,
    pub today: int,
    pub week: int,
    pub month: int,
}

/// An expense counts: it is not in the future and not before the week and the month began.
pub open spec fn counts(s: BudgetSource, b: bill::Model) -> bool {
    let date = b.happened_at.date.days;
    b.kind@ == "expense"@ && date <= s.today && (date >= s.week || date >= s.month || date
        == s.today)
}

/// What the first `n` bills spend.
pub open spec fn spent(s: BudgetSource, n: int) -> Result<Spent, ErrorView>
    decreases n,
{
    if n <= 0 {
        Ok(Spent { daily: 0, weekly: 0, monthly: 0 })
    } else {
        match spent(s, n - 1) {
            Err(e) => Err(e),
            Ok(sum) => {
                let b = s.bills[n - 1];
                if !counts(s, b) {
                    Ok(sum)
                } else {
                    match in_default(
                        s.rates,
                        cents(s.dek, b.amount@),
                        currency_of(s.accounts, b.account_id, s.default_currency),
                    ) {
                        Err(e) => Err(e),
                        Ok(amount) => spent_with(
                            sum,
                            b.happened_at.date.days as int,
                            amount as int,
                            s.today,
                            s.week,
                            s.month,
                        ),
                    }
                }
            },
        }
    }
}

/// What a bill spends in the default currency.
pub open spec fn expense_of(s: BudgetSource, b: bill::Model) -> int {
    in_default(
        s.rates,
        cents(s.dek, b.amount@),
        currency_of(s.accounts, b.account_id, s.default_currency),
    )->Ok_0 as int
}

/// What a bill adds to what is spent from one day to another: its amount where it is an expense of
/// one of these days, else nothing.
pub open spec fn expense_between(s: BudgetSource, b: bill::Model, from: int, to: int) -> int {
    if b.kind@ == "expense"@ && from <= b.happened_at.date.days <= to {
        expense_of(s, b)
    } else {
        0
    }
}

/// What the expenses from one day to another come to.
pub open spec fn spent_between(s: BudgetSource, from: int, to: int) -> int {
    total(s.bills.map_values(|b: bill::Model| expense_between(s, b, from, to)))
}

/// What each counted expense comes to is the nearest cent to its amount at the rate of its currency.
pub open spec fn expenses_are_worth(s: BudgetSource, n: int) -> bool {
    forall|i: int|
        0 <= i < n && counts(s, #[trigger] s.bills[i]) ==> is_worth_in(
            expense_of(s, s.bills[i]),
            s.rates,
            cents(s.dek, s.bills[i].amount@),
            currency_of(s.accounts, s.bills[i].account_id, s.default_currency),
        )
}

proof fn spent_is_total(s: BudgetSource, n: int)
    requires
        0 <= n <= s.bills.len(),
        spent(s, n) is Ok,
    ensures
        ({
            let sum = spent(s, n)->Ok_0;
            let front = s.bills.take(n);
            &&& sum.daily == total(
                front.map_values(|b: bill::Model| expense_between(s, b, s.today, s.today)),
            )
            &&& sum.weekly == total(
                front.map_values(|b: bill::Model| expense_between(s, b, s.week, s.today)),
            )
            &&& sum.monthly == total(
                front.map_values(|b: bill::Model| expense_between(s, b, s.month, s.today)),
            )
        }),
    decreases n,
{
    let (f, g, h) = (
        |b: bill::Model| expense_between(s, b, s.today, s.today),
        |b: bill::Model| expense_between(s, b, s.week, s.today),
        |b: bill::Model| expense_between(s, b, s.month, s.today),
    );
    if n > 0 {
        spent_is_total(s, n - 1);
        let (list, front) = (s.bills.take(n), s.bills.take(n - 1));
        assert(list.map_values(f).drop_last() =~= front.map_values(f));
        assert(list.map_values(g).drop_last() =~= front.map_values(g));
        assert(list.map_values(h).drop_last() =~= front.map_values(h));
        assert(list.map_values(f).last() == f(s.bills[n - 1]));
        assert(list.map_values(g).last() == g(s.bills[n - 1]));
        assert(list.map_values(h).last() == h(s.bills[n - 1]));
    }
}

/// What is said of a budget: how much it is, how much of it is used, how much remains or is spent
/// beyond it, and how many hundredths of it are used.
pub open spec fn says(b: BudgetStatus, limit: int, used: int, currency: Seq<char>) -> bool {
    &&& b.budget@ == amount_text(limit, currency)
    &&& b.used@ == amount_text(used, currency)
    &&& 0 <= limit - used <= i64::MAX ==> b.remaining@ == amount_text(limit - used, currency)
    &&& 0 <= used - limit <= i64::MAX ==> b.remaining@ == amount_text(used - limit, currency)
    &&& b.over_budget == (used > limit)
    &&& b.near_limit == (10 * used >= 8 * limit)
    &&& 0 <= b.bar_percent <= 100
    &&& limit > 0 ==> exists|p: (int, int)| #[trigger]
        is_percent(p, used, limit) && b.percent@ == decimal_text(p.0, p.1)
}

/// The budgets say what was spent: of the day budget the expenses of today are used up, of the week
/// budget those from Monday to today, of the month budget those from the first of the month to
/// today; each expense counts with the nearest cent to its amount at the rate of its currency, and
/// nothing else counts. What remains is the difference, and the percentage is what is used of it.
pub proof fn budgets_say_what_was_spent(
    dek: &Dek,
    config: &Option<budget::Model>,
    bills: &Vec<bill::Model>,
    accounts: &Vec<account::Model>,
    rates: &RateTable,
    default_currency: &str,
    today: Date,
    statuses: Vec<BudgetStatus>,
    monday: int,
    first: Date,
    year: int,
    month: int,
    day: int,
) -> (s: BudgetSource)
    requires
        rates.wf(),
        in_calendar(today.days - 6),
        in_calendar(today.days + 6),
        call_ensures(
            current_statuses,
            (dek, config, bills, accounts, rates, default_currency, today),
            Ok(statuses),
        ),
        !unset(dek@, *config),
        monday <= today.days < monday + 7,
        monday % 7 == 1,
        has_parts(today, year, month, day),
        has_parts(first, year, month, 1),
    ensures
        s.dek == dek@ && s.bills == bills@ && s.accounts == accounts@ && s.rates == *rates
            && s.default_currency == default_currency@,
        statuses@.len() == (if stored_budget(dek@, config->0.daily_amount@) is Some {
            1int
        } else {
            0
        }) + (if stored_budget(dek@, config->0.weekly_amount@) is Some {
            1int
        } else {
            0
        }) + (if stored_budget(dek@, config->0.monthly_amount@) is Some {
            1int
        } else {
            0
        }),
        forall|i: int| #![trigger statuses@[i]]
            0 <= i < statuses@.len() ==> {
                let b = statuses@[i];
                let c = config->0;
                let own = default_currency@;
                let last = today.days as int;
                ||| b.label@ == "今日预算"@ && says(
                    b,
                    cents(dek@, c.daily_amount@),
                    spent_between(s, last, last),
                    own,
                )
                ||| b.label@ == "本周预算"@ && says(
                    b,
                    cents(dek@, c.weekly_amount@),
                    spent_between(s, monday, last),
                    own,
                )
                ||| b.label@ == "本月预算"@ && says(
                    b,
                    cents(dek@, c.monthly_amount@),
                    spent_between(s, first.days as int, last),
                    own,
                )
            },
        forall|i: int|
            0 <= i < bills@.len() && (#[trigger] bills@[i]).kind@ == "expense"@
                && bills@[i].happened_at.date.days <= today.days && (bills@[i].happened_at.date.days
                >= first.days || bills@[i].happened_at.date.days >= monday) ==> is_worth_in(
                expense_of(s, bills@[i]),
                *rates,
                cents(dek@, bills@[i].amount@),
                currency_of(accounts@, bills@[i].account_id, default_currency@),
            ),
{
    crate::calendar::parts_are(today, year, month, day);
    let s = BudgetSource {
        dek: dek@,
        bills: bills@,
        accounts: accounts@,
        rates: *rates,
        default_currency: default_currency@,
        today: today.days as int,
        week: week_start(today),
        month: first.days as int,
    };
    assert(week_start(today) == monday);
    assert(month_start(today) == Some(first));
    let n = bills@.len() as int;
    assert(bills@.take(n) =~= bills@);
    spent_is_total(s, n);
    let sum = spent(s, n)->Ok_0;
    let wanted = limits(dek@, config->0, today, sum);
    reveal_strlit("今日预算");
    reveal_strlit("本周预算");
    reveal_strlit("本月预算");
    assert("今日预算"@[0] == '今' && "本周预算"@[1] == '周' && "本月预算"@[1] == '月'
        && "本周预算"@[0] == '本' && "本月预算"@[0] == '本');
    assert forall|i: int| #![trigger statuses@[i]] 0 <= i < statuses@.len() implies says(
        statuses@[i],
        wanted[i].limit,
        wanted[i].used,
        default_currency@,
    ) && statuses@[i].label@ == wanted[i].label by {
        let w = wanted[i];
        assert(is_status(statuses@[i], w.label, w.period, w.limit, w.used, default_currency@));
        let p = percent_of(w.used, w.limit)->0;
        if w.limit > 0 {
            assert(is_percent(p, w.used, w.limit));
        }
    }
    s
}

proof fn spent_stops(s: BudgetSource, m: int, n: int)
    requires
        0 <= m <= n,
        spent(s, m) is Err,
    ensures
        spent(s, n) == spent(s, m),
    decreases n,
{
    if m < n {
        spent_stops(s, m, n - 1);
    }
}

fn add_where(sum: i64, amount: i64, counted: bool) -> (r: Option<i64>)
    ensures
        r == ({
            let n = if counted {
                sum + amount
            } else {
                sum as int
            };
            if fits_i64(n) {
                Some(n as i64)
            } else {
                None
            }
        }),
{
    if counted {
        sum.checked_add(amount)
    } else {
        Some(sum)
    }
}

fn sum_spent(
    dek: &Dek,
    bills: &Vec<bill::Model>,
    accounts: &Vec<account::Model>,
    rates: &RateTable,
    default_currency: &str,
    today: Date,
    week: Date,
    month: Date,
) -> (r: HandlerResult<Spent>)
    requires
        rates.wf(),
    ensures
        agrees(
            r,
            spent(
                BudgetSource {
                    dek: dek@,
                    bills: bills@,
                    accounts: accounts@,
                    rates: *rates,
                    default_currency: default_currency@,
                    today: today.days as int,
                    week: week.days as int,
                    month: month.days as int,
                },
                bills@.len() as int,
            ),
        ),
        r is Ok ==> expenses_are_worth(
            BudgetSource {
                dek: dek@,
                bills: bills@,
                accounts: accounts@,
                rates: *rates,
                default_currency: default_currency@,
                today: today.days as int,
                week: week.days as int,
                month: month.days as int,
            },
            bills@.len() as int,
        ),
{
    let ghost s = BudgetSource {
        dek: dek@,
        bills: bills@,
        accounts: accounts@,
        rates: *rates,
        default_currency: default_currency@,
        today: today.days as int,
        week: week.days as int,
        month: month.days as int,
    };
    let mut daily: i64 = 0;
    let mut weekly: i64 = 0;
    let mut monthly: i64 = 0;
    let mut i: usize = 0;
    while i < bills.len()
        invariant
            i <= bills.len(),
            rates.wf(),
            s == (BudgetSource {
                dek: dek@,
                bills: bills@,
                accounts: accounts@,
                rates: *rates,
                default_currency: default_currency@,
                today: today.days as int,
                week: week.days as int,
                month: month.days as int,
            }),
            spent(s, i as int) == Ok::<Spent, ErrorView>(Spent { daily, weekly, monthly }),
            expenses_are_worth(s, i as int),
        decreases bills.len() - i,
    {
        let b = &bills[i];
        let date: i32 = b.happened_at.date.days;
        if same(&b.kind, "expense") && date <= today.days && (date >= week.days || date
            >= month.days || date == today.days) {
            let c = find_currency(accounts, b.account_id, default_currency);
            let amount: i64 = match to_default(rates, decrypt_cents(dek, &b.amount), &c) {
                Ok(amount) => amount,
                Err(error) => {
                    proof {
                        spent_stops(s, i + 1, bills@.len() as int);
                    }
                    return Err(error);
                },
            };
            let sums = (
                add_where(daily, amount, date == today.days),
                add_where(weekly, amount, date >= week.days),
                add_where(monthly, amount, date >= month.days),
            );
            match sums {
                (Some(d), Some(w), Some(m)) => {
                    daily = d;
                    weekly = w;
                    monthly = m;
                },
                _ => {
                    proof {
                        spent_stops(s, i + 1, bills@.len() as int);
                    }
                    return Err(err500("预算金额超出范围"));
                },
            }
        }
        i = i + 1;
    }
    Ok(Spent { daily, weekly, monthly })
}

/// A month as it is shown.
pub open spec fn month_text(today: Date) -> Seq<char> {
    year_text(year_of(today)) + " 年 "@ + padded(month_of(today), 2) + " 月"@
}

fn month_to_text(today: Date) -> (r: String)
    ensures
        r@ == month_text(today),
{
    let (year, month, _day) = parts(today);
    let mut front = String::new();
    push_year(&mut front, year);
    let mut number = String::new();
    push_padded(&mut number, month as u128, 2);
    proof {
        assert(front@ =~= year_text(year as int));
        assert(number@ =~= padded(month as int, 2));
    }
    crate::text::join4(&front, " 年 ", &number, " 月")
}

/// The days of a week as they are shown.
pub open spec fn week_text(today: Date) -> Seq<char> {
    month_day_text(Date { days: week_start(today) as i32 }) + " 至 "@ + month_day_text(
        Date { days: (week_start(today) + 6) as i32 },
    )
}

/// A budget that is set, with what is shown with it and what was spent.
pub struct Limit {
    pub label: Seq<char>,
    pub period: Seq<char>,
    pub limit: int,
    pub used: int,
}

/// The budgets that are set, in order: of the day, of the week and of the month.
pub open spec fn limits(dek: Seq<u8>, config: budget::Model, today: Date, sum: Spent) -> Seq<
    Limit,
> {
    let daily = match stored_budget(dek, config.daily_amount@) {
        Some(limit) => seq![
            Limit {
                label: "今日预算"@,
                period: date_text(today),
                limit,
                used: sum.daily as int,
            },
        ],
        None => Seq::empty(),
    };
    let weekly = match stored_budget(dek, config.weekly_amount@) {
        Some(limit) => seq![
            Limit {
                label: "本周预算"@,
                period: week_text(today),
                limit,
                used: sum.weekly as int,
            },
        ],
        None => Seq::empty(),
    };
    let monthly = match stored_budget(dek, config.monthly_amount@) {
        Some(limit) => seq![
            Limit {
                label: "本月预算"@,
                period: month_text(today),
                limit,
                used: sum.monthly as int,
            },
        ],
        None => Seq::empty(),
    };
    daily + weekly + monthly
}

/// Each status shows its budget.
pub open spec fn show_limits(
    statuses: Seq<BudgetStatus>,
    wanted: Seq<Limit>,
    currency: Seq<char>,
) -> bool {
    &&& statuses.len() == wanted.len()
    &&& forall|i: int|
        0 <= i < wanted.len() ==> percent_of((#[trigger] wanted[i]).used, wanted[i].limit) is Some
    &&& forall|i: int|
        0 <= i < wanted.len() ==> is_status(
            #[trigger] statuses[i],
            wanted[i].label,
            wanted[i].period,
            wanted[i].limit,
            wanted[i].used,
            currency,
        )
}

/// No budget is set.
pub open spec fn unset(dek: Seq<u8>, config: Option<budget::Model>) -> bool {
    match config {
        None => true,
        Some(c) => stored_budget(dek, c.daily_amount@) is None && stored_budget(
            dek,
            c.weekly_amount@,
        ) is None && stored_budget(dek, c.monthly_amount@) is None,
    }
}

fn push_status(
    statuses: &mut Vec<BudgetStatus>,
    label: &str,
    period_label: String,
    limit: Option<i64>,
    used: i64,
    currency: &str,
    Ghost(before): Ghost<Seq<Limit>>,
) -> (r: HandlerResult<()>)
    requires
        show_limits(old(statuses)@, before, currency@),
    ensures
        ({
            let more = match limit {
                Some(limit) => seq![
                    Limit {
                        label: label@,
                        period: period_label@,
                        limit: limit as int,
                        used: used as int,
                    },
                ],
                None => Seq::empty(),
            };
            match r {
                Ok(_) => show_limits(final(statuses)@, before + more, currency@),
                Err(error) => error@ == overflowed() && limit is Some && percent_of(
                    used as int,
                    limit->0 as int,
                ) is None,
            }
        }),
{
    match limit {
        None => {
            proof {
                assert(before + Seq::<Limit>::empty() =~= before);
            }
            Ok(())
        },
        Some(limit) => match make_status(label, period_label, limit, used, currency) {
            Err(error) => Err(error),
            Ok(status) => {
                let ghost old_statuses = statuses@;
                statuses.push(status);
                proof {
                    let all = before + seq![
                        Limit {
                            label: label@,
                            period: period_label@,
                            limit: limit as int,
                            used: used as int,
                        },
                    ];
                    assert forall|i: int| 0 <= i < all.len() implies percent_of(
                        (#[trigger] all[i]).used,
                        all[i].limit,
                    ) is Some by {
                        if i < before.len() {
                            assert(all[i] == before[i]);
                        }
                    }
                    assert forall|i: int| 0 <= i < all.len() implies is_status(
                        #[trigger] statuses@[i],
                        all[i].label,
                        all[i].period,
                        all[i].limit,
                        all[i].used,
                        currency@,
                    ) by {
                        if i < before.len() {
                            assert(statuses@[i] == old_statuses[i]);
                            assert(all[i] == before[i]);
                        }
                    }
                }
                Ok(())
            },
        },
    }
}

/// What was spent, where the days of the week and the month are known.
pub open spec fn spent_now(
    dek: Seq<u8>,
    bills: Seq<bill::Model>,
    accounts: Seq<account::Model>,
    rates: RateTable,
    default_currency: Seq<char>,
    today: Date,
) -> Result<Spent, ErrorView> {
    match month_start(today) {
        None => Err(internal("无法计算本月起始日"@)),
        Some(month) => spent(
            BudgetSource {
                dek,
                bills,
                accounts,
                rates,
                default_currency,
                today: today.days as int,
                week: week_start(today),
                month: month.days as int,
            },
            bills.len() as int,
        ),
    }
}

/// These are the budgets that are set, each with what is used up of it, or this is the refusal.
pub open spec fn are_statuses(
    r: Result<Seq<BudgetStatus>, ErrorView>,
    dek: Seq<u8>,
    config: Option<budget::Model>,
    bills: Seq<bill::Model>,
    accounts: Seq<account::Model>,
    rates: RateTable,
    default_currency: Seq<char>,
    today: Date,
) -> bool {
    if unset(dek, config) {
        r matches Ok(statuses) && statuses.len() == 0
    } else {
        match spent_now(dek, bills, accounts, rates, default_currency, today) {
            Err(wanted) => r matches Err(error) && error == wanted,
            Ok(sum) => {
                let wanted = limits(dek, config->0, today, sum);
                match r {
                    Ok(statuses) => show_limits(statuses, wanted, default_currency),
                    Err(error) => error == overflowed() && exists|i: int|
                        0 <= i < wanted.len() && percent_of(
                            (#[trigger] wanted[i]).used,
                            wanted[i].limit,
                        ) is None,
                }
            },
        }
    }
}

/// How far the budgets that are set are used up: today, from Monday to today, and from the first
/// of the month to today. Only expenses count, each in the default currency.
pub fn current_statuses(
    dek: &Dek,
    config: &Option<budget::Model>,
    bills: &Vec<bill::Model>,
    accounts: &Vec<account::Model>,
    rates: &RateTable,
    default_currency: &str,
    today: Date,
) -> (r: HandlerResult<Vec<BudgetStatus>>)
    requires
        rates.wf(),
        in_calendar(today.days - 6),
        in_calendar(today.days + 6),
    ensures
        match r {
            Ok(statuses) => are_statuses(
                Ok(statuses@),
                dek@,
                *config,
                bills@,
                accounts@,
                *rates,
                default_currency@,
                today,
            ),
            Err(error) => are_statuses(
                Err(error@),
                dek@,
                *config,
                bills@,
                accounts@,
                *rates,
                default_currency@,
                today,
            ),
        },
        r is Ok && !unset(dek@, *config) ==> month_start(today) is Some && expenses_are_worth(
            BudgetSource {
                dek: dek@,
                bills: bills@,
                accounts: accounts@,
                rates: *rates,
                default_currency: default_currency@,
                today: today.days as int,
                week: week_start(today),
                month: month_start(today)->0.days as int,
            },
            bills@.len() as int,
        ),
{
    let c = match config {
        Some(c) => c,
        None => return Ok(Vec::new()),
    };
    let daily = decrypt_optional(dek, &c.daily_amount);
    let weekly = decrypt_optional(dek, &c.weekly_amount);
    let monthly = decrypt_optional(dek, &c.monthly_amount);
    if daily.is_none() && weekly.is_none() && monthly.is_none() {
        return Ok(Vec::new());
    }
    let (year, month, _day) = parts(today);
    let week = Date { days: today.days - today.weekday() as i32 };
    let month_first = match crate::calendar::from_ymd(year, month, 1) {
        Some(month_first) => month_first,
        None => return Err(err500("无法计算本月起始日")),
    };
    let sum = match sum_spent(
        dek,
        bills,
        accounts,
        rates,
        default_currency,
        today,
        week,
        month_first,
    ) {
        Ok(sum) => sum,
        Err(error) => return Err(error),
    };
    let ghost wanted = limits(dek@, *c, today, sum);
    let ghost first = if daily is Some {
        1int
    } else {
        0
    };
    let ghost second = first + if weekly is Some {
        1int
    } else {
        0
    };
    let mut statuses: Vec<BudgetStatus> = Vec::new();
    let week_end = Date { days: week.days + 6 };
    let week_label = join3(&month_day_to_text(week), " 至 ", &month_day_to_text(week_end));
    match push_status(
        &mut statuses,
        "今日预算",
        date_to_text(today),
        daily,
        sum.daily,
        default_currency,
        Ghost(Seq::empty()),
    ) {
        Ok(_) => {},
        Err(error) => {
            proof {
                assert(percent_of(wanted[0].used, wanted[0].limit) is None);
            }
            return Err(error);
        },
    }
    proof {
        if daily is Some {
            assert(Seq::<Limit>::empty() + seq![wanted[0]] =~= wanted.take(first));
        } else {
            assert(Seq::<Limit>::empty() + Seq::<Limit>::empty() =~= wanted.take(first));
        }
        assert(show_limits(statuses@, wanted.take(first), default_currency@));
    }
    match push_status(
        &mut statuses,
        "本周预算",
        week_label,
        weekly,
        sum.weekly,
        default_currency,
        Ghost(wanted.take(first)),
    ) {
        Ok(_) => {},
        Err(error) => {
            proof {
                assert(percent_of(wanted[first].used, wanted[first].limit) is None);
            }
            return Err(error);
        },
    }
    proof {
        if weekly is Some {
            assert(wanted.take(first) + seq![wanted[first]] =~= wanted.take(second));
        } else {
            assert(wanted.take(first) + Seq::<Limit>::empty() =~= wanted.take(second));
        }
    }
    match push_status(
        &mut statuses,
        "本月预算",
        month_to_text(today),
        monthly,
        sum.monthly,
        default_currency,
        Ghost(wanted.take(second)),
    ) {
        Ok(_) => {},
        Err(error) => {
            proof {
                assert(percent_of(wanted[second].used, wanted[second].limit) is None);
            }
            return Err(error);
        },
    }
    proof {
        if monthly is Some {
            assert(wanted.take(second) + seq![wanted[second]] =~= wanted);
        } else {
            assert(wanted.take(second) + Seq::<Limit>::empty() =~= wanted);
        }
    }
    Ok(statuses)
}

/// Sets the budgets as a form says: the row to store.
pub fn update(dek: &Dek, form: &BudgetFormData, now: DateTime) -> (r: HandlerResult<budget::Model>)
    ensures
        match budget_of_text(form.daily_amount@, "日预算"@) {
            Err(wanted) => r matches Err(error) && error@ == wanted,
            Ok(daily) => match budget_of_text(form.weekly_amount@, "周预算"@) {
                Err(wanted) => r matches Err(error) && error@ == wanted,
                Ok(weekly) => match budget_of_text(form.monthly_amount@, "月预算"@) {
                    Err(wanted) => r matches Err(error) && error@ == wanted,
                    Ok(monthly) => r matches Ok(row) && row.id == 1 && row.updated_at == now
                        && stored_budget(dek@, row.daily_amount@) == (match daily {
                        Some(n) => Some(n as int),
                        None => None,
                    }) && stored_budget(dek@, row.weekly_amount@) == (match weekly {
                        Some(n) => Some(n as int),
                        None => None,
                    }) && stored_budget(dek@, row.monthly_amount@) == (match monthly {
                        Some(n) => Some(n as int),
                        None => None,
                    }),
                },
            },
        },
{
    let daily = match parse_budget(&form.daily_amount, "日预算") {
        Ok(n) => n,
        Err(error) => return Err(error),
    };
    let weekly = match parse_budget(&form.weekly_amount, "周预算") {
        Ok(n) => n,
        Err(error) => return Err(error),
    };
    let monthly = match parse_budget(&form.monthly_amount, "月预算") {
        Ok(n) => n,
        Err(error) => return Err(error),
    };
    Ok(
        budget::Model {
            id: 1,
            daily_amount: encrypt_optional(dek, daily),
            weekly_amount: encrypt_optional(dek, weekly),
            monthly_amount: encrypt_optional(dek, monthly),
            updated_at: now,
        },
    )
}

} // verus!
