//! What was earned and spent in a span of days, added up and ranked.
use vstd::prelude::*;
use vstd::string::*;

use crate::book::Book;
use crate::calendar::{
    date_text, date_to_text, day_of_text, in_calendar, month_day_text, month_day_to_text,
    parse_day, time_text, time_to_text, weekday_of, year_month_text, year_month_to_text, Date,
    DateTime,
};
use crate::crypto::{cents, decrypt_cents, decrypt_string, plain, Dek};
use crate::currency::{amount_text, RateTable};
use crate::decimal::fits_i64;
use crate::entity::{account, bill};
use crate::error::{bad, bad_request, err500, internal, overflowed, ErrorView, HandlerResult};
use crate::handlers::bills::{
    converts, currency_of, find_currency, in_default, shown_account, shown_account_of, to_default,
};
use crate::handlers::MaskedDetail;
use crate::market_data::quotient_towards_zero;
use crate::order::{arrange, arranged, ints, sort_descending};
use crate::ranking::{
    add_group, add_ranking_value, are_ranking_rows, chart_series, counts_within, draws,
    group_amount, group_views, has_share, ordered_chart_series, percentage, ranked, ranking_rows,
    share_text, shares, shares_exist, ChartSeries, Group, GroupView, RankingRow,
};
use crate::text::{before, join2, join3, same, text_before, trimmed};
use crate::totals::total;

verus! {

/// The time that the statistics are asked for.
pub struct StatisticsQuery {
    pub period: String,
    pub start_date: String,
    pub end_date: String,
}

/// The name of a day of the week.
pub open spec fn weekday_text(weekday: int) -> Seq<char> {
    if weekday == 0 {
        "星期一"@
    } else if weekday == 1 {
        "星期二"@
    } else if weekday == 2 {
        "星期三"@
    } else if weekday == 3 {
        "星期四"@
    } else if weekday == 4 {
        "星期五"@
    } else if weekday == 5 {
        "星期六"@
    } else {
        "星期日"@
    }
}

pub fn weekday_name(weekday: u32) -> (r: &'static str)
    ensures
        r@ == weekday_text(weekday as int),
{
    if weekday == 0 {
        "星期一"
    } else if weekday == 1 {
        "星期二"
    } else if weekday == 2 {
        "星期三"
    } else if weekday == 3 {
        "星期四"
    } else if weekday == 4 {
        "星期五"
    } else if weekday == 5 {
        "星期六"
    } else {
        "星期日"
    }
}

/// A bill as it counts in the statistics.
pub struct ExpenseOrderValue {
    pub id: i64,
    pub amount: i64,
    pub native_amount: i64,
    pub currency: String,
    pub category: String,
    pub account: String,
    pub note: String,
    pub happened_at: DateTime,
}

/// A bill as it counts in the statistics, as values.
pub struct OrderView {
    pub id: i64,
    pub amount: i64,
    pub native_amount: i64,
    pub currency: Seq<char>,
    pub category: Seq<char>,
    pub account: Seq<char>,
    pub note: Seq<char>,
    pub happened_at: DateTime,
}

impl View for ExpenseOrderValue {
    type V = OrderView;

    open spec fn view(&self) -> OrderView {
        OrderView {
            id: self.id,
            amount: self.amount,
            native_amount: self.native_amount,
            currency: self.currency@,
            category: self.category@,
            account: self.account@,
            note: self.note@,
            happened_at: self.happened_at,
        }
    }
}

/// The values of a list of bills.
pub open spec fn order_views(orders: Seq<ExpenseOrderValue>) -> Seq<OrderView> {
    Seq::new(orders.len(), |i: int| orders[i]@)
}

/// Something earned or spent.
pub struct Entry {
    pub income: bool,
    pub food: bool,
    pub order: OrderView,
}

/// What bills are grouped by.
pub enum Label {
    Category,
    Account,
    Day,
    Weekday,
}

/// The name of the group of an entry.
pub open spec fn label_of(e: Entry, label: Label) -> Seq<char> {
    match label {
        Label::Category => e.order.category,
        Label::Account => e.order.account,
        Label::Day => date_text(e.order.happened_at.date),
        Label::Weekday => weekday_text(weekday_of(e.order.happened_at.date)),
    }
}

/// What the statistics are made of.
pub struct StatSource {
    pub dek: Seq<u8>,
    pub book: Book,
    pub masks: Seq<MaskedDetail>,
    pub rates: RateTable,
    pub default_currency: Seq<char>,
    pub start: int,
    pub end: int,
}

/// A bill lies in the span of days.
pub open spec fn in_span(s: StatSource, b: bill::Model) -> bool {
    s.start <= b.happened_at.date.days <= s.end
}

/// The currency of a bill.
pub open spec fn bill_currency(s: StatSource, b: bill::Model) -> Seq<char> {
    currency_of(s.book.accounts@, b.account_id, s.default_currency)
}

/// The amount of a bill in the default currency, or the refusal.
pub open spec fn bill_amount(s: StatSource, b: bill::Model) -> Result<i64, ErrorView> {
    in_default(s.rates, cents(s.dek, b.amount@), bill_currency(s, b))
}

/// A bill as an entry.
pub open spec fn entry_of(s: StatSource, b: bill::Model) -> Entry {
    Entry {
        income: b.kind@ == "income"@,
        food: b.is_food,
        order: OrderView {
            id: b.id,
            amount: bill_amount(s, b)->Ok_0,
            native_amount: cents(s.dek, b.amount@) as i64,
            currency: bill_currency(s, b),
            category: plain(s.dek, b.category@),
            account: shown_account(s.dek, s.book, s.masks, b.account_id),
            note: plain(s.dek, b.note@),
            happened_at: b.happened_at,
        },
    }
}

/// A bill is an entry: it lies in the span, it is earned or spent, and it has an amount.
pub open spec fn is_entry(s: StatSource, b: bill::Model) -> bool {
    in_span(s, b) && (b.kind@ == "income"@ || b.kind@ == "expense"@) && bill_amount(s, b) is Ok
}

/// The entries among the first `n` bills.
pub open spec fn entries(s: StatSource, n: int) -> Seq<Entry>
    decreases n,
{
    if n <= 0 {
        Seq::empty()
    } else if is_entry(s, s.book.bills@[n - 1]) {
        entries(s, n - 1).push(entry_of(s, s.book.bills@[n - 1]))
    } else {
        entries(s, n - 1)
    }
}

/// What was earned, or what was spent, in all.
pub open spec fn kind_sum(es: Seq<Entry>, income: bool) -> int
    decreases es.len(),
{
    if es.len() == 0 {
        0
    } else {
        kind_sum(es.drop_last(), income) + (if es.last().income == income {
            es.last().order.amount as int
        } else {
            0
        })
    }
}

/// The number of times that something was earned, or spent.
pub open spec fn kind_count(es: Seq<Entry>, income: bool) -> int
    decreases es.len(),
{
    if es.len() == 0 {
        0
    } else {
        kind_count(es.drop_last(), income) + (if es.last().income == income {
            1int
        } else {
            0
        })
    }
}

/// What was spent on food.
pub open spec fn food_sum(es: Seq<Entry>) -> int
    decreases es.len(),
{
    if es.len() == 0 {
        0
    } else {
        food_sum(es.drop_last()) + (if !es.last().income && es.last().food {
            es.last().order.amount as int
        } else {
            0
        })
    }
}

/// What was earned, or spent, added up in groups.
pub open spec fn groups_by(es: Seq<Entry>, income: bool, label: Label) -> Seq<GroupView>
    decreases es.len(),
{
    if es.len() == 0 {
        Seq::empty()
    } else {
        let front = groups_by(es.drop_last(), income, label);
        if es.last().income == income {
            add_group(front, label_of(es.last(), label), es.last().order.amount as int)
        } else {
            front
        }
    }
}

/// What was spent, each on its own.
pub open spec fn expenses(es: Seq<Entry>) -> Seq<OrderView>
    decreases es.len(),
{
    if es.len() == 0 {
        Seq::empty()
    } else if es.last().income {
        expenses(es.drop_last())
    } else {
        expenses(es.drop_last()).push(es.last().order)
    }
}

/// What was earned and spent on a day, and how many times something was spent.
#[derive(Clone, Copy)]
pub struct DayFlow {
    pub date: i32,
    pub income: i64,
    pub expense: i64,
    pub expenses: usize,
}

/// A day with something earned or spent on it.
pub open spec fn flow_with(d: DayFlow, income: bool, amount: int) -> DayFlow {
    if income {
        DayFlow { income: (d.income + amount) as i64, ..d }
    } else {
        DayFlow {
            expense: (d.expense + amount) as i64,
            expenses: (d.expenses + 1) as usize,
            ..d
        }
    }
}

/// A day on which nothing was earned or spent.
pub open spec fn empty_day(date: i32) -> DayFlow {
    DayFlow { date, income: 0, expense: 0, expenses: 0 }
}

/// The days, in their order, with something earned or spent on one of them.
pub open spec fn add_day(days: Seq<DayFlow>, date: i32, income: bool, amount: int) -> Seq<DayFlow>
    decreases days.len(),
{
    if days.len() == 0 || date < days[0].date {
        seq![flow_with(empty_day(date), income, amount)] + days
    } else if days[0].date == date {
        seq![flow_with(days[0], income, amount)] + days.drop_first()
    } else {
        seq![days[0]] + add_day(days.drop_first(), date, income, amount)
    }
}

/// What happened on a day.
pub open spec fn day_flow(days: Seq<DayFlow>, date: int) -> DayFlow
    decreases days.len(),
{
    if days.len() == 0 || date < days[0].date {
        empty_day(date as i32)
    } else if days[0].date == date {
        days[0]
    } else {
        day_flow(days.drop_first(), date)
    }
}

/// The days on which something was earned or spent.
pub open spec fn flows(es: Seq<Entry>) -> Seq<DayFlow>
    decreases es.len(),
{
    if es.len() == 0 {
        Seq::empty()
    } else {
        add_day(
            flows(es.drop_last()),
            es.last().order.happened_at.date.days,
            es.last().income,
            es.last().order.amount as int,
        )
    }
}

/// One more entry keeps every sum in the range of amounts.
pub open spec fn next_fits(es: Seq<Entry>, e: Entry) -> bool {
    let amount = e.order.amount;
    let day = day_flow(flows(es), e.order.happened_at.date.days as int);
    &&& fits_i64(kind_sum(es, e.income) + amount)
    &&& fits_i64(
        group_amount(groups_by(es, e.income, Label::Category), e.order.category) + amount,
    )
    &&& fits_i64(group_amount(groups_by(es, e.income, Label::Account), e.order.account) + amount)
    &&& fits_i64(
        (if e.income {
            day.income
        } else {
            day.expense
        }) + amount,
    )
    &&& !e.income ==> {
        &&& fits_i64(
            group_amount(groups_by(es, false, Label::Day), label_of(e, Label::Day)) + amount,
        )
        &&& fits_i64(
            group_amount(groups_by(es, false, Label::Weekday), label_of(e, Label::Weekday))
                + amount,
        )
        &&& e.food ==> fits_i64(food_sum(es) + amount)
    }
}

/// Why the first `n` bills cannot be added up, where they cannot.
pub open spec fn sums_refusal(s: StatSource, n: int) -> Option<ErrorView>
    decreases n,
{
    if n <= 0 {
        None
    } else {
        match sums_refusal(s, n - 1) {
            Some(e) => Some(e),
            None => {
                let b = s.book.bills@[n - 1];
                if !in_span(s, b) {
                    None
                } else {
                    match bill_amount(s, b) {
                        Err(e) => Some(e),
                        Ok(_) => if is_entry(s, b) && !next_fits(
                            entries(s, n - 1),
                            entry_of(s, b),
                        ) {
                            Some(internal("统计金额超出范围"@))
                        } else {
                            None
                        },
                    }
                }
            },
        }
    }
}

proof fn sums_refusal_stops(s: StatSource, m: int, n: int)
    requires
        0 <= m <= n,
        sums_refusal(s, m) is Some,
    ensures
        sums_refusal(s, n) == sums_refusal(s, m),
    decreases n,
{
    if m < n {
        sums_refusal_stops(s, m, n - 1);
    }
}

/// What each of the first `n` bills of the span comes to is its amount in the default currency.
pub open spec fn entries_convert(s: StatSource, n: int) -> bool {
    forall|i: int|
        0 <= i < n && in_span(s, #[trigger] s.book.bills@[i]) ==> bill_amount(
            s,
            s.book.bills@[i],
        ) is Ok && converts(
            bill_amount(s, s.book.bills@[i])->Ok_0 as int,
            s.dek,
            s.rates,
            s.book.accounts@,
            s.default_currency,
            s.book.bills@[i].amount@,
            s.book.bills@[i].account_id,
        )
}

/// All sums over the entries so far.
pub struct Sums {
    pub total_income: i64,
    pub total_expense: i64,
    pub income_count: usize,
    pub expense_count: usize,
    pub food_expense: i64,
    pub income_categories: Vec<Group>,
    pub expense_categories: Vec<Group>,
    pub income_accounts: Vec<Group>,
    pub expense_accounts: Vec<Group>,
    pub expense_days: Vec<Group>,
    pub expense_weekdays: Vec<Group>,
    pub days: Vec<DayFlow>,
    pub orders: Vec<ExpenseOrderValue>,
}

/// The sums are those over the entries.
pub open spec fn sums_up(c: Sums, es: Seq<Entry>) -> bool {
    &&& c.total_income == kind_sum(es, true)
    &&& c.total_expense == kind_sum(es, false)
    &&& c.income_count == kind_count(es, true)
    &&& c.expense_count == kind_count(es, false)
    &&& c.food_expense == food_sum(es)
    &&& group_views(c.income_categories@) == groups_by(es, true, Label::Category)
    &&& group_views(c.expense_categories@) == groups_by(es, false, Label::Category)
    &&& group_views(c.income_accounts@) == groups_by(es, true, Label::Account)
    &&& group_views(c.expense_accounts@) == groups_by(es, false, Label::Account)
    &&& group_views(c.expense_days@) == groups_by(es, false, Label::Day)
    &&& group_views(c.expense_weekdays@) == groups_by(es, false, Label::Weekday)
    &&& c.days@ == flows(es)
    &&& order_views(c.orders@) == expenses(es)
}

/// No count is larger than the number of entries.
spec fn counts_small(c: Sums, n: int) -> bool {
    &&& c.income_count <= n
    &&& c.expense_count <= n
    &&& counts_within(c.income_categories@, n)
    &&& counts_within(c.expense_categories@, n)
    &&& counts_within(c.income_accounts@, n)
    &&& counts_within(c.expense_accounts@, n)
    &&& counts_within(c.expense_days@, n)
    &&& counts_within(c.expense_weekdays@, n)
    &&& forall|i: int| 0 <= i < c.days@.len() ==> (#[trigger] c.days@[i]).expenses <= n
}

/// What adding to a day does behind the days that come before it.
proof fn add_day_at(days: Seq<DayFlow>, date: i32, income: bool, amount: int, i: int)
    requires
        0 <= i <= days.len(),
        forall|j: int| 0 <= j < i ==> (#[trigger] days[j]).date < date,
    ensures
        add_day(days, date, income, amount) == days.take(i) + add_day(
            days.skip(i),
            date,
            income,
            amount,
        ),
        day_flow(days, date as int) == day_flow(days.skip(i), date as int),
    decreases i,
{
    if i == 0 {
        assert(days.skip(0) =~= days);
        assert(days.take(0) + add_day(days, date, income, amount) =~= add_day(
            days,
            date,
            income,
            amount,
        ));
    } else {
        let rest = days.drop_first();
        assert(days[0].date < date);
        assert forall|j: int| 0 <= j < i - 1 implies (#[trigger] rest[j]).date < date by {
            assert(rest[j] == days[j + 1]);
        }
        add_day_at(rest, date, income, amount, i - 1);
        assert(rest.skip(i - 1) =~= days.skip(i));
        assert(days.take(i) + add_day(days.skip(i), date, income, amount) =~= seq![days[0]] + (
        rest.take(i - 1) + add_day(days.skip(i), date, income, amount)));
    }
}

/// Counts something earned or spent on a day, unless the sum leaves the range of amounts.
fn add_to_day(days: &mut Vec<DayFlow>, date: i32, income: bool, amount: i64, Ghost(n): Ghost<int>) -> (r:
    bool)
    requires
        0 <= n < usize::MAX,
        forall|i: int| 0 <= i < old(days)@.len() ==> (#[trigger] old(days)@[i]).expenses <= n,
    ensures
        ({
            let day = day_flow(old(days)@, date as int);
            r == fits_i64(
                (if income {
                    day.income
                } else {
                    day.expense
                }) + amount,
            )
        }),
        r ==> final(days)@ == add_day(old(days)@, date, income, amount as int),
        r ==> forall|i: int|
            0 <= i < final(days)@.len() ==> (#[trigger] final(days)@[i]).expenses <= n + 1,
{
    let ghost start = days@;
    let mut i: usize = 0;
    while i < days.len() && days[i].date < date
        invariant
            i <= days@.len(),
            days@ == start,
            forall|j: int| 0 <= j < i ==> (#[trigger] days@[j]).date < date,
        decreases days@.len() - i,
    {
        i = i + 1;
    }
    proof {
        add_day_at(start, date, income, amount as int, i as int);
    }
    let ghost rest = start.skip(i as int);
    let there = i < days.len() && days[i].date == date;
    let old_day = if there {
        days[i]
    } else {
        DayFlow { date, income: 0, expense: 0, expenses: 0 }
    };
    proof {
        if there {
            assert(rest[0] == start[i as int]);
        } else if i < start.len() {
            assert(rest[0] == start[i as int]);
        }
        assert(day_flow(rest, date as int) == old_day);
    }
    let sum = if income {
        old_day.income.checked_add(amount)
    } else {
        old_day.expense.checked_add(amount)
    };
    match sum {
        None => false,
        Some(sum) => {
            let new_day = if income {
                DayFlow {
                    date,
                    income: sum,
                    expense: old_day.expense,
                    expenses: old_day.expenses,
                }
            } else {
                DayFlow {
                    date,
                    income: old_day.income,
                    expense: sum,
                    expenses: old_day.expenses + 1,
                }
            };
            proof {
                assert(new_day == flow_with(old_day, income, amount as int));
            }
            if there {
                days.set(i, new_day);
                proof {
                    assert(rest.drop_first() =~= start.skip(i + 1));
                    assert(days@ =~= start.take(i as int) + (seq![new_day] + rest.drop_first()));
                    assert forall|k: int| 0 <= k < days@.len() implies (
                    #[trigger] days@[k]).expenses <= n + 1 by {
                        if k != i {
                            assert(days@[k] == start[k]);
                        }
                    }
                }
            } else {
                days.insert(i, new_day);
                proof {
                    assert(days@ =~= start.take(i as int) + (seq![new_day] + rest));
                    assert forall|k: int| 0 <= k < days@.len() implies (
                    #[trigger] days@[k]).expenses <= n + 1 by {
                        if k < i {
                            assert(days@[k] == start[k]);
                        } else if k > i {
                            assert(days@[k] == start[k - 1]);
                        }
                    }
                }
            }
            true
        },
    }
}

/// Counts something earned.
fn add_income(c: Sums, order: ExpenseOrderValue, food: bool, Ghost(es): Ghost<Seq<Entry>>) -> (r:
    HandlerResult<Sums>)
    requires
        sums_up(c, es),
        counts_small(c, es.len() as int),
        es.len() < usize::MAX,
    ensures
        ({
            let e = Entry { income: true, food, order: order@ };
            match r {
                Ok(new) => next_fits(es, e) && sums_up(new, es.push(e)) && counts_small(
                    new,
                    es.len() as int + 1,
                ),
                Err(error) => !next_fits(es, e) && error@ == internal("统计金额超出范围"@),
            }
        }),
{
    let ghost e = Entry { income: true, food, order: order@ };
    let ghost n = es.len() as int;
    let mut c = c;
    proof {
        assert(es.push(e).drop_last() =~= es);
    }
    let total: i64 = match c.total_income.checked_add(order.amount) {
        Some(total) => total,
        None => return Err(err500("统计金额超出范围")),
    };
    match add_ranking_value(&mut c.income_categories, order.category, order.amount, Ghost(n)) {
        Ok(_) => {},
        Err(error) => return Err(error),
    }
    match add_ranking_value(&mut c.income_accounts, order.account, order.amount, Ghost(n)) {
        Ok(_) => {},
        Err(error) => return Err(error),
    }
    if !add_to_day(&mut c.days, order.happened_at.date.days, true, order.amount, Ghost(n)) {
        return Err(err500("统计金额超出范围"));
    }
    c.total_income = total;
    c.income_count = c.income_count + 1;
    Ok(c)
}

/// Counts something spent.
fn add_expense(c: Sums, order: ExpenseOrderValue, food: bool, Ghost(es): Ghost<Seq<Entry>>) -> (r:
    HandlerResult<Sums>)
    requires
        sums_up(c, es),
        counts_small(c, es.len() as int),
        es.len() < usize::MAX,
    ensures
        ({
            let e = Entry { income: false, food, order: order@ };
            match r {
                Ok(new) => next_fits(es, e) && sums_up(new, es.push(e)) && counts_small(
                    new,
                    es.len() as int + 1,
                ),
                Err(error) => !next_fits(es, e) && error@ == internal("统计金额超出范围"@),
            }
        }),
{
    let ghost e = Entry { income: false, food, order: order@ };
    let ghost n = es.len() as int;
    let mut c = c;
    let date = order.happened_at.date;
    let amount: i64 = order.amount;
    proof {
        assert(es.push(e).drop_last() =~= es);
    }
    let total: i64 = match c.total_expense.checked_add(amount) {
        Some(total) => total,
        None => return Err(err500("统计金额超出范围")),
    };
    match add_ranking_value(&mut c.expense_categories, order.category.clone(), amount, Ghost(n)) {
        Ok(_) => {},
        Err(error) => return Err(error),
    }
    match add_ranking_value(&mut c.expense_accounts, order.account.clone(), amount, Ghost(n)) {
        Ok(_) => {},
        Err(error) => return Err(error),
    }
    match add_ranking_value(&mut c.expense_days, date_to_text(date), amount, Ghost(n)) {
        Ok(_) => {},
        Err(error) => return Err(error),
    }
    let weekday = weekday_name(date.weekday()).to_owned();
    match add_ranking_value(&mut c.expense_weekdays, weekday, amount, Ghost(n)) {
        Ok(_) => {},
        Err(error) => return Err(error),
    }
    if !add_to_day(&mut c.days, date.days, false, amount, Ghost(n)) {
        return Err(err500("统计金额超出范围"));
    }
    if food {
        match c.food_expense.checked_add(amount) {
            Some(sum) => {
                c.food_expense = sum;
            },
            None => return Err(err500("统计金额超出范围")),
        }
    }
    let ghost before = c.orders@;
    let ghost line = order@;
    c.orders.push(order);
    proof {
        assert(order_views(c.orders@) =~= order_views(before).push(line));
    }
    c.total_expense = total;
    c.expense_count = c.expense_count + 1;
    Ok(c)
}

/// Adds up the bills in a span of days.
fn add_up(
    dek: &Dek,
    book: &Book,
    masks: &Vec<MaskedDetail>,
    rates: &RateTable,
    default_currency: &str,
    start: Date,
    end: Date,
) -> (r: HandlerResult<Sums>)
    requires
        rates.wf(),
    ensures
        ({
            let s = StatSource {
                dek: dek@,
                book: *book,
                masks: masks@,
                rates: *rates,
                default_currency: default_currency@,
                start: start.days as int,
                end: end.days as int,
            };
            let n = book.bills@.len() as int;
            match r {
                Ok(c) => sums_refusal(s, n) is None && sums_up(c, entries(s, n)) && entries_convert(
                    s,
                    n,
                ),
                Err(error) => sums_refusal(s, n) == Some(error@),
            }
        }),
{
    let ghost s = StatSource {
        dek: dek@,
        book: *book,
        masks: masks@,
        rates: *rates,
        default_currency: default_currency@,
        start: start.days as int,
        end: end.days as int,
    };
    let ghost n = book.bills@.len() as int;
    let mut c = Sums {
        total_income: 0,
        total_expense: 0,
        income_count: 0,
        expense_count: 0,
        food_expense: 0,
        income_categories: Vec::new(),
        expense_categories: Vec::new(),
        income_accounts: Vec::new(),
        expense_accounts: Vec::new(),
        expense_days: Vec::new(),
        expense_weekdays: Vec::new(),
        days: Vec::new(),
        orders: Vec::new(),
    };
    proof {
        let none = Seq::<Entry>::empty();
        assert(group_views(c.income_categories@) =~= groups_by(none, true, Label::Category));
        assert(group_views(c.expense_categories@) =~= groups_by(none, false, Label::Category));
        assert(group_views(c.income_accounts@) =~= groups_by(none, true, Label::Account));
        assert(group_views(c.expense_accounts@) =~= groups_by(none, false, Label::Account));
        assert(group_views(c.expense_days@) =~= groups_by(none, false, Label::Day));
        assert(group_views(c.expense_weekdays@) =~= groups_by(none, false, Label::Weekday));
        assert(c.days@ =~= flows(none));
        assert(order_views(c.orders@) =~= expenses(none));
    }
    let mut i: usize = 0;
    while i < book.bills.len()
        invariant
            i <= book.bills@.len(),
            n == book.bills@.len(),
            rates.wf(),
            s == (StatSource {
                dek: dek@,
                book: *book,
                masks: masks@,
                rates: *rates,
                default_currency: default_currency@,
                start: start.days as int,
                end: end.days as int,
            }),
            sums_refusal(s, i as int) is None,
            entries_convert(s, i as int),
            entries(s, i as int).len() <= i,
            sums_up(c, entries(s, i as int)),
            counts_small(c, entries(s, i as int).len() as int),
        decreases book.bills@.len() - i,
    {
        let b = &book.bills[i];
        let date = b.happened_at.date;
        if start.days <= date.days && date.days <= end.days {
            let native_amount: i64 = decrypt_cents(dek, &b.amount);
            let currency = find_currency(&book.accounts, b.account_id, default_currency);
            let amount: i64 = match to_default(rates, native_amount, &currency) {
                Ok(amount) => amount,
                Err(error) => {
                    proof {
                        sums_refusal_stops(s, i + 1, n);
                    }
                    return Err(error);
                },
            };
            let income = same(&b.kind, "income");
            if income || same(&b.kind, "expense") {
                let order = ExpenseOrderValue {
                    id: b.id,
                    amount,
                    native_amount,
                    currency,
                    category: decrypt_string(dek, &b.category),
                    account: shown_account_of(dek, book, masks, b.account_id),
                    note: decrypt_string(dek, &b.note),
                    happened_at: b.happened_at,
                };
                proof {
                    assert(entry_of(s, *b) == (Entry { income, food: b.is_food, order: order@ }));
                }
                let added = if income {
                    add_income(c, order, b.is_food, Ghost(entries(s, i as int)))
                } else {
                    add_expense(c, order, b.is_food, Ghost(entries(s, i as int)))
                };
                match added {
                    Ok(new) => {
                        c = new;
                    },
                    Err(error) => {
                        proof {
                            sums_refusal_stops(s, i + 1, n);
                        }
                        return Err(error);
                    },
                }
            }
        }
        i = i + 1;
    }
    Ok(c)
}

/// A span of days and the name it was chosen by.
pub struct Span {
    pub period: &'static str,
    pub start: Date,
    pub end: Date,
}

/// The number of days of a span that is chosen by name.
pub open spec fn preset_days(period: Seq<char>) -> Option<int> {
    if period == "7d"@ {
        Some(7)
    } else if period == "14d"@ {
        Some(14)
    } else if period == "30d"@ {
        Some(30)
    } else if period == "90d"@ {
        Some(90)
    } else if period == "365d"@ {
        Some(365)
    } else {
        None
    }
}

/// The day of a field, or one in its place where the field is empty.
pub open spec fn date_field(value: Seq<char>, fallback: int, label: Seq<char>) -> Result<
    int,
    ErrorView,
> {
    if trimmed(value).len() == 0 {
        Ok(fallback)
    } else {
        match day_of_text(value) {
            Some(date) => Ok(date.days as int),
            None => Err(bad(label + "格式不正确"@)),
        }
    }
}

pub fn parse_date(value: &str, fallback: Date, label: &str) -> (r: HandlerResult<Date>)
    ensures
        match (r, date_field(value@, fallback.days as int, label@)) {
            (Ok(date), Ok(days)) => date.days == days,
            (Err(error), Err(wanted)) => error@ == wanted,
            _ => false,
        },
{
    if value.trim().is_empty() {
        return Ok(fallback);
    }
    match parse_day(value) {
        Some(date) => Ok(date),
        None => Err(bad_request(&join2(label, "格式不正确"))),
    }
}

/// The span of days that a query asks for: one chosen by name ends today, thirty days where
/// nothing is chosen, else from one day to another.
pub open spec fn span_of(query: StatisticsQuery, today: int) -> Result<
    (Seq<char>, int, int),
    ErrorView,
> {
    match preset_days(query.period@) {
        Some(days) => Ok((query.period@, today - (days - 1), today)),
        None => if trimmed(query.start_date@).len() == 0 && trimmed(query.end_date@).len() == 0 {
            Ok(("30d"@, today - 29, today))
        } else {
            match date_field(query.start_date@, today - 29, "开始日期"@) {
                Err(e) => Err(e),
                Ok(start) => match date_field(query.end_date@, today, "结束日期"@) {
                    Err(e) => Err(e),
                    Ok(end) => if start > end {
                        Err(bad("开始日期不能晚于结束日期"@))
                    } else {
                        Ok(("custom"@, start, end))
                    },
                },
            }
        },
    }
}

/// The span of days that a query asks for.
pub fn choose_span(query: &StatisticsQuery, today: Date) -> (r: HandlerResult<Span>)
    requires
        in_calendar(today.days - 364),
        in_calendar(today.days as int),
    ensures
        match (r, span_of(*query, today.days as int)) {
            (Ok(span), Ok((period, start, end))) => span.period@ == period && span.start.days
                == start && span.end.days == end && start <= end,
            (Err(error), Err(wanted)) => error@ == wanted,
            _ => false,
        },
{
    let preset: Option<(&'static str, i32)> = if same(&query.period, "7d") {
        Some(("7d", 7))
    } else if same(&query.period, "14d") {
        Some(("14d", 14))
    } else if same(&query.period, "30d") {
        Some(("30d", 30))
    } else if same(&query.period, "90d") {
        Some(("90d", 90))
    } else if same(&query.period, "365d") {
        Some(("365d", 365))
    } else if query.start_date.as_str().trim().is_empty()
        && query.end_date.as_str().trim().is_empty() {
        Some(("30d", 30))
    } else {
        None
    };
    match preset {
        Some((period, days)) => Ok(
            Span { period, start: Date { days: today.days - (days - 1) }, end: today },
        ),
        None => {
            let fallback = Date { days: today.days - 29 };
            let start = match parse_date(&query.start_date, fallback, "开始日期") {
                Ok(date) => date,
                Err(error) => return Err(error),
            };
            let end = match parse_date(&query.end_date, today, "结束日期") {
                Ok(date) => date,
                Err(error) => return Err(error),
            };
            if start.days > end.days {
                return Err(bad_request("开始日期不能晚于结束日期"));
            }
            Ok(Span { period: "custom", start, end })
        },
    }
}

/// The amounts of expenses.
pub open spec fn order_amounts(orders: Seq<OrderView>) -> Seq<int> {
    Seq::new(orders.len(), |i: int| orders[i].amount as int)
}

/// The middle one of amounts in order, or the mean of the two in the middle without its fraction;
/// none where their sum is out of range.
pub open spec fn median_of(values: Seq<int>) -> Option<int> {
    let n = values.len() as int;
    let sorted = arranged(values, values);
    if n == 0 {
        Some(0)
    } else if n % 2 == 1 {
        Some(sorted[n / 2])
    } else {
        let sum = sorted[n / 2 - 1] + sorted[n / 2];
        if fits_i64(sum) {
            Some(quotient_towards_zero(sum, 2))
        } else {
            None
        }
    }
}

/// The largest of amounts, zero where there is none.
pub open spec fn largest_of(values: Seq<int>) -> int {
    if values.len() == 0 {
        0
    } else {
        arranged(values, values)[0]
    }
}

/// The middle one and the largest of the amounts of expenses.
pub fn median(orders: &Vec<ExpenseOrderValue>) -> (r: HandlerResult<(i64, i64)>)
    ensures
        ({
            let values = order_amounts(order_views(orders@));
            match (r, median_of(values)) {
                (Ok(pair), Some(middle)) => pair.0 == middle && pair.1 == largest_of(values),
                (Err(error), None) => error@ == internal("统计金额超出范围"@),
                _ => false,
            }
        }),
{
    let ghost values = order_amounts(order_views(orders@));
    let mut keys: Vec<i128> = Vec::new();
    let mut i: usize = 0;
    while i < orders.len()
        invariant
            i <= orders@.len(),
            keys@.len() == i,
            forall|j: int| 0 <= j < i ==> #[trigger] keys@[j] == orders@[j].amount,
        decreases orders@.len() - i,
    {
        keys.push(orders[i].amount as i128);
        i = i + 1;
    }
    let order = sort_descending(&keys);
    proof {
        assert(ints(keys@) =~= values);
        assert forall|k: int| 0 <= k < order@.len() implies arranged(values, values)[k]
            == orders@[#[trigger] order@[k] as int].amount by {
            assert(crate::order::positions(order@)[k] == order@[k]);
        }
    }
    let n: usize = orders.len();
    if n == 0 {
        return Ok((0, 0));
    }
    let largest: i64 = orders[order[0]].amount;
    if n % 2 == 1 {
        return Ok((orders[order[n / 2]].amount, largest));
    }
    let high: i64 = orders[order[n / 2 - 1]].amount;
    let low: i64 = orders[order[n / 2]].amount;
    match high.checked_add(low) {
        None => Err(err500("统计金额超出范围")),
        Some(sum) => {
            let half: i64 = if sum < 0 {
                (-((-(sum as i128)) / 2)) as i64
            } else {
                sum / 2
            };
            Ok((half, largest))
        },
    }
}

/// What expenses are put in order by.
pub enum OrderKey {
    Amount,
    Time,
    Id,
}

/// The number that an expense is put in order by.
pub open spec fn order_key(o: OrderView, key: OrderKey) -> int {
    match key {
        OrderKey::Amount => o.amount as int,
        OrderKey::Time => o.happened_at.key(),
        OrderKey::Id => o.id as int,
    }
}

/// Expenses in order by one number, from the largest to the smallest.
pub open spec fn ordered_by(orders: Seq<OrderView>, key: OrderKey) -> Seq<OrderView> {
    arranged(orders, Seq::new(orders.len(), |i: int| order_key(orders[i], key)))
}

/// Expenses from the largest to the smallest, equal ones from the latest to the earliest, and at
/// the same time from the last to the first that was entered.
pub open spec fn largest_first(orders: Seq<OrderView>) -> Seq<OrderView> {
    ordered_by(ordered_by(ordered_by(orders, OrderKey::Id), OrderKey::Time), OrderKey::Amount)
}

fn order_by(orders: Vec<ExpenseOrderValue>, key: OrderKey) -> (r: Vec<ExpenseOrderValue>)
    ensures
        order_views(r@) == ordered_by(order_views(orders@), key),
{
    let ghost views = order_views(orders@);
    let mut keys: Vec<i128> = Vec::new();
    let mut i: usize = 0;
    while i < orders.len()
        invariant
            i <= orders@.len(),
            keys@.len() == i,
            forall|j: int| 0 <= j < i ==> #[trigger] keys@[j] == order_key(orders@[j]@, key),
        decreases orders@.len() - i,
    {
        let o = &orders[i];
        keys.push(
            match key {
                OrderKey::Amount => o.amount as i128,
                OrderKey::Time => o.happened_at.sort_key(),
                OrderKey::Id => o.id as i128,
            },
        );
        i = i + 1;
    }
    let sorted = arrange(orders, &keys);
    proof {
        let wanted = Seq::new(views.len(), |i: int| order_key(views[i], key));
        assert(ints(keys@) =~= wanted);
        crate::order::descending_exists(wanted);
        assert(order_views(sorted@) =~= arranged(views, wanted));
    }
    sorted
}

/// An expense comes before another: it is larger, or as large and later, or at the same time and
/// entered later.
pub open spec fn outranks(a: OrderView, b: OrderView) -> bool {
    ||| a.amount > b.amount
    ||| a.amount == b.amount && a.happened_at.key() > b.happened_at.key()
    ||| a.amount == b.amount && a.happened_at.key() == b.happened_at.key() && a.id >= b.id
}

/// The largest expenses come first; of equal ones the latest, and of those the last entered.
pub proof fn largest_first_in_order(orders: Seq<OrderView>, i: int, j: int)
    requires
        0 <= i < j < orders.len(),
    ensures
        outranks(largest_first(orders)[i], largest_first(orders)[j]),
{
    let ids = Seq::new(orders.len(), |k: int| order_key(orders[k], OrderKey::Id));
    let by_id = ordered_by(orders, OrderKey::Id);
    let times = Seq::new(by_id.len(), |k: int| order_key(by_id[k], OrderKey::Time));
    let by_time = ordered_by(by_id, OrderKey::Time);
    let amounts = Seq::new(by_time.len(), |k: int| order_key(by_time[k], OrderKey::Amount));
    crate::order::descending_exists(ids);
    crate::order::descending_exists(times);
    crate::order::descending_exists(amounts);
    let o1 = crate::order::descending_order(ids);
    let o2 = crate::order::descending_order(times);
    let o3 = crate::order::descending_order(amounts);
    let p = o3[i];
    let q = o3[j];
    assert(crate::order::ahead(amounts, p, q));
    if amounts[p] == amounts[q] {
        let x = o2[p];
        let y = o2[q];
        assert(crate::order::ahead(times, x, y));
        if times[x] == times[y] {
            assert(crate::order::ahead(ids, o1[x], o1[y]));
        }
    }
}

/// What was earned and spent, drawn over days or months.
pub struct TrendSeries {
    pub labels: Vec<String>,
    pub income: Vec<i64>,
    pub expense: Vec<i64>,
}

/// What was earned and spent in a month.
pub struct MonthFlow {
    pub label: String,
    pub income: i64,
    pub expense: i64,
}

/// What was earned and spent in a month, as values.
pub struct MonthView {
    pub label: Seq<char>,
    pub income: int,
    pub expense: int,
}

impl View for MonthFlow {
    type V = MonthView;

    open spec fn view(&self) -> MonthView {
        MonthView {
            label: self.label@,
            income: self.income as int,
            expense: self.expense as int,
        }
    }
}

/// The values of a list of months.
pub open spec fn month_views(months: Seq<MonthFlow>) -> Seq<MonthView> {
    Seq::new(months.len(), |i: int| months[i]@)
}

/// The place of a month in a list: of the month itself, or before the first that comes later.
pub open spec fn month_place(months: Seq<MonthView>, label: Seq<char>) -> int
    decreases months.len(),
{
    if months.len() == 0 || months[0].label == label || text_before(label, months[0].label) {
        0
    } else {
        1 + month_place(months.drop_first(), label)
    }
}

/// The months with what was earned and spent on a day of one of them; none where a sum is out of
/// range.
pub open spec fn add_month(months: Seq<MonthView>, label: Seq<char>, income: int, expense: int) -> Option<
    Seq<MonthView>,
> {
    let i = month_place(months, label);
    if i < months.len() && months[i].label == label {
        let m = MonthView {
            label,
            income: months[i].income + income,
            expense: months[i].expense + expense,
        };
        if fits_i64(m.income) && fits_i64(m.expense) {
            Some(months.update(i, m))
        } else {
            None
        }
    } else {
        Some(months.insert(i, MonthView { label, income, expense }))
    }
}

/// What was earned and spent in the months of the first `n` days; none where a sum is out of range.
pub open spec fn months_of(days: Seq<DayFlow>, n: int) -> Option<Seq<MonthView>>
    decreases n,
{
    if n <= 0 {
        Some(Seq::empty())
    } else {
        match months_of(days, n - 1) {
            None => None,
            Some(months) => {
                let d = days[n - 1];
                add_month(
                    months,
                    year_month_text(Date { days: d.date }),
                    d.income as int,
                    d.expense as int,
                )
            },
        }
    }
}

proof fn months_stop(days: Seq<DayFlow>, m: int, n: int)
    requires
        m <= n,
        months_of(days, m) is None,
    ensures
        months_of(days, n) is None,
    decreases n - m,
{
    if m < n {
        months_stop(days, m, n - 1);
    }
}

proof fn month_place_bounds(months: Seq<MonthView>, label: Seq<char>)
    ensures
        0 <= month_place(months, label) <= months.len(),
    decreases months.len(),
{
    if months.len() > 0 {
        month_place_bounds(months.drop_first(), label);
    }
}

proof fn month_place_at(months: Seq<MonthView>, label: Seq<char>, i: int)
    requires
        0 <= i <= months.len(),
        forall|j: int|
            0 <= j < i ==> (#[trigger] months[j]).label != label && !text_before(
                label,
                months[j].label,
            ),
    ensures
        month_place(months, label) == i + month_place(months.skip(i), label),
    decreases i,
{
    if i == 0 {
        assert(months.skip(0) =~= months);
    } else {
        let rest = months.drop_first();
        assert(months[0].label != label);
        assert forall|j: int| 0 <= j < i - 1 implies (#[trigger] rest[j]).label != label
            && !text_before(label, rest[j].label) by {
            assert(rest[j] == months[j + 1]);
        }
        month_place_at(rest, label, i - 1);
        assert(rest.skip(i - 1) =~= months.skip(i));
    }
}

fn find_month(months: &Vec<MonthFlow>, label: &str) -> (r: usize)
    ensures
        r == month_place(month_views(months@), label@),
        r <= months@.len(),
{
    let ghost views = month_views(months@);
    let mut i: usize = 0;
    while i < months.len() && !same(&months[i].label, label) && !before(label, &months[i].label)
        invariant
            i <= months@.len(),
            views == month_views(months@),
            forall|j: int|
                0 <= j < i ==> (#[trigger] views[j]).label != label@ && !text_before(
                    label@,
                    views[j].label,
                ),
        decreases months@.len() - i,
    {
        proof {
            assert(views[i as int].label == months@[i as int].label@);
        }
        i = i + 1;
    }
    proof {
        month_place_at(views, label@, i as int);
        if i < months@.len() {
            assert(views.skip(i as int)[0] == months@[i as int]@);
        }
    }
    i
}

fn sum_months(days: &Vec<DayFlow>) -> (r: Option<Vec<MonthFlow>>)
    ensures
        match r {
            Some(months) => months_of(days@, days@.len() as int) == Some(month_views(months@)),
            None => months_of(days@, days@.len() as int) is None,
        },
{
    let mut months: Vec<MonthFlow> = Vec::new();
    let mut i: usize = 0;
    proof {
        assert(month_views(months@) =~= Seq::empty());
    }
    while i < days.len()
        invariant
            i <= days@.len(),
            months_of(days@, i as int) == Some(month_views(months@)),
        decreases days@.len() - i,
    {
        let d = days[i];
        let label = year_month_to_text(Date { days: d.date });
        let at: usize = find_month(&months, &label);
        let ghost views = month_views(months@);
        let ghost name = label@;
        if at < months.len() && same(&months[at].label, &label) {
            proof {
                assert(views[at as int] == months@[at as int]@);
            }
            let income = months[at].income.checked_add(d.income);
            let expense = months[at].expense.checked_add(d.expense);
            match (income, expense) {
                (Some(income), Some(expense)) => {
                    months.set(at, MonthFlow { label, income, expense });
                    proof {
                        assert(month_views(months@) =~= views.update(
                            at as int,
                            MonthView {
                                label: name,
                                income: income as int,
                                expense: expense as int,
                            },
                        ));
                    }
                },
                _ => {
                    proof {
                        months_stop(days@, i + 1, days@.len() as int);
                    }
                    return None;
                },
            }
        } else {
            proof {
                if at < months@.len() {
                    assert(views[at as int] == months@[at as int]@);
                }
            }
            months.insert(at, MonthFlow { label, income: d.income, expense: d.expense });
            proof {
                assert(month_views(months@) =~= views.insert(
                    at as int,
                    MonthView {
                        label: name,
                        income: d.income as int,
                        expense: d.expense as int,
                    },
                ));
            }
        }
        i = i + 1;
    }
    Some(months)
}

fn find_day(days: &Vec<DayFlow>, date: i32) -> (r: DayFlow)
    ensures
        r == day_flow(days@, date as int),
{
    let mut i: usize = 0;
    while i < days.len() && days[i].date < date
        invariant
            i <= days@.len(),
            forall|j: int| 0 <= j < i ==> (#[trigger] days@[j]).date < date,
        decreases days@.len() - i,
    {
        i = i + 1;
    }
    proof {
        add_day_at(days@, date, true, 0, i as int);
        if i < days@.len() {
            assert(days@.skip(i as int)[0] == days@[i as int]);
        }
    }
    if i < days.len() && days[i].date == date {
        days[i]
    } else {
        DayFlow { date, income: 0, expense: 0, expenses: 0 }
    }
}

/// A span of so many days is drawn day by day, a longer one month by month.
pub open spec fn by_day(start: int, end: int) -> bool {
    end - start + 1 <= 90
}

/// The drawing shows what was earned and spent.
pub open spec fn is_trend(t: TrendSeries, start: int, end: int, days: Seq<DayFlow>) -> bool {
    if by_day(start, end) {
        &&& t.labels@.len() == end - start + 1
        &&& t.income@.len() == end - start + 1
        &&& t.expense@.len() == end - start + 1
        &&& forall|i: int|
            0 <= i < t.labels@.len() ==> (#[trigger] t.labels@[i])@ == month_day_text(
                Date { days: (start + i) as i32 },
            )
        &&& forall|i: int|
            0 <= i < t.income@.len() ==> #[trigger] t.income@[i] == day_flow(days, start + i).income
        &&& forall|i: int|
            0 <= i < t.expense@.len() ==> #[trigger] t.expense@[i] == day_flow(
                days,
                start + i,
            ).expense
    } else {
        let months = months_of(days, days.len() as int)->0;
        &&& t.labels@.len() == months.len()
        &&& t.income@.len() == months.len()
        &&& t.expense@.len() == months.len()
        &&& forall|i: int| 0 <= i < months.len() ==> (#[trigger] t.labels@[i])@ == months[i].label
        &&& forall|i: int| 0 <= i < months.len() ==> #[trigger] t.income@[i] == months[i].income
        &&& forall|i: int| 0 <= i < months.len() ==> #[trigger] t.expense@[i] == months[i].expense
    }
}

/// What was earned and spent, drawn over the days or the months of a span.
pub fn trend_series(start: Date, end: Date, days: &Vec<DayFlow>) -> (r: Option<
    (String, TrendSeries),
>)
    requires
        start.days <= end.days,
    ensures
        match r {
            Some((label, trend)) => is_trend(trend, start.days as int, end.days as int, days@)
                && label@ == (if by_day(start.days as int, end.days as int) {
                "每日收支趋势"@
            } else {
                "每月收支趋势"@
            }),
            None => true,
        },
        r is Some <==> by_day(start.days as int, end.days as int) || months_of(
            days@,
            days@.len() as int,
        ) is Some,
{
    let mut labels: Vec<String> = Vec::new();
    let mut income: Vec<i64> = Vec::new();
    let mut expense: Vec<i64> = Vec::new();
    let count: i64 = end.days as i64 - start.days as i64 + 1;
    if count <= 90 {
        let mut k: i64 = 0;
        while k < count
            invariant
                0 <= k <= count <= 90,
                count == end.days - start.days + 1,
                labels@.len() == k,
                income@.len() == k,
                expense@.len() == k,
                forall|i: int|
                    0 <= i < k ==> (#[trigger] labels@[i])@ == month_day_text(
                        Date { days: (start.days + i) as i32 },
                    ),
                forall|i: int|
                    0 <= i < k ==> #[trigger] income@[i] == day_flow(
                        days@,
                        start.days + i,
                    ).income,
                forall|i: int|
                    0 <= i < k ==> #[trigger] expense@[i] == day_flow(
                        days@,
                        start.days + i,
                    ).expense,
            decreases count - k,
        {
            let date = Date { days: (start.days as i64 + k) as i32 };
            labels.push(month_day_to_text(date));
            let d = find_day(days, date.days);
            income.push(d.income);
            expense.push(d.expense);
            k = k + 1;
        }
        return Some(("每日收支趋势".to_owned(), TrendSeries { labels, income, expense }));
    }
    let months = match sum_months(days) {
        Some(months) => months,
        None => return None,
    };
    let mut i: usize = 0;
    while i < months.len()
        invariant
            i <= months@.len(),
            labels@.len() == i,
            income@.len() == i,
            expense@.len() == i,
            forall|j: int| 0 <= j < i ==> (#[trigger] labels@[j])@ == months@[j].label@,
            forall|j: int| 0 <= j < i ==> #[trigger] income@[j] == months@[j].income,
            forall|j: int| 0 <= j < i ==> #[trigger] expense@[j] == months@[j].expense,
        decreases months@.len() - i,
    {
        labels.push(months[i].label.clone());
        income.push(months[i].income);
        expense.push(months[i].expense);
        i = i + 1;
    }
    proof {
        assert forall|j: int| 0 <= j < months@.len() implies months@[j]@ == #[trigger] month_views(
            months@,
        )[j] by {}
    }
    Some(("每月收支趋势".to_owned(), TrendSeries { labels, income, expense }))
}

/// A text in which the characters that end a script are written by their numbers.
pub open spec fn escaped(s: Seq<char>) -> Seq<char>
    decreases s.len(),
{
    if s.len() == 0 {
        Seq::empty()
    } else {
        let front = escaped(s.drop_last());
        if s.last() == '<' {
            front + "\\u003c"@
        } else if s.last() == '>' {
            front + "\\u003e"@
        } else if s.last() == '&' {
            front + "\\u0026"@
        } else {
            front.push(s.last())
        }
    }
}

/// Writes the characters that end a script by their numbers.
pub fn escape_json(json: &str) -> (r: String)
    ensures
        r@ == escaped(json@),
{
    let mut text = String::new();
    proof {
        assert(json@.take(0) =~= Seq::empty());
    }
    for c in it: json.chars()
        invariant
            it.seq() == json@,
            text@ == escaped(json@.take(it.index() as int)),
    {
        proof {
            let n = it.index() as int;
            assert(json@.take(n + 1).drop_last() =~= json@.take(n));
            assert(json@.take(n + 1).last() == c);
        }
        if c == '<' {
            text.append("\\u003c");
        } else if c == '>' {
            text.append("\\u003e");
        } else if c == '&' {
            text.append("\\u0026");
        } else {
            text.push(c);
        }
    }
    proof {
        assert(json@.take(json@.len() as int) =~= json@);
    }
    text
}

/// A text that was escaped holds none of the characters that end a script.
pub proof fn escaped_is_safe(s: Seq<char>)
    ensures
        forall|i: int|
            0 <= i < escaped(s).len() ==> #[trigger] escaped(s)[i] != '<' && escaped(s)[i] != '>'
                && escaped(s)[i] != '&',
    decreases s.len(),
{
    if s.len() > 0 {
        escaped_is_safe(s.drop_last());
        reveal_strlit("\\u003c");
        reveal_strlit("\\u003e");
        reveal_strlit("\\u0026");
        let front = escaped(s.drop_last());
        assert forall|i: int| 0 <= i < escaped(s).len() implies #[trigger] escaped(s)[i] != '<'
            && escaped(s)[i] != '>' && escaped(s)[i] != '&' by {
            if i < front.len() {
                assert(escaped(s)[i] == front[i]);
            }
        }
    }
}

/// One of the largest expenses.
pub struct ExpenseOrderRow {
    pub rank: usize,
    pub id: i64,
    pub amount: String,
    pub original_amount: String,
    pub converted: bool,
    pub category: String,
    pub account: String,
    pub note: String,
    pub happened_at: String,
    pub share: String,
}

/// The line of one of the largest expenses shows these values.
pub open spec fn is_order_row(
    row: ExpenseOrderRow,
    rank: int,
    o: OrderView,
    total: int,
    currency: Seq<char>,
) -> bool {
    &&& row.rank == rank
    &&& row.id == o.id
    &&& row.amount@ == amount_text(o.amount as int, currency)
    &&& row.original_amount@ == amount_text(o.native_amount as int, o.currency)
    &&& row.converted == (o.currency != currency)
    &&& row.category@ == o.category
    &&& row.account@ == o.account
    &&& row.note@ == o.note
    &&& row.happened_at@ == time_text(o.happened_at)
    &&& row.share@ == share_text(o.amount as int, total)
    &&& shares(row.share@, o.amount as int, total)
}

/// The twenty largest expenses.
pub open spec fn top_orders(orders: Seq<OrderView>) -> Seq<OrderView> {
    let all = largest_first(orders);
    if all.len() > 20 {
        all.take(20)
    } else {
        all
    }
}

/// The shares of expenses can be reckoned.
pub open spec fn order_shares_exist(orders: Seq<OrderView>, total: int) -> bool {
    forall|i: int| 0 <= i < orders.len() ==> has_share((#[trigger] orders[i]).amount as int, total)
}

fn order_rows(orders: Vec<ExpenseOrderValue>, total: i64, default_currency: &str) -> (r:
    HandlerResult<Vec<ExpenseOrderRow>>)
    ensures
        ({
            let top = top_orders(order_views(orders@));
            match r {
                Ok(rows) => order_shares_exist(top, total as int) && rows@.len() == top.len()
                    && forall|i: int|
                    0 <= i < rows@.len() ==> is_order_row(
                        #[trigger] rows@[i],
                        i + 1,
                        top[i],
                        total as int,
                        default_currency@,
                    ),
                Err(error) => !order_shares_exist(top, total as int) && error@ == overflowed(),
            }
        }),
{
    let ghost top = top_orders(order_views(orders@));
    let sorted = order_by(
        order_by(order_by(orders, OrderKey::Id), OrderKey::Time),
        OrderKey::Amount,
    );
    let ghost all = largest_first(order_views(orders@));
    proof {
        assert(order_views(sorted@).len() == sorted@.len());
    }
    let count: usize = if sorted.len() > 20 {
        20
    } else {
        sorted.len()
    };
    let mut rows: Vec<ExpenseOrderRow> = Vec::new();
    let mut i: usize = 0;
    while i < count
        invariant
            i <= count <= sorted@.len(),
            count == top.len(),
            top == top_orders(order_views(orders@)),
            order_views(sorted@) == all,
            forall|j: int| 0 <= j < count ==> #[trigger] top[j] == all[j],
            rows@.len() == i,
            forall|j: int| 0 <= j < i ==> has_share((#[trigger] top[j]).amount as int, total as int),
            forall|j: int|
                0 <= j < i ==> is_order_row(
                    #[trigger] rows@[j],
                    j + 1,
                    top[j],
                    total as int,
                    default_currency@,
                ),
        decreases count - i,
    {
        let o = &sorted[i];
        proof {
            assert(order_views(sorted@)[i as int] == o@);
            assert(top[i as int] == all[i as int]);
        }
        let share = match percentage(o.amount, total) {
            Ok(share) => share,
            Err(error) => return Err(error),
        };
        rows.push(
            ExpenseOrderRow {
                rank: i + 1,
                id: o.id,
                amount: crate::currency::format(o.amount, default_currency),
                original_amount: crate::currency::format(o.native_amount, &o.currency),
                converted: !same(&o.currency, default_currency),
                category: o.category.clone(),
                account: o.account.clone(),
                note: o.note.clone(),
                happened_at: time_to_text(o.happened_at),
                share,
            },
        );
        i = i + 1;
    }
    Ok(rows)
}

/// A total divided by a count without its fraction, zero where nothing was counted.
pub open spec fn average_of(total: int, count: int) -> int {
    if count == 0 {
        0
    } else {
        quotient_towards_zero(total, count)
    }
}

fn average(total: i64, count: u64) -> (r: i64)
    ensures
        r == average_of(total as int, count as int),
{
    if count == 0 {
        return 0;
    }
    let size: i128 = if total < 0 {
        -(total as i128)
    } else {
        total as i128
    };
    let quotient: i128 = size / count as i128;
    proof {
        let n = size as int;
        let c = count as int;
        assert(0 <= n / c <= n) by (nonlinear_arith)
            requires
                n >= 0,
                c >= 1,
        ;
    }
    if total < 0 {
        (-quotient) as i64
    } else {
        quotient as i64
    }
}

/// The number of days on which something was spent.
pub open spec fn active_days(days: Seq<DayFlow>, n: int) -> int
    decreases n,
{
    if n <= 0 {
        0
    } else {
        active_days(days, n - 1) + (if days[n - 1].expenses > 0 {
            1int
        } else {
            0
        })
    }
}

fn count_active_days(days: &Vec<DayFlow>) -> (r: usize)
    ensures
        r == active_days(days@, days@.len() as int),
{
    let mut count: usize = 0;
    let mut i: usize = 0;
    while i < days.len()
        invariant
            i <= days@.len(),
            count <= i,
            count == active_days(days@, i as int),
        decreases days@.len() - i,
    {
        if days[i].expenses > 0 {
            count = count + 1;
        }
        i = i + 1;
    }
    count
}

/// What is drawn besides the rankings.
pub struct StatisticsCharts {
    pub cashflow: ChartSeries,
    pub income_categories: ChartSeries,
    pub expense_categories: ChartSeries,
    pub food_expenses: ChartSeries,
    pub expense_weekdays: ChartSeries,
    pub trend: TrendSeries,
}

/// The page of the statistics.
pub struct StatisticsPage {
    pub period: String,
    pub start_date: String,
    pub end_date: String,
    pub period_label: String,
    pub total_income: String,
    pub total_expense: String,
    pub net: String,
    pub income_count: usize,
    pub expense_count: usize,
    pub average_income: String,
    pub average_expense: String,
    pub median_expense: String,
    pub largest_expense: String,
    pub daily_expense: String,
    pub active_day_expense: String,
    pub expense_active_days: usize,
    pub calendar_days: i64,
    pub food_expense: String,
    pub food_share: String,
    pub income_category_rankings: Vec<RankingRow>,
    pub expense_category_rankings: Vec<RankingRow>,
    pub income_account_rankings: Vec<RankingRow>,
    pub expense_account_rankings: Vec<RankingRow>,
    pub expense_day_rankings: Vec<RankingRow>,
    pub expense_weekday_rankings: Vec<RankingRow>,
    pub largest_expenses: Vec<ExpenseOrderRow>,
    pub has_cashflow: bool,
    pub has_income: bool,
    pub has_expense: bool,
    pub trend_label: String,
    pub charts: StatisticsCharts,
}

/// Every share on the page can be reckoned.
pub open spec fn all_shares_exist(es: Seq<Entry>) -> bool {
    let income = kind_sum(es, true);
    let expense = kind_sum(es, false);
    &&& order_shares_exist(top_orders(expenses(es)), expense)
    &&& has_share(food_sum(es), expense)
    &&& shares_exist(groups_by(es, true, Label::Category), income)
    &&& shares_exist(groups_by(es, false, Label::Category), expense)
    &&& shares_exist(groups_by(es, true, Label::Account), income)
    &&& shares_exist(groups_by(es, false, Label::Account), expense)
    &&& shares_exist(groups_by(es, false, Label::Day), expense)
    &&& shares_exist(groups_by(es, false, Label::Weekday), expense)
}

/// Why the page cannot be shown once the bills are added up, where it cannot.
pub open spec fn page_refusal(es: Seq<Entry>, start: int, end: int) -> Option<ErrorView> {
    let income = kind_sum(es, true);
    let expense = kind_sum(es, false);
    if !fits_i64(income - expense) || median_of(order_amounts(expenses(es))) is None || !fits_i64(
        expense - food_sum(es),
    ) || (!by_day(start, end) && months_of(flows(es), flows(es).len() as int) is None) {
        Some(internal("统计金额超出范围"@))
    } else if !all_shares_exist(es) {
        Some(overflowed())
    } else {
        None
    }
}

/// The drawings show these values.
pub open spec fn are_charts(charts: StatisticsCharts, es: Seq<Entry>, start: int, end: int) -> bool {
    let income = kind_sum(es, true);
    let expense = kind_sum(es, false);
    let weekdays = groups_by(es, false, Label::Weekday);
    &&& charts.cashflow.labels@.len() == 2
    &&& charts.cashflow.labels@[0]@ == "收入"@
    &&& charts.cashflow.labels@[1]@ == "支出"@
    &&& charts.cashflow.values@ == seq![income as i64, expense as i64]
    &&& draws(charts.income_categories, ranked(groups_by(es, true, Label::Category)))
    &&& draws(charts.expense_categories, ranked(groups_by(es, false, Label::Category)))
    &&& charts.food_expenses.labels@.len() == 2
    &&& charts.food_expenses.labels@[0]@ == "食品支出"@
    &&& charts.food_expenses.labels@[1]@ == "其他支出"@
    &&& charts.food_expenses.values@ == seq![food_sum(es) as i64, (expense - food_sum(es)) as i64]
    &&& charts.expense_weekdays.labels@.len() == 7
    &&& charts.expense_weekdays.values@.len() == 7
    &&& forall|i: int|
        0 <= i < 7 ==> (#[trigger] charts.expense_weekdays.labels@[i])@ == weekday_text(i)
    &&& forall|i: int|
        0 <= i < 7 ==> #[trigger] charts.expense_weekdays.values@[i] == group_amount(
            weekdays,
            weekday_text(i),
        )
    &&& is_trend(charts.trend, start, end, flows(es))
}

/// The page of the statistics shows these values.
pub open spec fn is_statistics_page(
    page: StatisticsPage,
    es: Seq<Entry>,
    period: Seq<char>,
    start: int,
    end: int,
    c: Seq<char>,
) -> bool {
    let income = kind_sum(es, true);
    let expense = kind_sum(es, false);
    let orders = expenses(es);
    let amounts = order_amounts(orders);
    let top = top_orders(orders);
    let active = active_days(flows(es), flows(es).len() as int);
    let first = date_text(Date { days: start as i32 });
    let last = date_text(Date { days: end as i32 });
    &&& page.period@ == period
    &&& page.start_date@ == first
    &&& page.end_date@ == last
    &&& page.period_label@ == first + " 至 "@ + last
    &&& page.total_income@ == amount_text(income, c)
    &&& page.total_expense@ == amount_text(expense, c)
    &&& page.net@ == amount_text(income - expense, c)
    &&& page.income_count == kind_count(es, true)
    &&& page.expense_count == kind_count(es, false)
    &&& page.average_income@ == amount_text(average_of(income, kind_count(es, true)), c)
    &&& page.average_expense@ == amount_text(average_of(expense, kind_count(es, false)), c)
    &&& page.median_expense@ == amount_text(median_of(amounts)->0, c)
    &&& page.largest_expense@ == amount_text(largest_of(amounts), c)
    &&& page.daily_expense@ == amount_text(average_of(expense, end - start + 1), c)
    &&& page.active_day_expense@ == amount_text(average_of(expense, active), c)
    &&& page.expense_active_days == active
    &&& page.calendar_days == end - start + 1
    &&& page.food_expense@ == amount_text(food_sum(es), c)
    &&& page.food_share@ == share_text(food_sum(es), expense)
    &&& shares(page.food_share@, food_sum(es), expense)
    &&& are_ranking_rows(
        page.income_category_rankings@,
        groups_by(es, true, Label::Category),
        income,
        c,
    )
    &&& are_ranking_rows(
        page.expense_category_rankings@,
        groups_by(es, false, Label::Category),
        expense,
        c,
    )
    &&& are_ranking_rows(
        page.income_account_rankings@,
        groups_by(es, true, Label::Account),
        income,
        c,
    )
    &&& are_ranking_rows(
        page.expense_account_rankings@,
        groups_by(es, false, Label::Account),
        expense,
        c,
    )
    &&& are_ranking_rows(page.expense_day_rankings@, groups_by(es, false, Label::Day), expense, c)
    &&& are_ranking_rows(
        page.expense_weekday_rankings@,
        groups_by(es, false, Label::Weekday),
        expense,
        c,
    )
    &&& page.largest_expenses@.len() == top.len()
    &&& forall|i: int|
        0 <= i < top.len() ==> is_order_row(
            #[trigger] page.largest_expenses@[i],
            i + 1,
            top[i],
            expense,
            c,
        )
    &&& page.has_cashflow == (income > 0 || expense > 0)
    &&& page.has_income == (income > 0)
    &&& page.has_expense == (expense > 0)
    &&& page.trend_label@ == (if by_day(start, end) {
        "每日收支趋势"@
    } else {
        "每月收支趋势"@
    })
    &&& are_charts(page.charts, es, start, end)
}

fn weekday_labels() -> (r: Vec<String>)
    ensures
        r@.len() == 7,
        forall|i: int| 0 <= i < 7 ==> (#[trigger] r@[i])@ == weekday_text(i),
{
    let mut labels: Vec<String> = Vec::new();
    let mut i: u32 = 0;
    while i < 7
        invariant
            i <= 7,
            labels@.len() == i,
            forall|j: int| 0 <= j < i ==> (#[trigger] labels@[j])@ == weekday_text(j),
        decreases 7 - i,
    {
        labels.push(weekday_name(i).to_owned());
        i = i + 1;
    }
    labels
}

/// Lays out the page from the sums.
fn lay_out(c: Sums, span: &Span, default_currency: &str, Ghost(es): Ghost<Seq<Entry>>) -> (r:
    HandlerResult<StatisticsPage>)
    requires
        sums_up(c, es),
        span.start.days <= span.end.days,
    ensures
        match (r, page_refusal(es, span.start.days as int, span.end.days as int)) {
            (Ok(page), None) => is_statistics_page(
                page,
                es,
                span.period@,
                span.start.days as int,
                span.end.days as int,
                default_currency@,
            ),
            (Err(error), Some(wanted)) => error@ == wanted,
            _ => false,
        },
{
    let total_income: i64 = c.total_income;
    let total_expense: i64 = c.total_expense;
    let food: i64 = c.food_expense;
    let net: i64 = match total_income.checked_sub(total_expense) {
        Some(net) => net,
        None => return Err(err500("统计金额超出范围")),
    };
    let (middle, largest) = match median(&c.orders) {
        Ok(pair) => pair,
        Err(error) => return Err(error),
    };
    let other: i64 = match total_expense.checked_sub(food) {
        Some(other) => other,
        None => return Err(err500("统计金额超出范围")),
    };
    let (trend_label, trend) = match trend_series(span.start, span.end, &c.days) {
        Some(pair) => pair,
        None => return Err(err500("统计金额超出范围")),
    };
    let active: usize = count_active_days(&c.days);
    let calendar_days: i64 = span.end.days as i64 - span.start.days as i64 + 1;
    let cur = default_currency;
    let food_share = match percentage(food, total_expense) {
        Ok(share) => share,
        Err(error) => return Err(error),
    };
    let charts = StatisticsCharts {
        cashflow: ChartSeries {
            labels: vec!["收入".to_owned(), "支出".to_owned()],
            values: vec![total_income, total_expense],
        },
        income_categories: chart_series(&c.income_categories),
        expense_categories: chart_series(&c.expense_categories),
        food_expenses: ChartSeries {
            labels: vec!["食品支出".to_owned(), "其他支出".to_owned()],
            values: vec![food, other],
        },
        expense_weekdays: ordered_chart_series(weekday_labels(), &c.expense_weekdays),
        trend,
    };
    proof {
        assert(charts.cashflow.values@ =~= seq![total_income, total_expense]);
        assert(charts.food_expenses.values@ =~= seq![food, other]);
    }
    let largest_expenses = match order_rows(c.orders, total_expense, cur) {
        Ok(rows) => rows,
        Err(error) => return Err(error),
    };
    let income_category_rankings = match ranking_rows(c.income_categories, total_income, cur) {
        Ok(rows) => rows,
        Err(error) => return Err(error),
    };
    let expense_category_rankings = match ranking_rows(c.expense_categories, total_expense, cur) {
        Ok(rows) => rows,
        Err(error) => return Err(error),
    };
    let income_account_rankings = match ranking_rows(c.income_accounts, total_income, cur) {
        Ok(rows) => rows,
        Err(error) => return Err(error),
    };
    let expense_account_rankings = match ranking_rows(c.expense_accounts, total_expense, cur) {
        Ok(rows) => rows,
        Err(error) => return Err(error),
    };
    let expense_day_rankings = match ranking_rows(c.expense_days, total_expense, cur) {
        Ok(rows) => rows,
        Err(error) => return Err(error),
    };
    let expense_weekday_rankings = match ranking_rows(c.expense_weekdays, total_expense, cur) {
        Ok(rows) => rows,
        Err(error) => return Err(error),
    };
    let first = date_to_text(span.start);
    let last = date_to_text(span.end);
    let average_income: i64 = average(total_income, c.income_count as u64);
    let average_expense: i64 = average(total_expense, c.expense_count as u64);
    let daily_expense: i64 = average(total_expense, calendar_days as u64);
    let active_day_expense: i64 = average(total_expense, active as u64);
    Ok(
        StatisticsPage {
            period: span.period.to_owned(),
            period_label: join3(&first, " 至 ", &last),
            start_date: first,
            end_date: last,
            total_income: crate::currency::format(total_income, cur),
            total_expense: crate::currency::format(total_expense, cur),
            net: crate::currency::format(net, cur),
            income_count: c.income_count,
            expense_count: c.expense_count,
            average_income: crate::currency::format(average_income, cur),
            average_expense: crate::currency::format(average_expense, cur),
            median_expense: crate::currency::format(middle, cur),
            largest_expense: crate::currency::format(largest, cur),
            daily_expense: crate::currency::format(daily_expense, cur),
            active_day_expense: crate::currency::format(active_day_expense, cur),
            expense_active_days: active,
            calendar_days,
            food_expense: crate::currency::format(food, cur),
            food_share,
            income_category_rankings,
            expense_category_rankings,
            income_account_rankings,
            expense_account_rankings,
            expense_day_rankings,
            expense_weekday_rankings,
            largest_expenses,
            has_cashflow: total_income > 0 || total_expense > 0,
            has_income: total_income > 0,
            has_expense: total_expense > 0,
            trend_label,
            charts,
        },
    )
}

/// The page of the statistics: what was earned and spent in a span of days, added up, averaged,
/// ranked and drawn, in the default currency.
pub fn show(
    dek: &Dek,
    book: &Book,
    masks: &Vec<MaskedDetail>,
    rates: &RateTable,
    default_currency: &str,
    query: &StatisticsQuery,
    today: Date,
) -> (r: HandlerResult<StatisticsPage>)
    requires
        rates.wf(),
        in_calendar(today.days - 364),
        in_calendar(today.days as int),
    ensures
        match span_of(*query, today.days as int) {
            Err(wanted) => r matches Err(error) && error@ == wanted,
            Ok((period, start, end)) => {
                let s = StatSource {
                    dek: dek@,
                    book: *book,
                    masks: masks@,
                    rates: *rates,
                    default_currency: default_currency@,
                    start,
                    end,
                };
                let n = book.bills@.len() as int;
                match sums_refusal(s, n) {
                    Some(wanted) => r matches Err(error) && error@ == wanted,
                    None => match (r, page_refusal(entries(s, n), start, end)) {
                        (Ok(page), None) => entries_convert(s, n) && is_statistics_page(
                            page,
                            entries(s, n),
                            period,
                            start,
                            end,
                            default_currency@,
                        ),
                        (Err(error), Some(wanted)) => error@ == wanted,
                        _ => false,
                    },
                }
            },
        },
{
    let span = match choose_span(query, today) {
        Ok(span) => span,
        Err(error) => return Err(error),
    };
    let sums = match add_up(dek, book, masks, rates, default_currency, span.start, span.end) {
        Ok(sums) => sums,
        Err(error) => return Err(error),
    };
    let ghost s = StatSource {
        dek: dek@,
        book: *book,
        masks: masks@,
        rates: *rates,
        default_currency: default_currency@,
        start: span.start.days as int,
        end: span.end.days as int,
    };
    lay_out(sums, &span, default_currency, Ghost(entries(s, book.bills@.len() as int)))
}

/// What each bill adds to a sum over the span: its amount in the default currency where it lies in
/// the span and is of a kind, and on food where only that counts; else nothing.
pub open spec fn span_amounts(s: StatSource, kind: Seq<char>, food_only: bool, n: int) -> Seq<int> {
    Seq::new(
        n as nat,
        |i: int|
            {
                let b = s.book.bills@[i];
                if s.start <= b.happened_at.date.days <= s.end && b.kind@ == kind && (b.is_food
                    || !food_only) {
                    bill_amount(s, b)->Ok_0 as int
                } else {
                    0
                }
            },
    )
}

/// One for each bill of a kind in the span, else nothing.
pub open spec fn span_counts(s: StatSource, kind: Seq<char>, n: int) -> Seq<int> {
    Seq::new(
        n as nat,
        |i: int|
            {
                let b = s.book.bills@[i];
                if s.start <= b.happened_at.date.days <= s.end && b.kind@ == kind {
                    1
                } else {
                    0
                }
            },
    )
}

proof fn sums_are_totals(s: StatSource, n: int)
    requires
        0 <= n <= s.book.bills@.len(),
        entries_convert(s, n),
    ensures
        kind_sum(entries(s, n), true) == total(span_amounts(s, "income"@, false, n)),
        kind_sum(entries(s, n), false) == total(span_amounts(s, "expense"@, false, n)),
        food_sum(entries(s, n)) == total(span_amounts(s, "expense"@, true, n)),
        kind_count(entries(s, n), true) == total(span_counts(s, "income"@, n)),
        kind_count(entries(s, n), false) == total(span_counts(s, "expense"@, n)),
    decreases n,
{
    reveal_strlit("income");
    reveal_strlit("expense");
    assert("income"@.len() == 6 && "expense"@.len() == 7);
    if n > 0 {
        sums_are_totals(s, n - 1);
        let b = s.book.bills@[n - 1];
        let (es, front) = (entries(s, n), entries(s, n - 1));
        assert(span_amounts(s, "income"@, false, n).drop_last() =~= span_amounts(
            s,
            "income"@,
            false,
            n - 1,
        ));
        assert(span_amounts(s, "expense"@, false, n).drop_last() =~= span_amounts(
            s,
            "expense"@,
            false,
            n - 1,
        ));
        assert(span_amounts(s, "expense"@, true, n).drop_last() =~= span_amounts(
            s,
            "expense"@,
            true,
            n - 1,
        ));
        assert(span_counts(s, "income"@, n).drop_last() =~= span_counts(s, "income"@, n - 1));
        assert(span_counts(s, "expense"@, n).drop_last() =~= span_counts(s, "expense"@, n - 1));
        if is_entry(s, b) {
            assert(es.drop_last() =~= front);
        }
    }
}

/// An amount is a sum divided by a count, without its fraction.
pub open spec fn is_mean(mean: int, sum: int, count: int) -> bool {
    if count == 0 {
        mean == 0
    } else {
        sum >= 0 ==> mean * count <= sum < (mean + 1) * count
    }
}

/// A text shows such an amount.
pub open spec fn shows_mean(text: Seq<char>, sum: int, count: int, currency: Seq<char>) -> bool {
    exists|mean: int| #[trigger] is_mean(mean, sum, count) && text == amount_text(mean, currency)
}

proof fn average_is_mean(sum: int, count: int)
    requires
        count >= 0,
    ensures
        is_mean(average_of(sum, count), sum, count),
{
    if count > 0 && sum >= 0 {
        let q = sum / count;
        assert(q * count <= sum < (q + 1) * count) by (nonlinear_arith)
            requires
                q == sum / count,
                count > 0,
                sum >= 0,
        ;
    }
}

/// The statistics say what happened in their days. What was earned and spent are the bills of the
/// kind in the span, in the default currency, and the balance of the two is their difference. The
/// means divide by the number of these bills, and by the days of the span. The part for food is what
/// was spent on food, and its share is so many hundredths of what was spent. A span chosen by name
/// has that many days and ends today.
pub proof fn statistics_say_what_happened(
    dek: &Dek,
    book: &Book,
    masks: &Vec<MaskedDetail>,
    rates: &RateTable,
    default_currency: &str,
    query: &StatisticsQuery,
    today: Date,
    page: StatisticsPage,
) -> (s: StatSource)
    requires
        rates.wf(),
        in_calendar(today.days - 364),
        in_calendar(today.days as int),
        call_ensures(
            show,
            (dek, book, masks, rates, default_currency, query, today),
            Ok(page),
        ),
    ensures
        s.dek == dek@ && s.book == *book && s.rates == *rates && s.default_currency
            == default_currency@,
        query.period@ == "7d"@ ==> s.start == today.days - 6 && s.end == today.days,
        query.period@ == "14d"@ ==> s.start == today.days - 13 && s.end == today.days,
        query.period@ == "30d"@ ==> s.start == today.days - 29 && s.end == today.days,
        query.period@ == "90d"@ ==> s.start == today.days - 89 && s.end == today.days,
        query.period@ == "365d"@ ==> s.start == today.days - 364 && s.end == today.days,
        page.start_date@ == date_text(Date { days: s.start as i32 }),
        page.end_date@ == date_text(Date { days: s.end as i32 }),
        page.calendar_days == s.end - s.start + 1,
        entries_convert(s, book.bills@.len() as int),
        ({
            let n = book.bills@.len() as int;
            let own = default_currency@;
            let earned = total(span_amounts(s, "income"@, false, n));
            let spent = total(span_amounts(s, "expense"@, false, n));
            let food = total(span_amounts(s, "expense"@, true, n));
            let (incomes, expenses) = (
                total(span_counts(s, "income"@, n)),
                total(span_counts(s, "expense"@, n)),
            );
            &&& page.total_income@ == amount_text(earned, own)
            &&& page.total_expense@ == amount_text(spent, own)
            &&& page.net@ == amount_text(earned - spent, own)
            &&& page.income_count == incomes
            &&& page.expense_count == expenses
            &&& page.food_expense@ == amount_text(food, own)
            &&& shares(page.food_share@, food, spent)
            &&& shows_mean(page.average_income@, earned, incomes, own)
            &&& shows_mean(page.average_expense@, spent, expenses, own)
            &&& shows_mean(page.daily_expense@, spent, s.end - s.start + 1, own)
        }),
{
    reveal_strlit("7d");
    reveal_strlit("14d");
    reveal_strlit("30d");
    reveal_strlit("90d");
    reveal_strlit("365d");
    assert("7d"@.len() == 2 && "14d"@.len() == 3 && "30d"@.len() == 3 && "90d"@.len() == 3
        && "365d"@.len() == 4);
    assert("14d"@[0] == '1' && "30d"@[0] == '3' && "90d"@[0] == '9');
    let (period, start, end) = span_of(*query, today.days as int)->Ok_0;
    let s = StatSource {
        dek: dek@,
        book: *book,
        masks: masks@,
        rates: *rates,
        default_currency: default_currency@,
        start,
        end,
    };
    let n = book.bills@.len() as int;
    let es = entries(s, n);
    sums_are_totals(s, n);
    counts_not_negative(es, true);
    counts_not_negative(es, false);
    let (earned, spent) = (kind_sum(es, true), kind_sum(es, false));
    average_is_mean(earned, kind_count(es, true));
    average_is_mean(spent, kind_count(es, false));
    average_is_mean(spent, end - start + 1);
    let own = default_currency@;
    assert(shows_mean(page.average_income@, earned, kind_count(es, true), own));
    assert(shows_mean(page.average_expense@, spent, kind_count(es, false), own));
    assert(shows_mean(page.daily_expense@, spent, end - start + 1, own));
    s
}

proof fn counts_not_negative(es: Seq<Entry>, income: bool)
    ensures
        kind_count(es, income) >= 0,
    decreases es.len(),
{
    if es.len() > 0 {
        counts_not_negative(es.drop_last(), income);
    }
}

/// The median of expenses is the middle one of them in order of their amounts, or the mean of the two
/// in the middle without its fraction, and the largest is not below any other.
pub proof fn median_is_in_the_middle(orders: &Vec<ExpenseOrderValue>, r: (i64, i64)) -> (sorted: Seq<
    int,
>)
    requires
        call_ensures(median, (orders,), Ok(r)),
        orders@.len() > 0,
    ensures
        sorted.len() == orders@.len(),
        forall|i: int, j: int| 0 <= i <= j < sorted.len() ==> sorted[i] >= sorted[j],
        forall|i: int|
            0 <= i < orders@.len() ==> sorted.contains((#[trigger] orders@[i]).amount as int),
        orders@.len() % 2 == 1 ==> r.0 == sorted[(orders@.len() - 1) / 2],
        orders@.len() % 2 == 0 ==> ({
            let half = orders@.len() as int / 2;
            let sum = sorted[half - 1] + sorted[half];
            sum >= 0 ==> 2 * r.0 <= sum < 2 * r.0 + 2
        }),
        forall|i: int| 0 <= i < orders@.len() ==> (#[trigger] orders@[i]).amount <= r.1,
        exists|i: int| 0 <= i < orders@.len() && (#[trigger] orders@[i]).amount == r.1,
{
    let values = order_amounts(order_views(orders@));
    let sorted = arranged(values, values);
    let order = crate::order::descending_order(values);
    crate::order::descending_exists(values);
    crate::order::positions_covered(values, order);
    assert forall|i: int, j: int| 0 <= i <= j < sorted.len() implies sorted[i] >= sorted[j] by {
        if i < j {
            assert(crate::order::ahead(values, order[i], order[j]));
        }
    }
    assert forall|i: int| 0 <= i < orders@.len() implies sorted.contains(
        (#[trigger] orders@[i]).amount as int,
    ) && orders@[i].amount <= r.1 by {
        assert(values[i] == orders@[i].amount);
        assert(order.contains(i));
        let k = choose|k: int| 0 <= k < order.len() && order[k] == i;
        assert(sorted[k] == values[i]);
        assert(sorted[0] >= sorted[k]);
    }
    assert(orders@[order[0]].amount == r.1);
    sorted
}

/// The groups of a name in a ranking hold what the entries with that name come to.
pub proof fn group_holds_its_entries(es: Seq<Entry>, income: bool, label: Label, name: Seq<char>)
    ensures
        crate::ranking::name_total(groups_by(es, income, label), name) == total(
            Seq::new(
                es.len(),
                |i: int|
                    if es[i].income == income && label_of(es[i], label) == name {
                        es[i].order.amount as int
                    } else {
                        0
                    },
            ),
        ),
    decreases es.len(),
{
    let here = Seq::new(
        es.len(),
        |i: int|
            if es[i].income == income && label_of(es[i], label) == name {
                es[i].order.amount as int
            } else {
                0
            },
    );
    if es.len() > 0 {
        let front = es.drop_last();
        group_holds_its_entries(front, income, label, name);
        assert(here.drop_last() =~= Seq::new(
            front.len(),
            |i: int|
                if front[i].income == income && label_of(front[i], label) == name {
                    front[i].order.amount as int
                } else {
                    0
                },
        ));
        if es.last().income == income {
            crate::ranking::adding_adds_to_the_name(
                groups_by(front, income, label),
                label_of(es.last(), label),
                es.last().order.amount as int,
                name,
            );
        }
    }
}

/// The groups of a ranking add up to what was earned, or spent, in all, and count every entry.
pub proof fn rankings_add_up(es: Seq<Entry>, income: bool, label: Label)
    ensures
        crate::ranking::groups_total(groups_by(es, income, label)) == kind_sum(es, income),
        crate::ranking::groups_count(groups_by(es, income, label)) == kind_count(es, income),
    decreases es.len(),
{
    if es.len() > 0 {
        rankings_add_up(es.drop_last(), income, label);
        if es.last().income == income {
            crate::ranking::adding_adds_up(
                groups_by(es.drop_last(), income, label),
                label_of(es.last(), label),
                es.last().order.amount as int,
            );
        }
    }
}

/// The days stand in their order, each once.
spec fn in_order(days: Seq<DayFlow>) -> bool {
    forall|i: int, j: int| 0 <= i < j < days.len() ==> days[i].date < days[j].date
}

proof fn added_day(days: Seq<DayFlow>, date: i32, income: bool, amount: int, other: i32)
    requires
        in_order(days),
    ensures
        in_order(add_day(days, date, income, amount)),
        forall|i: int|
            0 <= i < add_day(days, date, income, amount).len() ==> (#[trigger] add_day(
                days,
                date,
                income,
                amount,
            )[i]).date == date || exists|j: int|
                0 <= j < days.len() && (#[trigger] days[j]).date == add_day(
                    days,
                    date,
                    income,
                    amount,
                )[i].date,
        day_flow(add_day(days, date, income, amount), other as int) == if other == date {
            flow_with(day_flow(days, date as int), income, amount)
        } else {
            day_flow(days, other as int)
        },
    decreases days.len(),
{
    let new = add_day(days, date, income, amount);
    if days.len() == 0 || date < days[0].date {
        assert(new.drop_first() =~= days);
        assert(new[0].date == date);
        assert forall|i: int| 0 <= i < new.len() implies (#[trigger] new[i]).date == date || exists|
            j: int,
        | 0 <= j < days.len() && (#[trigger] days[j]).date == new[i].date by {
            if i > 0 {
                assert(days[i - 1].date == new[i].date);
            }
        }
        if days.len() > 0 {
            assert forall|i: int, j: int| 0 <= i < j < new.len() implies new[i].date
                < new[j].date by {
                assert(new[j] == days[j - 1]);
                if i > 0 {
                    assert(new[i] == days[i - 1]);
                } else if j > 1 {
                    assert(days[0].date < days[j - 1].date);
                }
            }
        }
    } else if days[0].date == date {
        assert(new.drop_first() =~= days.drop_first());
        assert forall|i: int| 0 <= i < new.len() implies (#[trigger] new[i]).date == date || exists|
            j: int,
        | 0 <= j < days.len() && (#[trigger] days[j]).date == new[i].date by {
            assert(days[i].date == new[i].date);
        }
        assert forall|i: int, j: int| 0 <= i < j < new.len() implies new[i].date < new[j].date by {
            assert(days[i].date == new[i].date && days[j].date == new[j].date);
        }
    } else {
        let rest = days.drop_first();
        added_day(rest, date, income, amount, other);
        let tail = add_day(rest, date, income, amount);
        assert(new.drop_first() =~= tail);
        assert forall|i: int| 0 <= i < tail.len() implies days[0].date < (#[trigger] tail[i]).date by {
            if tail[i].date != date {
                let j = choose|j: int|
                    0 <= j < rest.len() && (#[trigger] rest[j]).date == tail[i].date;
                assert(rest[j] == days[j + 1]);
            }
        }
        assert forall|i: int, j: int| 0 <= i < j < new.len() implies new[i].date < new[j].date by {
            assert(new[j] == tail[j - 1]);
            if i > 0 {
                assert(new[i] == tail[i - 1]);
            }
        }
        assert forall|i: int| 0 <= i < new.len() implies (#[trigger] new[i]).date == date || exists|
            j: int,
        | 0 <= j < days.len() && (#[trigger] days[j]).date == new[i].date by {
            if i == 0 {
                assert(days[0].date == new[0].date);
            } else {
                assert(new[i] == tail[i - 1]);
                if new[i].date != date {
                    let j = choose|j: int|
                        0 <= j < rest.len() && (#[trigger] rest[j]).date == tail[i - 1].date;
                    assert(days[j + 1].date == new[i].date);
                }
            }
        }
    }
}

/// No sum of the entries leaves the range of amounts, one entry after the other.
pub open spec fn entries_fit(es: Seq<Entry>) -> bool
    decreases es.len(),
{
    es.len() == 0 || (entries_fit(es.drop_last()) && next_fits(es.drop_last(), es.last()))
}

/// What the entries of a day come to, entry by entry: what was earned, or what was spent.
pub open spec fn day_amounts(es: Seq<Entry>, date: i32, income: bool) -> Seq<int> {
    Seq::new(
        es.len(),
        |i: int|
            if es[i].order.happened_at.date.days == date && es[i].income == income {
                es[i].order.amount as int
            } else {
                0
            },
    )
}

proof fn flows_are_in_order(es: Seq<Entry>)
    ensures
        in_order(flows(es)),
    decreases es.len(),
{
    if es.len() > 0 {
        flows_are_in_order(es.drop_last());
        let e = es.last();
        added_day(
            flows(es.drop_last()),
            e.order.happened_at.date.days,
            e.income,
            e.order.amount as int,
            e.order.happened_at.date.days,
        );
    }
}

/// What is drawn for a day is what was earned and what was spent on that day.
pub proof fn day_holds_its_entries(es: Seq<Entry>, date: i32)
    requires
        entries_fit(es),
    ensures
        day_flow(flows(es), date as int).income == total(day_amounts(es, date, true)),
        day_flow(flows(es), date as int).expense == total(day_amounts(es, date, false)),
    decreases es.len(),
{
    if es.len() > 0 {
        let front = es.drop_last();
        let e = es.last();
        day_holds_its_entries(front, date);
        flows_are_in_order(front);
        added_day(
            flows(front),
            e.order.happened_at.date.days,
            e.income,
            e.order.amount as int,
            date,
        );
        assert(day_amounts(es, date, true).drop_last() =~= day_amounts(front, date, true));
        assert(day_amounts(es, date, false).drop_last() =~= day_amounts(front, date, false));
    }
}

/// The sums of the months with a label, month by month: what was earned, or what was spent.
pub open spec fn month_sums(months: Seq<MonthView>, label: Seq<char>, income: bool) -> Seq<int> {
    Seq::new(
        months.len(),
        |i: int|
            if months[i].label == label {
                if income {
                    months[i].income
                } else {
                    months[i].expense
                }
            } else {
                0
            },
    )
}

/// What the first `n` days come to where they lie in a month, day by day.
pub open spec fn days_in_month(
    days: Seq<DayFlow>,
    label: Seq<char>,
    income: bool,
    n: int,
) -> Seq<int> {
    Seq::new(
        n as nat,
        |i: int|
            if year_month_text(Date { days: days[i].date }) == label {
                if income {
                    days[i].income as int
                } else {
                    days[i].expense as int
                }
            } else {
                0
            },
    )
}

/// What is drawn for a month is what was earned and what was spent on its days.
pub proof fn month_holds_its_days(days: Seq<DayFlow>, n: int, label: Seq<char>, income: bool)
    requires
        0 <= n <= days.len(),
        months_of(days, n) is Some,
    ensures
        total(month_sums(months_of(days, n)->0, label, income)) == total(
            days_in_month(days, label, income, n),
        ),
    decreases n,
{
    if n > 0 {
        month_holds_its_days(days, n - 1, label, income);
        let d = days[n - 1];
        let months = months_of(days, n - 1)->0;
        let own = year_month_text(Date { days: d.date });
        month_place_bounds(months, own);
        let i = month_place(months, own);
        let before = month_sums(months, label, income);
        let new = months_of(days, n)->0;
        let after = month_sums(new, label, income);
        assert(days_in_month(days, label, income, n).drop_last() =~= days_in_month(
            days,
            label,
            income,
            n - 1,
        ));
        if i < months.len() && months[i].label == own {
            assert(after =~= before.update(i, after[i]));
            crate::totals::total_update(before, i, after[i]);
        } else {
            assert(after.remove(i) =~= before);
            crate::totals::total_remove(after, i);
            assert(after[i] == if own == label {
                if income {
                    d.income as int
                } else {
                    d.expense as int
                }
            } else {
                0
            });
        }
    } else {
        assert(month_sums(months_of(days, 0)->0, label, income) =~= days_in_month(
            days,
            label,
            income,
            0,
        ));
    }
}

} // verus!
