//! Carrying out all plans that are due.
use vstd::prelude::*;
use vstd::string::*;

use crate::calendar::{
    date_text, date_to_text, in_calendar, plus_days, Date, DateTime, FIRST_DAY, LAST_DAY,
};
use crate::crypto::{decrypt_string, plain, Dek};
use crate::entity::{market_index_quote, recurring_investment};
use crate::error::{bad, bad_request, ErrorView, HandlerResult};
use crate::handlers::investments::execution::{
    day_carried_out, execute_plan_day, DayRun, Ledger, Occasion,
};
use crate::handlers::investments::trading::{
    is_trading_day, next_open, next_trading_day, trades_on,
};
use crate::market_data::{decision_refusal, latest_quotes, smart_decision};
use crate::order::{
    arranged, descending_exists, descending_order, ints, positions, positions_covered,
    sort_descending,
};
use crate::text::{int_text, join2, join3, join5, nat_to_text, same, views};

verus! {

/// A plan is due: it is active, its amount is not given for each day, and its next day has come.
pub open spec fn is_due(plan: recurring_investment::Model, today: Date) -> bool {
    plan.active && plan.strategy@ != "manual"@ && plan.strategy@ != "sms"@
        && plan.next_trade_date.days <= today.days
}

/// The plans among the first `n` that are due.
pub open spec fn due_among(plans: Seq<recurring_investment::Model>, today: Date, n: int) -> Seq<
    recurring_investment::Model,
>
    decreases n,
{
    if n <= 0 {
        Seq::empty()
    } else if is_due(plans[n - 1], today) {
        due_among(plans, today, n - 1).push(plans[n - 1])
    } else {
        due_among(plans, today, n - 1)
    }
}

/// The keys by which plans come in the order of their next days when the largest comes first.
pub open spec fn earliness(plans: Seq<recurring_investment::Model>) -> Seq<int> {
    Seq::new(plans.len(), |i: int| -(plans[i].next_trade_date.days as int))
}

/// The plans that are due, in the order of their next days.
pub open spec fn due(plans: Seq<recurring_investment::Model>, today: Date) -> Seq<
    recurring_investment::Model,
> {
    let all = due_among(plans, today, plans.len() as int);
    arranged(all, earliness(all))
}

/// The positions of the plans that are due, in the order of their next days.
pub fn due_plans(plans: &Vec<recurring_investment::Model>, today: Date) -> (r: Vec<usize>)
    ensures
        r@.len() == due(plans@, today).len(),
        forall|i: int|
            0 <= i < r@.len() ==> #[trigger] r@[i] < plans@.len() && plans@[r@[i] as int] == due(
                plans@,
                today,
            )[i],
{
    let mut chosen: Vec<usize> = Vec::new();
    let mut keys: Vec<i128> = Vec::new();
    let mut i: usize = 0;
    while i < plans.len()
        invariant
            i <= plans.len(),
            chosen@.len() == due_among(plans@, today, i as int).len(),
            keys@.len() == chosen@.len(),
            forall|j: int|
                0 <= j < chosen@.len() ==> #[trigger] chosen@[j] < plans@.len()
                    && plans@[chosen@[j] as int] == due_among(plans@, today, i as int)[j],
            forall|j: int|
                0 <= j < keys@.len() ==> #[trigger] keys@[j] == -(due_among(
                    plans@,
                    today,
                    i as int,
                )[j].next_trade_date.days as int),
        decreases plans.len() - i,
    {
        let plan = &plans[i];
        if plan.active && !same(&plan.strategy, "manual") && !same(&plan.strategy, "sms")
            && plan.next_trade_date.days <= today.days {
            chosen.push(i);
            keys.push(-(plan.next_trade_date.days as i128));
        }
        i = i + 1;
    }
    let ghost all = due_among(plans@, today, plans@.len() as int);
    let order = sort_descending(&keys);
    let mut sorted: Vec<usize> = Vec::new();
    let mut k: usize = 0;
    proof {
        assert(ints(keys@) =~= earliness(all));
        assert(positions(order@).len() == order@.len());
    }
    while k < order.len()
        invariant
            k <= order@.len(),
            sorted@.len() == k,
            all == due_among(plans@, today, plans@.len() as int),
            order@.len() == chosen@.len(),
            chosen@.len() == all.len(),
            positions(order@) == descending_order(earliness(all)),
            forall|j: int|
                0 <= j < chosen@.len() ==> #[trigger] chosen@[j] < plans@.len()
                    && plans@[chosen@[j] as int] == all[j],
            forall|j: int| 0 <= j < order@.len() ==> #[trigger] order@[j] < chosen@.len(),
            forall|j: int|
                0 <= j < k ==> #[trigger] sorted@[j] < plans@.len() && plans@[sorted@[j] as int]
                    == due(plans@, today)[j],
        decreases order.len() - k,
    {
        proof {
            assert(positions(order@)[k as int] == order@[k as int]);
        }
        sorted.push(chosen[order[k]]);
        k = k + 1;
    }
    sorted
}

/// What was had of the quotes of an index for a plan: the quotes that are there, and why they
/// could not be brought up to date, where they could not.
pub struct Feed {
    pub error: Option<String>,
    pub quotes: Vec<market_index_quote::Model>,
}

/// The first day whose quotes are brought up to date for a plan.
pub open spec fn history_start(plan: recurring_investment::Model) -> int {
    let days = if plan.moving_average_days < 1 {
        1
    } else {
        plan.moving_average_days as int
    };
    plan.next_trade_date.days - (days * 2 + 60)
}

fn find_history_start(plan: &recurring_investment::Model) -> (r: i64)
    ensures
        r == history_start(*plan),
{
    let days: i64 = if plan.moving_average_days < 1 {
        1
    } else {
        plan.moving_average_days as i64
    };
    plan.next_trade_date.days as i64 - (days * 2 + 60)
}

/// Whether the calendar reaches back to the first day whose quotes are brought up to date for a
/// plan.
pub fn has_history(plan: &recurring_investment::Model) -> (r: bool)
    ensures
        r == in_calendar(history_start(*plan)),
{
    let start: i64 = find_history_start(plan);
    FIRST_DAY as i64 <= start && start <= LAST_DAY as i64
}

/// From when to when the quotes for a plan are brought up to date before it is carried out.
pub fn history_range(plan: &recurring_investment::Model, today: Date) -> (r: HandlerResult<
    (Date, Date),
>)
    requires
        in_calendar(history_start(*plan)),
    ensures
        match r {
            Ok((start, end)) => start.days == history_start(*plan) && plus_days(today, -1) == Some(
                end,
            ),
            Err(error) => plus_days(today, -1) is None && error@ == bad(
                "指数行情结束日期超出范围"@,
            ),
        },
{
    let start = Date { days: find_history_start(plan) as i32 };
    match today.add_days(-1) {
        Some(end) => Ok((start, end)),
        None => Err(bad_request("指数行情结束日期超出范围")),
    }
}

/// How often a plan is carried out at most in one go.
pub const MOST_DAYS: usize = 370;

/// What all days of a plan have in common.
pub struct Course {
    pub dek: Seq<u8>,
    pub plan: recurring_investment::Model,
    pub quotes: Seq<market_index_quote::Model>,
    pub today: Date,
    pub now: DateTime,
}

impl Course {
    /// The plan on a day.
    pub open spec fn on(self, date: Date) -> Occasion {
        Occasion {
            dek: self.dek,
            plan: self.plan,
            quotes: self.quotes,
            date,
            given: None,
            at: None,
            now: self.now,
        }
    }
}

/// A day on which a plan was carried out.
#[derive(Clone, Copy, Debug, PartialEq, Eq, Structural)]
pub struct PlanDay {
    pub trade_date: Date,
    pub run: DayRun,
}

/// The day on which a plan is carried out next after some days: the one that the last of them
/// leads to, or the first.
pub open spec fn next_day(first: Date, days: Seq<PlanDay>) -> Date {
    if days.len() == 0 {
        first
    } else {
        days.last().run.next_date
    }
}

/// A plan was carried out on these days, one after the other, none of them after today.
pub open spec fn ran(
    before: Ledger,
    after: Ledger,
    first: Date,
    days: Seq<PlanDay>,
    c: Course,
) -> bool
    decreases days.len(),
{
    if days.len() == 0 {
        after == before
    } else {
        let front = days.drop_last();
        &&& days.last().trade_date == next_day(first, front)
        &&& days.last().trade_date.days <= c.today.days
        &&& exists|mid: Ledger|
            ran(before, mid, first, front, c) && #[trigger] day_carried_out(
                mid,
                after,
                Ok(days.last().run),
                c.on(days.last().trade_date),
            )
    }
}

/// Why a plan could not be carried out on a day.
pub open spec fn failed_on(name: Seq<char>, date: Date, message: Seq<char>) -> Seq<char> {
    name + "（"@ + date_text(date) + "）："@ + message
}

/// What came of a plan: it was carried out on some days, from the first one on, until its next day
/// lies in the future, it fails, or it was carried out often enough.
pub open spec fn plan_ran(
    before: Ledger,
    after: Ledger,
    first: Date,
    days: Seq<PlanDay>,
    failure: Option<Seq<char>>,
    c: Course,
) -> bool {
    let next = next_day(first, days);
    let name = plain(c.dek, c.plan.name@);
    &&& days.len() <= MOST_DAYS
    &&& if next.days > c.today.days {
        failure is None && ran(before, after, first, days, c)
    } else if days.len() == MOST_DAYS {
        failure == Some(name + "：待执行交易日过多，请再次执行"@) && ran(
            before,
            after,
            first,
            days,
            c,
        )
    } else {
        exists|mid: Ledger, e: ErrorView|
            #![trigger day_carried_out(mid, after, Err(e), c.on(next))]
            ran(before, mid, first, days, c) && day_carried_out(mid, after, Err(e), c.on(next))
                && failure == Some(failed_on(name, next, e.message))
    }
}

fn run_days(
    dek: &Dek,
    ledger: &mut Ledger,
    plan: &recurring_investment::Model,
    quotes: &Vec<market_index_quote::Model>,
    first: Date,
    today: Date,
    now: DateTime,
) -> (r: (Vec<PlanDay>, Option<String>))
    ensures
        plan_ran(
            *old(ledger),
            *final(ledger),
            first,
            r.0@,
            crate::handlers::bills::text_view(r.1),
            Course { dek: dek@, plan: *plan, quotes: quotes@, today, now },
        ),
{
    let ghost c = Course { dek: dek@, plan: *plan, quotes: quotes@, today, now };
    let ghost before = *ledger;
    let mut days: Vec<PlanDay> = Vec::new();
    let mut date = first;
    while date.days <= today.days && days.len() < MOST_DAYS
        invariant
            c == (Course { dek: dek@, plan: *plan, quotes: quotes@, today, now }),
            days@.len() <= MOST_DAYS,
            date == next_day(first, days@),
            before == *old(ledger),
            ran(before, *ledger, first, days@, c),
        decreases MOST_DAYS - days@.len(),
    {
        let ghost mid = *ledger;
        match execute_plan_day(dek, ledger, plan, quotes, date, None, None, now) {
            Ok(run) => {
                let ghost front = days@;
                days.push(PlanDay { trade_date: date, run });
                proof {
                    assert(days@.drop_last() =~= front);
                    assert(ran(before, mid, first, days@.drop_last(), c));
                    assert(day_carried_out(mid, *ledger, Ok(run), c.on(date)));
                }
                date = run.next_date;
            },
            Err(error) => {
                let name = decrypt_string(dek, &plan.name);
                let message = join5(
                    &name,
                    "（",
                    &date_to_text(date),
                    "）：",
                    &error.message,
                );
                proof {
                    assert(day_carried_out(mid, *ledger, Err(error@), c.on(date)));
                    assert(ran(before, mid, first, days@, c));
                }
                return (days, Some(message));
            },
        }
    }
    if date.days <= today.days {
        let name = decrypt_string(dek, &plan.name);
        return (days, Some(join2(&name, "：待执行交易日过多，请再次执行")));
    }
    (days, None)
}

/// What came of a plan that was due. The day that is to be stored as its next is none where the
/// plan was left alone.
pub struct PlanReport {
    pub plan_id: i64,
    pub days: Vec<PlanDay>,
    pub next_date: Option<Date>,
    pub warning: Option<String>,
    pub failure: Option<String>,
}

/// What all plans have in common.
pub struct RunSource {
    pub dek: Seq<u8>,
    pub today: Date,
    pub now: DateTime,
}

/// Why the quotes that are there cannot be used in place of current ones, where they cannot.
pub open spec fn cache_refusal(plan: recurring_investment::Model, feed: Feed) -> Option<Seq<char>> {
    decision_refusal(
        plan.index_code@,
        plan.moving_average_days as int,
        latest_quotes(feed.quotes@, plan.index_code@, plan.next_trade_date),
    )
}

/// A plan needs quotes that could not be brought up to date.
pub open spec fn is_stale(plan: recurring_investment::Model, feed: Feed) -> bool {
    plan.strategy@ == "smart"@ && feed.error is Some
}

/// What is told of quotes that could not be brought up to date and are used nevertheless.
pub open spec fn stale_warning(dek: Seq<u8>, plan: recurring_investment::Model, feed: Feed) -> Option<
    Seq<char>,
> {
    if is_stale(plan, feed) && cache_refusal(plan, feed) is None {
        Some(
            plain(dek, plan.name@) + "：行情更新失败，改用缓存至 "@ + date_text(
                latest_quotes(
                    feed.quotes@,
                    plan.index_code@,
                    plan.next_trade_date,
                )[0].trade_date,
            ) + "（"@ + (feed.error->0@ + "）"@),
        )
    } else {
        None
    }
}

/// What is told of quotes that could not be brought up to date and cannot be used.
pub open spec fn stale_failure(dek: Seq<u8>, plan: recurring_investment::Model, feed: Feed) -> Option<
    Seq<char>,
> {
    if is_stale(plan, feed) && cache_refusal(plan, feed) is Some {
        Some(
            plain(dek, plan.name@) + "：行情更新失败且缓存不可用："@ + feed.error->0@ + "；"@
                + cache_refusal(plan, feed)->0,
        )
    } else {
        None
    }
}

/// The first day on which a plan that is due is carried out, or why there is none: its next day,
/// or the first open day after it where the market is closed.
pub open spec fn first_day(ledger: Ledger, plan: recurring_investment::Model) -> Result<
    Date,
    ErrorView,
> {
    if trades_on(ledger.closed@, plan.next_trade_date.days as int) {
        Ok(plan.next_trade_date)
    } else {
        match plus_days(plan.next_trade_date, 1) {
            None => Err(bad("下一交易日超出范围"@)),
            Some(next) => next_open(ledger.closed@, next),
        }
    }
}

/// Why all plans are stopped at a plan, where they are.
pub open spec fn stopped_at(
    ledger: Ledger,
    plan: recurring_investment::Model,
    feed: Feed,
    s: RunSource,
) -> Option<ErrorView> {
    if plan.strategy@ == "smart"@ && plus_days(s.today, -1) is None {
        Some(bad("指数行情结束日期超出范围"@))
    } else if stale_failure(s.dek, plan, feed) is Some {
        None
    } else {
        match first_day(ledger, plan) {
            Err(e) => Some(e),
            Ok(_) => None,
        }
    }
}

/// What came of a plan that was due, and what the ledger is then.
pub open spec fn reported(
    before: Ledger,
    after: Ledger,
    report: PlanReport,
    plan: recurring_investment::Model,
    feed: Feed,
    s: RunSource,
) -> bool {
    let failure = crate::handlers::bills::text_view(report.failure);
    let warning = crate::handlers::bills::text_view(report.warning);
    &&& stopped_at(before, plan, feed, s) is None
    &&& report.plan_id == plan.id
    &&& warning == stale_warning(s.dek, plan, feed)
    &&& if stale_failure(s.dek, plan, feed) is Some {
        &&& after == before
        &&& failure == stale_failure(s.dek, plan, feed)
        &&& report.days@.len() == 0
        &&& report.next_date is None
    } else {
        let first = first_day(before, plan)->Ok_0;
        &&& plan_ran(
            before,
            after,
            first,
            report.days@,
            failure,
            Course {
                dek: s.dek,
                plan,
                quotes: feed.quotes@,
                today: s.today,
                now: s.now,
            },
        )
        &&& report.next_date == Some(next_day(first, report.days@))
    }
}

fn run_plan(
    dek: &Dek,
    ledger: &mut Ledger,
    plan: &recurring_investment::Model,
    feed: &Feed,
    today: Date,
    now: DateTime,
) -> (r: HandlerResult<PlanReport>)
    ensures
        match r {
            Ok(report) => reported(
                *old(ledger),
                *final(ledger),
                report,
                *plan,
                *feed,
                RunSource { dek: dek@, today, now },
            ),
            Err(error) => *final(ledger) == *old(ledger) && stopped_at(
                *old(ledger),
                *plan,
                *feed,
                RunSource { dek: dek@, today, now },
            ) == Some(error@),
        },
{
    let ghost before = *ledger;
    let mut warning: Option<String> = None;
    if same(&plan.strategy, "smart") {
        if today.add_days(-1).is_none() {
            return Err(bad_request("指数行情结束日期超出范围"));
        }
        if let Some(error) = &feed.error {
            let name = decrypt_string(dek, &plan.name);
            match smart_decision(
                &plan.index_code,
                plan.moving_average_days,
                plan.next_trade_date,
                &feed.quotes,
            ) {
                Ok(decision) => {
                    let text = join5(
                        &name,
                        "：行情更新失败，改用缓存至 ",
                        &date_to_text(decision.quote_date),
                        "（",
                        &join2(error, "）"),
                    );
                    warning = Some(text);
                },
                Err(message) => {
                    let text = join5(
                        &name,
                        "：行情更新失败且缓存不可用：",
                        error,
                        "；",
                        &message,
                    );
                    return Ok(
                        PlanReport {
                            plan_id: plan.id,
                            days: Vec::new(),
                            next_date: None,
                            warning: None,
                            failure: Some(text),
                        },
                    );
                },
            }
        }
    }
    let first: Date = if is_trading_day(&ledger.closed, plan.next_trade_date) {
        plan.next_trade_date
    } else {
        match plan.next_trade_date.add_days(1) {
            None => return Err(bad_request("下一交易日超出范围")),
            Some(next) => match next_trading_day(&ledger.closed, next) {
                Ok(first) => first,
                Err(error) => return Err(error),
            },
        }
    };
    let (days, failure) = run_days(dek, ledger, plan, &feed.quotes, first, today, now);
    let next_date: Date = if days.len() == 0 {
        first
    } else {
        days[days.len() - 1].run.next_date
    };
    Ok(PlanReport { plan_id: plan.id, days, next_date: Some(next_date), warning, failure })
}

/// What came of the first plans, one after the other.
pub open spec fn all_reported(
    before: Ledger,
    after: Ledger,
    reports: Seq<PlanReport>,
    plans: Seq<recurring_investment::Model>,
    feeds: Seq<Feed>,
    s: RunSource,
) -> bool
    decreases reports.len(),
{
    if reports.len() == 0 {
        after == before
    } else {
        let k = reports.len() - 1;
        exists|mid: Ledger|
            all_reported(before, mid, reports.drop_last(), plans, feeds, s) && #[trigger] reported(
                mid,
                after,
                reports.last(),
                plans[k],
                feeds[k],
                s,
            )
    }
}

/// On how many days plans were carried out.
pub open spec fn days_run(reports: Seq<PlanReport>) -> int
    decreases reports.len(),
{
    if reports.len() == 0 {
        0
    } else {
        days_run(reports.drop_last()) + reports.last().days@.len()
    }
}

/// What is told, of each plan that failed or of each plan with a warning.
pub open spec fn told(reports: Seq<PlanReport>, failures: bool) -> Seq<Seq<char>>
    decreases reports.len(),
{
    if reports.len() == 0 {
        Seq::empty()
    } else {
        let text = crate::handlers::bills::text_view(
            if failures {
                reports.last().failure
            } else {
                reports.last().warning
            },
        );
        match text {
            Some(text) => told(reports.drop_last(), failures).push(text),
            None => told(reports.drop_last(), failures),
        }
    }
}

/// The answer when the plans that are due were carried out.
pub struct RunDueResponse {
    pub ok: bool,
    pub executed: usize,
    pub failures: Vec<String>,
    pub warnings: Vec<String>,
    pub message: String,
}

/// What is told of all plans in a sentence.
pub open spec fn summary(executed: int, failures: int) -> Seq<char> {
    if executed == 0 && failures == 0 {
        "当前没有待执行的定投"@
    } else if failures == 0 {
        "已完成 "@ + int_text(executed) + " 笔定投"@
    } else {
        "已完成 "@ + int_text(executed) + " 笔定投，"@ + int_text(failures) + " 个计划未完成"@
    }
}

/// The answer sums up what came of the plans.
pub open spec fn sums_up(response: RunDueResponse, reports: Seq<PlanReport>) -> bool {
    &&& response.executed == days_run(reports)
    &&& views(response.failures@) == told(reports, true)
    &&& views(response.warnings@) == told(reports, false)
    &&& response.ok == (told(reports, true).len() == 0)
    &&& response.message@ == summary(days_run(reports), told(reports, true).len() as int)
}

proof fn due_among_few(plans: Seq<recurring_investment::Model>, today: Date, n: int)
    requires
        0 <= n,
    ensures
        due_among(plans, today, n).len() <= n,
    decreases n,
{
    if n > 0 {
        due_among_few(plans, today, n - 1);
    }
}

fn add_text(texts: &mut Vec<String>, text: &Option<String>)
    ensures
        match *text {
            Some(t) => views(final(texts)@) == views(old(texts)@).push(t@),
            None => final(texts)@ == old(texts)@,
        },
{
    if let Some(t) = text {
        texts.push(t.clone());
        proof {
            assert(views(texts@) =~= views(old(texts)@).push(t@));
        }
    }
}

/// Carries out all plans that are due, each on every day that has come. `feeds` holds what was had
/// of the quotes for each of these plans, in their order. The reports say what was done, also
/// where the run was stopped.
pub fn run_due(
    dek: &Dek,
    ledger: &mut Ledger,
    plans: &Vec<recurring_investment::Model>,
    feeds: &Vec<Feed>,
    today: Date,
    now: DateTime,
) -> (r: (Vec<PlanReport>, HandlerResult<RunDueResponse>))
    requires
        feeds@.len() == due(plans@, today).len(),
        plans@.len() * MOST_DAYS <= usize::MAX,
    ensures
        ({
            let s = RunSource { dek: dek@, today, now };
            let wanted = due(plans@, today);
            let n = r.0@.len() as int;
            &&& all_reported(*old(ledger), *final(ledger), r.0@, wanted, feeds@, s)
            &&& match r.1 {
                Ok(response) => n == wanted.len() && sums_up(response, r.0@),
                Err(error) => n < wanted.len() && stopped_at(
                    *final(ledger),
                    wanted[n],
                    feeds@[n],
                    s,
                ) == Some(error@),
            }
        }),
{
    let ghost s = RunSource { dek: dek@, today, now };
    let ghost wanted = due(plans@, today);
    let ghost before = *ledger;
    let order = due_plans(plans, today);
    proof {
        due_among_few(plans@, today, plans@.len() as int);
    }
    let mut reports: Vec<PlanReport> = Vec::new();
    let mut executed: usize = 0;
    let mut failures: Vec<String> = Vec::new();
    let mut warnings: Vec<String> = Vec::new();
    let mut k: usize = 0;
    proof {
        assert(views(failures@) =~= told(reports@, true));
        assert(views(warnings@) =~= told(reports@, false));
    }
    while k < order.len()
        invariant
            k <= order@.len(),
            order@.len() == wanted.len(),
            wanted == due(plans@, today),
            wanted.len() <= plans@.len(),
            feeds@.len() == wanted.len(),
            plans@.len() * MOST_DAYS <= usize::MAX,
            s == (RunSource { dek: dek@, today, now }),
            before == *old(ledger),
            forall|i: int|
                0 <= i < order@.len() ==> #[trigger] order@[i] < plans@.len()
                    && plans@[order@[i] as int] == wanted[i],
            reports@.len() == k,
            all_reported(before, *ledger, reports@, wanted, feeds@, s),
            executed == days_run(reports@),
            executed <= k * MOST_DAYS,
            views(failures@) == told(reports@, true),
            views(warnings@) == told(reports@, false),
        decreases order.len() - k,
    {
        let ghost mid = *ledger;
        let plan = &plans[order[k]];
        match run_plan(dek, ledger, plan, &feeds[k], today, now) {
            Err(error) => return (reports, Err(error)),
            Ok(report) => {
                proof {
                    assert((k + 1) * MOST_DAYS <= plans@.len() * MOST_DAYS) by (nonlinear_arith)
                        requires
                            k + 1 <= plans@.len(),
                            MOST_DAYS >= 0,
                    ;
                    assert((k + 1) * MOST_DAYS == k * MOST_DAYS + MOST_DAYS) by (nonlinear_arith);
                }
                executed = executed + report.days.len();
                add_text(&mut failures, &report.failure);
                add_text(&mut warnings, &report.warning);
                let ghost front = reports@;
                reports.push(report);
                proof {
                    assert(reports@.drop_last() =~= front);
                    assert(reported(
                        mid,
                        *ledger,
                        reports@.last(),
                        wanted[k as int],
                        feeds@[k as int],
                        s,
                    ));
                    assert(all_reported(before, *ledger, reports@, wanted, feeds@, s));
                }
            },
        }
        k = k + 1;
    }
    let ok: bool = failures.len() == 0;
    let count = nat_to_text(executed as u128);
    let message = if executed == 0 && ok {
        "当前没有待执行的定投".to_owned()
    } else if ok {
        join3("已完成 ", &count, " 笔定投")
    } else {
        join5(
            "已完成 ",
            &count,
            " 笔定投，",
            &nat_to_text(failures.len() as u128),
            " 个计划未完成",
        )
    };
    proof {
        assert(views(failures@).len() == failures@.len());
    }
    (reports, Ok(RunDueResponse { ok, executed, failures, warnings, message }))
}

/// The days on which a plan is carried out are open days, in their order, and no open day between
/// two of them is left out.
pub proof fn no_open_day_is_left_out(
    before: Ledger,
    after: Ledger,
    first: Date,
    days: Seq<PlanDay>,
    c: Course,
)
    requires
        ran(before, after, first, days, c),
        c.plan.strategy@ != "sms"@,
    ensures
        forall|i: int|
            0 <= i < days.len() ==> trades_on(
                before.closed@,
                (#[trigger] days[i]).trade_date.days as int,
            ),
        forall|i: int, j: int|
            0 <= i < j < days.len() ==> (#[trigger] days[i]).trade_date.days < (
            #[trigger] days[j]).trade_date.days,
        forall|i: int, day: int|
            #![trigger days[i], trades_on(before.closed@, day)]
            0 <= i && i + 1 < days.len() && days[i].trade_date.days < day < days[i
                + 1].trade_date.days ==> !trades_on(before.closed@, day),
    decreases days.len(),
{
    if days.len() > 0 {
        let front = days.drop_last();
        let last = days.last();
        let mid = choose|mid: Ledger|
            ran(before, mid, first, front, c) && #[trigger] day_carried_out(
                mid,
                after,
                Ok(last.run),
                c.on(last.trade_date),
            );
        no_open_day_is_left_out(before, mid, first, front, c);
        closed_days_stay(before, mid, first, front, c);
        carried_out_on_open_day(mid, after, last, c);
        if front.len() > 0 {
            let previous = front.last();
            front_day_leads_on(before, mid, first, front, c);
            let next = plus_days(previous.trade_date, 1)->0;
            crate::handlers::investments::trading::next_open_is_first(before.closed@, next);
            assert(days[days.len() - 2] == previous);
            assert forall|i: int, j: int| 0 <= i < j < days.len() implies (
            #[trigger] days[i]).trade_date.days < (#[trigger] days[j]).trade_date.days by {
                if j == days.len() - 1 {
                    assert(front[i] == days[i]);
                    if i < front.len() - 1 {
                        assert(front[i].trade_date.days < front[front.len() - 1].trade_date.days);
                    }
                } else {
                    assert(front[i] == days[i] && front[j] == days[j]);
                }
            }
            assert forall|i: int, day: int|
                #![trigger days[i], trades_on(before.closed@, day)]
                0 <= i && i + 1 < days.len() && days[i].trade_date.days < day < days[i
                    + 1].trade_date.days implies !trades_on(before.closed@, day) by {
                if i + 1 < front.len() {
                    assert(front[i] == days[i] && front[i + 1] == days[i + 1]);
                }
            }
        }
        assert forall|i: int| 0 <= i < days.len() implies trades_on(
            before.closed@,
            (#[trigger] days[i]).trade_date.days as int,
        ) by {
            if i < front.len() {
                assert(front[i] == days[i]);
            }
        }
    }
}

/// The day that the last of some days leads to is the next open one.
proof fn front_day_leads_on(
    before: Ledger,
    after: Ledger,
    first: Date,
    days: Seq<PlanDay>,
    c: Course,
)
    requires
        ran(before, after, first, days, c),
        days.len() > 0,
        c.plan.strategy@ != "sms"@,
    ensures
        plus_days(days.last().trade_date, 1) is Some,
        next_open(before.closed@, plus_days(days.last().trade_date, 1)->0) == Ok::<Date, ErrorView>(
            days.last().run.next_date,
        ),
{
    let front = days.drop_last();
    let last = days.last();
    let mid = choose|mid: Ledger|
        ran(before, mid, first, front, c) && #[trigger] day_carried_out(
            mid,
            after,
            Ok(last.run),
            c.on(last.trade_date),
        );
    closed_days_stay(before, mid, first, front, c);
    carried_out_on_open_day(mid, after, last, c);
}

/// A day on which a plan is carried out is an open day and leads to the next one.
proof fn carried_out_on_open_day(before: Ledger, after: Ledger, day: PlanDay, c: Course)
    requires
        day_carried_out(before, after, Ok(day.run), c.on(day.trade_date)),
        c.plan.strategy@ != "sms"@,
    ensures
        trades_on(before.closed@, day.trade_date.days as int),
        plus_days(day.trade_date, 1) is Some,
        next_open(before.closed@, plus_days(day.trade_date, 1)->0) == Ok::<Date, ErrorView>(
            day.run.next_date,
        ),
{
    reveal(day_carried_out);
}

/// Carrying out a plan leaves the closed days as they are.
proof fn closed_days_stay(
    before: Ledger,
    after: Ledger,
    first: Date,
    days: Seq<PlanDay>,
    c: Course,
)
    requires
        ran(before, after, first, days, c),
    ensures
        after.closed == before.closed,
    decreases days.len(),
{
    if days.len() > 0 {
        let front = days.drop_last();
        let mid = choose|mid: Ledger|
            ran(before, mid, first, front, c) && #[trigger] day_carried_out(
                mid,
                after,
                Ok(days.last().run),
                c.on(days.last().trade_date),
            );
        closed_days_stay(before, mid, first, front, c);
        reveal(day_carried_out);
    }
}

/// A plan that fails stays due: the day that is stored as its next one has come already, so that
/// it is tried again.
pub proof fn failed_plan_stays_due(
    before: Ledger,
    after: Ledger,
    report: PlanReport,
    plan: recurring_investment::Model,
    feed: Feed,
    s: RunSource,
)
    requires
        reported(before, after, report, plan, feed, s),
        report.failure is Some,
        report.next_date is Some,
    ensures
        report.next_date->0.days <= s.today.days,
{
}

/// A plan that does not fail is carried out until today: its next day lies in the future.
pub proof fn finished_plan_is_up_to_date(
    before: Ledger,
    after: Ledger,
    report: PlanReport,
    plan: recurring_investment::Model,
    feed: Feed,
    s: RunSource,
)
    requires
        reported(before, after, report, plan, feed, s),
        report.failure is None,
    ensures
        report.next_date is Some,
        report.next_date->0.days > s.today.days,
{
}

/// The next day of a plan once what was reported is stored: the day that the last report on the
/// plan gives.
pub open spec fn stored_next(plan: recurring_investment::Model, reports: Seq<PlanReport>) -> Date
    decreases reports.len(),
{
    if reports.len() == 0 {
        plan.next_trade_date
    } else if reports.last().plan_id == plan.id && reports.last().next_date is Some {
        reports.last().next_date->0
    } else {
        stored_next(plan, reports.drop_last())
    }
}

/// The plans once what was reported is stored: their next days are the reported ones.
pub open spec fn moved_on(
    plans: Seq<recurring_investment::Model>,
    later: Seq<recurring_investment::Model>,
    reports: Seq<PlanReport>,
) -> bool {
    &&& later.len() == plans.len()
    &&& forall|i: int|
        #![trigger plans[i]]
        #![trigger later[i]]
        0 <= i < plans.len() ==> later[i].id == plans[i].id && later[i].active == plans[i].active
            && later[i].strategy@ == plans[i].strategy@ && later[i].next_trade_date == stored_next(
            plans[i],
            reports,
        )
}

/// No two plans have the same number.
pub open spec fn told_apart(plans: Seq<recurring_investment::Model>) -> bool {
    forall|i: int, j: int|
        0 <= i < j < plans.len() ==> (#[trigger] plans[i]).id != (#[trigger] plans[j]).id
}

/// Once all plans that were due were carried out without a failure and their next days are stored,
/// none is due any more on that day: a second run carries out nothing, leaves the ledger alone and
/// reports success.
pub proof fn second_run_finds_nothing(
    before: Ledger,
    after: Ledger,
    reports: Seq<PlanReport>,
    response: RunDueResponse,
    plans: Seq<recurring_investment::Model>,
    later: Seq<recurring_investment::Model>,
    feeds: Seq<Feed>,
    s: RunSource,
)
    requires
        all_reported(before, after, reports, due(plans, s.today), feeds, s),
        reports.len() == due(plans, s.today).len(),
        sums_up(response, reports),
        response.ok,
        told_apart(plans),
        moved_on(plans, later, reports),
    ensures
        due(later, s.today).len() == 0,
        forall|last: Ledger, none: Seq<PlanReport>, again: Seq<Feed>, t: RunSource|
            #[trigger] all_reported(after, last, none, due(later, s.today), again, t) && none.len()
                == due(later, s.today).len() ==> last == after,
        forall|none: Seq<PlanReport>, second: RunDueResponse|
            #[trigger] sums_up(second, none) && none.len() == due(later, s.today).len()
                ==> second.executed == 0 && second.ok && second.message@
                == "当前没有待执行的定投"@,
{
    let today = s.today;
    let wanted = due(plans, today);
    let all = due_among(plans, today, plans.len() as int);
    let order = descending_order(earliness(all));
    descending_exists(earliness(all));
    positions_covered(earliness(all), order);
    due_among_holds(plans, today, plans.len() as int);
    reports_are_up_to_date(before, after, reports, wanted, feeds, s);
    assert forall|i: int| 0 <= i < later.len() implies !is_due(#[trigger] later[i], today) by {
        let plan = plans[i];
        if is_due(plan, today) {
            let p = choose|p: int| 0 <= p < all.len() && all[p] == plan;
            assert(order.contains(p));
            let k = choose|k: int| 0 <= k < order.len() && order[k] == p;
            assert(wanted[k] == plan);
            assert(reports[k].plan_id == plan.id);
            stored_next_is_later(plan, reports, k, today);
        } else {
            assert forall|k: int| 0 <= k < reports.len() implies (#[trigger] reports[k]).plan_id
                != plan.id by {
                assert(wanted[k] == all[order[k]]);
                assert(is_among(plans, today, plans.len() as int, all[order[k]]));
                let j = choose|j: int|
                    0 <= j < plans.len() && plans[j] == all[order[k]] && #[trigger] is_due(
                        plans[j],
                        today,
                    );
                assert(plans[j] != plan);
                if i < j {
                    assert(plans[i].id != plans[j].id);
                } else {
                    assert(plans[j].id != plans[i].id);
                }
            }
            stored_next_stays(plan, reports);
        }
    }
    none_due(later, today, later.len() as int);
}

/// A plan is one of the first `n` plans, and due.
spec fn is_among(
    plans: Seq<recurring_investment::Model>,
    today: Date,
    n: int,
    plan: recurring_investment::Model,
) -> bool {
    exists|j: int| 0 <= j < n && plans[j] == plan && #[trigger] is_due(plans[j], today)
}

proof fn due_among_holds(plans: Seq<recurring_investment::Model>, today: Date, n: int)
    requires
        0 <= n <= plans.len(),
    ensures
        forall|i: int|
            0 <= i < n && is_due(#[trigger] plans[i], today) ==> exists|p: int|
                0 <= p < due_among(plans, today, n).len() && #[trigger] due_among(
                    plans,
                    today,
                    n,
                )[p] == plans[i],
        forall|p: int|
            0 <= p < due_among(plans, today, n).len() ==> is_among(
                plans,
                today,
                n,
                #[trigger] due_among(plans, today, n)[p],
            ),
{
    let all = due_among(plans, today, n);
    assert forall|i: int| 0 <= i < n && is_due(#[trigger] plans[i], today) implies exists|p: int|
        0 <= p < all.len() && #[trigger] all[p] == plans[i] by {
        let p = place_among_due(plans, today, n, i);
        assert(all[p] == plans[i]);
    }
    assert forall|p: int| 0 <= p < due_among(plans, today, n).len() implies is_among(
        plans,
        today,
        n,
        #[trigger] due_among(plans, today, n)[p],
    ) by {
        let j = place_of_due(plans, today, n, p);
        assert(is_due(plans[j], today));
    }
}

proof fn place_among_due(
    plans: Seq<recurring_investment::Model>,
    today: Date,
    n: int,
    i: int,
) -> (p: int)
    requires
        0 <= i < n <= plans.len(),
        is_due(plans[i], today),
    ensures
        0 <= p < due_among(plans, today, n).len(),
        due_among(plans, today, n)[p] == plans[i],
    decreases n,
{
    if i == n - 1 {
        due_among(plans, today, n - 1).len() as int
    } else {
        place_among_due(plans, today, n - 1, i)
    }
}

proof fn place_of_due(plans: Seq<recurring_investment::Model>, today: Date, n: int, p: int) -> (j:
    int)
    requires
        0 <= n <= plans.len(),
        0 <= p < due_among(plans, today, n).len(),
    ensures
        0 <= j < n,
        plans[j] == due_among(plans, today, n)[p],
        is_due(plans[j], today),
    decreases n,
{
    if is_due(plans[n - 1], today) && p == due_among(plans, today, n - 1).len() {
        n - 1
    } else {
        place_of_due(plans, today, n - 1, p)
    }
}

proof fn reports_are_up_to_date(
    before: Ledger,
    after: Ledger,
    reports: Seq<PlanReport>,
    plans: Seq<recurring_investment::Model>,
    feeds: Seq<Feed>,
    s: RunSource,
)
    requires
        all_reported(before, after, reports, plans, feeds, s),
        told(reports, true).len() == 0,
    ensures
        forall|k: int|
            0 <= k < reports.len() ==> (#[trigger] reports[k]).plan_id == plans[k].id
                && reports[k].next_date is Some && reports[k].next_date->0.days > s.today.days,
    decreases reports.len(),
{
    if reports.len() > 0 {
        let n = reports.len() - 1;
        let front = reports.drop_last();
        let mid = choose|mid: Ledger|
            all_reported(before, mid, front, plans, feeds, s) && #[trigger] reported(
                mid,
                after,
                reports.last(),
                plans[n],
                feeds[n],
                s,
            );
        reports_are_up_to_date(before, mid, front, plans, feeds, s);
        finished_plan_is_up_to_date(mid, after, reports.last(), plans[n], feeds[n], s);
        assert forall|k: int| 0 <= k < reports.len() implies (#[trigger] reports[k]).plan_id
            == plans[k].id && reports[k].next_date is Some && reports[k].next_date->0.days
            > s.today.days by {
            if k < n {
                assert(front[k] == reports[k]);
            }
        }
    }
}

proof fn stored_next_is_later(
    plan: recurring_investment::Model,
    reports: Seq<PlanReport>,
    at: int,
    today: Date,
)
    requires
        0 <= at < reports.len(),
        reports[at].plan_id == plan.id,
        forall|k: int|
            0 <= k < reports.len() ==> (#[trigger] reports[k]).next_date is Some
                && reports[k].next_date->0.days > today.days,
    ensures
        stored_next(plan, reports).days > today.days,
    decreases reports.len(),
{
    let front = reports.drop_last();
    assert(reports.last() == reports[reports.len() - 1]);
    if reports.last().plan_id != plan.id {
        assert(front[at] == reports[at]);
        assert forall|k: int| 0 <= k < front.len() implies (#[trigger] front[k]).next_date is Some
            && front[k].next_date->0.days > today.days by {
            assert(front[k] == reports[k]);
        }
        stored_next_is_later(plan, front, at, today);
    }
}

proof fn stored_next_stays(plan: recurring_investment::Model, reports: Seq<PlanReport>)
    requires
        forall|k: int| 0 <= k < reports.len() ==> (#[trigger] reports[k]).plan_id != plan.id,
    ensures
        stored_next(plan, reports) == plan.next_trade_date,
    decreases reports.len(),
{
    if reports.len() > 0 {
        let front = reports.drop_last();
        assert(reports.last() == reports[reports.len() - 1]);
        assert forall|k: int| 0 <= k < front.len() implies (#[trigger] front[k]).plan_id
            != plan.id by {
            assert(front[k] == reports[k]);
        }
        stored_next_stays(plan, front);
    }
}

proof fn none_due(plans: Seq<recurring_investment::Model>, today: Date, n: int)
    requires
        0 <= n <= plans.len(),
        forall|i: int| 0 <= i < n ==> !is_due(#[trigger] plans[i], today),
    ensures
        due_among(plans, today, n).len() == 0,
    decreases n,
{
    if n > 0 {
        none_due(plans, today, n - 1);
    }
}

} // verus!
