//! The page of the investments.
use vstd::prelude::*;
use vstd::string::*;

use crate::book::{find, found};
use crate::calendar::{date_text, date_to_text, parts, time_text, time_to_text, year_of, Date};
use crate::crypto::{cents, decrypt_cents, decrypt_string, plain, Dek};
use crate::currency::amount_text;
use crate::decimal::{
    cents_text, decimal_difference, decimal_of_text, decimal_product, divide, fmt_cents, minus,
    multiply, parse_decimal, whole, Dec,
};
use crate::entity::{
    account, bill, investment_execution, investment_sms_event, market_closed_day,
    recurring_investment, transfer,
};
use crate::error::{arithmetic_overflow, overflowed, HandlerResult};
use crate::handlers::bills::AccountOption;
use crate::handlers::investments::plans::{account_options, are_options, Purpose};
use crate::handlers::investments::trading::{fee_rate_text, format_fee_rate};
use crate::handlers::{account_name, account_name_of, Page};
use crate::market_data::{
    deviation_is_relative, deviation_of, format_multiplier, format_percent, format_point,
    index_named, index_option, is_relative, multiplier_text, percent_text, point_text,
};
use crate::order::{page_of, take_page};
use crate::text::{
    contains, has_part, int_text, int_to_text, join2, join4, join5, lower_text, lowercase, same,
    trimmed,
};

verus! {

/// What is looked for among the plans.
pub struct InvestmentsQuery {
    pub page: usize,
    pub per_page: usize,
    pub keyword: String,
    pub status: String,
}

/// A plan on the page.
pub struct PlanRow {
    pub id: i64,
    pub name: String,
    pub from_account: String,
    pub fund_account: String,
    pub amount: String,
    pub fee_rate: String,
    pub smart: bool,
    pub manual: bool,
    pub sms: bool,
    pub amount_value: String,
    pub strategy_label: String,
    pub currency: String,
    pub start_date: String,
    pub next_trade_date: String,
    pub active: bool,
    pub due: bool,
    pub note: String,
}

/// The name of an index, or a word for one that is not known.
pub open spec fn index_text(code: Seq<char>) -> Seq<char> {
    match index_named(code) {
        Some(named) => named.0,
        None => "未知指数"@,
    }
}

fn index_name(code: &str) -> (r: &'static str)
    ensures
        r@ == index_text(code@),
{
    match index_option(code) {
        Some(option) => option.name,
        None => "未知指数",
    }
}

/// How a plan invests, in words.
pub open spec fn strategy_text(plan: recurring_investment::Model) -> Seq<char> {
    if plan.strategy@ == "smart"@ {
        "聪明定投 · "@ + index_text(plan.index_code@) + " · "@ + int_text(
            plan.moving_average_days as int,
        ) + "日均线"@
    } else if plan.strategy@ == "manual"@ {
        "每日手动填写金额"@
    } else if plan.strategy@ == "sms"@ {
        "招商银行短信实扣金额"@
    } else {
        "固定金额"@
    }
}

/// The name of the account of a fund, or a word for one that is gone.
pub open spec fn fund_name(dek: Seq<u8>, accounts: Seq<account::Model>, id: i64) -> Seq<char> {
    match found(accounts, id) {
        Some(a) => plain(dek, a.name@),
        None => "已删除基金账户"@,
    }
}

fn fund_name_of(dek: &Dek, accounts: &Vec<account::Model>, id: i64) -> (r: String)
    ensures
        r@ == fund_name(dek@, accounts@, id),
{
    match find(accounts, id) {
        Some(a) => decrypt_string(dek, &a.name),
        None => "已删除基金账户".to_owned(),
    }
}

/// The currency of an account; none where the account is gone.
pub open spec fn currency_text(accounts: Seq<account::Model>, id: i64) -> Seq<char> {
    match found(accounts, id) {
        Some(a) => a.currency@,
        None => Seq::empty(),
    }
}

fn currency_of(accounts: &Vec<account::Model>, id: i64) -> (r: String)
    ensures
        r@ == currency_text(accounts@, id),
{
    match find(accounts, id) {
        Some(a) => a.currency.clone(),
        None => {
            let s = String::new();
            proof {
                assert(s@ =~= Seq::empty());
            }
            s
        },
    }
}

/// A plan is shown as due.
pub open spec fn shown_due(plan: recurring_investment::Model, today: Date) -> bool {
    plan.active && plan.strategy@ != "sms"@ && plan.next_trade_date.days <= today.days
}

/// The row of a plan shows these values.
pub open spec fn is_plan_row(
    row: PlanRow,
    dek: Seq<u8>,
    accounts: Seq<account::Model>,
    plan: recurring_investment::Model,
    today: Date,
) -> bool {
    let amount = cents(dek, plan.amount@);
    let currency = currency_text(accounts, plan.from_account_id);
    &&& row.id == plan.id
    &&& row.name@ == plain(dek, plan.name@)
    &&& row.from_account@ == account_name(dek, accounts, plan.from_account_id)
    &&& row.fund_account@ == fund_name(dek, accounts, plan.fund_account_id)
    &&& row.amount@ == (if plan.strategy@ == "sms"@ {
        "以短信为准"@
    } else if plan.strategy@ == "manual"@ && amount == 0 {
        "每日填写"@
    } else {
        amount_text(amount, currency)
    })
    &&& row.fee_rate@ == fee_rate_text(cents(dek, plan.fee_rate_bps@))
    &&& row.smart == (plan.strategy@ == "smart"@)
    &&& row.manual == (plan.strategy@ == "manual"@)
    &&& row.sms == (plan.strategy@ == "sms"@)
    &&& row.amount_value@ == (if amount > 0 {
        cents_text(amount)
    } else {
        Seq::empty()
    })
    &&& row.strategy_label@ == strategy_text(plan)
    &&& row.currency@ == currency
    &&& row.start_date@ == date_text(plan.start_date)
    &&& row.next_trade_date@ == next_text(plan)
    &&& row.active == plan.active
    &&& row.due == shown_due(plan, today)
    &&& row.note@ == plain(dek, plan.note@)
}

/// The next day of a plan, in words.
pub open spec fn next_text(plan: recurring_investment::Model) -> Seq<char> {
    if plan.strategy@ == "sms"@ {
        "等待短信"@
    } else {
        date_text(plan.next_trade_date)
    }
}

fn plan_row(
    dek: &Dek,
    accounts: &Vec<account::Model>,
    plan: &recurring_investment::Model,
    today: Date,
) -> (r: PlanRow)
    ensures
        is_plan_row(r, dek@, accounts@, *plan, today),
{
    let smart: bool = same(&plan.strategy, "smart");
    let manual: bool = same(&plan.strategy, "manual");
    let sms: bool = same(&plan.strategy, "sms");
    let currency = currency_of(accounts, plan.from_account_id);
    let amount: i64 = decrypt_cents(dek, &plan.amount);
    let strategy_label = if smart {
        let front = join2("聪明定投 · ", index_name(&plan.index_code));
        join4(&front, " · ", &int_to_text(plan.moving_average_days as i64), "日均线")
    } else if manual {
        "每日手动填写金额".to_owned()
    } else if sms {
        "招商银行短信实扣金额".to_owned()
    } else {
        "固定金额".to_owned()
    };
    let amount_value = if amount > 0 {
        fmt_cents(amount)
    } else {
        String::new()
    };
    proof {
        assert(strategy_label@ =~= strategy_text(*plan));
        if amount <= 0 {
            assert(amount_value@ =~= Seq::empty());
        }
    }
    PlanRow {
        id: plan.id,
        name: decrypt_string(dek, &plan.name),
        from_account: account_name_of(dek, accounts, plan.from_account_id),
        fund_account: fund_name_of(dek, accounts, plan.fund_account_id),
        amount: if sms {
            "以短信为准".to_owned()
        } else if manual && amount == 0 {
            "每日填写".to_owned()
        } else {
            crate::currency::format(amount, &currency)
        },
        fee_rate: format_fee_rate(decrypt_cents(dek, &plan.fee_rate_bps)),
        smart,
        manual,
        sms,
        amount_value,
        strategy_label,
        currency,
        start_date: date_to_text(plan.start_date),
        next_trade_date: if sms {
            "等待短信".to_owned()
        } else {
            date_to_text(plan.next_trade_date)
        },
        active: plan.active,
        due: plan.active && !sms && plan.next_trade_date.days <= today.days,
        note: decrypt_string(dek, &plan.note),
    }
}

/// A plan that waits for its amount.
pub struct ManualDueRow {
    pub id: i64,
    pub name: String,
    pub from_account: String,
    pub fund_account: String,
    pub currency: String,
    pub trade_date: String,
    pub default_amount: String,
    pub fee_rate: String,
}

/// The row of a plan that waits for its amount shows these values.
pub open spec fn is_manual_row(
    row: ManualDueRow,
    dek: Seq<u8>,
    accounts: Seq<account::Model>,
    plan: recurring_investment::Model,
) -> bool {
    let amount = cents(dek, plan.amount@);
    &&& row.id == plan.id
    &&& row.name@ == plain(dek, plan.name@)
    &&& row.from_account@ == account_name(dek, accounts, plan.from_account_id)
    &&& row.fund_account@ == fund_name(dek, accounts, plan.fund_account_id)
    &&& row.currency@ == currency_text(accounts, plan.from_account_id)
    &&& row.trade_date@ == date_text(plan.next_trade_date)
    &&& row.default_amount@ == (if amount > 0 {
        cents_text(amount)
    } else {
        Seq::empty()
    })
    &&& row.fee_rate@ == fee_rate_text(cents(dek, plan.fee_rate_bps@))
}

/// What counts of the plans.
#[derive(Clone, Copy, Debug, PartialEq, Eq, Structural)]
pub enum Which {
    Active,
    Due,
    AutomaticDue,
    ManualDue,
}

/// A plan counts.
pub open spec fn counts(which: Which, plan: recurring_investment::Model, today: Date) -> bool {
    match which {
        Which::Active => plan.active,
        Which::Due => shown_due(plan, today),
        Which::AutomaticDue => shown_due(plan, today) && plan.strategy@ != "manual"@,
        Which::ManualDue => shown_due(plan, today) && plan.strategy@ == "manual"@,
    }
}

/// The plans among the first `n` that count.
pub open spec fn counted(
    plans: Seq<recurring_investment::Model>,
    which: Which,
    today: Date,
    n: int,
) -> Seq<recurring_investment::Model>
    decreases n,
{
    if n <= 0 {
        Seq::empty()
    } else if counts(which, plans[n - 1], today) {
        counted(plans, which, today, n - 1).push(plans[n - 1])
    } else {
        counted(plans, which, today, n - 1)
    }
}

/// The status to look for; a word that is none of those known stands for all.
pub open spec fn status_kept(status: Seq<char>) -> Seq<char> {
    if status == "active"@ || status == "paused"@ || status == "due"@ {
        status
    } else {
        Seq::empty()
    }
}

/// The text in which a keyword is looked for.
pub open spec fn search_text(
    dek: Seq<u8>,
    accounts: Seq<account::Model>,
    plan: recurring_investment::Model,
) -> Seq<char> {
    plain(dek, plan.name@) + " "@ + account_name(dek, accounts, plan.from_account_id) + " "@
        + fund_name(dek, accounts, plan.fund_account_id) + (" "@ + plain(dek, plan.note@) + " "@
        + currency_text(accounts, plan.from_account_id) + (" "@ + strategy_text(plan)))
}

/// A plan agrees with what is looked for.
pub open spec fn plan_found(
    dek: Seq<u8>,
    accounts: Seq<account::Model>,
    plan: recurring_investment::Model,
    keyword: Seq<char>,
    status: Seq<char>,
    today: Date,
) -> bool {
    let key = lower_text(trimmed(keyword));
    &&& key.len() == 0 || has_part(lower_text(search_text(dek, accounts, plan)), key)
    &&& if status == "active"@ {
        plan.active
    } else if status == "paused"@ {
        !plan.active
    } else if status == "due"@ {
        shown_due(plan, today)
    } else {
        true
    }
}

/// The plans among the first `n` that agree with what is looked for.
pub open spec fn plans_found(
    dek: Seq<u8>,
    accounts: Seq<account::Model>,
    plans: Seq<recurring_investment::Model>,
    keyword: Seq<char>,
    status: Seq<char>,
    today: Date,
    n: int,
) -> Seq<recurring_investment::Model>
    decreases n,
{
    if n <= 0 {
        Seq::empty()
    } else if plan_found(dek, accounts, plans[n - 1], keyword, status, today) {
        plans_found(dek, accounts, plans, keyword, status, today, n - 1).push(plans[n - 1])
    } else {
        plans_found(dek, accounts, plans, keyword, status, today, n - 1)
    }
}

fn row_found(row: &PlanRow, keyword: &str, status: &str, Ghost(text): Ghost<Seq<char>>) -> (r: bool)
    requires
        text == row.name@ + " "@ + row.from_account@ + " "@ + row.fund_account@ + (" "@ + row.note@
            + " "@ + row.currency@ + (" "@ + row.strategy_label@)),
    ensures
        r == ((keyword@.len() == 0 || has_part(lower_text(text), keyword@)) && if status@
            == "active"@ {
            row.active
        } else if status@ == "paused"@ {
            !row.active
        } else if status@ == "due"@ {
            row.due
        } else {
            true
        }),
{
    let last = join2(" ", &row.strategy_label);
    let back = join5(" ", &row.note, " ", &row.currency, &last);
    let front = join5(&row.name, " ", &row.from_account, " ", &row.fund_account);
    let whole = join2(&front, &back);
    if !keyword.is_empty() && !contains(&lowercase(&whole), keyword) {
        return false;
    }
    if same(status, "active") {
        row.active
    } else if same(status, "paused") {
        !row.active
    } else if same(status, "due") {
        row.due
    } else {
        true
    }
}

/// The plans on the page, what waits for an amount, and how many there are of what.
pub struct PlanList {
    pub plans: Vec<PlanRow>,
    pub total_records: usize,
    pub manual_due: Vec<ManualDueRow>,
    pub active_count: usize,
    pub due_count: usize,
    pub automatic_due_count: usize,
}

/// What a list of plans is made of.
pub struct PlanSource {
    pub dek: Seq<u8>,
    pub accounts: Seq<account::Model>,
    pub plans: Seq<recurring_investment::Model>,
    pub keyword: Seq<char>,
    pub status: Seq<char>,
    pub today: Date,
}

impl PlanSource {
    /// The plans among the first `n` that agree with what is looked for.
    pub open spec fn matching(self, n: int) -> Seq<recurring_investment::Model> {
        plans_found(
            self.dek,
            self.accounts,
            self.plans,
            self.keyword,
            self.status,
            self.today,
            n,
        )
    }
}

/// The rows show these plans.
pub open spec fn are_plan_rows(
    rows: Seq<PlanRow>,
    s: PlanSource,
    plans: Seq<recurring_investment::Model>,
) -> bool {
    &&& rows.len() == plans.len()
    &&& forall|i: int|
        0 <= i < plans.len() ==> is_plan_row(
            #[trigger] rows[i],
            s.dek,
            s.accounts,
            plans[i],
            s.today,
        )
}

/// The rows show these plans, which wait for their amounts.
pub open spec fn are_manual_rows(
    rows: Seq<ManualDueRow>,
    s: PlanSource,
    plans: Seq<recurring_investment::Model>,
) -> bool {
    &&& rows.len() == plans.len()
    &&& forall|i: int|
        0 <= i < plans.len() ==> is_manual_row(#[trigger] rows[i], s.dek, s.accounts, plans[i])
}

/// A list of plans shows these values.
pub open spec fn is_plan_list(list: PlanList, s: PlanSource, shown: Page) -> bool {
    let n = s.plans.len() as int;
    let matching = s.matching(n);
    &&& are_plan_rows(
        list.plans@,
        s,
        page_of(matching, shown.start as int, shown.per_page as int),
    )
    &&& list.total_records == matching.len()
    &&& are_manual_rows(list.manual_due@, s, counted(s.plans, Which::ManualDue, s.today, n))
    &&& list.active_count == counted(s.plans, Which::Active, s.today, n).len()
    &&& list.due_count == counted(s.plans, Which::Due, s.today, n).len()
    &&& list.automatic_due_count == counted(s.plans, Which::AutomaticDue, s.today, n).len()
}

fn manual_row(row: &PlanRow) -> (r: ManualDueRow)
    ensures
        r.id == row.id,
        r.name@ == row.name@,
        r.from_account@ == row.from_account@,
        r.fund_account@ == row.fund_account@,
        r.currency@ == row.currency@,
        r.trade_date@ == row.next_trade_date@,
        r.default_amount@ == row.amount_value@,
        r.fee_rate@ == row.fee_rate@,
{
    ManualDueRow {
        id: row.id,
        name: row.name.clone(),
        from_account: row.from_account.clone(),
        fund_account: row.fund_account.clone(),
        currency: row.currency.clone(),
        trade_date: row.next_trade_date.clone(),
        default_amount: row.amount_value.clone(),
        fee_rate: row.fee_rate.clone(),
    }
}

/// Lists the plans that agree with what is looked for.
pub fn list_plans(
    dek: &Dek,
    accounts: &Vec<account::Model>,
    plans: &Vec<recurring_investment::Model>,
    keyword: &str,
    status: &str,
    today: Date,
    shown: Page,
) -> (r: PlanList)
    ensures
        is_plan_list(
            r,
            PlanSource {
                dek: dek@,
                accounts: accounts@,
                plans: plans@,
                keyword: keyword@,
                status: status@,
                today,
            },
            shown,
        ),
{
    let ghost s = PlanSource {
        dek: dek@,
        accounts: accounts@,
        plans: plans@,
        keyword: keyword@,
        status: status@,
        today,
    };
    let key = lowercase(keyword.trim());
    let mut rows: Vec<PlanRow> = Vec::new();
    let mut manual_due: Vec<ManualDueRow> = Vec::new();
    let mut active_count: usize = 0;
    let mut due_count: usize = 0;
    let mut automatic_due_count: usize = 0;
    let mut i: usize = 0;
    while i < plans.len()
        invariant
            i <= plans.len(),
            s == (PlanSource {
                dek: dek@,
                accounts: accounts@,
                plans: plans@,
                keyword: keyword@,
                status: status@,
                today,
            }),
            key@ == lower_text(trimmed(keyword@)),
            are_plan_rows(rows@, s, s.matching(i as int)),
            are_manual_rows(
                manual_due@,
                s,
                counted(plans@, Which::ManualDue, today, i as int),
            ),
            active_count == counted(plans@, Which::Active, today, i as int).len(),
            due_count == counted(plans@, Which::Due, today, i as int).len(),
            automatic_due_count == counted(plans@, Which::AutomaticDue, today, i as int).len(),
            active_count <= i,
            due_count <= i,
            automatic_due_count <= i,
        decreases plans.len() - i,
    {
        let row = plan_row(dek, accounts, &plans[i], today);
        if row.active {
            active_count = active_count + 1;
        }
        if row.due {
            due_count = due_count + 1;
        }
        if row.due && !row.manual && !row.sms {
            automatic_due_count = automatic_due_count + 1;
        }
        if row.due && row.manual {
            manual_due.push(manual_row(&row));
        }
        if row_found(&row, &key, status, Ghost(search_text(dek@, accounts@, plans@[i as int]))) {
            rows.push(row);
        }
        i = i + 1;
    }
    let total_records: usize = rows.len();
    let ghost all = rows@;
    let plans_shown = take_page(rows, shown.start, shown.per_page);
    proof {
        let wanted = page_of(
            s.matching(plans@.len() as int),
            shown.start as int,
            shown.per_page as int,
        );
        let from = if shown.start < all.len() {
            shown.start as int
        } else {
            all.len() as int
        };
        assert forall|k: int| 0 <= k < wanted.len() implies is_plan_row(
            #[trigger] plans_shown@[k],
            s.dek,
            s.accounts,
            wanted[k],
            s.today,
        ) by {
            assert(plans_shown@[k] == all[from + k]);
        }
    }
    PlanList {
        plans: plans_shown,
        total_records,
        manual_due,
        active_count,
        due_count,
        automatic_due_count,
    }
}

/// A message on the page.
pub struct SmsEventRow {
    pub id: i64,
    pub occurred_at: String,
    pub plan_name: String,
    pub detail: String,
    pub raw: String,
    pub danger: bool,
    pub pending: bool,
    pub repayment: bool,
}

/// What a message is about: a plan, or what its kind says.
pub open spec fn event_subject(
    dek: Seq<u8>,
    plans: Seq<recurring_investment::Model>,
    event: investment_sms_event::Model,
) -> Seq<char> {
    match event.plan_id {
        Some(id) if found(plans, id) is Some => plain(dek, found(plans, id)->0.name@),
        _ => if event.kind@ == "bank_transfer"@ {
            "本人账户转账"@
        } else if event.kind@ == "quick_payment"@ {
            "信用卡还款"@
        } else {
            "未匹配计划"@
        },
    }
}

/// The row of a message shows these values.
pub open spec fn is_event_row(
    row: SmsEventRow,
    dek: Seq<u8>,
    plans: Seq<recurring_investment::Model>,
    event: investment_sms_event::Model,
) -> bool {
    &&& row.id == event.id
    &&& row.occurred_at@ == time_text(event.occurred_at)
    &&& row.plan_name@ == event_subject(dek, plans, event)
    &&& row.detail@ == plain(dek, event.detail@)
    &&& row.raw@ == plain(dek, event.raw@)
    &&& row.danger == (event.status@ == "failed"@ || event.status@ == "unmatched"@ || event.status@
        == "error"@)
    &&& row.pending == (event.status@ == "pending"@)
    &&& row.repayment == (event.kind@ == "quick_payment"@)
}

fn find_subject(
    dek: &Dek,
    plans: &Vec<recurring_investment::Model>,
    event: &investment_sms_event::Model,
) -> (r: String)
    ensures
        r@ == event_subject(dek@, plans@, *event),
{
    if let Some(id) = event.plan_id {
        if let Some(plan) = find(plans, id) {
            return decrypt_string(dek, &plan.name);
        }
    }
    if same(&event.kind, "bank_transfer") {
        "本人账户转账".to_owned()
    } else if same(&event.kind, "quick_payment") {
        "信用卡还款".to_owned()
    } else {
        "未匹配计划".to_owned()
    }
}

/// How many messages the page shows.
pub const EVENTS_SHOWN: usize = 20;

/// How many investments the page shows.
pub const EXECUTIONS_SHOWN: usize = 50;

/// The smaller of a number and a limit.
pub open spec fn at_most(n: nat, limit: usize) -> nat {
    if n < limit {
        n
    } else {
        limit as nat
    }
}

/// The rows show the first messages.
pub open spec fn are_event_rows(
    rows: Seq<SmsEventRow>,
    dek: Seq<u8>,
    plans: Seq<recurring_investment::Model>,
    events: Seq<investment_sms_event::Model>,
) -> bool {
    &&& rows.len() == at_most(events.len(), EVENTS_SHOWN)
    &&& forall|i: int|
        0 <= i < rows.len() ==> is_event_row(#[trigger] rows[i], dek, plans, events[i])
}

fn event_rows(
    dek: &Dek,
    plans: &Vec<recurring_investment::Model>,
    events: &Vec<investment_sms_event::Model>,
) -> (r: Vec<SmsEventRow>)
    ensures
        are_event_rows(r@, dek@, plans@, events@),
{
    let mut rows: Vec<SmsEventRow> = Vec::new();
    let mut i: usize = 0;
    while i < events.len() && i < EVENTS_SHOWN
        invariant
            i <= events.len(),
            i <= EVENTS_SHOWN,
            rows@.len() == i,
            forall|j: int|
                0 <= j < i ==> is_event_row(#[trigger] rows@[j], dek@, plans@, events@[j]),
        decreases EVENTS_SHOWN - i,
    {
        let event = &events[i];
        rows.push(
            SmsEventRow {
                id: event.id,
                occurred_at: time_to_text(event.occurred_at),
                plan_name: find_subject(dek, plans, event),
                detail: decrypt_string(dek, &event.detail),
                raw: decrypt_string(dek, &event.raw),
                danger: same(&event.status, "failed") || same(&event.status, "unmatched") || same(
                    &event.status,
                    "error",
                ),
                pending: same(&event.status, "pending"),
                repayment: same(&event.kind, "quick_payment"),
            },
        );
        i = i + 1;
    }
    rows
}

/// An investment on the page.
pub struct ExecutionRow {
    pub plan_name: String,
    pub trade_date: String,
    pub from_account: String,
    pub fund_account: String,
    pub amount: String,
    pub fee: String,
    pub strategy: String,
    pub decision: String,
}

/// What the rows of investments are made of.
pub struct ExecutionSource {
    pub dek: Seq<u8>,
    pub accounts: Seq<account::Model>,
    pub transfers: Seq<transfer::Model>,
    pub bills: Seq<bill::Model>,
    pub plans: Seq<recurring_investment::Model>,
}

/// The number that a text denotes, zero where it denotes none.
pub open spec fn number_or_zero(text: Seq<char>) -> (int, int) {
    match decimal_of_text(text) {
        Ok(n) => n,
        Err(_) => (0, 0),
    }
}

fn read_number(text: &str) -> (r: Dec)
    ensures
        r.wf(),
        r.pair() == number_or_zero(text@),
{
    match parse_decimal(text) {
        Ok(d) => d,
        Err(_) => whole(0),
    }
}

/// How far a closing value lies from an average in percent; zero where there is no average. None
/// where it is too large a number.
pub open spec fn shown_deviation(close: (int, int), average: (int, int)) -> Option<(int, int)> {
    if average.0 > 0 {
        deviation_of(close, average)
    } else {
        Some((0, 0))
    }
}

fn find_deviation(close: Dec, average: Dec) -> (r: Option<Dec>)
    requires
        close.wf(),
        average.wf(),
    ensures
        match r {
            Some(d) => d.wf() && shown_deviation(close.pair(), average.pair()) == Some(d.pair()),
            None => shown_deviation(close.pair(), average.pair()) is None,
        },
        r matches Some(d) ==> average.mantissa > 0 ==> is_relative(
            close.pair(),
            average.pair(),
            d.pair(),
        ),
{
    if average.mantissa <= 0 {
        return Some(whole(0));
    }
    let shown = match minus(close, average) {
        None => None,
        Some(difference) => match multiply(difference, whole(100)) {
            None => None,
            Some(product) => divide(product, average),
        },
    };
    proof {
        if let Some(d) = shown {
            let difference = decimal_difference(close.pair(), average.pair())->0;
            let product = decimal_product(difference, (100int, 0int))->0;
            deviation_is_relative(close.pair(), average.pair(), difference, product, d.pair());
        }
    }
    shown
}

/// An investment was decided on by quotes.
pub open spec fn by_quotes(e: investment_execution::Model) -> bool {
    e.strategy@ != "sms"@ && e.strategy@ != "manual"@ && e.index_code@.len() > 0
}

/// How an investment was made, in words.
pub open spec fn execution_strategy(e: investment_execution::Model) -> Seq<char> {
    if e.strategy@ == "sms"@ {
        "短信实扣"@
    } else if e.strategy@ == "manual"@ {
        "手动金额"@
    } else if e.index_code@.len() == 0 {
        "固定金额"@
    } else {
        "聪明 · "@ + index_text(e.index_code@) + " · "@ + int_text(e.moving_average_days as int)
            + "日"@
    }
}

/// What an investment was decided on, in words; none where it cannot be reckoned.
pub open spec fn execution_decision(
    dek: Seq<u8>,
    e: investment_execution::Model,
    currency: Seq<char>,
) -> Option<Seq<char>> {
    if e.strategy@ == "sms"@ {
        Some("按招商银行短信中的实际扣款金额执行"@)
    } else if e.strategy@ == "manual"@ {
        Some("当日由用户确认后执行"@)
    } else if e.index_code@.len() == 0 {
        Some(Seq::empty())
    } else {
        let close = number_or_zero(e.index_close@);
        let average = number_or_zero(e.moving_average@);
        match shown_deviation(close, average) {
            None => None,
            Some(deviation) => Some(
                (match e.quote_date {
                    Some(date) => date_text(date),
                    None => "未知日期"@,
                }) + " 收盘 "@ + point_text(close) + " / 均线 "@ + point_text(average) + ("（"@
                    + percent_text(deviation) + "）· 基准 "@ + amount_text(
                    cents(dek, e.base_amount@),
                    currency,
                ) + (" × "@ + multiplier_text(cents(dek, e.multiplier_bps@)))),
            ),
        }
    }
}

fn write_decision(dek: &Dek, e: &investment_execution::Model, currency: &str) -> (r: Option<String>)
    requires
        by_quotes(*e),
    ensures
        match r {
            Some(text) => execution_decision(dek@, *e, currency@) == Some(text@),
            None => execution_decision(dek@, *e, currency@) is None,
        },
{
    let close = read_number(&e.index_close);
    let average = read_number(&e.moving_average);
    let deviation = match find_deviation(close, average) {
        Some(deviation) => deviation,
        None => return None,
    };
    let date = match e.quote_date {
        Some(date) => date_to_text(date),
        None => "未知日期".to_owned(),
    };
    let front = join5(&date, " 收盘 ", &format_point(close), " / 均线 ", &format_point(average));
    let last = join2(" × ", &format_multiplier(decrypt_cents(dek, &e.multiplier_bps)));
    let back = join5(
        "（",
        &format_percent(deviation),
        "）· 基准 ",
        &crate::currency::format(decrypt_cents(dek, &e.base_amount), currency),
        &last,
    );
    Some(join2(&front, &back))
}

/// The transfer of an investment, where it is there.
pub open spec fn execution_transfer(s: ExecutionSource, e: investment_execution::Model) -> Option<
    transfer::Model,
> {
    match e.transfer_id {
        Some(id) => found(s.transfers, id),
        None => None,
    }
}

/// The fee of an investment.
pub open spec fn execution_fee(s: ExecutionSource, e: investment_execution::Model) -> int {
    match e.fee_bill_id {
        Some(id) => match found(s.bills, id) {
            Some(b) => cents(s.dek, b.amount@),
            None => 0,
        },
        None => 0,
    }
}

/// The row of an investment shows these values.
pub open spec fn is_execution_row(
    row: ExecutionRow,
    s: ExecutionSource,
    e: investment_execution::Model,
) -> bool {
    let t = execution_transfer(s, e)->0;
    let currency = currency_text(s.accounts, t.from_account_id);
    &&& row.plan_name@ == (match found(s.plans, e.plan_id) {
        Some(plan) => plain(s.dek, plan.name@),
        None => "已删除计划"@,
    })
    &&& row.trade_date@ == date_text(e.trade_date)
    &&& row.from_account@ == account_name(s.dek, s.accounts, t.from_account_id)
    &&& row.fund_account@ == fund_name(s.dek, s.accounts, t.to_account_id)
    &&& row.amount@ == amount_text(cents(s.dek, t.amount@), currency)
    &&& row.fee@ == amount_text(execution_fee(s, e), currency)
    &&& row.strategy@ == execution_strategy(e)
    &&& execution_decision(s.dek, e, currency) == Some(row.decision@)
}

/// What an investment was decided on can be reckoned.
pub open spec fn is_reckoned(s: ExecutionSource, e: investment_execution::Model) -> bool {
    let t = execution_transfer(s, e)->0;
    execution_decision(s.dek, e, currency_text(s.accounts, t.from_account_id)) is Some
}

/// The investments among the first `n` that are shown: those whose transfers are there, as many as
/// fit on the page. None where one of them cannot be reckoned.
pub open spec fn executions_shown(
    s: ExecutionSource,
    executions: Seq<investment_execution::Model>,
    n: int,
) -> Option<Seq<investment_execution::Model>>
    decreases n,
{
    if n <= 0 {
        Some(Seq::empty())
    } else {
        match executions_shown(s, executions, n - 1) {
            None => None,
            Some(front) => if front.len() >= EXECUTIONS_SHOWN || execution_transfer(
                s,
                executions[n - 1],
            ) is None {
                Some(front)
            } else if is_reckoned(s, executions[n - 1]) {
                Some(front.push(executions[n - 1]))
            } else {
                None
            },
        }
    }
}

proof fn executions_shown_stops(
    s: ExecutionSource,
    executions: Seq<investment_execution::Model>,
    m: int,
    n: int,
)
    requires
        0 <= m <= n,
        executions_shown(s, executions, m) is None,
    ensures
        executions_shown(s, executions, n) is None,
    decreases n,
{
    if m < n {
        executions_shown_stops(s, executions, m, n - 1);
    }
}

/// The records that the page of investments shows. The plans are in the order of their next days,
/// the messages and the investments have the latest first, and the closed days are in their order.
pub struct InvestmentRecords {
    pub accounts: Vec<account::Model>,
    pub transfers: Vec<transfer::Model>,
    pub bills: Vec<bill::Model>,
    pub plans: Vec<recurring_investment::Model>,
    pub events: Vec<investment_sms_event::Model>,
    pub executions: Vec<investment_execution::Model>,
    pub closed: Vec<market_closed_day::Model>,
}

impl InvestmentRecords {
    /// The part of them that the rows of investments are made of.
    pub open spec fn source(self, dek: Seq<u8>) -> ExecutionSource {
        ExecutionSource {
            dek,
            accounts: self.accounts@,
            transfers: self.transfers@,
            bills: self.bills@,
            plans: self.plans@,
        }
    }
}

fn execution_row(dek: &Dek, records: &InvestmentRecords, e: &investment_execution::Model, t: &transfer::Model) -> (r:
    Option<ExecutionRow>)
    requires
        execution_transfer(records.source(dek@), *e) == Some(*t),
    ensures
        match r {
            Some(row) => is_execution_row(row, records.source(dek@), *e),
            None => !is_reckoned(records.source(dek@), *e),
        },
{
    let currency = currency_of(&records.accounts, t.from_account_id);
    let fee: i64 = match e.fee_bill_id {
        Some(id) => match find(&records.bills, id) {
            Some(b) => decrypt_cents(dek, &b.amount),
            None => 0,
        },
        None => 0,
    };
    let strategy;
    let decision;
    if same(&e.strategy, "sms") {
        strategy = "短信实扣".to_owned();
        decision = "按招商银行短信中的实际扣款金额执行".to_owned();
    } else if same(&e.strategy, "manual") {
        strategy = "手动金额".to_owned();
        decision = "当日由用户确认后执行".to_owned();
    } else if e.index_code.as_str().is_empty() {
        strategy = "固定金额".to_owned();
        decision = String::new();
        proof {
            assert(decision@ =~= Seq::empty());
        }
    } else {
        strategy = join5(
            "聪明 · ",
            index_name(&e.index_code),
            " · ",
            &int_to_text(e.moving_average_days as i64),
            "日",
        );
        decision = match write_decision(dek, e, &currency) {
            Some(decision) => decision,
            None => return None,
        };
    }
    Some(
        ExecutionRow {
            plan_name: match find(&records.plans, e.plan_id) {
                Some(plan) => decrypt_string(dek, &plan.name),
                None => "已删除计划".to_owned(),
            },
            trade_date: date_to_text(e.trade_date),
            from_account: account_name_of(dek, &records.accounts, t.from_account_id),
            fund_account: fund_name_of(dek, &records.accounts, t.to_account_id),
            amount: crate::currency::format(decrypt_cents(dek, &t.amount), &currency),
            fee: crate::currency::format(fee, &currency),
            strategy,
            decision,
        },
    )
}

/// The rows show these investments.
pub open spec fn are_execution_rows(
    rows: Seq<ExecutionRow>,
    s: ExecutionSource,
    executions: Seq<investment_execution::Model>,
) -> bool {
    &&& rows.len() == executions.len()
    &&& forall|i: int|
        0 <= i < rows.len() ==> is_execution_row(#[trigger] rows[i], s, executions[i])
}

fn execution_rows(dek: &Dek, records: &InvestmentRecords) -> (r: HandlerResult<Vec<ExecutionRow>>)
    ensures
        match (
            r,
            executions_shown(
                records.source(dek@),
                records.executions@,
                records.executions@.len() as int,
            ),
        ) {
            (Ok(rows), Some(shown)) => are_execution_rows(rows@, records.source(dek@), shown),
            (Err(error), None) => error@ == overflowed(),
            _ => false,
        },
{
    let ghost s = records.source(dek@);
    let ghost n = records.executions@.len() as int;
    let mut rows: Vec<ExecutionRow> = Vec::new();
    let mut i: usize = 0;
    while i < records.executions.len()
        invariant
            i <= records.executions.len(),
            s == records.source(dek@),
            n == records.executions@.len(),
            executions_shown(s, records.executions@, i as int) is Some,
            are_execution_rows(
                rows@,
                s,
                executions_shown(s, records.executions@, i as int)->0,
            ),
        decreases records.executions.len() - i,
    {
        let e = &records.executions[i];
        if rows.len() < EXECUTIONS_SHOWN {
            if let Some(id) = e.transfer_id {
                if let Some(t) = find(&records.transfers, id) {
                    match execution_row(dek, records, e, t) {
                        Some(row) => {
                            rows.push(row);
                        },
                        None => {
                            proof {
                                executions_shown_stops(s, records.executions@, i + 1, n);
                            }
                            return Err(arithmetic_overflow());
                        },
                    }
                }
            }
        }
        i = i + 1;
    }
    Ok(rows)
}

/// A day on the page on which the market is closed.
pub struct ClosedDayRow {
    pub date: String,
    pub name: String,
}

/// The closed days among the first `n` that the user entered.
pub open spec fn own_closed_days(closed: Seq<market_closed_day::Model>, n: int) -> Seq<
    market_closed_day::Model,
>
    decreases n,
{
    if n <= 0 {
        Seq::empty()
    } else if closed[n - 1].source@ == "user"@ {
        own_closed_days(closed, n - 1).push(closed[n - 1])
    } else {
        own_closed_days(closed, n - 1)
    }
}

/// The rows show the closed days that the user entered.
pub open spec fn are_closed_rows(rows: Seq<ClosedDayRow>, days: Seq<market_closed_day::Model>) -> bool {
    &&& rows.len() == days.len()
    &&& forall|i: int|
        0 <= i < rows.len() ==> (#[trigger] rows[i]).date@ == date_text(days[i].date)
            && rows[i].name@ == days[i].name@
}

fn closed_rows(closed: &Vec<market_closed_day::Model>) -> (r: Vec<ClosedDayRow>)
    ensures
        are_closed_rows(r@, own_closed_days(closed@, closed@.len() as int)),
{
    let mut rows: Vec<ClosedDayRow> = Vec::new();
    let mut i: usize = 0;
    while i < closed.len()
        invariant
            i <= closed.len(),
            are_closed_rows(rows@, own_closed_days(closed@, i as int)),
        decreases closed.len() - i,
    {
        if same(&closed[i].source, "user") {
            rows.push(
                ClosedDayRow { date: date_to_text(closed[i].date), name: closed[i].name.clone() },
            );
        }
        i = i + 1;
    }
    rows
}

/// The page of the investments.
pub struct InvestmentsPage {
    pub list: PlanList,
    pub sms_events: Vec<SmsEventRow>,
    pub pending_sms_count: usize,
    pub transfer_targets: Vec<AccountOption>,
    pub repayment_targets: Vec<AccountOption>,
    pub executions: Vec<ExecutionRow>,
    pub custom_closed_days: Vec<ClosedDayRow>,
    pub keyword: String,
    pub status: String,
    pub per_page: usize,
    pub today: String,
    pub calendar_warning: bool,
}

/// The last year for which the closed days are known.
pub const LAST_KNOWN_YEAR: i32 = 2026;

/// The page of the investments shows these values.
pub open spec fn is_investments_page(
    page: InvestmentsPage,
    dek: Seq<u8>,
    records: InvestmentRecords,
    query: InvestmentsQuery,
    waiting: usize,
    today: Date,
    shown: Page,
) -> bool {
    let status = status_kept(query.status@);
    &&& is_plan_list(
        page.list,
        PlanSource {
            dek,
            accounts: records.accounts@,
            plans: records.plans@,
            keyword: query.keyword@,
            status,
            today,
        },
        shown,
    )
    &&& are_event_rows(page.sms_events@, dek, records.plans@, records.events@)
    &&& page.pending_sms_count == waiting
    &&& are_options(page.transfer_targets@, dek, records.accounts@, Purpose::Target)
    &&& are_options(page.repayment_targets@, dek, records.accounts@, Purpose::Repayment)
    &&& are_closed_rows(
        page.custom_closed_days@,
        own_closed_days(records.closed@, records.closed@.len() as int),
    )
    &&& page.keyword@ == query.keyword@
    &&& page.status@ == status
    &&& page.per_page == shown.per_page
    &&& page.today@ == date_text(today)
    &&& page.calendar_warning == (year_of(today) > LAST_KNOWN_YEAR)
}

/// The page of the investments. `waiting` is how many messages wait to be settled.
pub fn list(
    dek: &Dek,
    records: &InvestmentRecords,
    query: &InvestmentsQuery,
    waiting: usize,
    today: Date,
    shown: Page,
) -> (r: HandlerResult<InvestmentsPage>)
    ensures
        match (
            r,
            executions_shown(
                records.source(dek@),
                records.executions@,
                records.executions@.len() as int,
            ),
        ) {
            (Ok(page), Some(executions)) => is_investments_page(
                page,
                dek@,
                *records,
                *query,
                waiting,
                today,
                shown,
            ) && are_execution_rows(page.executions@, records.source(dek@), executions),
            (Err(error), None) => error@ == overflowed(),
            _ => false,
        },
{
    let known: bool = same(&query.status, "active") || same(&query.status, "paused") || same(
        &query.status,
        "due",
    );
    let status = if known {
        query.status.clone()
    } else {
        String::new()
    };
    proof {
        assert(status@ =~= status_kept(query.status@));
    }
    let executions = match execution_rows(dek, records) {
        Ok(executions) => executions,
        Err(error) => return Err(error),
    };
    let (year, _month, _day) = parts(today);
    Ok(
        InvestmentsPage {
            list: list_plans(
                dek,
                &records.accounts,
                &records.plans,
                &query.keyword,
                &status,
                today,
                shown,
            ),
            sms_events: event_rows(dek, &records.plans, &records.events),
            pending_sms_count: waiting,
            transfer_targets: account_options(dek, &records.accounts, Purpose::Target),
            repayment_targets: account_options(dek, &records.accounts, Purpose::Repayment),
            executions,
            custom_closed_days: closed_rows(&records.closed),
            keyword: query.keyword.clone(),
            status,
            per_page: shown.per_page,
            today: date_to_text(today),
            calendar_warning: year > LAST_KNOWN_YEAR,
        },
    )
}

/// One for each of the first `n` plans that are active, else nothing.
pub open spec fn active_marks(plans: Seq<recurring_investment::Model>, n: int) -> Seq<int> {
    Seq::new(
        n as nat,
        |i: int|
            if plans[i].active {
                1int
            } else {
                0
            },
    )
}

proof fn counted_plans(plans: Seq<recurring_investment::Model>, today: Date, n: int)
    requires
        0 <= n <= plans.len(),
    ensures
        counted(plans, Which::AutomaticDue, today, n) == crate::handlers::investments::due::due_among(
            plans,
            today,
            n,
        ),
        counted(plans, Which::Due, today, n).len() == counted(
            plans,
            Which::AutomaticDue,
            today,
            n,
        ).len() + counted(plans, Which::ManualDue, today, n).len(),
        counted(plans, Which::Active, today, n).len() == crate::totals::total(
            active_marks(plans, n),
        ),
    decreases n,
{
    if n > 0 {
        counted_plans(plans, today, n - 1);
        assert(active_marks(plans, n).drop_last() =~= active_marks(plans, n - 1));
    }
}

/// The page of the investments counts the plans: those that are active, those that are due by
/// themselves, which are exactly the ones that a run carries out, and together with them those that
/// wait for their amount, which are shown.
pub proof fn investments_page_counts_plans(
    dek: &Dek,
    records: &InvestmentRecords,
    query: &InvestmentsQuery,
    waiting: usize,
    today: Date,
    shown: Page,
    page: InvestmentsPage,
)
    requires
        call_ensures(list, (dek, records, query, waiting, today, shown), Ok(page)),
    ensures
        page.list.active_count == crate::totals::total(
            active_marks(records.plans@, records.plans@.len() as int),
        ),
        page.list.automatic_due_count == crate::handlers::investments::due::due(
            records.plans@,
            today,
        ).len(),
        page.list.due_count == page.list.automatic_due_count + page.list.manual_due@.len(),
        page.pending_sms_count == waiting,
{
    counted_plans(records.plans@, today, records.plans@.len() as int);
}

} // verus!
