//! Things paid for in every period.
use vstd::prelude::*;
use vstd::string::*;

use crate::book::{find, found, Book, Row};
use crate::calendar::{
    date_text, date_to_text, day_within, has_parts, later_by_days, later_by_months,
    minute_of_text, one_month_on, parse_minute, three_months_on, time_text, time_to_text,
    twelve_months_on, Date, DateTime,
};
use crate::crypto::{
    cents, decrypt_cents, decrypt_string, encrypt_cents, encrypt_string, is_sealable, plain,
    sealable, Dek,
};
use crate::currency::{amount_text, is_currency, is_worth, valid};
use crate::decimal::{cents_text, fits_i64, fmt_cents, padded, push_padded, Dec};
use crate::entity::{bill, category, subscription};
use crate::error::{
    agrees, bad, bad_request, missing, not_found, text_too_long, too_long, ErrorView,
    HandlerResult,
};
use crate::filter::{combine, combined};
use crate::handlers::accounts::{allowed, balance, change_allowed, ensure_balance_delta};
use crate::handlers::bills::{
    between_days, category_is_food, crossed_days, day_allowed, food_category, parse_search_date,
    search_date,
};
use crate::handlers::transfers::{amount_of_text, exchange, exchanged, parse_amount, rate_view};
use crate::handlers::Page;
use crate::order::{page_of, take_page};
use crate::text::{
    contains, has_part, int_text, int_to_text, join2, join3, join4, join5, lower_text, lowercase,
    same, trimmed, trimmed_bytes,
};
use crate::totals::{negated, total};

verus! {

/// The form of a subscription.
pub struct SubscriptionFormData {
    pub name: String,
    pub amount: String,
    pub currency: String,
    pub category: String,
    pub period: String,
    pub expires_at: String,
    pub note: String,
}

/// The account that a subscription is paid from.
pub struct CreateExpenseFormData {
    pub account_id: i64,
}

/// What is looked for among the subscriptions.
pub struct SubscriptionsQuery {
    pub page: usize,
    pub per_page: usize,
    pub mode: String,
    pub keyword: String,
    pub status: String,
    pub period: String,
    pub currency: String,
    pub category: String,
    pub start_date: String,
    pub end_date: String,
}

impl Row for subscription::Model {
    open spec fn key(&self) -> i64 {
        self.id
    }

    fn row_key(&self) -> i64 {
        self.id
    }
}

/// The periods of subscriptions.
pub open spec fn is_period(period: Seq<char>) -> bool {
    period == "day"@ || period == "week"@ || period == "month"@ || period == "quarter"@ || period
        == "year"@
}

pub fn valid_period(period: &str) -> (r: bool)
    ensures
        r == is_period(period@),
{
    same(period, "day") || same(period, "week") || same(period, "month") || same(period, "quarter")
        || same(period, "year")
}

/// The name of a period.
pub open spec fn period_name(period: Seq<char>) -> Seq<char> {
    if period == "day"@ {
        "每日"@
    } else if period == "week"@ {
        "每周"@
    } else if period == "month"@ {
        "每月"@
    } else if period == "quarter"@ {
        "每季"@
    } else if period == "year"@ {
        "每年"@
    } else {
        "未知周期"@
    }
}

pub fn period_label(period: &str) -> (r: &'static str)
    ensures
        r@ == period_name(period@),
{
    if same(period, "day") {
        "每日"
    } else if same(period, "week") {
        "每周"
    } else if same(period, "month") {
        "每月"
    } else if same(period, "quarter") {
        "每季"
    } else if same(period, "year") {
        "每年"
    } else {
        "未知周期"
    }
}

/// The later of two times.
pub open spec fn later_of(a: DateTime, b: DateTime) -> DateTime {
    if a.key() >= b.key() {
        a
    } else {
        b
    }
}

/// When a subscription ends after one more period, counted from its end or from now, whichever is
/// later; or the refusal.
pub open spec fn renewal(expires_at: DateTime, period: Seq<char>, now: DateTime) -> Result<
    DateTime,
    ErrorView,
> {
    let base = later_of(expires_at, now);
    let renewed = if period == "day"@ {
        later_by_days(base, 1)
    } else if period == "week"@ {
        later_by_days(base, 7)
    } else if period == "month"@ {
        later_by_months(base, 1)
    } else if period == "quarter"@ {
        later_by_months(base, 3)
    } else {
        later_by_months(base, 12)
    };
    if !is_period(period) {
        Err(bad("订阅周期无效"@))
    } else {
        match renewed {
            Some(time) => Ok(time),
            None => Err(bad("续期后的到期时间超出范围"@)),
        }
    }
}

/// When a subscription ends after one more period.
pub fn renewed_expiry(expires_at: DateTime, period: &str, now: DateTime) -> (r: HandlerResult<
    DateTime,
>)
    ensures
        agrees(r, renewal(expires_at, period@, now)),
{
    let base = if expires_at.before(now) {
        now
    } else {
        expires_at
    };
    let renewed = if same(period, "day") {
        base.add_days(1)
    } else if same(period, "week") {
        base.add_days(7)
    } else if same(period, "month") {
        base.add_months(1)
    } else if same(period, "quarter") {
        base.add_months(3)
    } else if same(period, "year") {
        base.add_months(12)
    } else {
        return Err(bad_request("订阅周期无效"));
    };
    match renewed {
        Some(time) => Ok(time),
        None => Err(bad_request("续期后的到期时间超出范围")),
    }
}

/// A renewed subscription ends after now and after it would have ended.
pub proof fn renewal_extends(expires_at: DateTime, period: Seq<char>, now: DateTime)
    requires
        renewal(expires_at, period, now) is Ok,
    ensures
        renewal(expires_at, period, now)->Ok_0.key() > now.key(),
        renewal(expires_at, period, now)->Ok_0.key() > expires_at.key(),
{
    let base = later_of(expires_at, now);
    if period == "day"@ || period == "week"@ {
    } else {
        let n = if period == "month"@ {
            1int
        } else if period == "quarter"@ {
            3
        } else {
            12
        };
        crate::calendar::months_later(base.date, n);
    }
}

/// A renewal is one period long, counted from the end of the subscription or from now, whichever is
/// later, and keeps the time of the day: one day, seven days, or the same day of the calendar month
/// right after, three after or a year after, or the last day of that month where it is shorter.
pub proof fn renewal_is_one_period_long(
    expires_at: DateTime,
    period: &str,
    now: DateTime,
    r: HandlerResult<DateTime>,
    base: DateTime,
    year: int,
    month: int,
    day: int,
)
    requires
        call_ensures(renewed_expiry, (expires_at, period, now), r),
        r is Ok,
        base == expires_at || base == now,
        base.key() >= expires_at.key(),
        base.key() >= now.key(),
        has_parts(base.date, year, month, day),
    ensures
        ({
            let end = r->Ok_0;
            let later = end.date.days - base.date.days;
            &&& end.second == base.second && end.nano == base.nano
            &&& period@ == "day"@ || period@ == "week"@ || period@ == "month"@ || period@
                == "quarter"@ || period@ == "year"@
            &&& period@ == "day"@ ==> later == 1
            &&& period@ == "week"@ ==> later == 7
            &&& period@ == "month"@ ==> 28 <= later <= 31 && (if month < 12 {
                has_parts(end.date, year, month + 1, day_within(year, month + 1, day))
            } else {
                has_parts(end.date, year + 1, 1, day)
            })
            &&& period@ == "quarter"@ ==> 89 <= later <= 92 && (if month <= 9 {
                has_parts(end.date, year, month + 3, day_within(year, month + 3, day))
            } else {
                has_parts(end.date, year + 1, month - 9, day_within(year + 1, month - 9, day))
            })
            &&& period@ == "year"@ ==> 365 <= later <= 366 && has_parts(
                end.date,
                year + 1,
                month,
                day_within(year + 1, month, day),
            )
        }),
{
    reveal_strlit("day");
    reveal_strlit("week");
    reveal_strlit("month");
    reveal_strlit("quarter");
    reveal_strlit("year");
    assert("day"@.len() == 3 && "week"@.len() == 4 && "month"@.len() == 5 && "quarter"@.len() == 7
        && "year"@.len() == 4);
    assert("week"@[0] == 'w' && "year"@[0] == 'y');
    if expires_at.key() == now.key() {
        crate::calendar::key_injective(expires_at, now);
    }
    if period@ == "month"@ {
        one_month_on(base.date, year, month, day);
    } else if period@ == "quarter"@ {
        three_months_on(base.date, year, month, day);
    } else if period@ == "year"@ {
        twelve_months_on(base.date, year, month, day);
    }
}

/// A subscription as a form gives it.
pub struct ParsedSubscription {
    pub name: String,
    pub amount: i64,
    pub currency: String,
    pub category: String,
    pub period: String,
    pub expires_at: DateTime,
    pub note: String,
}

/// Why a subscription form is refused, where it is.
pub open spec fn form_refusal(form: SubscriptionFormData) -> Option<ErrorView> {
    if trimmed(form.name@).len() == 0 {
        Some(bad("订阅服务名不能为空"@))
    } else {
        match amount_of_text(form.amount@) {
            Err(e) => Some(e),
            Ok(_) => if !is_currency(form.currency@) {
                Some(bad("订阅货币无效"@))
            } else if trimmed(form.category@).len() == 0 {
                Some(bad("支出分类不能为空"@))
            } else if !is_period(form.period@) {
                Some(bad("订阅周期无效"@))
            } else if minute_of_text(form.expires_at@) is None {
                Some(bad("到期时间格式不正确"@))
            } else {
                None
            },
        }
    }
}

/// A subscription is the one that a form gives.
pub open spec fn is_parsed(p: ParsedSubscription, form: SubscriptionFormData) -> bool {
    &&& p.name@ == trimmed(form.name@)
    &&& amount_of_text(form.amount@) == Ok::<i64, ErrorView>(p.amount)
    &&& p.currency@ == form.currency@
    &&& p.category@ == trimmed(form.category@)
    &&& p.period@ == form.period@
    &&& minute_of_text(form.expires_at@) == Some(p.expires_at)
    &&& p.note@ == trimmed(form.note@)
}

/// Reads a subscription form.
pub fn parse_form(form: &SubscriptionFormData) -> (r: HandlerResult<ParsedSubscription>)
    ensures
        match (r, form_refusal(*form)) {
            (Ok(parsed), None) => is_parsed(parsed, *form),
            (Err(error), Some(wanted)) => error@ == wanted,
            _ => false,
        },
{
    let name = form.name.as_str().trim();
    if name.is_empty() {
        return Err(bad_request("订阅服务名不能为空"));
    }
    let amount: i64 = match parse_amount(&form.amount) {
        Ok(amount) => amount,
        Err(error) => return Err(error),
    };
    if !valid(&form.currency) {
        return Err(bad_request("订阅货币无效"));
    }
    let category = form.category.as_str().trim();
    if category.is_empty() {
        return Err(bad_request("支出分类不能为空"));
    }
    if !valid_period(&form.period) {
        return Err(bad_request("订阅周期无效"));
    }
    match parse_minute(&form.expires_at) {
        None => Err(bad_request("到期时间格式不正确")),
        Some(expires_at) => Ok(
            ParsedSubscription {
                name: name.to_owned(),
                amount,
                currency: form.currency.clone(),
                category: category.to_owned(),
                period: form.period.clone(),
                expires_at,
                note: form.note.as_str().trim().to_owned(),
            },
        ),
    }
}

/// What a subscription form stores.
pub struct SubscriptionFields {
    pub name: String,
    pub amount: String,
    pub currency: String,
    pub category: String,
    pub period: String,
    pub expires_at: DateTime,
    pub note: String,
}

/// The fields store the subscription of a form.
pub open spec fn stores(f: SubscriptionFields, dek: Seq<u8>, form: SubscriptionFormData) -> bool {
    &&& plain(dek, f.name@) == trimmed(form.name@)
    &&& cents(dek, f.amount@) == amount_of_text(form.amount@)->Ok_0
    &&& f.currency@ == form.currency@
    &&& plain(dek, f.category@) == trimmed(form.category@)
    &&& f.period@ == form.period@
    &&& minute_of_text(form.expires_at@) == Some(f.expires_at)
    &&& plain(dek, f.note@) == trimmed(form.note@)
}

/// Every text of a subscription form is short enough to be encrypted.
pub open spec fn form_sealable(form: SubscriptionFormData) -> bool {
    sealable(form.name@) && sealable(form.category@) && sealable(form.note@)
}

/// Why a subscription cannot be stored as a form says, where it cannot.
pub open spec fn store_refusal(
    dek: Seq<u8>,
    categories: Seq<category::Model>,
    form: SubscriptionFormData,
) -> Option<ErrorView> {
    match form_refusal(form) {
        Some(e) => Some(e),
        None => match food_category(dek, categories, "expense"@, trimmed(form.category@)) {
            Err(e) => Some(e),
            Ok(_) => None,
        },
    }
}

/// Makes a subscription: what to store.
pub fn create(dek: &Dek, categories: &Vec<category::Model>, form: &SubscriptionFormData) -> (r:
    HandlerResult<SubscriptionFields>)
    requires
        form_sealable(*form),
    ensures
        match (r, store_refusal(dek@, categories@, *form)) {
            (Ok(fields), None) => stores(fields, dek@, *form),
            (Err(error), Some(wanted)) => error@ == wanted,
            _ => false,
        },
{
    let parsed = match parse_form(form) {
        Ok(parsed) => parsed,
        Err(error) => return Err(error),
    };
    match category_is_food(dek, categories, "expense", &parsed.category) {
        Ok(_) => {},
        Err(error) => return Err(error),
    }
    proof {
        trimmed_bytes(form.name@);
        trimmed_bytes(form.category@);
        trimmed_bytes(form.note@);
    }
    Ok(
        SubscriptionFields {
            name: encrypt_string(dek, &parsed.name),
            amount: encrypt_cents(dek, parsed.amount),
            currency: parsed.currency,
            category: encrypt_string(dek, &parsed.category),
            period: parsed.period,
            expires_at: parsed.expires_at,
            note: encrypt_string(dek, &parsed.note),
        },
    )
}

/// Changes a subscription: what to store in its place.
pub fn update(
    dek: &Dek,
    categories: &Vec<category::Model>,
    subscriptions: &Vec<subscription::Model>,
    id: i64,
    form: &SubscriptionFormData,
) -> (r: HandlerResult<SubscriptionFields>)
    requires
        form_sealable(*form),
    ensures
        match store_refusal(dek@, categories@, *form) {
            Some(wanted) => r matches Err(error) && error@ == wanted,
            None => match (r, found(subscriptions@, id)) {
                (Ok(fields), Some(_)) => stores(fields, dek@, *form),
                (Err(error), None) => error@ == missing("订阅不存在"@),
                _ => false,
            },
        },
{
    match create(dek, categories, form) {
        Err(error) => Err(error),
        Ok(fields) => if find(subscriptions, id).is_none() {
            Err(not_found("订阅不存在"))
        } else {
            Ok(fields)
        },
    }
}

/// The form for a subscription.
pub struct SubscriptionForm {
    pub heading: String,
    pub action: String,
    pub name: String,
    pub amount: String,
    pub currency: String,
    pub category: String,
    pub period: String,
    pub expires_at: String,
    pub note: String,
}

/// The empty form for a new subscription, by the month and from now.
pub fn new_form(default_currency: &str, now: DateTime) -> (r: SubscriptionForm)
    ensures
        r.heading@ == "新增订阅"@,
        r.action@ == "/subscriptions"@,
        r.currency@ == default_currency@,
        r.period@ == "month"@,
        r.expires_at@ == time_text(now),
        r.name@.len() == 0 && r.amount@.len() == 0 && r.category@.len() == 0 && r.note@.len() == 0,
{
    SubscriptionForm {
        heading: "新增订阅".to_owned(),
        action: "/subscriptions".to_owned(),
        name: String::new(),
        amount: String::new(),
        currency: default_currency.to_owned(),
        category: String::new(),
        period: "month".to_owned(),
        expires_at: time_to_text(now),
        note: String::new(),
    }
}

/// The form that changes a subscription.
pub fn edit_form(dek: &Dek, subscriptions: &Vec<subscription::Model>, id: i64) -> (r: HandlerResult<
    SubscriptionForm,
>)
    ensures
        match (r, found(subscriptions@, id)) {
            (Ok(form), Some(s)) => {
                &&& form.heading@ == "编辑订阅"@
                &&& form.action@ == "/subscriptions/"@ + int_text(id as int) + "/edit"@
                &&& form.name@ == plain(dek@, s.name@)
                &&& form.amount@ == cents_text(cents(dek@, s.amount@))
                &&& form.currency@ == s.currency@
                &&& form.category@ == plain(dek@, s.category@)
                &&& form.period@ == s.period@
                &&& form.expires_at@ == time_text(s.expires_at)
                &&& form.note@ == plain(dek@, s.note@)
            },
            (Err(error), None) => error@ == missing("订阅不存在"@),
            _ => false,
        },
{
    match find(subscriptions, id) {
        None => Err(not_found("订阅不存在")),
        Some(s) => Ok(
            SubscriptionForm {
                heading: "编辑订阅".to_owned(),
                action: join3("/subscriptions/", &int_to_text(id), "/edit"),
                name: decrypt_string(dek, &s.name),
                amount: fmt_cents(decrypt_cents(dek, &s.amount)),
                currency: s.currency.clone(),
                category: decrypt_string(dek, &s.category),
                period: s.period.clone(),
                expires_at: time_to_text(s.expires_at),
                note: decrypt_string(dek, &s.note),
            },
        ),
    }
}

/// The categories of expenses among the first `n`, by name.
pub open spec fn expense_names(dek: Seq<u8>, categories: Seq<category::Model>, n: int) -> Seq<
    Seq<char>,
>
    decreases n,
{
    if n <= 0 {
        Seq::empty()
    } else if categories[n - 1].kind@ == "expense"@ {
        expense_names(dek, categories, n - 1).push(plain(dek, categories[n - 1].name@))
    } else {
        expense_names(dek, categories, n - 1)
    }
}

/// The names of the categories of expenses.
pub fn expense_categories(dek: &Dek, categories: &Vec<category::Model>) -> (r: Vec<String>)
    ensures
        crate::text::views(r@) == expense_names(dek@, categories@, categories@.len() as int),
{
    let mut names: Vec<String> = Vec::new();
    let mut i: usize = 0;
    proof {
        assert(crate::text::views(names@) =~= Seq::empty());
    }
    while i < categories.len()
        invariant
            i <= categories.len(),
            crate::text::views(names@) == expense_names(dek@, categories@, i as int),
        decreases categories.len() - i,
    {
        let ghost before = names@;
        if same(&categories[i].kind, "expense") {
            let name = decrypt_string(dek, &categories[i].name);
            let ghost view = name@;
            names.push(name);
            proof {
                assert(crate::text::views(names@) =~= crate::text::views(before).push(view));
            }
        }
        i = i + 1;
    }
    names
}

/// The note of the expense of a subscription.
pub open spec fn expense_note(name: Seq<char>, note: Seq<char>) -> Seq<char> {
    if note.len() == 0 {
        "订阅："@ + name
    } else {
        "订阅："@ + name + " · "@ + note
    }
}

/// What paying for a subscription stores: the expense and the new end of the subscription.
pub struct Renewal {
    pub bill: bill::Model,
    pub expires_at: DateTime,
}

/// The amount of the expense and the new end of the subscription, or why it cannot be paid.
pub open spec fn paid(
    dek: Seq<u8>,
    book: Book,
    categories: Seq<category::Model>,
    s: subscription::Model,
    account_id: i64,
    rate: Result<(int, int), Seq<char>>,
    now: DateTime,
) -> Result<(i64, DateTime), ErrorView> {
    if found(book.accounts@, account_id) is None {
        Err(bad("付款账户不存在"@))
    } else {
        match exchanged(cents(dek, s.amount@), rate) {
            Err(e) => Err(e),
            Ok(amount) => match food_category(
                dek,
                categories,
                "expense"@,
                plain(dek, s.category@),
            ) {
                Err(e) => Err(e),
                Ok(_) => if !fits_i64(-amount) {
                    Err(bad("金额超出范围"@))
                } else {
                    match change_allowed(dek, book, account_id, -amount) {
                        Err(e) => Err(e),
                        Ok(_) => match renewal(s.expires_at, s.period@, now) {
                            Err(e) => Err(e),
                            Ok(end) => if sealable(plain(dek, s.category@)) && sealable(
                                expense_note(plain(dek, s.name@), plain(dek, s.note@)),
                            ) {
                                Ok((amount, end))
                            } else {
                                Err(too_long())
                            },
                        },
                    }
                },
            },
        }
    }
}

/// Pays for one more period of a subscription from an account, at the current rate between the
/// two currencies.
pub fn create_expense(
    dek: &Dek,
    book: &Book,
    categories: &Vec<category::Model>,
    subscriptions: &Vec<subscription::Model>,
    id: i64,
    form: &CreateExpenseFormData,
    rate: &Result<Dec, String>,
    now: DateTime,
    created_at: DateTime,
) -> (r: HandlerResult<Renewal>)
    requires
        *rate matches Ok(d) ==> d.wf(),
    ensures
        match found(subscriptions@, id) {
            None => r matches Err(error) && error@ == missing("订阅不存在"@),
            Some(s) => match (
                r,
                paid(dek@, *book, categories@, s, form.account_id, rate_view(*rate), now),
            ) {
                (Ok(renewed), Ok((amount, end))) => {
                    let b = renewed.bill;
                    &&& b.account_id == form.account_id
                    &&& b.kind@ == "expense"@
                    &&& cents(dek@, b.amount@) == amount
                    &&& plain(dek@, b.category@) == plain(dek@, s.category@)
                    &&& food_category(
                        dek@,
                        categories@,
                        "expense"@,
                        plain(dek@, s.category@),
                    ) == Ok::<bool, ErrorView>(b.is_food)
                    &&& plain(dek@, b.note@) == expense_note(
                        plain(dek@, s.name@),
                        plain(dek@, s.note@),
                    )
                    &&& b.happened_at == now
                    &&& b.created_at == created_at
                    &&& renewed.expires_at == end
                    &&& *rate is Ok && is_worth(
                        amount as int,
                        cents(dek@, s.amount@),
                        rate->Ok_0.pair(),
                    )
                },
                (Err(error), Err(wanted)) => error@ == wanted,
                _ => false,
            },
        },
{
    let s = match find(subscriptions, id) {
        Some(s) => s,
        None => return Err(not_found("订阅不存在")),
    };
    if find(&book.accounts, form.account_id).is_none() {
        return Err(bad_request("付款账户不存在"));
    }
    let amount: i64 = match exchange(decrypt_cents(dek, &s.amount), rate) {
        Ok(amount) => amount,
        Err(error) => return Err(error),
    };
    let category = decrypt_string(dek, &s.category);
    let is_food = match category_is_food(dek, categories, "expense", &category) {
        Ok(is_food) => is_food,
        Err(error) => return Err(error),
    };
    let delta: i64 = match negated(amount) {
        Some(delta) => delta,
        None => return Err(bad_request("金额超出范围")),
    };
    match ensure_balance_delta(dek, book, form.account_id, delta) {
        Ok(_) => {},
        Err(error) => return Err(error),
    }
    let name = decrypt_string(dek, &s.name);
    let own_note = decrypt_string(dek, &s.note);
    let note = if own_note.as_str().is_empty() {
        join2("订阅：", &name)
    } else {
        join4("订阅：", &name, " · ", &own_note)
    };
    let expires_at = match renewed_expiry(s.expires_at, &s.period, now) {
        Ok(expires_at) => expires_at,
        Err(error) => return Err(error),
    };
    if !is_sealable(&category) || !is_sealable(&note) {
        return Err(text_too_long());
    }
    Ok(
        Renewal {
            bill: bill::Model {
                id: 0,
                account_id: form.account_id,
                kind: "expense".to_owned(),
                amount: encrypt_cents(dek, amount),
                category: encrypt_string(dek, &category),
                is_food,
                note: encrypt_string(dek, &note),
                happened_at: now,
                created_at,
            },
            expires_at,
        },
    )
}

/// A time as it is shown to people.
pub open spec fn display_text(time: DateTime) -> Seq<char> {
    date_text(time.date) + seq![' '] + padded(time.second as int / 3600, 2) + seq![':'] + padded(
        time.second as int / 60 % 60,
        2,
    )
}

fn display_time(time: DateTime) -> (r: String)
    ensures
        r@ == display_text(time),
{
    let mut s = date_to_text(time.date);
    s.push(' ');
    push_padded(&mut s, (time.second / 3600) as u128, 2);
    s.push(':');
    push_padded(&mut s, (time.second / 60 % 60) as u128, 2);
    proof {
        assert(s@ =~= display_text(time));
    }
    s
}

/// One line of the list of subscriptions.
pub struct SubscriptionRow {
    pub id: i64,
    pub name: String,
    pub amount: String,
    pub category: String,
    pub period_label: String,
    pub expires_at: String,
    pub note: String,
    pub expired: bool,
    pub due_soon: bool,
    pub status: String,
    pub period: String,
    pub currency: String,
    pub expires_at_value: DateTime,
}

/// One line of the list of subscriptions, as values.
pub struct SubscriptionView {
    pub id: i64,
    pub name: Seq<char>,
    pub amount: Seq<char>,
    pub category: Seq<char>,
    pub period_label: Seq<char>,
    pub expires_at: Seq<char>,
    pub note: Seq<char>,
    pub expired: bool,
    pub due_soon: bool,
    pub status: Seq<char>,
    pub period: Seq<char>,
    pub currency: Seq<char>,
    pub expires_at_value: DateTime,
}

impl View for SubscriptionRow {
    type V = SubscriptionView;

    open spec fn view(&self) -> SubscriptionView {
        SubscriptionView {
            id: self.id,
            name: self.name@,
            amount: self.amount@,
            category: self.category@,
            period_label: self.period_label@,
            expires_at: self.expires_at@,
            note: self.note@,
            expired: self.expired,
            due_soon: self.due_soon,
            status: self.status@,
            period: self.period@,
            currency: self.currency@,
            expires_at_value: self.expires_at_value,
        }
    }
}

/// The lines of a list of rows.
pub open spec fn row_views(rows: Seq<SubscriptionRow>) -> Seq<SubscriptionView> {
    Seq::new(rows.len(), |i: int| rows[i]@)
}

/// The line of a subscription: it is over, it ends by `soon`, or it runs on.
pub open spec fn subscription_line(
    dek: Seq<u8>,
    s: subscription::Model,
    now: DateTime,
    soon: DateTime,
) -> SubscriptionView {
    let expired = s.expires_at.key() < now.key();
    let due_soon = !expired && s.expires_at.key() <= soon.key();
    SubscriptionView {
        id: s.id,
        name: plain(dek, s.name@),
        amount: amount_text(cents(dek, s.amount@), s.currency@),
        category: plain(dek, s.category@),
        period_label: period_name(s.period@),
        expires_at: display_text(s.expires_at),
        note: plain(dek, s.note@),
        expired,
        due_soon,
        status: if expired {
            "已到期"@
        } else if due_soon {
            "7 天内到期"@
        } else {
            "有效"@
        },
        period: s.period@,
        currency: s.currency@,
        expires_at_value: s.expires_at,
    }
}

fn subscription_row(dek: &Dek, s: &subscription::Model, now: DateTime, soon: DateTime) -> (r:
    SubscriptionRow)
    ensures
        r@ == subscription_line(dek@, *s, now, soon),
{
    let expired = s.expires_at.before(now);
    let due_soon = !expired && !soon.before(s.expires_at);
    SubscriptionRow {
        id: s.id,
        name: decrypt_string(dek, &s.name),
        amount: crate::currency::format(decrypt_cents(dek, &s.amount), &s.currency),
        category: decrypt_string(dek, &s.category),
        period_label: period_label(&s.period).to_owned(),
        expires_at: display_time(s.expires_at),
        note: decrypt_string(dek, &s.note),
        expired,
        due_soon,
        status: (if expired {
            "已到期"
        } else if due_soon {
            "7 天内到期"
        } else {
            "有效"
        }).to_owned(),
        period: s.period.clone(),
        currency: s.currency.clone(),
        expires_at_value: s.expires_at,
    }
}

/// What a search among subscriptions looks for, as values.
pub struct QueryView {
    pub page: usize,
    pub per_page: usize,
    pub mode: Seq<char>,
    pub keyword: Seq<char>,
    pub status: Seq<char>,
    pub period: Seq<char>,
    pub currency: Seq<char>,
    pub category: Seq<char>,
    pub start_date: Seq<char>,
    pub end_date: Seq<char>,
}

impl View for SubscriptionsQuery {
    type V = QueryView;

    open spec fn view(&self) -> QueryView {
        QueryView {
            page: self.page,
            per_page: self.per_page,
            mode: self.mode@,
            keyword: self.keyword@,
            status: self.status@,
            period: self.period@,
            currency: self.currency@,
            category: self.category@,
            start_date: self.start_date@,
            end_date: self.end_date@,
        }
    }
}

/// A text kept only under a condition.
pub open spec fn kept_if(condition: bool, s: Seq<char>) -> Seq<char> {
    if condition {
        s
    } else {
        Seq::empty()
    }
}

/// The states that can be searched for.
pub open spec fn is_state(s: Seq<char>) -> bool {
    s == "active"@ || s == "due_soon"@ || s == "expired"@
}

/// The part of a query that counts: outside the advanced search only its keyword, and states,
/// periods and currencies only where they can be searched for.
pub open spec fn narrowed(q: QueryView, advanced: bool) -> QueryView {
    if advanced {
        QueryView {
            status: kept_if(is_state(q.status), q.status),
            period: kept_if(is_period(q.period), q.period),
            currency: kept_if(is_currency(q.currency), q.currency),
            ..q
        }
    } else {
        QueryView {
            page: q.page,
            per_page: q.per_page,
            mode: "and"@,
            keyword: q.keyword,
            status: Seq::empty(),
            period: Seq::empty(),
            currency: Seq::empty(),
            category: Seq::empty(),
            start_date: Seq::empty(),
            end_date: Seq::empty(),
        }
    }
}

fn keep_if(condition: bool, s: String) -> (r: String)
    ensures
        r@ == kept_if(condition, s@),
{
    if condition {
        s
    } else {
        String::new()
    }
}

fn narrow_query(query: SubscriptionsQuery, advanced_search: bool) -> (r: SubscriptionsQuery)
    ensures
        r@ == narrowed(query@, advanced_search),
{
    if advanced_search {
        let state = same(&query.status, "active") || same(&query.status, "due_soon") || same(
            &query.status,
            "expired",
        );
        let period = valid_period(&query.period);
        let currency = valid(&query.currency);
        SubscriptionsQuery {
            page: query.page,
            per_page: query.per_page,
            mode: query.mode,
            keyword: query.keyword,
            status: keep_if(state, query.status),
            period: keep_if(period, query.period),
            currency: keep_if(currency, query.currency),
            category: query.category,
            start_date: query.start_date,
            end_date: query.end_date,
        }
    } else {
        SubscriptionsQuery {
            page: query.page,
            per_page: query.per_page,
            mode: "and".to_owned(),
            keyword: query.keyword,
            status: String::new(),
            period: String::new(),
            currency: String::new(),
            category: String::new(),
            start_date: String::new(),
            end_date: String::new(),
        }
    }
}

/// The days of a query, or the refusal.
pub open spec fn days_of(q: QueryView) -> Result<(Option<Date>, Option<Date>), ErrorView> {
    match search_date(q.start_date, "开始日期"@) {
        Err(e) => Err(e),
        Ok(start) => match search_date(q.end_date, "结束日期"@) {
            Err(e) => Err(e),
            Ok(end) => if crossed_days(start, end) {
                Err(bad("开始日期不能晚于结束日期"@))
            } else {
                Ok((start, end))
            },
        },
    }
}

fn read_days(query: &SubscriptionsQuery) -> (r: HandlerResult<(Option<Date>, Option<Date>)>)
    ensures
        agrees(r, days_of(query@)),
{
    let start = match parse_search_date(&query.start_date, "开始日期") {
        Ok(date) => date,
        Err(error) => return Err(error),
    };
    let end = match parse_search_date(&query.end_date, "结束日期") {
        Ok(date) => date,
        Err(error) => return Err(error),
    };
    if let (Some(a), Some(b)) = (start, end) {
        if a.days > b.days {
            return Err(bad_request("开始日期不能晚于结束日期"));
        }
    }
    Ok((start, end))
}

/// The text of a line that a keyword is looked for in.
pub open spec fn searched(row: SubscriptionView) -> Seq<char> {
    row.name + " "@ + row.category + " "@ + row.note + (" "@ + row.period_label + " "@
        + row.currency + (" "@ + row.status))
}

/// What the conditions of a search say of a line, each where the search has it.
pub open spec fn conditions(
    q: QueryView,
    days: (Option<Date>, Option<Date>),
    row: SubscriptionView,
) -> Seq<Option<bool>> {
    let keyword = lower_text(trimmed(q.keyword));
    let category = lower_text(trimmed(q.category));
    seq![
        if keyword.len() > 0 {
            Some(has_part(lower_text(searched(row)), keyword))
        } else {
            None
        },
        if q.status.len() > 0 {
            Some(
                if q.status == "expired"@ {
                    row.expired
                } else if q.status == "due_soon"@ {
                    row.due_soon
                } else if q.status == "active"@ {
                    !row.expired && !row.due_soon
                } else {
                    true
                },
            )
        } else {
            None
        },
        if q.period.len() > 0 {
            Some(row.period == q.period)
        } else {
            None
        },
        if q.currency.len() > 0 {
            Some(row.currency == q.currency)
        } else {
            None
        },
        if category.len() > 0 {
            Some(lower_text(row.category) == category)
        } else {
            None
        },
        if days.0 is Some || days.1 is Some {
            Some(between_days(row.expires_at_value.date, days.0, days.1))
        } else {
            None
        },
    ]
}

fn matches_row(
    row: &SubscriptionRow,
    query: &SubscriptionsQuery,
    keyword: &str,
    category_filter: &str,
    start: Option<Date>,
    end: Option<Date>,
) -> (r: bool)
    requires
        keyword@ == lower_text(trimmed(query.keyword@)),
        category_filter@ == lower_text(trimmed(query.category@)),
    ensures
        r == combined(conditions(query@, (start, end), row@), query.mode@ == "or"@),
{
    let word = if !keyword.is_empty() {
        let front = join5(&row.name, " ", &row.category, " ", &row.note);
        let middle = join4(" ", &row.period_label, " ", &row.currency);
        let back = join2(&middle, &join2(" ", &row.status));
        Some(contains(&lowercase(&join2(&front, &back)), keyword))
    } else {
        None
    };
    let status = if !query.status.as_str().is_empty() {
        Some(
            if same(&query.status, "expired") {
                row.expired
            } else if same(&query.status, "due_soon") {
                row.due_soon
            } else if same(&query.status, "active") {
                !row.expired && !row.due_soon
            } else {
                true
            },
        )
    } else {
        None
    };
    let period = if !query.period.as_str().is_empty() {
        Some(same(&row.period, &query.period))
    } else {
        None
    };
    let currency = if !query.currency.as_str().is_empty() {
        Some(same(&row.currency, &query.currency))
    } else {
        None
    };
    let category = if !category_filter.is_empty() {
        Some(same(&lowercase(&row.category), category_filter))
    } else {
        None
    };
    let days = if start.is_some() || end.is_some() {
        Some(day_allowed(row.expires_at_value.date, start, end))
    } else {
        None
    };
    let all = vec![word, status, period, currency, category, days];
    proof {
        assert(all@ =~= conditions(query@, (start, end), row@));
    }
    combine(&all, same(&query.mode, "or"))
}

/// The subscriptions among the first `n` that a search finds.
pub open spec fn subscriptions_found(
    dek: Seq<u8>,
    subscriptions: Seq<subscription::Model>,
    q: QueryView,
    days: (Option<Date>, Option<Date>),
    now: DateTime,
    soon: DateTime,
    n: int,
) -> Seq<SubscriptionView>
    decreases n,
{
    if n <= 0 {
        Seq::empty()
    } else {
        let row = subscription_line(dek, subscriptions[n - 1], now, soon);
        let front = subscriptions_found(dek, subscriptions, q, days, now, soon, n - 1);
        if combined(conditions(q, days, row), q.mode == "or"@) {
            front.push(row)
        } else {
            front
        }
    }
}

/// The number of lines that are over, and of lines that end soon.
pub open spec fn state_counts(rows: Seq<SubscriptionView>) -> (int, int)
    decreases rows.len(),
{
    if rows.len() == 0 {
        (0, 0)
    } else {
        let (expired, due) = state_counts(rows.drop_last());
        (
            if rows.last().expired {
                expired + 1
            } else {
                expired
            },
            if rows.last().due_soon {
                due + 1
            } else {
                due
            },
        )
    }
}

/// The page of the subscriptions.
pub struct SubscriptionsPage {
    pub page_heading: String,
    pub search_action: String,
    pub subscriptions: Vec<SubscriptionRow>,
    pub due_soon_count: usize,
    pub expired_count: usize,
    pub mode: String,
    pub query: SubscriptionsQuery,
    pub has_filters: bool,
    pub categories: Vec<String>,
    pub total_records: usize,
}

/// The page of the subscriptions shows these values.
pub open spec fn is_subscriptions_page(
    page: SubscriptionsPage,
    dek: Seq<u8>,
    subscriptions: Seq<subscription::Model>,
    categories: Seq<category::Model>,
    q: QueryView,
    days: (Option<Date>, Option<Date>),
    advanced: bool,
    now: DateTime,
    soon: DateTime,
    shown: Page,
) -> bool {
    let rows = subscriptions_found(
        dek,
        subscriptions,
        q,
        days,
        now,
        soon,
        subscriptions.len() as int,
    );
    &&& page.page_heading@ == (if advanced {
        "订阅高级搜索"@
    } else {
        "订阅服务"@
    })
    &&& page.search_action@ == (if advanced {
        "/subscriptions/search"@
    } else {
        "/subscriptions"@
    })
    &&& row_views(page.subscriptions@) == page_of(
        rows,
        shown.start as int,
        shown.per_page as int,
    )
    &&& state_counts(rows) == (page.expired_count as int, page.due_soon_count as int)
    &&& page.mode@ == (if q.mode == "or"@ {
        "or"@
    } else {
        "and"@
    })
    &&& page.query@ == q
    &&& page.has_filters == (lower_text(trimmed(q.keyword)).len() > 0 || q.status.len() > 0
        || q.period.len() > 0 || q.currency.len() > 0 || lower_text(trimmed(q.category)).len() > 0
        || days.0 is Some || days.1 is Some)
    &&& crate::text::views(page.categories@) == expense_names(
        dek,
        categories,
        categories.len() as int,
    )
    &&& page.total_records == rows.len()
}

/// The page of the subscriptions: which are over, which end within seven days and which run on.
pub fn render_list(
    dek: &Dek,
    subscriptions: &Vec<subscription::Model>,
    categories: &Vec<category::Model>,
    query: SubscriptionsQuery,
    advanced_search: bool,
    now: DateTime,
    shown: Page,
) -> (r: HandlerResult<SubscriptionsPage>)
    requires
        later_by_days(now, 7) is Some,
    ensures
        ({
            let q = narrowed(query@, advanced_search);
            match (r, days_of(q)) {
                (Ok(page), Ok(days)) => is_subscriptions_page(
                    page,
                    dek@,
                    subscriptions@,
                    categories@,
                    q,
                    days,
                    advanced_search,
                    now,
                    later_by_days(now, 7)->0,
                    shown,
                ),
                (Err(error), Err(wanted)) => error@ == wanted,
                _ => false,
            }
        }),
{
    let query = narrow_query(query, advanced_search);
    let (start, end) = match read_days(&query) {
        Ok(days) => days,
        Err(error) => return Err(error),
    };
    let soon = match now.add_days(7) {
        Some(soon) => soon,
        None => now,
    };
    let keyword = lowercase(query.keyword.as_str().trim());
    let category_filter = lowercase(query.category.as_str().trim());
    let mut rows: Vec<SubscriptionRow> = Vec::new();
    let mut expired_count: usize = 0;
    let mut due_soon_count: usize = 0;
    let mut i: usize = 0;
    proof {
        assert(row_views(rows@) =~= Seq::empty());
    }
    while i < subscriptions.len()
        invariant
            i <= subscriptions.len(),
            keyword@ == lower_text(trimmed(query.keyword@)),
            category_filter@ == lower_text(trimmed(query.category@)),
            expired_count <= i,
            due_soon_count <= i,
            row_views(rows@) == subscriptions_found(
                dek@,
                subscriptions@,
                query@,
                (start, end),
                now,
                soon,
                i as int,
            ),
            state_counts(row_views(rows@)) == (expired_count as int, due_soon_count as int),
        decreases subscriptions.len() - i,
    {
        let row = subscription_row(dek, &subscriptions[i], now, soon);
        let ghost before = rows@;
        let ghost line = row@;
        if matches_row(&row, &query, &keyword, &category_filter, start, end) {
            if row.expired {
                expired_count = expired_count + 1;
            }
            if row.due_soon {
                due_soon_count = due_soon_count + 1;
            }
            rows.push(row);
            proof {
                assert(row_views(rows@) =~= row_views(before).push(line));
                assert(row_views(rows@).drop_last() =~= row_views(before));
            }
        }
        i = i + 1;
    }
    let total_records: usize = rows.len();
    let ghost found_rows = rows@;
    let shown_rows = take_page(rows, shown.start, shown.per_page);
    proof {
        assert(row_views(shown_rows@) =~= page_of(
            row_views(found_rows),
            shown.start as int,
            shown.per_page as int,
        ));
    }
    let has_filters = !keyword.as_str().is_empty() || !query.status.as_str().is_empty()
        || !query.period.as_str().is_empty() || !query.currency.as_str().is_empty()
        || !category_filter.as_str().is_empty() || start.is_some() || end.is_some();
    Ok(
        SubscriptionsPage {
            page_heading: (if advanced_search {
                "订阅高级搜索"
            } else {
                "订阅服务"
            }).to_owned(),
            search_action: (if advanced_search {
                "/subscriptions/search"
            } else {
                "/subscriptions"
            }).to_owned(),
            subscriptions: shown_rows,
            due_soon_count,
            expired_count,
            mode: (if same(&query.mode, "or") {
                "or"
            } else {
                "and"
            }).to_owned(),
            query,
            has_filters,
            categories: expense_categories(dek, categories),
            total_records,
        },
    )
}

/// Paying for a subscription stores an expense of the nearest cent to its price at the rate, on the
/// account that pays, which may have the balance that is left, and moves the end of the subscription
/// on by one period.
pub proof fn payment_buys_one_period(
    dek: &Dek,
    book: &Book,
    categories: &Vec<category::Model>,
    subscriptions: &Vec<subscription::Model>,
    id: i64,
    form: &CreateExpenseFormData,
    rate: &Result<Dec, String>,
    now: DateTime,
    created_at: DateTime,
    paid: Renewal,
    period: &str,
    end: HandlerResult<DateTime>,
)
    requires
        *rate matches Ok(d) ==> d.wf(),
        call_ensures(
            create_expense,
            (dek, book, categories, subscriptions, id, form, rate, now, created_at),
            Ok(paid),
        ),
        found(subscriptions@, id) is Some ==> period@ == found(subscriptions@, id)->0.period@
            && call_ensures(
            renewed_expiry,
            (found(subscriptions@, id)->0.expires_at, period, now),
            end,
        ),
    ensures
        ({
            let s = found(subscriptions@, id)->0;
            let amount = cents(dek@, paid.bill.amount@);
            &&& found(subscriptions@, id) is Some
            &&& *rate is Ok && is_worth(amount, cents(dek@, s.amount@), rate->Ok_0.pair())
            &&& paid.bill.kind@ == "expense"@
            &&& paid.bill.account_id == form.account_id
            &&& plain(dek@, paid.bill.category@) == plain(dek@, s.category@)
            &&& paid.bill.happened_at == now
            &&& (end matches Ok(time) && time == paid.expires_at)
            &&& (balance(dek@, *book, form.account_id) matches Ok(b) && allowed(
                dek@,
                *book,
                form.account_id,
                b - amount,
            ) is Ok)
        }),
{
}

/// The page of the subscriptions, where nothing is looked for, shows all of them, and counts those
/// that ended before now and those that end from now on to the same time seven days later.
pub proof fn subscriptions_are_counted(
    dek: &Dek,
    subscriptions: &Vec<subscription::Model>,
    categories: &Vec<category::Model>,
    query: SubscriptionsQuery,
    advanced_search: bool,
    now: DateTime,
    shown: Page,
    page: SubscriptionsPage,
)
    requires
        later_by_days(now, 7) is Some,
        call_ensures(
            render_list,
            (dek, subscriptions, categories, query, advanced_search, now, shown),
            Ok(page),
        ),
        !page.has_filters,
    ensures
        page.total_records == subscriptions@.len(),
        page.expired_count == total(
            ended(subscriptions@, |end: DateTime| end.key() < now.key(), subscriptions@.len() as int),
        ),
        page.due_soon_count == total(
            ended(
                subscriptions@,
                |end: DateTime|
                    now.key() <= end.key() <= DateTime {
                        date: Date { days: (now.date.days + 7) as i32 },
                        ..now
                    }.key(),
                subscriptions@.len() as int,
            ),
        ),
{
    let soon = later_by_days(now, 7)->0;
    let q = narrowed(query@, advanced_search);
    let days = days_of(q)->Ok_0;
    let n = subscriptions@.len() as int;
    all_found(dek@, subscriptions@, q, days, now, soon, n);
    let (f, g) = (
        |end: DateTime| end.key() < now.key(),
        |end: DateTime|
            now.key() <= end.key() <= DateTime {
                date: Date { days: (now.date.days + 7) as i32 },
                ..now
            }.key(),
    );
    assert(soon == DateTime { date: Date { days: (now.date.days + 7) as i32 }, ..now });
    counts_are_totals(dek@, subscriptions@, q, days, now, soon, f, g, n);
}

/// One for each of the first `n` subscriptions whose end a condition picks, else nothing.
pub open spec fn ended(
    subscriptions: Seq<subscription::Model>,
    which: spec_fn(DateTime) -> bool,
    n: int,
) -> Seq<int> {
    Seq::new(
        n as nat,
        |i: int|
            if which(subscriptions[i].expires_at) {
                1
            } else {
                0
            },
    )
}

proof fn all_found(
    dek: Seq<u8>,
    subscriptions: Seq<subscription::Model>,
    q: QueryView,
    days: (Option<Date>, Option<Date>),
    now: DateTime,
    soon: DateTime,
    n: int,
)
    requires
        0 <= n <= subscriptions.len(),
        lower_text(trimmed(q.keyword)).len() == 0,
        q.status.len() == 0,
        q.period.len() == 0,
        q.currency.len() == 0,
        lower_text(trimmed(q.category)).len() == 0,
        days.0 is None,
        days.1 is None,
    ensures
        subscriptions_found(dek, subscriptions, q, days, now, soon, n).len() == n,
        forall|i: int|
            0 <= i < n ==> #[trigger] subscriptions_found(
                dek,
                subscriptions,
                q,
                days,
                now,
                soon,
                n,
            )[i] == subscription_line(dek, subscriptions[i], now, soon),
    decreases n,
{
    if n > 0 {
        all_found(dek, subscriptions, q, days, now, soon, n - 1);
        let row = subscription_line(dek, subscriptions[n - 1], now, soon);
        let c = conditions(q, days, row);
        assert forall|i: int| 0 <= i < c.len() implies (#[trigger] c[i]) is None by {
            assert(c[0] is None && c[1] is None && c[2] is None && c[3] is None && c[4] is None
                && c[5] is None);
        }
    }
}

proof fn counts_are_totals(
    dek: Seq<u8>,
    subscriptions: Seq<subscription::Model>,
    q: QueryView,
    days: (Option<Date>, Option<Date>),
    now: DateTime,
    soon: DateTime,
    f: spec_fn(DateTime) -> bool,
    g: spec_fn(DateTime) -> bool,
    n: int,
)
    requires
        0 <= n <= subscriptions.len(),
        lower_text(trimmed(q.keyword)).len() == 0,
        q.status.len() == 0,
        q.period.len() == 0,
        q.currency.len() == 0,
        lower_text(trimmed(q.category)).len() == 0,
        days.0 is None,
        days.1 is None,
        forall|end: DateTime| #[trigger] f(end) <==> end.key() < now.key(),
        forall|end: DateTime| #[trigger] g(end) <==> now.key() <= end.key() <= soon.key(),
    ensures
        state_counts(subscriptions_found(dek, subscriptions, q, days, now, soon, n)) == (
            total(ended(subscriptions, f, n)),
            total(ended(subscriptions, g, n)),
        ),
    decreases n,
{
    all_found(dek, subscriptions, q, days, now, soon, n);
    if n > 0 {
        all_found(dek, subscriptions, q, days, now, soon, n - 1);
        counts_are_totals(dek, subscriptions, q, days, now, soon, f, g, n - 1);
        let rows = subscriptions_found(dek, subscriptions, q, days, now, soon, n);
        let front = subscriptions_found(dek, subscriptions, q, days, now, soon, n - 1);
        assert(rows.drop_last() =~= front);
        assert(rows[n - 1] == rows.last());
        assert(ended(subscriptions, f, n).drop_last() =~= ended(subscriptions, f, n - 1));
        assert(ended(subscriptions, g, n).drop_last() =~= ended(subscriptions, g, n - 1));
        assert(f(subscriptions[n - 1].expires_at) == rows[n - 1].expired);
        assert(g(subscriptions[n - 1].expires_at) == rows[n - 1].due_soon);
    }
}

/// A search for all conditions finds only subscriptions that keep to each of them: with the keyword in
/// one of the texts, in the state, with the period, the currency and the category that are looked for,
/// and with an end from the first day to the last one.
pub proof fn search_keeps_to_its_conditions(
    q: QueryView,
    days: (Option<Date>, Option<Date>),
    row: SubscriptionView,
)
    requires
        combined(conditions(q, days, row), false),
    ensures
        lower_text(trimmed(q.keyword)).len() > 0 ==> has_part(
            lower_text(searched(row)),
            lower_text(trimmed(q.keyword)),
        ),
        q.status == "expired"@ ==> row.expired,
        q.status == "due_soon"@ ==> row.due_soon,
        q.status == "active"@ ==> !row.expired && !row.due_soon,
        q.period.len() > 0 ==> row.period == q.period,
        q.currency.len() > 0 ==> row.currency == q.currency,
        lower_text(trimmed(q.category)).len() > 0 ==> lower_text(row.category) == lower_text(
            trimmed(q.category),
        ),
        days.0 is Some ==> row.expires_at_value.date.days >= days.0->0.days,
        days.1 is Some ==> row.expires_at_value.date.days <= days.1->0.days,
{
    reveal_strlit("expired");
    reveal_strlit("due_soon");
    reveal_strlit("active");
    assert("expired"@.len() == 7 && "due_soon"@.len() == 8 && "active"@.len() == 6);
    let c = conditions(q, days, row);
    assert(c[0] != Some(false) && c[1] != Some(false) && c[2] != Some(false) && c[3] != Some(false)
        && c[4] != Some(false) && c[5] != Some(false)) by {
        if forall|i: int| 0 <= i < c.len() ==> (#[trigger] c[i]) is None {
            assert(c[0] is None && c[1] is None && c[2] is None && c[3] is None && c[4] is None
                && c[5] is None);
        }
    }
}

} // verus!
