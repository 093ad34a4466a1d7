//! The overview: what there is, what is due, and what was earned and spent lately.
use vstd::prelude::*;
use vstd::string::*;

use crate::book::{find, found, Book};
use crate::calendar::{
    date_text, date_to_text, in_calendar, later_by_days, month_day_text, month_day_to_text,
    has_parts, month_of, parts, parts_of, plus_months, time_text, time_to_text, year_of, Date, DateTime,
};
use crate::crypto::{cents, decrypt_cents, decrypt_string, plain, Dek};
use crate::currency::{amount_text, is_worth, is_worth_in, rate_of, RateTable};
use crate::decimal::{decimal_text, decimal_to_text, fits_i64, padded, push_padded};
use crate::entity::{
    account, account_detail, bill, budget, category, debt_record, installment_item, installment_plan,
    subscription,
};
use crate::error::{
    agrees, arithmetic_overflow, err500, internal, overflowed, ErrorView, HandlerResult,
};
use crate::handlers::accounts::{balance, credit_kind, current_balance, is_credit};
use crate::handlers::bills::{
    account_choices, are_accounts, are_categories, category_options, converts, currency_of,
    find_currency, in_default, people_options, shown_account, shown_account_of, to_default, AccountOption,
    CategoryOption, PersonOption,
};
use crate::handlers::budgets::{
    are_statuses, current_statuses, is_percent, percent_of, percentage, saturated, BudgetStatus,
};
use crate::handlers::debts::{apply_outstanding, owed_with, record_amount, DebtSource};
use crate::handlers::installments::{bill_title, bill_title_of};
use crate::handlers::MaskedDetail;
use crate::text::{int_text, int_to_text, join2, join3, join4, same};
use crate::totals::{checked_total, checked_total_is_total, checked_total_stops, total};

verus! {

/// The short name of a kind of account.
pub open spec fn short_label(kind: Seq<char>) -> Seq<char> {
    if kind == "payment"@ {
        "支付"@
    } else if kind == "bank"@ {
        "银行"@
    } else if kind == "stored_value"@ {
        "储值卡"@
    } else if kind == "credit_card"@ {
        "信用卡"@
    } else if kind == "credit_service"@ {
        "信贷服务"@
    } else if kind == "investment"@ {
        "投资"@
    } else {
        "其他"@
    }
}

pub fn account_kind_label(kind: &str) -> (r: &'static str)
    ensures
        r@ == short_label(kind@),
{
    if same(kind, "payment") {
        "支付"
    } else if same(kind, "bank") {
        "银行"
    } else if same(kind, "stored_value") {
        "储值卡"
    } else if same(kind, "credit_card") {
        "信用卡"
    } else if same(kind, "credit_service") {
        "信贷服务"
    } else if same(kind, "investment") {
        "投资"
    } else {
        "其他"
    }
}

/// An account with its balance.
pub struct AccountSummary {
    pub name: String,
    pub kind: String,
    pub balance: String,
}

/// How much of its limit a credit service has used.
pub struct CreditServiceSummary {
    pub name: String,
    pub balance: String,
    pub used: String,
    pub available: String,
    pub limit: String,
    pub usage_percent: i64,
    pub danger: bool,
}

/// What the overview of the accounts is made of.
pub struct AssetSource {
    pub dek: Seq<u8>,
    pub book: Book,
    pub masks: Seq<MaskedDetail>,
    pub rates: RateTable,
}

/// What the first `n` accounts hold in the default currency, or the refusal.
pub open spec fn assets(s: AssetSource, n: int) -> Result<int, ErrorView>
    decreases n,
{
    if n <= 0 {
        Ok(0)
    } else {
        match assets(s, n - 1) {
            Err(e) => Err(e),
            Ok(sum) => {
                let a = s.book.accounts@[n - 1];
                match balance(s.dek, s.book, a.id) {
                    Err(e) => Err(e),
                    Ok(now) => match in_default(s.rates, now as int, a.currency@) {
                        Err(e) => Err(e),
                        Ok(worth) => if fits_i64(sum + worth) {
                            Ok(sum + worth)
                        } else {
                            Err(internal("资产金额超出范围"@))
                        },
                    },
                }
            },
        }
    }
}

/// What an account holds in the default currency.
pub open spec fn worth_of(s: AssetSource, a: account::Model) -> int {
    in_default(s.rates, balance(s.dek, s.book, a.id)->Ok_0 as int, a.currency@)->Ok_0 as int
}

/// What each of the first `n` accounts holds is the nearest cent to its balance at the rate of its
/// currency.
pub open spec fn assets_are_worth(s: AssetSource, n: int) -> bool {
    forall|i: int|
        0 <= i < n ==> is_worth_in(
            worth_of(s, #[trigger] s.book.accounts@[i]),
            s.rates,
            balance(s.dek, s.book, s.book.accounts@[i].id)->Ok_0 as int,
            s.book.accounts@[i].currency@,
        )
}

proof fn assets_are_total(s: AssetSource, n: int)
    requires
        0 <= n <= s.book.accounts@.len(),
        assets(s, n) is Ok,
    ensures
        assets(s, n)->Ok_0 == total(
            s.book.accounts@.take(n).map_values(|a: account::Model| worth_of(s, a)),
        ),
        forall|i: int|
            0 <= i < n ==> balance(s.dek, s.book, (#[trigger] s.book.accounts@[i]).id) is Ok,
    decreases n,
{
    let f = |a: account::Model| worth_of(s, a);
    let list = s.book.accounts@;
    if n > 0 {
        assets_are_total(s, n - 1);
        assert(list.take(n).map_values(f).drop_last() =~= list.take(n - 1).map_values(f));
    }
}

/// Net assets are the sum over the accounts of what each is worth, which is the nearest cent to its
/// balance times the rate of its currency: an account more adds exactly what it is worth, and a
/// single account is all there is.
pub proof fn net_assets_are_what_the_accounts_are_worth(
    dek: &Dek,
    book: &Book,
    masks: &Vec<MaskedDetail>,
    rates: &RateTable,
    a: Assets,
) -> (worths: Seq<int>)
    requires
        rates.wf(),
        call_ensures(sum_assets, (dek, book, masks, rates), Ok(a)),
    ensures
        worths.len() == book.accounts@.len(),
        a.net_assets == total(worths),
        worths.len() == 1 ==> a.net_assets == worths[0],
        worths.len() > 0 ==> a.net_assets == total(worths.drop_last()) + worths.last(),
        forall|i: int|
            #![trigger worths[i]]
            0 <= i < worths.len() ==> balance(dek@, *book, book.accounts@[i].id) is Ok && (rate_of(
                rates.rates@,
                book.accounts@[i].currency@,
            ) matches Some(rate) && is_worth(
                worths[i],
                balance(dek@, *book, book.accounts@[i].id)->Ok_0 as int,
                rate.pair(),
            )),
{
    let s = AssetSource { dek: dek@, book: *book, masks: masks@, rates: *rates };
    let n = book.accounts@.len() as int;
    let f = |a: account::Model| worth_of(s, a);
    let worths = book.accounts@.map_values(f);
    assets_are_total(s, n);
    assert(book.accounts@.take(n) =~= book.accounts@);
    reveal_with_fuel(total, 3);
    worths
}

/// The overview shows every credit service: what it is owed is what the balance is below zero, what
/// is available is what that leaves of the limit, the usage is how many whole hundredths of the limit
/// are used, at most all of them, and it is in danger once no more than a fifth of the limit is left.
pub proof fn credit_services_show_what_is_left(
    dek: &Dek,
    book: &Book,
    masks: &Vec<MaskedDetail>,
    rates: &RateTable,
    a: Assets,
    i: int,
) -> (service: account::Model)
    requires
        rates.wf(),
        call_ensures(sum_assets, (dek, book, masks, rates), Ok(a)),
        0 <= i < a.services@.len(),
    ensures
        book.accounts@.contains(service),
        service.kind@ == "credit_service"@,
        ({
            let row = a.services@[i];
            let own = service.currency@;
            let now = balance(dek@, *book, service.id)->Ok_0;
            let limit = match found(book.details@, service.id) {
                Some(detail) => cents(dek@, detail.credit_limit@),
                None => 0,
            };
            &&& balance(dek@, *book, service.id) is Ok
            &&& row.balance@ == amount_text(now as int, own)
            &&& row.limit@ == amount_text(limit, own)
            &&& now >= 0 ==> row.used@ == amount_text(0, own)
            &&& i64::MIN < now < 0 ==> row.used@ == amount_text(-now, own)
            &&& i64::MIN < now <= 0 && 0 < limit + now ==> row.available@ == amount_text(
                limit + now,
                own,
            )
            &&& now <= 0 && limit + now <= 0 ==> row.available@ == amount_text(0, own) && row.danger
            &&& i64::MIN < now <= 0 && limit > 0 && -now <= limit ==> row.usage_percent * limit
                <= -100 * now < (row.usage_percent + 1) * limit && 0 <= row.usage_percent <= 100
            &&& i64::MIN < now <= 0 && limit > 0 && -now > limit ==> row.usage_percent == 100
            &&& i64::MIN < now <= 0 && limit > 0 && 0 < limit + now ==> row.danger == (5 * (limit
                + now) <= limit)
        }),
{
    let s = AssetSource { dek: dek@, book: *book, masks: masks@, rates: *rates };
    let n = book.accounts@.len() as int;
    let service = accounts_of(book.accounts@, true, n)[i];
    service_is_account(book.accounts@, n, i);
    assets_are_total(s, n);
    let k = choose|k: int| 0 <= k < n && book.accounts@[k] == service;
    assert(balance(dek@, *book, book.accounts@[k].id) is Ok);
    let now = balance(dek@, *book, service.id)->Ok_0 as int;
    let limit = limit_of(dek@, book.details@, service.id);
    if found(book.details@, service.id) is Some {
        crate::crypto::cents_fit(dek@, found(book.details@, service.id)->0.credit_limit@);
    }
    assert(is_service(a.services@[i], s, service));
    if limit > 0 && now <= 0 {
        let (u, q) = (-100 * now, (-100 * now) / limit);
        assert(q * limit <= u < (q + 1) * limit && q >= 0) by (nonlinear_arith)
            requires
                q == u / limit,
                limit > 0,
                u >= 0,
        ;
        if -now <= limit {
            assert(q <= 100) by (nonlinear_arith)
                requires
                    q * limit <= u,
                    u <= 100 * limit,
                    limit > 0,
            ;
        } else {
            assert(q >= 100) by (nonlinear_arith)
                requires
                    u < (q + 1) * limit,
                    u > 100 * limit,
                    limit > 0,
            ;
        }
        if now > i64::MIN {
            assert(used_of(now) == -now);
            assert(used_of(now) * 100 == u);
            assert(usage_of(limit, -now) == if q > 100 {
                100
            } else {
                q
            });
        }
    }
    let row = a.services@[i];
    if i64::MIN < now <= 0 {
        assert(row.used@ == amount_text(-now, service.currency@));
        if 0 < limit + now {
            assert(row.available@ == amount_text(limit + now, service.currency@));
            assert(limit > 0 ==> row.danger == (5 * (limit + now) <= limit));
        }
    }
    assert(now <= 0 && limit + now <= 0 ==> row.danger);
    service
}

proof fn service_is_account(accounts: Seq<account::Model>, n: int, i: int)
    requires
        0 <= n <= accounts.len(),
        0 <= i < accounts_of(accounts, true, n).len(),
    ensures
        accounts.contains(accounts_of(accounts, true, n)[i]),
        accounts_of(accounts, true, n)[i].kind@ == "credit_service"@,
    decreases n,
{
    if n > 0 {
        let front = accounts_of(accounts, true, n - 1);
        if i < front.len() {
            service_is_account(accounts, n - 1, i);
        } else {
            assert(accounts_of(accounts, true, n)[i] == accounts[n - 1]);
        }
    }
}

proof fn assets_stop(s: AssetSource, m: int, n: int)
    requires
        0 <= m <= n,
        assets(s, m) is Err,
    ensures
        assets(s, n) == assets(s, m),
    decreases n,
{
    if m < n {
        assets_stop(s, m, n - 1);
    }
}

/// The credit services among the first `n` accounts, or the other accounts.
pub open spec fn accounts_of(accounts: Seq<account::Model>, services: bool, n: int) -> Seq<
    account::Model,
>
    decreases n,
{
    if n <= 0 {
        Seq::empty()
    } else if (accounts[n - 1].kind@ == "credit_service"@) == services {
        accounts_of(accounts, services, n - 1).push(accounts[n - 1])
    } else {
        accounts_of(accounts, services, n - 1)
    }
}

/// The summary of an account shows these values.
pub open spec fn is_summary(row: AccountSummary, s: AssetSource, a: account::Model) -> bool {
    &&& row.name@ == shown_account(s.dek, s.book, s.masks, a.id)
    &&& row.kind@ == short_label(a.kind@)
    &&& row.balance@ == amount_text(balance(s.dek, s.book, a.id)->Ok_0 as int, a.currency@)
}

/// The limit of an account, zero where it has none.
pub open spec fn limit_of(dek: Seq<u8>, details: Seq<account_detail::Model>, id: i64) -> int {
    match found(details, id) {
        Some(d) => cents(dek, d.credit_limit@),
        None => 0,
    }
}

fn find_limit(dek: &Dek, details: &Vec<account_detail::Model>, id: i64) -> (r: i64)
    ensures
        r == limit_of(dek@, details@, id),
{
    match find(details, id) {
        Some(d) => decrypt_cents(dek, &d.credit_limit),
        None => 0,
    }
}

/// What is owed on a balance.
pub open spec fn used_of(balance: int) -> int {
    if balance >= 0 {
        0
    } else {
        saturated(-balance)
    }
}

/// What is left of a limit.
pub open spec fn available_of(limit: int, used: int) -> int {
    if limit - used <= 0 {
        0
    } else {
        saturated(limit - used)
    }
}

/// How much of a limit is used, in whole percent, at most a hundred.
pub open spec fn usage_of(limit: int, used: int) -> int {
    if limit > 0 {
        if used * 100 / limit > 100 {
            100
        } else {
            used * 100 / limit
        }
    } else if used > 0 {
        100
    } else {
        0
    }
}

/// The summary of a credit service shows these values. It is in danger once at most a fifth of
/// its limit is left.
pub open spec fn is_service(row: CreditServiceSummary, s: AssetSource, a: account::Model) -> bool {
    let now = balance(s.dek, s.book, a.id)->Ok_0;
    let limit = limit_of(s.dek, s.book.details@, a.id);
    let used = used_of(now as int);
    let available = available_of(limit, used);
    &&& row.name@ == shown_account(s.dek, s.book, s.masks, a.id)
    &&& row.balance@ == amount_text(now as int, a.currency@)
    &&& row.used@ == amount_text(used, a.currency@)
    &&& row.available@ == amount_text(available, a.currency@)
    &&& row.limit@ == amount_text(limit, a.currency@)
    &&& row.usage_percent == usage_of(limit, used)
    &&& row.danger == (available == 0 || (limit > 0 && available <= limit / 5))
}

fn service_row(
    dek: &Dek,
    book: &Book,
    masks: &Vec<MaskedDetail>,
    a: &account::Model,
    now: i64,
    Ghost(s): Ghost<AssetSource>,
) -> (r: CreditServiceSummary)
    requires
        s.dek == dek@,
        s.book == *book,
        s.masks == masks@,
        balance(dek@, *book, a.id) == Ok::<i64, ErrorView>(now),
    ensures
        is_service(r, s, *a),
{
    let limit: i64 = find_limit(dek, &book.details, a.id);
    let used: i64 = if now >= 0 {
        0
    } else if now == i64::MIN {
        i64::MAX
    } else {
        -now
    };
    let left: i128 = limit as i128 - used as i128;
    let available: i64 = if left <= 0 {
        0
    } else if left > i64::MAX as i128 {
        i64::MAX
    } else {
        left as i64
    };
    let usage_percent: i64 = if limit > 0 {
        let part: i128 = used as i128 * 100 / limit as i128;
        proof {
            let u = used * 100;
            let l = limit as int;
            assert(u / l >= 0) by (nonlinear_arith)
                requires
                    u >= 0,
                    l > 0,
            ;
        }
        if part > 100 {
            100
        } else {
            part as i64
        }
    } else if used > 0 {
        100
    } else {
        0
    };
    CreditServiceSummary {
        name: shown_account_of(dek, book, masks, a.id),
        balance: crate::currency::format(now, &a.currency),
        used: crate::currency::format(used, &a.currency),
        available: crate::currency::format(available, &a.currency),
        limit: crate::currency::format(limit, &a.currency),
        usage_percent,
        danger: available == 0 || (limit > 0 && available <= limit / 5),
    }
}

/// What the accounts hold: in all, and each on its own.
pub struct Assets {
    pub net_assets: i64,
    pub summaries: Vec<AccountSummary>,
    pub services: Vec<CreditServiceSummary>,
}

/// The overview of the accounts shows these values.
pub open spec fn are_assets(a: Assets, s: AssetSource, n: int) -> bool {
    let others = accounts_of(s.book.accounts@, false, n);
    let services = accounts_of(s.book.accounts@, true, n);
    &&& assets(s, n) == Ok::<int, ErrorView>(a.net_assets as int)
    &&& a.summaries@.len() == others.len()
    &&& forall|i: int|
        0 <= i < others.len() ==> is_summary(#[trigger] a.summaries@[i], s, others[i])
    &&& a.services@.len() == services.len()
    &&& forall|i: int|
        0 <= i < services.len() ==> is_service(#[trigger] a.services@[i], s, services[i])
}

/// What the accounts hold: in all in the default currency, and each on its own.
pub fn sum_assets(dek: &Dek, book: &Book, masks: &Vec<MaskedDetail>, rates: &RateTable) -> (r:
    HandlerResult<Assets>)
    requires
        rates.wf(),
    ensures
        ({
            let s = AssetSource { dek: dek@, book: *book, masks: masks@, rates: *rates };
            let n = book.accounts@.len() as int;
            match (r, assets(s, n)) {
                (Ok(a), Ok(_)) => are_assets(a, s, n) && assets_are_worth(s, n),
                (Err(error), Err(wanted)) => error@ == wanted,
                _ => false,
            }
        }),
{
    let ghost s = AssetSource { dek: dek@, book: *book, masks: masks@, rates: *rates };
    let ghost n = book.accounts@.len() as int;
    let mut net_assets: i64 = 0;
    let mut summaries: Vec<AccountSummary> = Vec::new();
    let mut services: Vec<CreditServiceSummary> = Vec::new();
    let mut i: usize = 0;
    while i < book.accounts.len()
        invariant
            i <= book.accounts@.len(),
            n == book.accounts@.len(),
            rates.wf(),
            s == (AssetSource { dek: dek@, book: *book, masks: masks@, rates: *rates }),
            assets(s, i as int) == Ok::<int, ErrorView>(net_assets as int),
            assets_are_worth(s, i as int),
            summaries@.len() == accounts_of(book.accounts@, false, i as int).len(),
            forall|j: int|
                0 <= j < summaries@.len() ==> is_summary(
                    #[trigger] summaries@[j],
                    s,
                    accounts_of(book.accounts@, false, i as int)[j],
                ),
            services@.len() == accounts_of(book.accounts@, true, i as int).len(),
            forall|j: int|
                0 <= j < services@.len() ==> is_service(
                    #[trigger] services@[j],
                    s,
                    accounts_of(book.accounts@, true, i as int)[j],
                ),
        decreases book.accounts@.len() - i,
    {
        let a = &book.accounts[i];
        let now: i64 = match current_balance(dek, book, a.id) {
            Ok(now) => now,
            Err(error) => {
                proof {
                    assets_stop(s, i + 1, n);
                }
                return Err(error);
            },
        };
        let worth: i64 = match to_default(rates, now, &a.currency) {
            Ok(worth) => worth,
            Err(error) => {
                proof {
                    assets_stop(s, i + 1, n);
                }
                return Err(error);
            },
        };
        match net_assets.checked_add(worth) {
            Some(sum) => {
                net_assets = sum;
            },
            None => {
                proof {
                    assets_stop(s, i + 1, n);
                }
                return Err(err500("资产金额超出范围"));
            },
        }
        if same(&a.kind, "credit_service") {
            services.push(service_row(dek, book, masks, a, now, Ghost(s)));
        } else {
            summaries.push(
                AccountSummary {
                    name: shown_account_of(dek, book, masks, a.id),
                    kind: account_kind_label(&a.kind).to_owned(),
                    balance: crate::currency::format(now, &a.currency),
                },
            );
        }
        i = i + 1;
    }
    Ok(Assets { net_assets, summaries, services })
}

/// Something that is due.
pub struct ReminderRow {
    pub title: String,
    pub detail: String,
    pub due_at: String,
    pub amount: String,
    pub url: String,
    pub overdue: bool,
}

/// A subscription that cannot be paid from the account it is bound to.
pub struct AutoDebitWarning {
    pub title: String,
    pub detail: String,
    pub amount: String,
    pub due_at: String,
    pub overdue: bool,
}

/// What a reminder says of the account that a subscription is bound to.
pub open spec fn debit_note(s: AssetSource, account_id: Option<i64>) -> Seq<char> {
    match account_id {
        Some(id) => if found(s.book.accounts@, id) is Some {
            " · 自动扣款："@ + shown_account(s.dek, s.book, s.masks, id)
        } else {
            Seq::empty()
        },
        None => Seq::empty(),
    }
}

/// The reminder of a subscription shows these values.
pub open spec fn is_subscription_reminder(
    row: ReminderRow,
    s: AssetSource,
    item: subscription::Model,
    now: DateTime,
) -> bool {
    &&& row.title@ == plain(s.dek, item.name@)
    &&& row.detail@ == plain(s.dek, item.category@) + " · "@ + item.currency@ + debit_note(
        s,
        item.auto_debit_account_id,
    )
    &&& row.due_at@ == time_text(item.expires_at)
    &&& row.amount@ == amount_text(cents(s.dek, item.amount@), item.currency@)
    &&& row.url@ == "/subscriptions"@
    &&& row.overdue == (item.expires_at.key() < now.key())
}

/// The subscriptions among the first `n` that end by a time.
pub open spec fn due_by(subscriptions: Seq<subscription::Model>, deadline: DateTime, n: int) -> Seq<
    subscription::Model,
>
    decreases n,
{
    if n <= 0 {
        Seq::empty()
    } else if subscriptions[n - 1].expires_at.key() <= deadline.key() {
        due_by(subscriptions, deadline, n - 1).push(subscriptions[n - 1])
    } else {
        due_by(subscriptions, deadline, n - 1)
    }
}

/// A number of days held between zero and thirty.
pub open spec fn check_days(days: int) -> int {
    if days < 0 {
        0
    } else if days > 30 {
        30
    } else {
        days
    }
}

/// The time has come to check whether a subscription can be paid.
pub open spec fn to_be_checked(item: subscription::Model, now: DateTime) -> bool {
    now.key() >= item.expires_at.key() - check_days(item.balance_check_days as int)
        * 0x1_0000_0000_0000_0000
}

/// What an account can pay with: its balance, and its limit on top of it where it grants credit.
pub open spec fn payable_from(s: AssetSource, a: account::Model) -> int {
    let now = balance(s.dek, s.book, a.id)->Ok_0 as int;
    if is_credit(a.kind@) {
        saturated(now + limit_of(s.dek, s.book.details@, a.id))
    } else {
        now
    }
}

/// Why a subscription cannot be paid from the account that it is bound to, where it cannot.
pub open spec fn debit_problem(s: AssetSource, item: subscription::Model, id: i64) -> Option<
    Seq<char>,
> {
    match found(s.book.accounts@, id) {
        None => Some("自动扣款账户已不存在，请重新配置"@),
        Some(a) => if a.currency@ != item.currency@ {
            Some("自动扣款账户与订阅货币不一致，请重新配置"@)
        } else if payable_from(s, a) < cents(s.dek, item.amount@) {
            let label = if is_credit(a.kind@) {
                "可用额度"@
            } else {
                "余额"@
            };
            Some(
                shown_account(s.dek, s.book, s.masks, a.id) + "的"@ + label + "仅有 "@
                    + amount_text(payable_from(s, a), a.currency@) + ("，不足以支付 "@
                    + amount_text(cents(s.dek, item.amount@), item.currency@)),
            )
        } else {
            None
        },
    }
}

/// What is wrong with a subscription that is due to be checked, where something is.
pub open spec fn warned(s: AssetSource, item: subscription::Model, now: DateTime) -> Option<
    Seq<char>,
> {
    match item.auto_debit_account_id {
        None => None,
        Some(id) => if to_be_checked(item, now) {
            debit_problem(s, item, id)
        } else {
            None
        },
    }
}

/// The subscriptions among the first `n` that are warned of.
pub open spec fn warnings_of(
    s: AssetSource,
    subscriptions: Seq<subscription::Model>,
    now: DateTime,
    n: int,
) -> Seq<subscription::Model>
    decreases n,
{
    if n <= 0 {
        Seq::empty()
    } else if warned(s, subscriptions[n - 1], now) is Some {
        warnings_of(s, subscriptions, now, n - 1).push(subscriptions[n - 1])
    } else {
        warnings_of(s, subscriptions, now, n - 1)
    }
}

/// The warning of a subscription shows these values.
pub open spec fn is_warning(
    row: AutoDebitWarning,
    s: AssetSource,
    item: subscription::Model,
    now: DateTime,
) -> bool {
    &&& row.title@ == plain(s.dek, item.name@)
    &&& Some(row.detail@) == warned(s, item, now)
    &&& row.amount@ == amount_text(cents(s.dek, item.amount@), item.currency@)
    &&& row.due_at@ == time_text(item.expires_at)
    &&& row.overdue == (item.expires_at.key() < now.key())
}

fn find_problem(
    dek: &Dek,
    book: &Book,
    masks: &Vec<MaskedDetail>,
    item: &subscription::Model,
    id: i64,
    Ghost(s): Ghost<AssetSource>,
) -> (r: Option<String>)
    requires
        s.dek == dek@,
        s.book == *book,
        s.masks == masks@,
        found(book.accounts@, id) matches Some(a) ==> balance(dek@, *book, a.id) is Ok,
    ensures
        match r {
            Some(text) => debit_problem(s, *item, id) == Some(text@),
            None => debit_problem(s, *item, id) is None,
        },
{
    let a = match find(&book.accounts, id) {
        None => return Some("自动扣款账户已不存在，请重新配置".to_owned()),
        Some(a) => a,
    };
    if !same(&a.currency, &item.currency) {
        return Some("自动扣款账户与订阅货币不一致，请重新配置".to_owned());
    }
    let now: i64 = match current_balance(dek, book, a.id) {
        Ok(now) => now,
        Err(_) => 0,
    };
    let amount: i64 = decrypt_cents(dek, &item.amount);
    let credit = credit_kind(&a.kind);
    let available: i64 = if credit {
        let sum: i128 = now as i128 + find_limit(dek, &book.details, a.id) as i128;
        if sum > i64::MAX as i128 {
            i64::MAX
        } else if sum < i64::MIN as i128 {
            i64::MIN
        } else {
            sum as i64
        }
    } else {
        now
    };
    if available < amount {
        let label = if credit {
            "可用额度"
        } else {
            "余额"
        };
        let name = shown_account_of(dek, book, masks, a.id);
        let front = join4(&name, "的", label, "仅有 ");
        let have = crate::currency::format(available, &a.currency);
        let need = join2("，不足以支付 ", &crate::currency::format(amount, &item.currency));
        Some(join3(&front, &have, &need))
    } else {
        None
    }
}

/// Accounts that could be added up each have a balance.
proof fn assets_know_balances(s: AssetSource, n: int)
    requires
        0 <= n <= s.book.accounts@.len(),
        assets(s, n) is Ok,
    ensures
        forall|i: int|
            0 <= i < n ==> balance(s.dek, s.book, (#[trigger] s.book.accounts@[i]).id) is Ok,
    decreases n,
{
    if n > 0 {
        assets_know_balances(s, n - 1);
    }
}

/// The reminders of subscriptions, and the warnings.
pub struct SubscriptionNotices {
    pub reminders: Vec<ReminderRow>,
    pub warnings: Vec<AutoDebitWarning>,
}

/// Every account has a balance.
pub open spec fn balances_known(dek: Seq<u8>, book: Book) -> bool {
    forall|i: int|
        0 <= i < book.accounts@.len() ==> balance(
            dek,
            book,
            (#[trigger] book.accounts@[i]).id,
        ) is Ok
}

/// The subscriptions that end by a deadline, and those that cannot be paid from the account that
/// they are bound to although the time has come to check.
pub open spec fn are_notices(
    notices: SubscriptionNotices,
    s: AssetSource,
    subscriptions: Seq<subscription::Model>,
    now: DateTime,
    deadline: DateTime,
) -> bool {
    let n = subscriptions.len() as int;
    let due = due_by(subscriptions, deadline, n);
    let problems = warnings_of(s, subscriptions, now, n);
    &&& notices.reminders@.len() == due.len()
    &&& forall|i: int|
        0 <= i < due.len() ==> is_subscription_reminder(
            #[trigger] notices.reminders@[i],
            s,
            due[i],
            now,
        )
    &&& notices.warnings@.len() == problems.len()
    &&& forall|i: int|
        0 <= i < problems.len() ==> is_warning(
            #[trigger] notices.warnings@[i],
            s,
            problems[i],
            now,
        )
}

fn subscription_notices(
    dek: &Dek,
    book: &Book,
    masks: &Vec<MaskedDetail>,
    subscriptions: &Vec<subscription::Model>,
    now: DateTime,
    deadline: DateTime,
    Ghost(s): Ghost<AssetSource>,
) -> (r: SubscriptionNotices)
    requires
        s.dek == dek@,
        s.book == *book,
        s.masks == masks@,
        balances_known(dek@, *book),
    ensures
        are_notices(r, s, subscriptions@, now, deadline),
{
    let mut reminders: Vec<ReminderRow> = Vec::new();
    let mut warnings: Vec<AutoDebitWarning> = Vec::new();
    let mut i: usize = 0;
    while i < subscriptions.len()
        invariant
            i <= subscriptions@.len(),
            s.dek == dek@,
            s.book == *book,
            s.masks == masks@,
            balances_known(dek@, *book),
            reminders@.len() == due_by(subscriptions@, deadline, i as int).len(),
            forall|j: int|
                0 <= j < reminders@.len() ==> is_subscription_reminder(
                    #[trigger] reminders@[j],
                    s,
                    due_by(subscriptions@, deadline, i as int)[j],
                    now,
                ),
            warnings@.len() == warnings_of(s, subscriptions@, now, i as int).len(),
            forall|j: int|
                0 <= j < warnings@.len() ==> is_warning(
                    #[trigger] warnings@[j],
                    s,
                    warnings_of(s, subscriptions@, now, i as int)[j],
                    now,
                ),
        decreases subscriptions@.len() - i,
    {
        let item = &subscriptions[i];
        let name = decrypt_string(dek, &item.name);
        let amount: i64 = decrypt_cents(dek, &item.amount);
        let overdue = item.expires_at.before(now);
        if !deadline.before(item.expires_at) {
            let note = match item.auto_debit_account_id {
                Some(id) => if find(&book.accounts, id).is_some() {
                    join2(" · 自动扣款：", &shown_account_of(dek, book, masks, id))
                } else {
                    String::new()
                },
                None => String::new(),
            };
            reminders.push(
                ReminderRow {
                    title: name.clone(),
                    detail: join4(
                        &decrypt_string(dek, &item.category),
                        " · ",
                        &item.currency,
                        &note,
                    ),
                    due_at: time_to_text(item.expires_at),
                    amount: crate::currency::format(amount, &item.currency),
                    url: "/subscriptions".to_owned(),
                    overdue,
                },
            );
        }
        if let Some(id) = item.auto_debit_account_id {
            let days: i128 = if item.balance_check_days < 0 {
                0
            } else if item.balance_check_days > 30 {
                30
            } else {
                item.balance_check_days as i128
            };
            if now.sort_key() >= item.expires_at.sort_key() - days * 0x1_0000_0000_0000_0000 {
                proof {
                    crate::book::found_is_row(book.accounts@, id);
                    if found(book.accounts@, id) is Some {
                        let a = found(book.accounts@, id)->0;
                        let k = choose|k: int|
                            0 <= k < book.accounts@.len() && book.accounts@[k] == a;
                        assert(balance(dek@, *book, book.accounts@[k].id) is Ok);
                    }
                }
                match find_problem(dek, book, masks, item, id, Ghost(s)) {
                    None => {},
                    Some(detail) => {
                        warnings.push(
                            AutoDebitWarning {
                                title: name,
                                detail,
                                amount: crate::currency::format(amount, &item.currency),
                                due_at: time_to_text(item.expires_at),
                                overdue,
                            },
                        );
                    },
                }
            }
        }
        i = i + 1;
    }
    SubscriptionNotices { reminders, warnings }
}

/// A payment is shown as due: it is not paid, it is due by a day, and its plan, the expense of its
/// plan and the account are there.
pub open spec fn is_due_item(
    book: Book,
    plans: Seq<installment_plan::Model>,
    item: installment_item::Model,
    deadline: Date,
) -> bool {
    item.paid_at is None && item.due_date.days <= deadline.days && (found(plans, item.plan_id)
        matches Some(plan) && found(book.bills@, plan.bill_id) is Some && found(
        book.accounts@,
        plan.account_id,
    ) is Some)
}

/// The payments among the first `n` that are shown as due.
pub open spec fn due_items(
    book: Book,
    plans: Seq<installment_plan::Model>,
    items: Seq<installment_item::Model>,
    deadline: Date,
    n: int,
) -> Seq<installment_item::Model>
    decreases n,
{
    if n <= 0 {
        Seq::empty()
    } else if is_due_item(book, plans, items[n - 1], deadline) {
        due_items(book, plans, items, deadline, n - 1).push(items[n - 1])
    } else {
        due_items(book, plans, items, deadline, n - 1)
    }
}

/// The reminder of a payment shows these values.
pub open spec fn is_item_reminder(
    row: ReminderRow,
    s: AssetSource,
    plans: Seq<installment_plan::Model>,
    item: installment_item::Model,
    today: Date,
) -> bool {
    let plan = found(plans, item.plan_id)->0;
    let b = found(s.book.bills@, plan.bill_id)->0;
    let a = found(s.book.accounts@, plan.account_id)->0;
    &&& row.title@ == bill_title(s.dek, b)
    &&& row.detail@ == "第 "@ + int_text(item.sequence as int) + " 期 · "@ + shown_account(
        s.dek,
        s.book,
        s.masks,
        plan.account_id,
    )
    &&& row.due_at@ == date_text(item.due_date)
    &&& row.amount@ == amount_text(cents(s.dek, item.total@), a.currency@)
    &&& row.url@ == "/installments/"@ + int_text(plan.id as int)
    &&& row.overdue == (item.due_date.days < today.days)
}

/// The reminders of the payments that are due by a day.
fn item_reminders(
    dek: &Dek,
    book: &Book,
    masks: &Vec<MaskedDetail>,
    plans: &Vec<installment_plan::Model>,
    items: &Vec<installment_item::Model>,
    today: Date,
    deadline: Date,
    Ghost(s): Ghost<AssetSource>,
) -> (r: Vec<ReminderRow>)
    requires
        s.dek == dek@,
        s.book == *book,
        s.masks == masks@,
    ensures
        ({
            let due = due_items(*book, plans@, items@, deadline, items@.len() as int);
            &&& r@.len() == due.len()
            &&& forall|i: int|
                0 <= i < due.len() ==> is_item_reminder(#[trigger] r@[i], s, plans@, due[i], today)
        }),
{
    let mut rows: Vec<ReminderRow> = Vec::new();
    let mut i: usize = 0;
    while i < items.len()
        invariant
            i <= items@.len(),
            s.dek == dek@,
            s.book == *book,
            s.masks == masks@,
            rows@.len() == due_items(*book, plans@, items@, deadline, i as int).len(),
            forall|j: int|
                0 <= j < rows@.len() ==> is_item_reminder(
                    #[trigger] rows@[j],
                    s,
                    plans@,
                    due_items(*book, plans@, items@, deadline, i as int)[j],
                    today,
                ),
        decreases items@.len() - i,
    {
        let item = &items[i];
        if item.paid_at.is_none() && item.due_date.days <= deadline.days {
            if let Some(plan) = find(plans, item.plan_id) {
                if let Some(b) = find(&book.bills, plan.bill_id) {
                    if let Some(a) = find(&book.accounts, plan.account_id) {
                        let name = shown_account_of(dek, book, masks, plan.account_id);
                        let sequence = int_to_text(item.sequence as i64);
                        rows.push(
                            ReminderRow {
                                title: bill_title_of(dek, b),
                                detail: join4("第 ", &sequence, " 期 · ", &name),
                                due_at: date_to_text(item.due_date),
                                amount: crate::currency::format(
                                    decrypt_cents(dek, &item.total),
                                    &a.currency,
                                ),
                                url: join2("/installments/", &int_to_text(plan.id)),
                                overdue: item.due_date.days < today.days,
                            },
                        );
                    }
                }
            }
        }
        i = i + 1;
    }
    rows
}

/// What all people together owe and are owed after the first `n` records, or the refusal.
pub open spec fn all_owed(s: DebtSource, n: int) -> Result<(int, int), ErrorView>
    decreases n,
{
    if n <= 0 {
        Ok((0, 0))
    } else {
        match all_owed(s, n - 1) {
            Err(e) => Err(e),
            Ok(sums) => match record_amount(s, s.records[n - 1]) {
                Err(e) => Err(e),
                Ok(amount) => {
                    let next = owed_with(s.records[n - 1].kind@, amount as int, sums);
                    if fits_i64(next.0) && fits_i64(next.1) {
                        Ok(next)
                    } else {
                        Err(internal("借贷金额超出范围"@))
                    }
                },
            },
        }
    }
}

proof fn all_owed_stops(s: DebtSource, m: int, n: int)
    requires
        0 <= m <= n,
        all_owed(s, m) is Err,
    ensures
        all_owed(s, n) == all_owed(s, m),
    decreases n,
{
    if m < n {
        all_owed_stops(s, m, n - 1);
    }
}

/// What each of the first `n` records comes to is its amount in the default currency.
pub open spec fn debts_convert(s: DebtSource, n: int) -> bool {
    forall|i: int|
        0 <= i < n ==> converts(
            record_amount(s, #[trigger] s.records[i])->Ok_0 as int,
            s.dek,
            s.rates,
            s.accounts,
            s.default_currency,
            s.records[i].amount@,
            s.records[i].account_id,
        )
}

/// What all people together owe and are owed, in the default currency.
pub fn sum_all_owed(dek: &Dek, book: &Book, rates: &RateTable, default_currency: &str) -> (r:
    HandlerResult<(i64, i64)>)
    requires
        rates.wf(),
    ensures
        match (
            r,
            all_owed(
                DebtSource {
                    dek: dek@,
                    records: book.debts@,
                    accounts: book.accounts@,
                    rates: *rates,
                    default_currency: default_currency@,
                },
                book.debts@.len() as int,
            ),
        ) {
            (Ok(sums), Ok(wanted)) => wanted == (sums.0 as int, sums.1 as int),
            (Err(error), Err(wanted)) => error@ == wanted,
            _ => false,
        },
        r is Ok ==> debts_convert(
            DebtSource {
                dek: dek@,
                records: book.debts@,
                accounts: book.accounts@,
                rates: *rates,
                default_currency: default_currency@,
            },
            book.debts@.len() as int,
        ),
{
    let ghost s = DebtSource {
        dek: dek@,
        records: book.debts@,
        accounts: book.accounts@,
        rates: *rates,
        default_currency: default_currency@,
    };
    let ghost n = book.debts@.len() as int;
    let mut receivable: i64 = 0;
    let mut payable: i64 = 0;
    let mut i: usize = 0;
    while i < book.debts.len()
        invariant
            i <= book.debts@.len(),
            n == book.debts@.len(),
            rates.wf(),
            s == (DebtSource {
                dek: dek@,
                records: book.debts@,
                accounts: book.accounts@,
                rates: *rates,
                default_currency: default_currency@,
            }),
            all_owed(s, i as int) == Ok::<(int, int), ErrorView>(
                (receivable as int, payable as int),
            ),
            debts_convert(s, i as int),
        decreases book.debts@.len() - i,
    {
        let d = &book.debts[i];
        let c = find_currency(&book.accounts, d.account_id, default_currency);
        let amount: i64 = match to_default(rates, decrypt_cents(dek, &d.amount), &c) {
            Ok(amount) => amount,
            Err(error) => {
                proof {
                    all_owed_stops(s, i + 1, n);
                }
                return Err(error);
            },
        };
        match apply_outstanding(&d.kind, amount, receivable, payable) {
            Ok(sums) => {
                receivable = sums.0;
                payable = sums.1;
            },
            Err(error) => {
                proof {
                    all_owed_stops(s, i + 1, n);
                }
                return Err(error);
            },
        }
        i = i + 1;
    }
    Ok((receivable, payable))
}

/// A bill in the default currency.
#[derive(Clone, Copy)]
pub struct BillValue {
    pub happened_at: DateTime,
    pub income: bool,
    pub amount: i64,
    pub is_food: bool,
}

/// What the overview of the bills is made of.
pub struct BillSource {
    pub dek: Seq<u8>,
    pub book: Book,
    pub rates: RateTable,
    pub default_currency: Seq<char>,
}

/// A bill in the default currency, or the refusal.
pub open spec fn value_of(s: BillSource, b: bill::Model) -> Result<BillValue, ErrorView> {
    match in_default(
        s.rates,
        cents(s.dek, b.amount@),
        currency_of(s.book.accounts@, b.account_id, s.default_currency),
    ) {
        Err(e) => Err(e),
        Ok(amount) => Ok(
            BillValue {
                happened_at: b.happened_at,
                income: b.kind@ == "income"@,
                amount,
                is_food: b.is_food,
            },
        ),
    }
}

/// The first `n` bills in the default currency, or the first refusal.
pub open spec fn values_of(s: BillSource, n: int) -> Result<Seq<BillValue>, ErrorView>
    decreases n,
{
    if n <= 0 {
        Ok(Seq::empty())
    } else {
        match values_of(s, n - 1) {
            Err(e) => Err(e),
            Ok(values) => match value_of(s, s.book.bills@[n - 1]) {
                Err(e) => Err(e),
                Ok(value) => Ok(values.push(value)),
            },
        }
    }
}

proof fn values_stop(s: BillSource, m: int, n: int)
    requires
        0 <= m <= n,
        values_of(s, m) is Err,
    ensures
        values_of(s, n) == values_of(s, m),
    decreases n,
{
    if m < n {
        values_stop(s, m, n - 1);
    }
}

/// What each of the first `n` bills comes to is its amount in the default currency.
pub open spec fn bills_convert(s: BillSource, n: int) -> bool {
    forall|i: int|
        0 <= i < n ==> converts(
            value_of(s, #[trigger] s.book.bills@[i])->Ok_0.amount as int,
            s.dek,
            s.rates,
            s.book.accounts@,
            s.default_currency,
            s.book.bills@[i].amount@,
            s.book.bills@[i].account_id,
        )
}

fn bill_values(dek: &Dek, book: &Book, rates: &RateTable, default_currency: &str) -> (r:
    HandlerResult<Vec<BillValue>>)
    requires
        rates.wf(),
    ensures
        match (
            r,
            values_of(
                BillSource {
                    dek: dek@,
                    book: *book,
                    rates: *rates,
                    default_currency: default_currency@,
                },
                book.bills@.len() as int,
            ),
        ) {
            (Ok(values), Ok(wanted)) => values@ == wanted,
            (Err(error), Err(wanted)) => error@ == wanted,
            _ => false,
        },
        r is Ok ==> bills_convert(
            BillSource {
                dek: dek@,
                book: *book,
                rates: *rates,
                default_currency: default_currency@,
            },
            book.bills@.len() as int,
        ),
{
    let ghost s = BillSource {
        dek: dek@,
        book: *book,
        rates: *rates,
        default_currency: default_currency@,
    };
    let ghost n = book.bills@.len() as int;
    let mut values: Vec<BillValue> = Vec::new();
    let mut i: usize = 0;
    while i < book.bills.len()
        invariant
            i <= book.bills@.len(),
            n == book.bills@.len(),
            rates.wf(),
            s == (BillSource {
                dek: dek@,
                book: *book,
                rates: *rates,
                default_currency: default_currency@,
            }),
            values_of(s, i as int) == Ok::<Seq<BillValue>, ErrorView>(values@),
            bills_convert(s, i as int),
        decreases book.bills@.len() - i,
    {
        let b = &book.bills[i];
        let c = find_currency(&book.accounts, b.account_id, default_currency);
        match to_default(rates, decrypt_cents(dek, &b.amount), &c) {
            Ok(amount) => {
                values.push(
                    BillValue {
                        happened_at: b.happened_at,
                        income: same(&b.kind, "income"),
                        amount,
                        is_food: b.is_food,
                    },
                );
            },
            Err(error) => {
                proof {
                    values_stop(s, i + 1, n);
                }
                return Err(error);
            },
        }
        i = i + 1;
    }
    Ok(values)
}

/// A bill lies in the month of a day.
pub open spec fn in_month(v: BillValue, today: Date) -> bool {
    year_of(v.happened_at.date) == year_of(today) && month_of(v.happened_at.date) == month_of(
        today,
    )
}

/// What was earned this month, bill by bill, zero for all others.
pub open spec fn month_incomes(values: Seq<BillValue>, today: Date) -> Seq<int> {
    Seq::new(
        values.len(),
        |i: int|
            if in_month(values[i], today) && values[i].income {
                values[i].amount as int
            } else {
                0
            },
    )
}

/// What was spent this month, bill by bill, zero for all others; only on food, or on anything.
pub open spec fn month_expenses(values: Seq<BillValue>, today: Date, food: bool) -> Seq<int> {
    Seq::new(
        values.len(),
        |i: int|
            if in_month(values[i], today) && !values[i].income && (values[i].is_food || !food) {
                values[i].amount as int
            } else {
                0
            },
    )
}

/// What was earned, spent, and spent on food this month, or the refusal.
pub open spec fn month_sums(values: Seq<BillValue>, today: Date) -> Result<
    (i64, i64, i64),
    ErrorView,
> {
    match (
        checked_total(month_incomes(values, today)),
        checked_total(month_expenses(values, today, false)),
        checked_total(month_expenses(values, today, true)),
    ) {
        (Some(a), Some(b), Some(c)) => Ok((a as i64, b as i64, c as i64)),
        _ => Err(internal("报表金额超出范围"@)),
    }
}

/// What was earned, spent, and spent on food this month.
pub fn sum_month(values: &Vec<BillValue>, today: Date) -> (r: HandlerResult<(i64, i64, i64)>)
    ensures
        agrees(r, month_sums(values@, today)),
{
    let ghost a = month_incomes(values@, today);
    let ghost b = month_expenses(values@, today, false);
    let ghost c = month_expenses(values@, today, true);
    let (year, month, _day) = parts(today);
    let mut income: i64 = 0;
    let mut expense: i64 = 0;
    let mut food: i64 = 0;
    let mut i: usize = 0;
    proof {
        assert(a.take(0) =~= Seq::empty());
        assert(b.take(0) =~= Seq::empty());
        assert(c.take(0) =~= Seq::empty());
    }
    while i < values.len()
        invariant
            i <= values@.len(),
            a == month_incomes(values@, today),
            b == month_expenses(values@, today, false),
            c == month_expenses(values@, today, true),
            year == year_of(today),
            month == month_of(today),
            checked_total(a.take(i as int)) == Some(income as int),
            checked_total(b.take(i as int)) == Some(expense as int),
            checked_total(c.take(i as int)) == Some(food as int),
        decreases values@.len() - i,
    {
        let v = values[i];
        proof {
            assert(a.take(i + 1).drop_last() =~= a.take(i as int));
            assert(b.take(i + 1).drop_last() =~= b.take(i as int));
            assert(c.take(i + 1).drop_last() =~= c.take(i as int));
        }
        let (y, m, _d) = parts(v.happened_at.date);
        if y == year && m == month {
            if v.income {
                match income.checked_add(v.amount) {
                    Some(n) => {
                        income = n;
                    },
                    None => {
                        proof {
                            checked_total_stops(a, i + 1);
                        }
                        return Err(err500("报表金额超出范围"));
                    },
                }
            } else {
                match expense.checked_add(v.amount) {
                    Some(n) => {
                        expense = n;
                    },
                    None => {
                        proof {
                            checked_total_stops(b, i + 1);
                        }
                        return Err(err500("报表金额超出范围"));
                    },
                }
                if v.is_food {
                    match food.checked_add(v.amount) {
                        Some(n) => {
                            food = n;
                        },
                        None => {
                            proof {
                                checked_total_stops(c, i + 1);
                            }
                            return Err(err500("报表金额超出范围"));
                        },
                    }
                }
            }
        }
        i = i + 1;
    }
    proof {
        assert(a.take(a.len() as int) =~= a);
        assert(b.take(b.len() as int) =~= b);
        assert(c.take(c.len() as int) =~= c);
    }
    Ok((income, expense, food))
}

/// The part of the expenses that was spent on food, in percent; a dash where nothing was spent.
pub open spec fn engel_text(food: int, expense: int) -> Seq<char> {
    if expense == 0 {
        "—"@
    } else {
        let p = percent_of(food, expense)->0;
        decimal_text(p.0, p.1) + "%"@
    }
}

/// The part of the expenses that was spent on food can be reckoned.
pub open spec fn engel_exists(food: int, expense: int) -> bool {
    expense == 0 || percent_of(food, expense) is Some
}

pub fn engel_coefficient(food: i64, expense: i64) -> (r: HandlerResult<String>)
    ensures
        r is Ok && expense > 0 ==> is_percent(
            percent_of(food as int, expense as int)->0,
            food as int,
            expense as int,
        ),
        match r {
            Ok(text) => engel_exists(food as int, expense as int) && text@ == engel_text(
                food as int,
                expense as int,
            ),
            Err(error) => !engel_exists(food as int, expense as int) && error@ == overflowed(),
        },
{
    if expense == 0 {
        return Ok("—".to_owned());
    }
    match percentage(food, expense) {
        Some(p) => Ok(join2(&decimal_to_text(p), "%")),
        None => Err(arithmetic_overflow()),
    }
}

/// What was earned and spent, in a row of hours or days.
pub struct ReportSeries {
    pub labels: Vec<String>,
    pub income: Vec<i64>,
    pub expense: Vec<i64>,
}

/// The place of a bill in a row of days that ends with `last`.
pub open spec fn day_place(v: BillValue, last: int, days: int) -> int {
    v.happened_at.date.days - (last - (days - 1))
}

/// The place of a bill in the row of the hours of a day; none where it lies on another day.
pub open spec fn hour_place(v: BillValue, today: int) -> int {
    if v.happened_at.date.days == today {
        v.happened_at.second as int / 3600
    } else {
        -1
    }
}

/// The place of a bill in a row: of the hours of a day, or of so many days.
pub open spec fn place(v: BillValue, today: int, days: int) -> int {
    if days == 0 {
        hour_place(v, today)
    } else {
        day_place(v, today, days)
    }
}

/// What was earned, or spent, at a place of a row, bill by bill, zero for all others.
pub open spec fn place_amounts(
    values: Seq<BillValue>,
    income: bool,
    today: int,
    days: int,
    k: int,
) -> Seq<int> {
    Seq::new(
        values.len(),
        |i: int|
            if values[i].income == income && place(values[i], today, days) == k {
                values[i].amount as int
            } else {
                0
            },
    )
}

/// Every sum of a row of `count` places is in the range of amounts.
pub open spec fn row_fits(values: Seq<BillValue>, today: int, days: int, count: int) -> bool {
    forall|income: bool, k: int|
        0 <= k < count ==> (#[trigger] checked_total(
            place_amounts(values, income, today, days, k),
        )) is Some
}

/// The sums of a row are those of its places.
pub open spec fn is_row(
    sums: Seq<i64>,
    values: Seq<BillValue>,
    income: bool,
    today: int,
    days: int,
) -> bool {
    forall|k: int|
        0 <= k < sums.len() ==> checked_total(place_amounts(values, income, today, days, k)) == Some(
            #[trigger] sums[k] as int,
        )
}

fn find_place(v: BillValue, today: Date, days: i64) -> (r: i64)
    requires
        0 <= days <= 366,
    ensures
        r == place(v, today.days as int, days as int),
{
    if days == 0 {
        if v.happened_at.date.days == today.days {
            (v.happened_at.second / 3600) as i64
        } else {
            -1
        }
    } else {
        v.happened_at.date.days as i64 - (today.days as i64 - (days - 1))
    }
}

fn zeros(count: usize) -> (r: Vec<i64>)
    ensures
        r@.len() == count,
        forall|i: int| 0 <= i < count ==> #[trigger] r@[i] == 0,
{
    let mut v: Vec<i64> = Vec::new();
    let mut i: usize = 0;
    while i < count
        invariant
            i <= count,
            v@.len() == i,
            forall|j: int| 0 <= j < i ==> #[trigger] v@[j] == 0,
        decreases count - i,
    {
        v.push(0);
        i = i + 1;
    }
    v
}

/// The sums so far are those over the first `n` bills.
spec fn row_so_far(
    sums: Seq<i64>,
    values: Seq<BillValue>,
    income: bool,
    today: int,
    days: int,
    n: int,
) -> bool {
    forall|k: int|
        0 <= k < sums.len() ==> checked_total(
            place_amounts(values, income, today, days, k).take(n),
        ) == Some(#[trigger] sums[k] as int)
}

/// One more bill that changes one place at most.
proof fn row_step(
    before: Seq<i64>,
    after: Seq<i64>,
    values: Seq<BillValue>,
    income: bool,
    today: int,
    days: int,
    n: int,
)
    requires
        0 <= n < values.len(),
        row_so_far(before, values, income, today, days, n),
        after.len() == before.len(),
        forall|k: int|
            0 <= k < after.len() ==> #[trigger] after[k] == before[k] + (if values[n].income
                == income && place(values[n], today, days) == k {
                values[n].amount as int
            } else {
                0
            }),
    ensures
        row_so_far(after, values, income, today, days, n + 1),
{
    assert forall|k: int| 0 <= k < after.len() implies checked_total(
        place_amounts(values, income, today, days, k).take(n + 1),
    ) == Some(#[trigger] after[k] as int) by {
        let all = place_amounts(values, income, today, days, k);
        assert(all.take(n + 1).drop_last() =~= all.take(n));
        assert(checked_total(all.take(n)) == Some(before[k] as int));
        assert(all.take(n + 1).last() == all[n]);
    }
}

/// What was earned and spent at each place of a row.
fn sum_places(values: &Vec<BillValue>, today: Date, days: i64, count: usize) -> (r: HandlerResult<
    (Vec<i64>, Vec<i64>),
>)
    requires
        0 <= days <= 366,
    ensures
        match r {
            Ok((income, expense)) => {
                &&& row_fits(values@, today.days as int, days as int, count as int)
                &&& income@.len() == count
                &&& expense@.len() == count
                &&& is_row(income@, values@, true, today.days as int, days as int)
                &&& is_row(expense@, values@, false, today.days as int, days as int)
            },
            Err(error) => !row_fits(values@, today.days as int, days as int, count as int)
                && error@ == internal("报表金额超出范围"@),
        },
{
    let ghost t = today.days as int;
    let ghost d = days as int;
    let mut income = zeros(count);
    let mut expense = zeros(count);
    let mut i: usize = 0;
    proof {
        assert forall|k: int| 0 <= k < count implies checked_total(
            place_amounts(values@, true, t, d, k).take(0),
        ) == Some(#[trigger] income@[k] as int) by {
            assert(place_amounts(values@, true, t, d, k).take(0) =~= Seq::empty());
        }
        assert forall|k: int| 0 <= k < count implies checked_total(
            place_amounts(values@, false, t, d, k).take(0),
        ) == Some(#[trigger] expense@[k] as int) by {
            assert(place_amounts(values@, false, t, d, k).take(0) =~= Seq::empty());
        }
    }
    while i < values.len()
        invariant
            i <= values@.len(),
            0 <= days <= 366,
            t == today.days,
            d == days,
            income@.len() == count,
            expense@.len() == count,
            row_so_far(income@, values@, true, t, d, i as int),
            row_so_far(expense@, values@, false, t, d, i as int),
        decreases values@.len() - i,
    {
        let v = values[i];
        let at: i64 = find_place(v, today, days);
        let ghost old_income = income@;
        let ghost old_expense = expense@;
        if 0 <= at && (at as u64) < (count as u64) {
            let k: usize = at as usize;
            let sum = if v.income {
                income[k].checked_add(v.amount)
            } else {
                expense[k].checked_add(v.amount)
            };
            match sum {
                Some(sum) => {
                    if v.income {
                        income.set(k, sum);
                    } else {
                        expense.set(k, sum);
                    }
                },
                None => {
                    proof {
                        let all = place_amounts(values@, v.income, t, d, at as int);
                        assert(all.take(i + 1).drop_last() =~= all.take(i as int));
                        assert(all.take(i + 1).last() == v.amount);
                        if v.income {
                            assert(checked_total(all.take(i as int)) == Some(
                                income@[at as int] as int,
                            ));
                        } else {
                            assert(checked_total(all.take(i as int)) == Some(
                                expense@[at as int] as int,
                            ));
                        }
                        checked_total_stops(all, i + 1);
                        assert(checked_total(place_amounts(values@, v.income, t, d, at as int))
                            is None);
                    }
                    return Err(err500("报表金额超出范围"));
                },
            }
        }
        proof {
            row_step(old_income, income@, values@, true, t, d, i as int);
            row_step(old_expense, expense@, values@, false, t, d, i as int);
        }
        i = i + 1;
    }
    proof {
        assert forall|which: bool, k: int| 0 <= k < count implies (#[trigger] checked_total(
            place_amounts(values@, which, t, d, k),
        )) is Some by {
            let all = place_amounts(values@, which, t, d, k);
            assert(all.take(all.len() as int) =~= all);
            if which {
                assert(checked_total(all.take(i as int)) == Some(income@[k] as int));
            } else {
                assert(checked_total(all.take(i as int)) == Some(expense@[k] as int));
            }
        }
        assert forall|k: int| 0 <= k < count implies checked_total(
            place_amounts(values@, true, t, d, k),
        ) == Some(#[trigger] income@[k] as int) by {
            let all = place_amounts(values@, true, t, d, k);
            assert(all.take(all.len() as int) =~= all);
        }
        assert forall|k: int| 0 <= k < count implies checked_total(
            place_amounts(values@, false, t, d, k),
        ) == Some(#[trigger] expense@[k] as int) by {
            let all = place_amounts(values@, false, t, d, k);
            assert(all.take(all.len() as int) =~= all);
        }
    }
    Ok((income, expense))
}

/// A row of days shows these values.
pub open spec fn is_date_series(s: ReportSeries, values: Seq<BillValue>, today: int, days: int) -> bool {
    &&& s.labels@.len() == days
    &&& s.income@.len() == days
    &&& s.expense@.len() == days
    &&& forall|i: int|
        0 <= i < days ==> (#[trigger] s.labels@[i])@ == month_day_text(
            Date { days: (today - (days - 1) + i) as i32 },
        )
    &&& is_row(s.income@, values, true, today, days)
    &&& is_row(s.expense@, values, false, today, days)
}

/// What was earned and spent on each of so many days up to today.
pub fn build_date_series(today: Date, days: i64, values: &Vec<BillValue>) -> (r: HandlerResult<
    ReportSeries,
>)
    requires
        1 <= days <= 366,
        in_calendar(today.days - 365),
        in_calendar(today.days as int),
    ensures
        match r {
            Ok(s) => row_fits(values@, today.days as int, days as int, days as int)
                && is_date_series(s, values@, today.days as int, days as int),
            Err(error) => !row_fits(values@, today.days as int, days as int, days as int) && error@
                == internal("报表金额超出范围"@),
        },
{
    let (income, expense) = match sum_places(values, today, days, days as usize) {
        Ok(sums) => sums,
        Err(error) => return Err(error),
    };
    let mut labels: Vec<String> = Vec::new();
    let mut i: i64 = 0;
    while i < days
        invariant
            0 <= i <= days <= 366,
            in_calendar(today.days - 365),
            in_calendar(today.days as int),
            labels@.len() == i,
            forall|j: int|
                0 <= j < i ==> (#[trigger] labels@[j])@ == month_day_text(
                    Date { days: (today.days - (days - 1) + j) as i32 },
                ),
        decreases days - i,
    {
        let date = Date { days: (today.days as i64 - (days - 1) + i) as i32 };
        labels.push(month_day_to_text(date));
        i = i + 1;
    }
    Ok(ReportSeries { labels, income, expense })
}

/// The name of an hour.
pub open spec fn hour_text(hour: int) -> Seq<char> {
    padded(hour, 2) + ":00"@
}

/// What was earned and spent: by the hour today, and by the day in a week, a month and a year.
pub struct Reports {
    pub daily: ReportSeries,
    pub weekly: ReportSeries,
    pub monthly: ReportSeries,
    pub yearly: ReportSeries,
}

/// The reports show these values.
pub open spec fn are_reports(r: Reports, values: Seq<BillValue>, today: int) -> bool {
    &&& r.daily.labels@.len() == 24
    &&& r.daily.income@.len() == 24
    &&& r.daily.expense@.len() == 24
    &&& forall|i: int| 0 <= i < 24 ==> (#[trigger] r.daily.labels@[i])@ == hour_text(i)
    &&& is_row(r.daily.income@, values, true, today, 0)
    &&& is_row(r.daily.expense@, values, false, today, 0)
    &&& is_date_series(r.weekly, values, today, 7)
    &&& is_date_series(r.monthly, values, today, 30)
    &&& is_date_series(r.yearly, values, today, 365)
}

/// Every sum of the reports is in the range of amounts.
pub open spec fn reports_fit(values: Seq<BillValue>, today: int) -> bool {
    row_fits(values, today, 0, 24) && row_fits(values, today, 7, 7) && row_fits(
        values,
        today,
        30,
        30,
    ) && row_fits(values, today, 365, 365)
}

/// The reports: by the hour today, and by the day in a week, a month and a year. Each time lies
/// within its day.
pub fn build_reports(today: Date, values: &Vec<BillValue>) -> (r: HandlerResult<Reports>)
    requires
        in_calendar(today.days - 365),
        in_calendar(today.days as int),
        forall|i: int| 0 <= i < values@.len() ==> (#[trigger] values@[i]).happened_at.second < 86400,
    ensures
        match r {
            Ok(reports) => reports_fit(values@, today.days as int) && are_reports(
                reports,
                values@,
                today.days as int,
            ),
            Err(error) => !reports_fit(values@, today.days as int) && error@ == internal(
                "报表金额超出范围"@,
            ),
        },
{
    let (income, expense) = match sum_places(values, today, 0, 24) {
        Ok(sums) => sums,
        Err(error) => return Err(error),
    };
    let mut labels: Vec<String> = Vec::new();
    let mut hour: u32 = 0;
    while hour < 24
        invariant
            hour <= 24,
            labels@.len() == hour,
            forall|j: int| 0 <= j < hour ==> (#[trigger] labels@[j])@ == hour_text(j),
        decreases 24 - hour,
    {
        let mut number = String::new();
        push_padded(&mut number, hour as u128, 2);
        proof {
            assert(number@ =~= padded(hour as int, 2));
        }
        labels.push(join2(&number, ":00"));
        hour = hour + 1;
    }
    let weekly = match build_date_series(today, 7, values) {
        Ok(series) => series,
        Err(error) => return Err(error),
    };
    let monthly = match build_date_series(today, 30, values) {
        Ok(series) => series,
        Err(error) => return Err(error),
    };
    let yearly = match build_date_series(today, 365, values) {
        Ok(series) => series,
        Err(error) => return Err(error),
    };
    Ok(Reports { daily: ReportSeries { labels, income, expense }, weekly, monthly, yearly })
}

/// What the overview shows beside the accounts, bills, transfers and debts.
pub struct Agenda {
    /// In the order of their ends.
    pub subscriptions: Vec<subscription::Model>,
    pub plans: Vec<installment_plan::Model>,
    /// In the order of the days they are due.
    pub items: Vec<installment_item::Model>,
    pub categories: Vec<category::Model>,
    pub budget: Option<budget::Model>,
}

/// The overview.
pub struct Overview {
    pub accounts: Vec<AccountOption>,
    pub transfer_sources: Vec<AccountOption>,
    pub account_summaries: Vec<AccountSummary>,
    pub credit_services: Vec<CreditServiceSummary>,
    pub auto_debit_warnings: Vec<AutoDebitWarning>,
    pub people: Vec<PersonOption>,
    pub categories: Vec<CategoryOption>,
    pub quick_entry_heading: String,
    pub quick_redirect_to: String,
    pub happened_at: String,
    pub net_assets: String,
    pub month_income: String,
    pub month_expense: String,
    pub receivable: String,
    pub payable: String,
    pub engel_coefficient: String,
    pub food_expense: String,
    pub reports: Reports,
    pub default_currency: String,
    pub first_due_date: String,
    pub subscription_reminders: Vec<ReminderRow>,
    pub installment_reminders: Vec<ReminderRow>,
    pub subscription_reminder_count: usize,
    pub installment_reminder_count: usize,
    pub budget_statuses: Vec<BudgetStatus>,
}

/// How many reminders of a kind the overview shows.
pub const REMINDERS_SHOWN: usize = 10;

/// What the overview is made of.
pub struct OverviewSource {
    pub dek: Seq<u8>,
    pub book: Book,
    pub masks: Seq<MaskedDetail>,
    pub rates: RateTable,
    pub default_currency: Seq<char>,
    pub now: DateTime,
    pub today: Date,
}

impl OverviewSource {
    /// The part of it that accounts are shown from.
    pub open spec fn assets(self) -> AssetSource {
        AssetSource { dek: self.dek, book: self.book, masks: self.masks, rates: self.rates }
    }

    /// The part of it that debts are reckoned from.
    pub open spec fn debts(self) -> DebtSource {
        DebtSource {
            dek: self.dek,
            records: self.book.debts@,
            accounts: self.book.accounts@,
            rates: self.rates,
            default_currency: self.default_currency,
        }
    }

    /// The part of it that bills are reckoned from.
    pub open spec fn bills(self) -> BillSource {
        BillSource {
            dek: self.dek,
            book: self.book,
            rates: self.rates,
            default_currency: self.default_currency,
        }
    }

    /// The bills in the default currency.
    pub open spec fn values(self) -> Result<Seq<BillValue>, ErrorView> {
        values_of(self.bills(), self.book.bills@.len() as int)
    }
}

/// Why there is no overview, the budgets apart: an account, a debt, a bill or a report that cannot
/// be reckoned, in this order.
pub open spec fn overview_refusal(s: OverviewSource) -> Option<ErrorView> {
    match assets(s.assets(), s.book.accounts@.len() as int) {
        Err(e) => Some(e),
        Ok(_) => match all_owed(s.debts(), s.book.debts@.len() as int) {
            Err(e) => Some(e),
            Ok(_) => match s.values() {
                Err(e) => Some(e),
                Ok(values) => match month_sums(values, s.today) {
                    Err(e) => Some(e),
                    Ok(sums) => if !engel_exists(sums.2 as int, sums.1 as int) {
                        Some(overflowed())
                    } else if !reports_fit(values, s.today.days as int) {
                        Some(internal("报表金额超出范围"@))
                    } else {
                        None
                    },
                },
            },
        },
    }
}

/// The sums on the overview.
pub open spec fn shows_sums(o: Overview, s: OverviewSource) -> bool {
    let values = s.values()->Ok_0;
    let sums = month_sums(values, s.today)->Ok_0;
    let owed = all_owed(s.debts(), s.book.debts@.len() as int)->Ok_0;
    let own = s.default_currency;
    &&& o.net_assets@ == amount_text(
        assets(s.assets(), s.book.accounts@.len() as int)->Ok_0,
        own,
    )
    &&& o.month_income@ == amount_text(sums.0 as int, own)
    &&& o.month_expense@ == amount_text(sums.1 as int, own)
    &&& o.food_expense@ == amount_text(sums.2 as int, own)
    &&& o.receivable@ == amount_text(owed.0, own)
    &&& o.payable@ == amount_text(owed.1, own)
    &&& o.engel_coefficient@ == engel_text(sums.2 as int, sums.1 as int)
    &&& are_reports(o.reports, values, s.today.days as int)
    &&& o.default_currency@ == own
}

/// What can be chosen on the overview to enter something.
pub open spec fn shows_choices(o: Overview, s: OverviewSource, agenda: Agenda) -> bool {
    &&& are_accounts(o.accounts@, s.dek, s.book, s.masks)
    &&& are_accounts(o.transfer_sources@, s.dek, s.book, s.masks)
    &&& o.people@.len() == s.book.people@.len()
    &&& forall|i: int|
        0 <= i < o.people@.len() ==> (#[trigger] o.people@[i]).id == s.book.people@[i].id
            && o.people@[i].name@ == plain(s.dek, s.book.people@[i].name@)
    &&& are_categories(o.categories@, s.dek, agenda.categories@)
    &&& o.quick_entry_heading@ == "快速记账"@
    &&& o.quick_redirect_to@ == "/dashboard"@
    &&& o.happened_at@ == time_text(s.now)
    &&& o.first_due_date@ == date_text(plus_months(s.today, 1)->0)
}

/// The first of a number of things, as many as are shown.
pub open spec fn shown_count(count: nat) -> nat {
    if count < REMINDERS_SHOWN {
        count
    } else {
        REMINDERS_SHOWN as nat
    }
}

/// The reminders and warnings on the overview.
pub open spec fn shows_reminders(o: Overview, s: OverviewSource, agenda: Agenda) -> bool {
    let deadline = later_by_days(s.now, 7)->0;
    let ending = due_by(agenda.subscriptions@, deadline, agenda.subscriptions@.len() as int);
    let due = due_items(
        s.book,
        agenda.plans@,
        agenda.items@,
        deadline.date,
        agenda.items@.len() as int,
    );
    let problems = warnings_of(
        s.assets(),
        agenda.subscriptions@,
        s.now,
        agenda.subscriptions@.len() as int,
    );
    &&& o.subscription_reminder_count == ending.len()
    &&& o.subscription_reminders@.len() == shown_count(ending.len())
    &&& forall|i: int|
        0 <= i < o.subscription_reminders@.len() ==> is_subscription_reminder(
            #[trigger] o.subscription_reminders@[i],
            s.assets(),
            ending[i],
            s.now,
        )
    &&& o.installment_reminder_count == due.len()
    &&& o.installment_reminders@.len() == shown_count(due.len())
    &&& forall|i: int|
        0 <= i < o.installment_reminders@.len() ==> is_item_reminder(
            #[trigger] o.installment_reminders@[i],
            s.assets(),
            agenda.plans@,
            due[i],
            s.today,
        )
    &&& o.auto_debit_warnings@.len() == problems.len()
    &&& forall|i: int|
        0 <= i < problems.len() ==> is_warning(
            #[trigger] o.auto_debit_warnings@[i],
            s.assets(),
            problems[i],
            s.now,
        )
}

/// The accounts on the overview.
pub open spec fn shows_accounts(o: Overview, s: OverviewSource) -> bool {
    let n = s.book.accounts@.len() as int;
    let plain_accounts = accounts_of(s.book.accounts@, false, n);
    let services = accounts_of(s.book.accounts@, true, n);
    &&& o.account_summaries@.len() == plain_accounts.len()
    &&& forall|i: int|
        0 <= i < plain_accounts.len() ==> is_summary(
            #[trigger] o.account_summaries@[i],
            s.assets(),
            plain_accounts[i],
        )
    &&& o.credit_services@.len() == services.len()
    &&& forall|i: int|
        0 <= i < services.len() ==> is_service(
            #[trigger] o.credit_services@[i],
            s.assets(),
            services[i],
        )
}

/// The overview at a time, on a day of the local calendar.
///
/// Subscriptions that end within seven days and payments that are due by then are shown as
/// reminders, ten of a kind at most.
pub fn show(
    dek: &Dek,
    book: &Book,
    masks: &Vec<MaskedDetail>,
    agenda: &Agenda,
    rates: &RateTable,
    default_currency: &str,
    now: DateTime,
    today: Date,
) -> (r: HandlerResult<Overview>)
    requires
        rates.wf(),
        later_by_days(now, 7) is Some,
        plus_months(today, 1) is Some,
        in_calendar(today.days - 365),
        in_calendar(today.days + 6),
        forall|i: int|
            0 <= i < book.bills@.len() ==> (#[trigger] book.bills@[i]).happened_at.second < 86400,
    ensures
        ({
            let s = OverviewSource {
                dek: dek@,
                book: *book,
                masks: masks@,
                rates: *rates,
                default_currency: default_currency@,
                now,
                today,
            };
            match overview_refusal(s) {
                Some(wanted) => r matches Err(error) && error@ == wanted,
                None => match r {
                    Ok(o) => {
                        &&& shows_accounts(o, s)
                        &&& shows_reminders(o, s, *agenda)
                        &&& shows_choices(o, s, *agenda)
                        &&& shows_sums(o, s)
                        &&& assets_are_worth(s.assets(), book.accounts@.len() as int)
                        &&& debts_convert(s.debts(), book.debts@.len() as int)
                        &&& bills_convert(s.bills(), book.bills@.len() as int)
                        &&& ({
                            let sums = month_sums(s.values()->Ok_0, today)->Ok_0;
                            sums.1 > 0 ==> is_percent(
                                percent_of(sums.2 as int, sums.1 as int)->0,
                                sums.2 as int,
                                sums.1 as int,
                            )
                        })
                        &&& are_statuses(
                            Ok(o.budget_statuses@),
                            dek@,
                            agenda.budget,
                            book.bills@,
                            book.accounts@,
                            *rates,
                            default_currency@,
                            today,
                        )
                    },
                    Err(error) => are_statuses(
                        Err(error@),
                        dek@,
                        agenda.budget,
                        book.bills@,
                        book.accounts@,
                        *rates,
                        default_currency@,
                        today,
                    ),
                },
            }
        }),
{
    let ghost s = OverviewSource {
        dek: dek@,
        book: *book,
        masks: masks@,
        rates: *rates,
        default_currency: default_currency@,
        now,
        today,
    };
    let summed = match sum_assets(dek, book, masks, rates) {
        Ok(summed) => summed,
        Err(error) => return Err(error),
    };
    proof {
        assets_know_balances(s.assets(), book.accounts@.len() as int);
    }
    let deadline = match now.add_days(7) {
        Some(deadline) => deadline,
        None => now,
    };
    let first_due = match today.add_months(1) {
        Some(first_due) => first_due,
        None => today,
    };
    let notices = subscription_notices(
        dek,
        book,
        masks,
        &agenda.subscriptions,
        now,
        deadline,
        Ghost(s.assets()),
    );
    let mut subscription_reminders = notices.reminders;
    let subscription_reminder_count: usize = subscription_reminders.len();
    subscription_reminders.truncate(REMINDERS_SHOWN);
    let mut installment_reminders = item_reminders(
        dek,
        book,
        masks,
        &agenda.plans,
        &agenda.items,
        today,
        deadline.date,
        Ghost(s.assets()),
    );
    let installment_reminder_count: usize = installment_reminders.len();
    installment_reminders.truncate(REMINDERS_SHOWN);
    let (receivable, payable) = match sum_all_owed(dek, book, rates, default_currency) {
        Ok(sums) => sums,
        Err(error) => return Err(error),
    };
    let values = match bill_values(dek, book, rates, default_currency) {
        Ok(values) => values,
        Err(error) => return Err(error),
    };
    proof {
        values_keep_times(s.bills(), book.bills@.len() as int);
    }
    let (income, expense, food) = match sum_month(&values, today) {
        Ok(sums) => sums,
        Err(error) => return Err(error),
    };
    let engel = match engel_coefficient(food, expense) {
        Ok(engel) => engel,
        Err(error) => return Err(error),
    };
    let reports = match build_reports(today, &values) {
        Ok(reports) => reports,
        Err(error) => return Err(error),
    };
    let budget_statuses = match current_statuses(
        dek,
        &agenda.budget,
        &book.bills,
        &book.accounts,
        rates,
        default_currency,
        today,
    ) {
        Ok(statuses) => statuses,
        Err(error) => return Err(error),
    };
    Ok(
        Overview {
            accounts: account_choices(dek, book, masks),
            transfer_sources: account_choices(dek, book, masks),
            account_summaries: summed.summaries,
            credit_services: summed.services,
            auto_debit_warnings: notices.warnings,
            people: people_options(dek, &book.people),
            categories: category_options(dek, &agenda.categories),
            quick_entry_heading: "快速记账".to_owned(),
            quick_redirect_to: redirect().to_owned(),
            happened_at: time_to_text(now),
            net_assets: crate::currency::format(summed.net_assets, default_currency),
            month_income: crate::currency::format(income, default_currency),
            month_expense: crate::currency::format(expense, default_currency),
            receivable: crate::currency::format(receivable, default_currency),
            payable: crate::currency::format(payable, default_currency),
            engel_coefficient: engel,
            food_expense: crate::currency::format(food, default_currency),
            reports,
            default_currency: default_currency.to_owned(),
            first_due_date: date_to_text(first_due),
            subscription_reminders,
            installment_reminders,
            subscription_reminder_count,
            installment_reminder_count,
            budget_statuses,
        },
    )
}

/// Bills in the default currency have the times that they had.
proof fn values_keep_times(s: BillSource, n: int)
    requires
        0 <= n <= s.book.bills@.len(),
        values_of(s, n) is Ok,
    ensures
        values_of(s, n)->Ok_0.len() == n,
        forall|i: int|
            0 <= i < n ==> (#[trigger] values_of(s, n)->Ok_0[i]).happened_at
                == s.book.bills@[i].happened_at,
    decreases n,
{
    if n > 0 {
        values_keep_times(s, n - 1);
    }
}

proof fn values_are(s: BillSource, n: int)
    requires
        0 <= n <= s.book.bills@.len(),
        values_of(s, n) is Ok,
    ensures
        values_of(s, n)->Ok_0.len() == n,
        forall|i: int|
            0 <= i < n ==> value_of(s, #[trigger] s.book.bills@[i]) == Ok::<BillValue, ErrorView>(
                values_of(s, n)->Ok_0[i],
            ),
    decreases n,
{
    if n > 0 {
        values_are(s, n - 1);
    }
}

/// What a bill was earned or spent for on days that a condition picks: its amount in the default
/// currency where the condition holds, else nothing.
pub open spec fn picked(s: BillSource, which: spec_fn(bill::Model) -> bool) -> Seq<int> {
    s.book.bills@.map_values(
        |b: bill::Model|
            if which(b) {
                value_of(s, b)->Ok_0.amount as int
            } else {
                0
            },
    )
}

proof fn owed_is_total(s: DebtSource, n: int)
    requires
        0 <= n <= s.records.len(),
        all_owed(s, n) is Ok,
    ensures
        ({
            let sums = all_owed(s, n)->Ok_0;
            let front = s.records.take(n);
            &&& sums.0 == total(
                front.map_values(
                    |d: debt_record::Model|
                        if d.kind@ == "lend"@ {
                            record_amount(s, d)->Ok_0 as int
                        } else if d.kind@ == "repayment_received"@ {
                            -record_amount(s, d)->Ok_0
                        } else {
                            0
                        },
                ),
            )
            &&& sums.1 == total(
                front.map_values(
                    |d: debt_record::Model|
                        if d.kind@ == "borrow"@ {
                            record_amount(s, d)->Ok_0 as int
                        } else if d.kind@ == "repayment_paid"@ {
                            -record_amount(s, d)->Ok_0
                        } else {
                            0
                        },
                ),
            )
        }),
    decreases n,
{
    let f = |d: debt_record::Model|
        if d.kind@ == "lend"@ {
            record_amount(s, d)->Ok_0 as int
        } else if d.kind@ == "repayment_received"@ {
            -record_amount(s, d)->Ok_0
        } else {
            0
        };
    let g = |d: debt_record::Model|
        if d.kind@ == "borrow"@ {
            record_amount(s, d)->Ok_0 as int
        } else if d.kind@ == "repayment_paid"@ {
            -record_amount(s, d)->Ok_0
        } else {
            0
        };
    reveal_strlit("lend");
    reveal_strlit("borrow");
    reveal_strlit("repayment_received");
    reveal_strlit("repayment_paid");
    assert("lend"@.len() == 4 && "borrow"@.len() == 6 && "repayment_received"@.len() == 18
        && "repayment_paid"@.len() == 14);
    if n > 0 {
        owed_is_total(s, n - 1);
        let (list, front) = (s.records.take(n), s.records.take(n - 1));
        assert(list.map_values(f).drop_last() =~= front.map_values(f));
        assert(list.map_values(g).drop_last() =~= front.map_values(g));
        assert(list.map_values(f).last() == f(s.records[n - 1]));
        assert(list.map_values(g).last() == g(s.records[n - 1]));
    }
}

/// The overview says what there is. Net assets are the balances of the accounts, each at the rate of
/// its currency. What was earned, spent, and spent on food this month are the bills of this month of
/// the kind; the coefficient says how many hundredths of what was spent went for food. Others owe
/// what was lent but not paid back, and are owed what was borrowed but not paid back.
pub proof fn overview_says_what_there_is(
    dek: &Dek,
    book: &Book,
    masks: &Vec<MaskedDetail>,
    agenda: &Agenda,
    rates: &RateTable,
    default_currency: &str,
    now: DateTime,
    today: Date,
    o: Overview,
    year: int,
    month: int,
    day: int,
)
    requires
        rates.wf(),
        later_by_days(now, 7) is Some,
        plus_months(today, 1) is Some,
        in_calendar(today.days - 365),
        in_calendar(today.days + 6),
        forall|i: int|
            0 <= i < book.bills@.len() ==> (#[trigger] book.bills@[i]).happened_at.second < 86400,
        call_ensures(
            show,
            (dek, book, masks, agenda, rates, default_currency, now, today),
            Ok(o),
        ),
        has_parts(today, year, month, day),
    ensures
        ({
            let own = default_currency@;
            let s = BillSource {
                dek: dek@,
                book: *book,
                rates: *rates,
                default_currency: own,
            };
            let d = DebtSource {
                dek: dek@,
                records: book.debts@,
                accounts: book.accounts@,
                rates: *rates,
                default_currency: own,
            };
            let a = AssetSource { dek: dek@, book: *book, masks: masks@, rates: *rates };
            let this_month = |b: bill::Model|
                exists|k: int| #[trigger] has_parts(b.happened_at.date, year, month, k);
            let earned = total(picked(s, |b: bill::Model| this_month(b) && b.kind@ == "income"@));
            let spent = total(picked(s, |b: bill::Model| this_month(b) && b.kind@ != "income"@));
            let food = total(
                picked(s, |b: bill::Model| this_month(b) && b.kind@ != "income"@ && b.is_food),
            );
            &&& o.net_assets@ == amount_text(
                total(book.accounts@.map_values(|x: account::Model| worth_of(a, x))),
                own,
            )
            &&& o.month_income@ == amount_text(earned, own)
            &&& o.month_expense@ == amount_text(spent, own)
            &&& o.food_expense@ == amount_text(food, own)
            &&& spent > 0 ==> exists|p: (int, int)| #[trigger]
                is_percent(p, food, spent) && o.engel_coefficient@ == decimal_text(p.0, p.1) + "%"@
            &&& o.receivable@ == amount_text(
                total(
                    book.debts@.map_values(
                        |x: debt_record::Model|
                            if x.kind@ == "lend"@ {
                                record_amount(d, x)->Ok_0 as int
                            } else if x.kind@ == "repayment_received"@ {
                                -record_amount(d, x)->Ok_0
                            } else {
                                0
                            },
                    ),
                ),
                own,
            )
            &&& o.payable@ == amount_text(
                total(
                    book.debts@.map_values(
                        |x: debt_record::Model|
                            if x.kind@ == "borrow"@ {
                                record_amount(d, x)->Ok_0 as int
                            } else if x.kind@ == "repayment_paid"@ {
                                -record_amount(d, x)->Ok_0
                            } else {
                                0
                            },
                    ),
                ),
                own,
            )
            &&& assets_are_worth(a, book.accounts@.len() as int)
            &&& debts_convert(d, book.debts@.len() as int)
            &&& bills_convert(s, book.bills@.len() as int)
        }),
{
    let own = default_currency@;
    let src = OverviewSource {
        dek: dek@,
        book: *book,
        masks: masks@,
        rates: *rates,
        default_currency: own,
        now,
        today,
    };
    let (a, d, s) = (src.assets(), src.debts(), src.bills());
    let (na, nd, nb) = (
        book.accounts@.len() as int,
        book.debts@.len() as int,
        book.bills@.len() as int,
    );
    let this_month = |b: bill::Model|
        exists|k: int| #[trigger] has_parts(b.happened_at.date, year, month, k);
    assets_are_total(a, na);
    assert(book.accounts@.take(na) =~= book.accounts@);
    owed_is_total(d, nd);
    assert(book.debts@.take(nd) =~= book.debts@);
    values_are(s, nb);
    crate::calendar::parts_are(today, year, month, day);
    let values = src.values()->Ok_0;
    assert forall|i: int| 0 <= i < nb implies in_month(values[i], today) == this_month(
        #[trigger] book.bills@[i],
    ) by {
        let date = book.bills@[i].happened_at.date;
        assert(value_of(s, book.bills@[i]) == Ok::<BillValue, ErrorView>(values[i]));
        crate::calendar::parts_exist(date);
        let (y, m, k) = parts_of(date);
        if this_month(book.bills@[i]) {
            let k2 = choose|k: int| #[trigger] has_parts(date, year, month, k);
            crate::calendar::parts_are(date, year, month, k2);
        }
    }
    assert(month_incomes(values, today) =~= picked(
        s,
        |b: bill::Model| this_month(b) && b.kind@ == "income"@,
    ));
    assert(month_expenses(values, today, false) =~= picked(
        s,
        |b: bill::Model| this_month(b) && b.kind@ != "income"@,
    ));
    assert(month_expenses(values, today, true) =~= picked(
        s,
        |b: bill::Model| this_month(b) && b.kind@ != "income"@ && b.is_food,
    ));
    checked_total_is_total(month_incomes(values, today));
    checked_total_is_total(month_expenses(values, today, false));
    checked_total_is_total(month_expenses(values, today, true));
    let sums = month_sums(values, today)->Ok_0;
    if sums.1 > 0 {
        assert(is_percent(
            percent_of(sums.2 as int, sums.1 as int)->0,
            sums.2 as int,
            sums.1 as int,
        ));
    }
}

/// The reports of the overview show the bills of their days: at each place of the row of so many days
/// up to today stands what was earned, or spent, on that day, and by the hour today.
pub proof fn reports_show_each_day(
    today: Date,
    values: &Vec<BillValue>,
    r: Reports,
    k: int,
)
    requires
        in_calendar(today.days - 365),
        in_calendar(today.days as int),
        forall|i: int| 0 <= i < values@.len() ==> (#[trigger] values@[i]).happened_at.second < 86400,
        call_ensures(build_reports, (today, values), Ok(r)),
        0 <= k,
    ensures
        ({
            let on = |day: int, income: bool|
                total(
                    values@.map_values(
                        |v: BillValue|
                            if v.income == income && v.happened_at.date.days == day {
                                v.amount as int
                            } else {
                                0
                            },
                    ),
                );
            let at = |hour: int, income: bool|
                total(
                    values@.map_values(
                        |v: BillValue|
                            if v.income == income && v.happened_at.date.days == today.days && hour
                                * 3600 <= v.happened_at.second < (hour + 1) * 3600 {
                                v.amount as int
                            } else {
                                0
                            },
                    ),
                );
            &&& r.daily.income@.len() == 24 && r.weekly.income@.len() == 7
                && r.monthly.income@.len() == 30 && r.yearly.income@.len() == 365
            &&& r.daily.expense@.len() == 24 && r.weekly.expense@.len() == 7
                && r.monthly.expense@.len() == 30 && r.yearly.expense@.len() == 365
            &&& k < 7 ==> r.weekly.income@[k] == on(today.days - 6 + k, true)
                && r.weekly.expense@[k] == on(today.days - 6 + k, false)
            &&& k < 30 ==> r.monthly.income@[k] == on(today.days - 29 + k, true)
                && r.monthly.expense@[k] == on(today.days - 29 + k, false)
            &&& k < 365 ==> r.yearly.income@[k] == on(today.days - 364 + k, true)
                && r.yearly.expense@[k] == on(today.days - 364 + k, false)
            &&& k < 24 ==> r.daily.income@[k] == at(k, true) && r.daily.expense@[k] == at(k, false)
        }),
{
    let t = today.days as int;
    row_day(values@, true, t, 7, k);
    row_day(values@, false, t, 7, k);
    row_day(values@, true, t, 30, k);
    row_day(values@, false, t, 30, k);
    row_day(values@, true, t, 365, k);
    row_day(values@, false, t, 365, k);
    row_hour(values@, true, t, k);
    row_hour(values@, false, t, k);
}

proof fn row_day(values: Seq<BillValue>, income: bool, today: int, days: int, k: int)
    requires
        days > 0,
    ensures
        checked_total(place_amounts(values, income, today, days, k)) is Some ==> checked_total(
            place_amounts(values, income, today, days, k),
        ) == Some(
            total(
                values.map_values(
                    |v: BillValue|
                        if v.income == income && v.happened_at.date.days == today - (days - 1) + k {
                            v.amount as int
                        } else {
                            0
                        },
                ),
            ),
        ),
{
    let here = values.map_values(
        |v: BillValue|
            if v.income == income && v.happened_at.date.days == today - (days - 1) + k {
                v.amount as int
            } else {
                0
            },
    );
    assert(place_amounts(values, income, today, days, k) =~= here);
    checked_total_is_total(here);
}

proof fn row_hour(values: Seq<BillValue>, income: bool, today: int, k: int)
    requires
        k >= 0,
    ensures
        checked_total(place_amounts(values, income, today, 0, k)) is Some ==> checked_total(
            place_amounts(values, income, today, 0, k),
        ) == Some(
            total(
                values.map_values(
                    |v: BillValue|
                        if v.income == income && v.happened_at.date.days == today && k * 3600
                            <= v.happened_at.second < (k + 1) * 3600 {
                            v.amount as int
                        } else {
                            0
                        },
                ),
            ),
        ),
{
    let here = values.map_values(
        |v: BillValue|
            if v.income == income && v.happened_at.date.days == today && k * 3600
                <= v.happened_at.second < (k + 1) * 3600 {
                v.amount as int
            } else {
                0
            },
    );
    assert(place_amounts(values, income, today, 0, k) =~= here);
    checked_total_is_total(here);
}

/// Where the start page leads.
pub fn redirect() -> (r: &'static str)
    ensures
        r@ == "/dashboard"@,
{
    "/dashboard"
}

/// What the row of the last days shows as earned, or as spent, is together what the bills of these
/// days say: each bill is counted once, at its own day.
pub proof fn row_counts_each_bill_once(
    sums: Seq<i64>,
    values: Seq<BillValue>,
    income: bool,
    today: int,
    days: int,
)
    requires
        is_row(sums, values, income, today, days),
    ensures
        total(sums.map_values(|x: i64| x as int)) == total(
            Seq::new(
                values.len(),
                |i: int|
                    if values[i].income == income && 0 <= place(values[i], today, days)
                        < sums.len() {
                        values[i].amount as int
                    } else {
                        0
                    },
            ),
        ),
    decreases sums.len(),
{
    let placed = |m: int|
        Seq::new(
            values.len(),
            |i: int|
                if values[i].income == income && 0 <= place(values[i], today, days) < m {
                    values[i].amount as int
                } else {
                    0
                },
        );
    let whole = sums.map_values(|x: i64| x as int);
    if sums.len() == 0 {
        assert(whole =~= Seq::empty());
        zeros_total(placed(0));
    } else {
        let m = sums.len() - 1;
        let rest = sums.take(m);
        assert forall|k: int| 0 <= k < rest.len() implies checked_total(
            place_amounts(values, income, today, days, k),
        ) == Some(#[trigger] rest[k] as int) by {
            assert(rest[k] == sums[k]);
        }
        row_counts_each_bill_once(rest, values, income, today, days);
        assert(whole.drop_last() =~= rest.map_values(|x: i64| x as int));
        assert(whole.last() == sums[m]);
        let here = place_amounts(values, income, today, days, m);
        checked_total_is_total(here);
        total_adds(placed(m), here, placed(m + 1));
    }
}

proof fn zeros_total(amounts: Seq<int>)
    requires
        forall|i: int| 0 <= i < amounts.len() ==> #[trigger] amounts[i] == 0,
    ensures
        total(amounts) == 0,
    decreases amounts.len(),
{
    if amounts.len() > 0 {
        zeros_total(amounts.drop_last());
    }
}

proof fn total_adds(a: Seq<int>, b: Seq<int>, sum: Seq<int>)
    requires
        a.len() == b.len() == sum.len(),
        forall|i: int| 0 <= i < sum.len() ==> #[trigger] sum[i] == a[i] + b[i],
    ensures
        total(sum) == total(a) + total(b),
    decreases sum.len(),
{
    if sum.len() > 0 {
        total_adds(a.drop_last(), b.drop_last(), sum.drop_last());
    }
}

/// One for each of the first `n` subscriptions that end by a time, else nothing.
pub open spec fn ending_marks(
    subscriptions: Seq<subscription::Model>,
    deadline: DateTime,
    n: int,
) -> Seq<int> {
    Seq::new(
        n as nat,
        |i: int|
            if subscriptions[i].expires_at.key() <= deadline.key() {
                1int
            } else {
                0
            },
    )
}

/// One for each of the first `n` payments that are not paid and due by a day, and whose plan, expense
/// and account are there, else nothing.
pub open spec fn payment_marks(
    book: Book,
    plans: Seq<installment_plan::Model>,
    items: Seq<installment_item::Model>,
    deadline: Date,
    n: int,
) -> Seq<int> {
    Seq::new(
        n as nat,
        |i: int|
            {
                let plan = found(plans, items[i].plan_id);
                if items[i].paid_at is None && items[i].due_date.days <= deadline.days && plan
                    is Some && found(book.bills@, plan->0.bill_id) is Some && found(
                    book.accounts@,
                    plan->0.account_id,
                ) is Some {
                    1int
                } else {
                    0
                }
            },
    )
}

/// A subscription that is bound to an account cannot be paid from it though the time to check has
/// come: so many days before its end, at most thirty; the account is gone, has another currency, or
/// holds less than the price, where an account that grants credit holds its limit too.
pub open spec fn lacks_money(s: AssetSource, item: subscription::Model, now: DateTime) -> bool {
    let days = item.balance_check_days as int;
    let checked = if days < 0 {
        0
    } else if days > 30 {
        30
    } else {
        days
    };
    let a = found(s.book.accounts@, item.auto_debit_account_id->0);
    let held = balance(s.dek, s.book, a->0.id)->Ok_0;
    let limit = match found(s.book.details@, a->0.id) {
        Some(detail) => cents(s.dek, detail.credit_limit@),
        None => 0,
    };
    let credit = a->0.kind@ == "credit_card"@ || a->0.kind@ == "credit_service"@;
    let price = cents(s.dek, item.amount@);
    &&& item.auto_debit_account_id is Some
    &&& DateTime {
        date: Date { days: (item.expires_at.date.days - checked) as i32 },
        ..item.expires_at
    }.key() <= now.key()
    &&& a is None || a->0.currency@ != item.currency@ || (!credit && held < price) || (credit && held
        + limit < price)
}

/// One for each of the first `n` subscriptions that lack money, else nothing.
pub open spec fn lacking_marks(
    s: AssetSource,
    subscriptions: Seq<subscription::Model>,
    now: DateTime,
    n: int,
) -> Seq<int> {
    Seq::new(
        n as nat,
        |i: int|
            if lacks_money(s, subscriptions[i], now) {
                1int
            } else {
                0
            },
    )
}

proof fn ending_count(subscriptions: Seq<subscription::Model>, deadline: DateTime, n: int)
    requires
        0 <= n,
    ensures
        due_by(subscriptions, deadline, n).len() == total(ending_marks(subscriptions, deadline, n)),
    decreases n,
{
    if n > 0 {
        ending_count(subscriptions, deadline, n - 1);
        assert(ending_marks(subscriptions, deadline, n).drop_last() =~= ending_marks(
            subscriptions,
            deadline,
            n - 1,
        ));
    }
}

proof fn payment_count(
    book: Book,
    plans: Seq<installment_plan::Model>,
    items: Seq<installment_item::Model>,
    deadline: Date,
    n: int,
)
    requires
        0 <= n,
    ensures
        due_items(book, plans, items, deadline, n).len() == total(
            payment_marks(book, plans, items, deadline, n),
        ),
    decreases n,
{
    if n > 0 {
        payment_count(book, plans, items, deadline, n - 1);
        assert(payment_marks(book, plans, items, deadline, n).drop_last() =~= payment_marks(
            book,
            plans,
            items,
            deadline,
            n - 1,
        ));
    }
}

proof fn lacking_count(
    s: AssetSource,
    subscriptions: Seq<subscription::Model>,
    now: DateTime,
    n: int,
)
    requires
        0 <= n <= subscriptions.len(),
        forall|i: int|
            0 <= i < n ==> in_calendar((#[trigger] subscriptions[i]).expires_at.date.days - 30)
                && cents(s.dek, subscriptions[i].amount@) >= 0,
        forall|i: int|
            0 <= i < s.book.accounts@.len() ==> balance(
                s.dek,
                s.book,
                (#[trigger] s.book.accounts@[i]).id,
            ) is Ok,
    ensures
        warnings_of(s, subscriptions, now, n).len() == total(
            lacking_marks(s, subscriptions, now, n),
        ),
    decreases n,
{
    if n > 0 {
        lacking_count(s, subscriptions, now, n - 1);
        assert(lacking_marks(s, subscriptions, now, n).drop_last() =~= lacking_marks(
            s,
            subscriptions,
            now,
            n - 1,
        ));
        let item = subscriptions[n - 1];
        if item.auto_debit_account_id is Some {
            let id = item.auto_debit_account_id->0;
            crate::book::found_is_row(s.book.accounts@, id);
            if found(s.book.accounts@, id) is Some {
                let a = found(s.book.accounts@, id)->0;
                let k = choose|k: int| 0 <= k < s.book.accounts@.len() && s.book.accounts@[k] == a;
                assert(balance(s.dek, s.book, s.book.accounts@[k].id) is Ok);
                if found(s.book.details@, a.id) is Some {
                    crate::crypto::cents_fit(
                        s.dek,
                        found(s.book.details@, a.id)->0.credit_limit@,
                    );
                }
            }
            crate::crypto::cents_fit(s.dek, item.amount@);
        }
        let days = check_days(item.balance_check_days as int);
        let earlier = DateTime {
            date: Date { days: (item.expires_at.date.days - days) as i32 },
            ..item.expires_at
        };
        assert(earlier.key() == item.expires_at.key() - days * 0x1_0000_0000_0000_0000);
        assert((warned(s, item, now) is Some) == lacks_money(s, item, now));
    }
}

/// The overview reminds of every subscription that ends by the same time seven days later, of every
/// payment that is due by then and not paid, and warns of every subscription that lacks money; no
/// more than ten reminders of a kind are shown, but all are counted.
pub proof fn overview_reminds_of_what_is_due(
    dek: &Dek,
    book: &Book,
    masks: &Vec<MaskedDetail>,
    agenda: &Agenda,
    rates: &RateTable,
    default_currency: &str,
    now: DateTime,
    today: Date,
    o: Overview,
)
    requires
        rates.wf(),
        later_by_days(now, 7) is Some,
        plus_months(today, 1) is Some,
        in_calendar(today.days - 365),
        in_calendar(today.days + 6),
        forall|i: int|
            0 <= i < book.bills@.len() ==> (#[trigger] book.bills@[i]).happened_at.second < 86400,
        forall|i: int|
            0 <= i < agenda.subscriptions@.len() ==> in_calendar(
                (#[trigger] agenda.subscriptions@[i]).expires_at.date.days - 30,
            ) && cents(dek@, agenda.subscriptions@[i].amount@) >= 0,
        call_ensures(
            show,
            (dek, book, masks, agenda, rates, default_currency, now, today),
            Ok(o),
        ),
    ensures
        ({
            let s = AssetSource { dek: dek@, book: *book, masks: masks@, rates: *rates };
            let last = Date { days: (now.date.days + 7) as i32 };
            let n = agenda.subscriptions@.len() as int;
            &&& o.subscription_reminder_count == total(
                ending_marks(agenda.subscriptions@, DateTime { date: last, ..now }, n),
            )
            &&& o.installment_reminder_count == total(
                payment_marks(
                    *book,
                    agenda.plans@,
                    agenda.items@,
                    last,
                    agenda.items@.len() as int,
                ),
            )
            &&& o.auto_debit_warnings@.len() == total(
                lacking_marks(s, agenda.subscriptions@, now, n),
            )
            &&& o.subscription_reminders@.len() <= 10 && o.installment_reminders@.len() <= 10
            &&& o.subscription_reminder_count <= 10 ==> o.subscription_reminders@.len()
                == o.subscription_reminder_count
            &&& o.installment_reminder_count <= 10 ==> o.installment_reminders@.len()
                == o.installment_reminder_count
        }),
{
    let s = AssetSource { dek: dek@, book: *book, masks: masks@, rates: *rates };
    let last = Date { days: (now.date.days + 7) as i32 };
    let n = agenda.subscriptions@.len() as int;
    assets_know_balances(s, book.accounts@.len() as int);
    ending_count(agenda.subscriptions@, DateTime { date: last, ..now }, n);
    payment_count(*book, agenda.plans@, agenda.items@, last, agenda.items@.len() as int);
    lacking_count(s, agenda.subscriptions@, now, n);
    assert(later_by_days(now, 7)->0 == DateTime { date: last, ..now });
}

} // verus!
