//! Currencies, exchange rates and the conversion of amounts.
use vstd::prelude::*;
use vstd::string::*;

use crate::calendar::{date_text, date_to_text, in_calendar, Date, DateTime};
use crate::decimal::{
    cents_text, decimal_of_text, decimal_product, decimal_text, decimal_to_text, fits_i64,
    fits_mantissa, fmt_cents, is_near, multiply, nearest, nearest_number, number, parse_decimal,
    pow10, product_as_real, product_number, size, to_i64, whole, whole_number, Dec,
};
use crate::entity::{exchange_rate, preference};
use crate::text::{chars_of, join2, join3, join5, same, text_of};

verus! {

/// The currency of a ledger whose user has not chosen one.
pub const FALLBACK_CURRENCY: &'static str = "CNY";

/// A currency to choose from.
#[derive(Clone, Copy)]
pub struct CurrencyOption {
    pub code: &'static str,
    pub name: &'static str,
}

/// The codes of the currencies to choose from.
pub open spec fn is_currency(code: Seq<char>) -> bool {
    ||| code == "CNY"@
    ||| code == "USD"@
    ||| code == "EUR"@
    ||| code == "HKD"@
    ||| code == "JPY"@
    ||| code == "GBP"@
    ||| code == "SGD"@
    ||| code == "AUD"@
    ||| code == "CAD"@
    ||| code == "CHF"@
    ||| code == "KRW"@
    ||| code == "TWD"@
    ||| code == "NZD"@
    ||| code == "THB"@
    ||| code == "MYR"@
    ||| code == "PHP"@
    ||| code == "IDR"@
    ||| code == "INR"@
    ||| code == "VND"@
    ||| code == "AED"@
    ||| code == "TRY"@
    ||| code == "RUB"@
}

/// The currencies to choose from, each with its name, in the order in which they are offered.
pub open spec fn currency_list() -> Seq<(Seq<char>, Seq<char>)> {
    seq![
        ("CNY"@, "人民币"@),
        ("USD"@, "美元"@),
        ("EUR"@, "欧元"@),
        ("HKD"@, "港币"@),
        ("JPY"@, "日元"@),
        ("GBP"@, "英镑"@),
        ("SGD"@, "新加坡元"@),
        ("AUD"@, "澳大利亚元"@),
        ("CAD"@, "加拿大元"@),
        ("CHF"@, "瑞士法郎"@),
        ("KRW"@, "韩元"@),
        ("TWD"@, "新台币"@),
        ("NZD"@, "新西兰元"@),
        ("THB"@, "泰铢"@),
        ("MYR"@, "马来西亚林吉特"@),
        ("PHP"@, "菲律宾比索"@),
        ("IDR"@, "印度尼西亚卢比"@),
        ("INR"@, "印度卢比"@),
        ("VND"@, "越南盾"@),
        ("AED"@, "阿联酋迪拉姆"@),
        ("TRY"@, "土耳其里拉"@),
        ("RUB"@, "俄罗斯卢布"@),
    ]
}

/// The currencies to choose from, in the order in which they are offered.
pub fn currencies() -> (r: Vec<CurrencyOption>)
    ensures
        r@.len() == currency_list().len(),
        forall|i: int|
            0 <= i < r@.len() ==> (#[trigger] r@[i]).code@ == currency_list()[i].0 && r@[i].name@
                == currency_list()[i].1,
{
    vec![
        CurrencyOption { code: "CNY", name: "人民币" },
        CurrencyOption { code: "USD", name: "美元" },
        CurrencyOption { code: "EUR", name: "欧元" },
        CurrencyOption { code: "HKD", name: "港币" },
        CurrencyOption { code: "JPY", name: "日元" },
        CurrencyOption { code: "GBP", name: "英镑" },
        CurrencyOption { code: "SGD", name: "新加坡元" },
        CurrencyOption { code: "AUD", name: "澳大利亚元" },
        CurrencyOption { code: "CAD", name: "加拿大元" },
        CurrencyOption { code: "CHF", name: "瑞士法郎" },
        CurrencyOption { code: "KRW", name: "韩元" },
        CurrencyOption { code: "TWD", name: "新台币" },
        CurrencyOption { code: "NZD", name: "新西兰元" },
        CurrencyOption { code: "THB", name: "泰铢" },
        CurrencyOption { code: "MYR", name: "马来西亚林吉特" },
        CurrencyOption { code: "PHP", name: "菲律宾比索" },
        CurrencyOption { code: "IDR", name: "印度尼西亚卢比" },
        CurrencyOption { code: "INR", name: "印度卢比" },
        CurrencyOption { code: "VND", name: "越南盾" },
        CurrencyOption { code: "AED", name: "阿联酋迪拉姆" },
        CurrencyOption { code: "TRY", name: "土耳其里拉" },
        CurrencyOption { code: "RUB", name: "俄罗斯卢布" },
    ]
}

/// The codes on the list are those of the currencies to choose from.
pub proof fn listed_currencies(code: Seq<char>)
    ensures
        is_currency(code) <==> exists|i: int|
            0 <= i < currency_list().len() && (#[trigger] currency_list()[i]).0 == code,
{
    let list = currency_list();
    assert(list.len() == 22);
    assert(list[0].0 == "CNY"@);
    assert(list[1].0 == "USD"@);
    assert(list[2].0 == "EUR"@);
    assert(list[3].0 == "HKD"@);
    assert(list[4].0 == "JPY"@);
    assert(list[5].0 == "GBP"@);
    assert(list[6].0 == "SGD"@);
    assert(list[7].0 == "AUD"@);
    assert(list[8].0 == "CAD"@);
    assert(list[9].0 == "CHF"@);
    assert(list[10].0 == "KRW"@);
    assert(list[11].0 == "TWD"@);
    assert(list[12].0 == "NZD"@);
    assert(list[13].0 == "THB"@);
    assert(list[14].0 == "MYR"@);
    assert(list[15].0 == "PHP"@);
    assert(list[16].0 == "IDR"@);
    assert(list[17].0 == "INR"@);
    assert(list[18].0 == "VND"@);
    assert(list[19].0 == "AED"@);
    assert(list[20].0 == "TRY"@);
    assert(list[21].0 == "RUB"@);
}

/// Whether a code is one of a currency to choose from.
pub fn valid(code: &str) -> (r: bool)
    ensures
        r == is_currency(code@),
{
    same(code, "CNY") || same(code, "USD") || same(code, "EUR") || same(code, "HKD")
        || same(code, "JPY") || same(code, "GBP") || same(code, "SGD") || same(code, "AUD")
        || same(code, "CAD") || same(code, "CHF") || same(code, "KRW") || same(code, "TWD")
        || same(code, "NZD") || same(code, "THB") || same(code, "MYR") || same(code, "PHP")
        || same(code, "IDR") || same(code, "INR") || same(code, "VND") || same(code, "AED")
        || same(code, "TRY") || same(code, "RUB")
}

/// An amount with its currency in front of it.
pub open spec fn amount_text(cents: int, currency: Seq<char>) -> Seq<char> {
    currency + " "@ + cents_text(cents)
}

/// Writes an amount with its currency in front of it.
pub fn format(cents: i64, currency: &str) -> (r: String)
    ensures
        r@ == amount_text(cents as int, currency@),
{
    join3(currency, " ", &fmt_cents(cents))
}

/// An exchange rate, the day it belongs to and when it was fetched.
#[derive(Clone, Copy)]
pub struct RateInfo {
    pub rate: Dec,
    pub rate_date: Date,
    pub fetched_at: Option<DateTime>,
}

/// The name under which a rate is kept.
pub open spec fn cache_key(date: Date, base: Seq<char>, quote: Seq<char>) -> Seq<char> {
    date_text(date) + ":"@ + base + ":"@ + quote
}

/// The name under which a rate is kept.
pub fn cache_id(date: Date, base: &str, quote: &str) -> (r: String)
    ensures
        r@ == cache_key(date, base@, quote@),
{
    join5(&date_to_text(date), ":", base, ":", quote)
}

/// A time in nanoseconds.
pub open spec fn nanoseconds(time: DateTime) -> int {
    (time.date.days * 86400 + time.second) * 1_000_000_000 + time.nano
}

/// A kept rate can still be used: it belongs to the requested day or a later one, the requested
/// day is over, or it was fetched less than six hours ago.
pub open spec fn is_fresh(
    requested_date: Date,
    rate_date: Date,
    fetched_at: DateTime,
    today: Date,
    now: DateTime,
) -> bool {
    ||| rate_date.days >= requested_date.days
    ||| requested_date.days < today.days
    ||| nanoseconds(now) - nanoseconds(fetched_at) < 6 * 3600 * 1_000_000_000
}

/// Whether a kept rate can still be used.
pub fn cache_is_fresh(
    requested_date: Date,
    rate_date: Date,
    fetched_at: DateTime,
    today: Date,
    now: DateTime,
) -> (r: bool)
    ensures
        r == is_fresh(requested_date, rate_date, fetched_at, today, now),
{
    let then: i128 = (fetched_at.date.days as i128 * 86400 + fetched_at.second as i128)
        * 1_000_000_000 + fetched_at.nano as i128;
    let this: i128 = (now.date.days as i128 * 86400 + now.second as i128) * 1_000_000_000
        + now.nano as i128;
    rate_date.days >= requested_date.days || requested_date.days < today.days || this - then < 6
        * 3600 * 1_000_000_000
}

/// Where a request for a rate stands.
#[derive(Clone, Copy, Debug, PartialEq, Eq, Structural)]
pub enum RatePhase {
    /// The kept rate is looked up for the first time.
    Lookup,
    /// The kept rate is looked up again, while no one else fetches.
    LockedLookup,
    /// The rate is fetched for a day so many days before the requested one.
    Fetching(u32),
    /// The latest kept rate is looked up, since none could be fetched.
    Fallback,
}

/// A request for the rate between two currencies on a day.
pub struct RateRequest {
    pub base: String,
    pub quote: String,
    pub requested_date: Date,
    pub phase: RatePhase,
    pub last_error: String,
}

/// What is to be done next for a request.
pub enum RateAction {
    /// The request is answered.
    Done(RateInfo),
    /// The request is refused with a message.
    Refused(String),
    /// The rate that is kept for the requested day is to be read.
    ReadCache(RateRequest),
    /// Other fetches are to be awaited; then the rate that is kept is to be read again.
    LockAndReadCache(RateRequest),
    /// The rate of a day is to be fetched.
    Fetch(RateRequest, Date),
    /// The row is to be kept; then the request is answered.
    Store(exchange_rate::Model, RateInfo),
    /// The rates that are kept are to be read.
    ReadLatest(RateRequest),
}

/// The day that a phase fetches the rate of.
pub open spec fn days_earlier(date: Date, days_back: int) -> Date {
    Date { days: (date.days - days_back) as i32 }
}

/// The same request in another phase.
pub open spec fn moved_on(old: RateRequest, new: RateRequest, phase: RatePhase) -> bool {
    &&& new.base@ == old.base@
    &&& new.quote@ == old.quote@
    &&& new.requested_date == old.requested_date
    &&& new.phase == phase
}

/// Begins a request: between one currency and itself the rate is one; unknown currencies are
/// refused; else the kept rate is looked up.
pub fn begin_rate(base: &str, quote: &str, requested_date: Date) -> (r: RateAction)
    ensures
        match r {
            RateAction::Done(info) => base@ == quote@ && info.rate.pair() == (1int, 0int)
                && info.rate_date == requested_date && info.fetched_at is None,
            RateAction::Refused(message) => base@ != quote@ && !(is_currency(base@) && is_currency(
                quote@,
            )) && message@ == "不支持的货币："@ + base@ + "/"@ + quote@,
            RateAction::ReadCache(request) => base@ != quote@ && is_currency(base@) && is_currency(
                quote@,
            ) && request.base@ == base@ && request.quote@ == quote@ && request.requested_date
                == requested_date && request.phase == RatePhase::Lookup
                && request.last_error@.len() == 0,
            _ => false,
        },
{
    if same(base, quote) {
        return RateAction::Done(
            RateInfo {
                rate: Dec { mantissa: 1, scale: 0 },
                rate_date: requested_date,
                fetched_at: None,
            },
        );
    }
    if !valid(base) || !valid(quote) {
        return RateAction::Refused(crate::text::join4("不支持的货币：", base, "/", quote));
    }
    RateAction::ReadCache(
        RateRequest {
            base: base.to_owned(),
            quote: quote.to_owned(),
            requested_date,
            phase: RatePhase::Lookup,
            last_error: String::new(),
        },
    )
}

/// The rate of a kept row, or the message that says why it has none.
pub open spec fn kept_rate(row: exchange_rate::Model) -> Result<(int, int), Seq<char>> {
    decimal_of_text(row.rate@)
}

/// A request is answered with a kept row.
pub open spec fn answers(info: RateInfo, row: exchange_rate::Model) -> bool {
    &&& kept_rate(row) == Ok::<(int, int), Seq<char>>(info.rate.pair())
    &&& info.rate.wf()
    &&& info.rate_date == row.rate_date
    &&& info.fetched_at == Some(row.fetched_at)
}

/// The kept row with a name, where there is one; the last of them, should there be several.
pub open spec fn kept_row(rows: Seq<exchange_rate::Model>, id: Seq<char>) -> Option<
    exchange_rate::Model,
>
    decreases rows.len(),
{
    if rows.len() == 0 {
        None
    } else if rows.last().id@ == id {
        Some(rows.last())
    } else {
        kept_row(rows.drop_last(), id)
    }
}

fn find_kept<'a>(rows: &'a Vec<exchange_rate::Model>, id: &str) -> (r: Option<
    &'a exchange_rate::Model,
>)
    ensures
        match r {
            Some(row) => kept_row(rows@, id@) == Some(*row),
            None => kept_row(rows@, id@) is None,
        },
{
    let mut i: usize = rows.len();
    proof {
        assert(rows@.take(rows@.len() as int) =~= rows@);
    }
    while i > 0
        invariant
            i <= rows@.len(),
            kept_row(rows@, id@) == kept_row(rows@.take(i as int), id@),
        decreases i,
    {
        proof {
            assert(rows@.take(i as int).drop_last() =~= rows@.take(i - 1));
        }
        i = i - 1;
        if same(&rows[i].id, id) {
            return Some(&rows[i]);
        }
    }
    None
}

/// Goes on once the rates that are kept were read: the one of the requested day and the two
/// currencies answers the request while it is fresh.
pub fn after_cache(
    request: RateRequest,
    rows: &Vec<exchange_rate::Model>,
    today: Date,
    now: DateTime,
) -> (r: RateAction)
    requires
        request.phase == RatePhase::Lookup || request.phase == RatePhase::LockedLookup,
    ensures
        ({
            let row = kept_row(
                rows@,
                cache_key(request.requested_date, request.base@, request.quote@),
            );
            let fresh = is_fresh(
                request.requested_date,
                row->0.rate_date,
                row->0.fetched_at,
                today,
                now,
            );
            &&& match r {
                RateAction::Refused(message) => row is Some && kept_rate(row->0) == Err::<
                    (int, int),
                    Seq<char>,
                >(message@),
                RateAction::Done(info) => row is Some && answers(info, row->0) && fresh,
                RateAction::LockAndReadCache(next) => request.phase == RatePhase::Lookup
                    && moved_on(request, next, RatePhase::LockedLookup) && next.last_error@
                    == request.last_error@,
                RateAction::Fetch(next, date) => request.phase == RatePhase::LockedLookup
                    && moved_on(request, next, RatePhase::Fetching(0)) && next.last_error@
                    == request.last_error@ && date == request.requested_date,
                _ => false,
            }
            &&& r is LockAndReadCache || r is Fetch <==> row is None || (kept_rate(row->0) is Ok
                && !fresh)
        }),
{
    let id = cache_id(request.requested_date, &request.base, &request.quote);
    match find_kept(rows, &id) {
        Some(row) => match parse_decimal(&row.rate) {
            Err(message) => {
                return RateAction::Refused(message);
            },
            Ok(rate) => {
                if cache_is_fresh(
                    request.requested_date,
                    row.rate_date,
                    row.fetched_at,
                    today,
                    now,
                ) {
                    return RateAction::Done(
                        RateInfo {
                            rate,
                            rate_date: row.rate_date,
                            fetched_at: Some(row.fetched_at),
                        },
                    );
                }
            },
        },
        None => {},
    }
    let date = request.requested_date;
    let first = request.phase == RatePhase::Lookup;
    let next = RateRequest {
        base: request.base,
        quote: request.quote,
        requested_date: date,
        phase: if first {
            RatePhase::LockedLookup
        } else {
            RatePhase::Fetching(0)
        },
        last_error: request.last_error,
    };
    if first {
        RateAction::LockAndReadCache(next)
    } else {
        RateAction::Fetch(next, date)
    }
}

/// What came of a fetch.
pub enum FetchOutcome {
    /// A day and the rate as the service wrote it.
    Quoted(Date, String),
    /// Why there is none.
    Failed(String),
}

/// A text without the quotation marks around it.
pub open spec fn unquoted(s: Seq<char>) -> Seq<char> {
    unquoted_back(unquoted_front(s))
}

/// A text without the quotation marks at its front.
pub open spec fn unquoted_front(s: Seq<char>) -> Seq<char>
    decreases s.len(),
{
    if s.len() > 0 && s[0] == '"' {
        unquoted_front(s.drop_first())
    } else {
        s
    }
}

/// A text without the quotation marks at its end.
pub open spec fn unquoted_back(s: Seq<char>) -> Seq<char>
    decreases s.len(),
{
    if s.len() > 0 && s.last() == '"' {
        unquoted_back(s.drop_last())
    } else {
        s
    }
}

/// Takes the quotation marks around a text off.
pub fn unquote(s: &str) -> (r: String)
    ensures
        r@ == unquoted(s@),
{
    let chars = chars_of(s);
    let mut from: usize = 0;
    let mut to: usize = chars.len();
    proof {
        assert(s@.subrange(0, s@.len() as int) =~= s@);
    }
    while from < to && chars[from] == '"'
        invariant
            from <= to == chars.len(),
            chars@ == s@,
            unquoted_front(s@) == unquoted_front(s@.subrange(from as int, to as int)),
        decreases to - from,
    {
        proof {
            assert(s@.subrange(from as int, to as int).drop_first() =~= s@.subrange(
                from + 1,
                to as int,
            ));
        }
        from = from + 1;
    }
    while from < to && chars[to - 1] == '"'
        invariant
            from <= to <= chars.len(),
            chars@ == s@,
            unquoted(s@) == unquoted_back(s@.subrange(from as int, to as int)),
        decreases to - from,
    {
        proof {
            assert(s@.subrange(from as int, to as int).drop_last() =~= s@.subrange(
                from as int,
                to - 1,
            ));
        }
        to = to - 1;
    }
    text_of(&chars, from, to)
}

/// What a fetched rate comes to: the rate, or the message that refuses it.
pub open spec fn quoted_rate(text: Seq<char>) -> Result<(int, int), Seq<char>> {
    match decimal_of_text(unquoted(text)) {
        Err(message) => Err("汇率格式无效："@ + message),
        Ok(rate) => if rate.0 <= 0 {
            Err("汇率必须大于 0"@)
        } else {
            Ok(rate)
        },
    }
}

/// The row that keeps a fetched rate.
pub open spec fn keeps(
    row: exchange_rate::Model,
    request: RateRequest,
    info: RateInfo,
    now: DateTime,
) -> bool {
    &&& row.id@ == cache_key(request.requested_date, request.base@, request.quote@)
    &&& row.requested_date == request.requested_date
    &&& row.rate_date == info.rate_date
    &&& row.base_currency@ == request.base@
    &&& row.quote_currency@ == request.quote@
    &&& row.rate@ == decimal_text(info.rate.mantissa as int, info.rate.scale as int)
    &&& row.fetched_at == now
    &&& info.fetched_at == Some(now)
}

/// Goes on once a rate was fetched: a rate above zero is kept and answers the request; after a
/// failure the day before is tried, up to seven days back, and then the latest kept rate.
pub fn after_fetch(request: RateRequest, outcome: FetchOutcome, now: DateTime) -> (r: RateAction)
    requires
        request.phase is Fetching,
        request.phase->Fetching_0 <= 7,
        in_calendar(request.requested_date.days - 7),
    ensures
        match outcome {
            FetchOutcome::Quoted(date, text) => match quoted_rate(text@) {
                Err(expected) => r matches RateAction::Refused(message) && message@ == expected,
                Ok(rate) => r matches RateAction::Store(row, info) && info.rate.pair() == rate
                    && info.rate.wf() && info.rate_date == date && keeps(row, request, info, now),
            },
            FetchOutcome::Failed(error) => if request.phase->Fetching_0 < 7 {
                r matches RateAction::Fetch(next, day) && moved_on(
                    request,
                    next,
                    RatePhase::Fetching((request.phase->Fetching_0 + 1) as u32),
                ) && next.last_error@ == error@ && day == days_earlier(
                    request.requested_date,
                    request.phase->Fetching_0 + 1,
                )
            } else {
                r matches RateAction::ReadLatest(next) && moved_on(
                    request,
                    next,
                    RatePhase::Fallback,
                ) && next.last_error@ == error@
            },
        },
{
    match outcome {
        FetchOutcome::Quoted(date, text) => match parse_decimal(&unquote(&text)) {
            Err(message) => RateAction::Refused(join2("汇率格式无效：", &message)),
            Ok(rate) => if rate.mantissa <= 0 {
                RateAction::Refused("汇率必须大于 0".to_owned())
            } else {
                RateAction::Store(
                    exchange_rate::Model {
                        id: cache_id(request.requested_date, &request.base, &request.quote),
                        requested_date: request.requested_date,
                        rate_date: date,
                        base_currency: request.base,
                        quote_currency: request.quote,
                        rate: decimal_to_text(rate),
                        fetched_at: now,
                    },
                    RateInfo { rate, rate_date: date, fetched_at: Some(now) },
                )
            },
        },
        FetchOutcome::Failed(error) => {
            let days_back: u32 = match request.phase {
                RatePhase::Fetching(n) => n,
                _ => 0,
            };
            let date = request.requested_date;
            let next = RateRequest {
                base: request.base,
                quote: request.quote,
                requested_date: date,
                phase: if days_back < 7 {
                    RatePhase::Fetching(days_back + 1)
                } else {
                    RatePhase::Fallback
                },
                last_error: error,
            };
            if days_back < 7 {
                RateAction::Fetch(next, Date { days: date.days - (days_back as i32 + 1) })
            } else {
                RateAction::ReadLatest(next)
            }
        },
    }
}

/// The message when no rate can be had.
pub open spec fn no_rate(request: RateRequest) -> Seq<char> {
    "无法取得 "@ + date_text(request.requested_date) + " 的 "@ + request.base@ + "/"@ + (
    request.quote@ + " 汇率，且没有可用缓存："@ + request.last_error@)
}

/// A kept row holds the rate of two currencies, in this order, for a day or an earlier one.
pub open spec fn is_rate_until(
    row: exchange_rate::Model,
    base: Seq<char>,
    quote: Seq<char>,
    date: Date,
) -> bool {
    row.base_currency@ == base && row.quote_currency@ == quote && row.requested_date.days
        <= date.days
}

/// A place of the latest of these rows.
pub open spec fn is_latest_rate(
    rows: Seq<exchange_rate::Model>,
    at: int,
    base: Seq<char>,
    quote: Seq<char>,
    date: Date,
) -> bool {
    &&& 0 <= at < rows.len()
    &&& is_rate_until(rows[at], base, quote, date)
    &&& forall|i: int|
        0 <= i < rows.len() && is_rate_until(#[trigger] rows[i], base, quote, date)
            ==> rows[i].requested_date.days <= rows[at].requested_date.days
}

/// Some kept row holds the rate of two currencies for a day or an earlier one.
pub open spec fn has_rate(
    rows: Seq<exchange_rate::Model>,
    base: Seq<char>,
    quote: Seq<char>,
    date: Date,
) -> bool {
    exists|i: int| 0 <= i < rows.len() && is_rate_until(#[trigger] rows[i], base, quote, date)
}

/// Finds the kept rate of two currencies for the latest day up to a day.
pub fn latest_rate(rows: &Vec<exchange_rate::Model>, base: &str, quote: &str, date: Date) -> (r:
    Option<usize>)
    ensures
        match r {
            Some(i) => is_latest_rate(rows@, i as int, base@, quote@, date),
            None => !has_rate(rows@, base@, quote@, date),
        },
{
    let mut best: Option<usize> = None;
    let mut i: usize = 0;
    while i < rows.len()
        invariant
            i <= rows.len(),
            match best {
                Some(at) => {
                    &&& at < i
                    &&& is_rate_until(rows@[at as int], base@, quote@, date)
                    &&& forall|j: int|
                        0 <= j < i && is_rate_until(#[trigger] rows@[j], base@, quote@, date)
                            ==> rows@[j].requested_date.days <= rows@[at as int].requested_date.days
                },
                None => forall|j: int|
                    0 <= j < i ==> !is_rate_until(#[trigger] rows@[j], base@, quote@, date),
            },
        decreases rows.len() - i,
    {
        let row = &rows[i];
        if same(&row.base_currency, base) && same(&row.quote_currency, quote)
            && row.requested_date.days <= date.days {
            best = match best {
                Some(at) => if rows[at].requested_date.days < row.requested_date.days {
                    Some(i)
                } else {
                    Some(at)
                },
                None => Some(i),
            };
        }
        i = i + 1;
    }
    best
}

/// What a request comes to that is answered from a kept row, whatever its age.
pub open spec fn comes_of(r: RateAction, row: exchange_rate::Model) -> bool {
    match r {
        RateAction::Done(info) => answers(info, row),
        RateAction::Refused(message) => kept_rate(row) == Err::<(int, int), Seq<char>>(message@),
        _ => false,
    }
}

/// What a request comes to that could not be fetched: the latest kept rate of its two currencies
/// up to the requested day answers it; without one it is refused.
pub open spec fn falls_back(
    r: RateAction,
    request: RateRequest,
    rows: Seq<exchange_rate::Model>,
) -> bool {
    let (base, quote, date) = (request.base@, request.quote@, request.requested_date);
    if has_rate(rows, base, quote, date) {
        exists|i: int|
            #[trigger] is_latest_rate(rows, i, base, quote, date) && comes_of(r, rows[i])
    } else {
        r matches RateAction::Refused(message) && message@ == no_rate(request)
    }
}

/// Goes on once the rates that are kept were read, since none could be fetched.
pub fn after_latest(request: RateRequest, rows: &Vec<exchange_rate::Model>) -> (r: RateAction)
    ensures
        falls_back(r, request, rows@),
{
    match latest_rate(rows, &request.base, &request.quote, request.requested_date) {
        Some(i) => {
            let row = &rows[i];
            proof {
                let (base, quote) = (request.base@, request.quote@);
                assert(is_rate_until(rows@[i as int], base, quote, request.requested_date));
                assert(is_latest_rate(rows@, i as int, base, quote, request.requested_date));
            }
            match parse_decimal(&row.rate) {
                Ok(rate) => RateAction::Done(
                    RateInfo { rate, rate_date: row.rate_date, fetched_at: Some(row.fetched_at) },
                ),
                Err(message) => RateAction::Refused(message),
            }
        },
        None => {
            let date = date_to_text(request.requested_date);
            let front = join5("无法取得 ", &date, " 的 ", &request.base, "/");
            let back = join3(&request.quote, " 汇率，且没有可用缓存：", &request.last_error);
            RateAction::Refused(join2(&front, &back))
        },
    }
}

/// When every fetch fails, the request is answered from what is kept: whatever steps it took, the
/// answer is the kept rate of exactly its two currencies for the latest day up to the requested
/// one, and the request is refused where no such rate is kept.
pub proof fn failed_fetches_fall_back(
    steps: Seq<RateRequest>,
    rows: Seq<exchange_rate::Model>,
    r: RateAction,
)
    requires
        steps.len() > 0,
        forall|i: int|
            0 < i < steps.len() ==> moved_on(
                steps[i - 1],
                #[trigger] steps[i],
                steps[i].phase,
            ),
        falls_back(r, steps.last(), rows),
        forall|i: int| 0 <= i < rows.len() ==> kept_rate(#[trigger] rows[i]) is Ok,
    ensures
        match r {
            RateAction::Done(info) => exists|i: int| #[trigger]
                is_latest_rate(
                    rows,
                    i,
                    steps[0].base@,
                    steps[0].quote@,
                    steps[0].requested_date,
                ) && answers(info, rows[i]),
            RateAction::Refused(_) => !has_rate(
                rows,
                steps[0].base@,
                steps[0].quote@,
                steps[0].requested_date,
            ),
            _ => false,
        },
{
    same_pair_throughout(steps, steps.len() - 1);
    let (base, quote, date) = (steps[0].base@, steps[0].quote@, steps[0].requested_date);
    assert(steps.last() == steps[steps.len() - 1]);
    if has_rate(rows, base, quote, date) {
        let i = choose|i: int|
            #[trigger] is_latest_rate(rows, i, base, quote, date) && comes_of(r, rows[i]);
        assert(kept_rate(rows[i]) is Ok);
    }
}

proof fn same_pair_throughout(steps: Seq<RateRequest>, n: int)
    requires
        0 <= n < steps.len(),
        forall|i: int|
            0 < i < steps.len() ==> moved_on(
                steps[i - 1],
                #[trigger] steps[i],
                steps[i].phase,
            ),
    ensures
        steps[n].base@ == steps[0].base@,
        steps[n].quote@ == steps[0].quote@,
        steps[n].requested_date == steps[0].requested_date,
    decreases n,
{
    if n > 0 {
        same_pair_throughout(steps, n - 1);
        assert(moved_on(steps[n - 1], steps[n], steps[n].phase));
    }
}

/// An amount in another currency, rounded to the nearest cent with midpoints to the even one,
/// or the message that says why there is none.
pub open spec fn converted(cents: int, rate: (int, int)) -> Result<i64, Seq<char>> {
    match decimal_product((cents, 0int), rate) {
        None => Err("金额计算超出范围"@),
        Some(product) => if fits_i64(nearest(product.0, product.1)) {
            Ok(nearest(product.0, product.1) as i64)
        } else {
            Err("换算后的金额超出范围"@)
        },
    }
}

/// An amount is worth so much at a rate: the nearest cent to the product of the two, but for what
/// is rounded away of a product with more digits than can be held.
pub open spec fn is_worth(worth: int, cents: int, rate: (int, int)) -> bool {
    let error = size(worth as real - cents as real * number(rate));
    &&& 20000000real * error <= 10000001real
    &&& fits_mantissa(cents * rate.0) ==> 2real * error <= 1real
}

proof fn nearest_is_worth(cents: int, rate: (int, int), product: (int, int))
    requires
        0 <= rate.1 <= 28,
        is_near(product, cents * rate.0, pow10(0 + rate.1)),
        cents * rate.0 == 0 ==> product == (0int, 0int),
        cents * rate.0 != 0 && fits_mantissa(cents * rate.0) ==> product == (
            cents * rate.0,
            0 + rate.1,
        ),
        fits_i64(nearest(product.0, product.1)),
    ensures
        is_worth(nearest(product.0, product.1), cents, rate),
{
    whole_number(cents);
    product_number((cents, 0), rate, product);
    nearest_number(product);
    let (c, v, p) = (cents as real, number(rate), number(product));
    if fits_mantissa(cents * rate.0) {
        crate::decimal::pow10_positive(rate.1);
        product_as_real(cents, rate.0);
        let (m, t) = (rate.0 as real, pow10(rate.1) as real);
        assert((c * m) / t == c * (m / t)) by (nonlinear_arith)
            requires
                t > 0real,
        ;
        if cents * rate.0 == 0 {
            whole_number(0);
            assert(0real / t == 0real) by (nonlinear_arith)
                requires
                    t > 0real,
            ;
        }
        assert(p == c * v);
    }
}

/// An amount of a currency is worth so much in the currency of a table: the table knows the rate,
/// and the amount is worth so much at it.
pub open spec fn is_worth_in(worth: int, table: RateTable, cents: int, base: Seq<char>) -> bool {
    match rate_of(table.rates@, base) {
        Some(rate) => is_worth(worth, cents, rate.pair()),
        None => false,
    }
}

/// The result of a function agrees with what its specification says: the same value, or the
/// same message.
pub open spec fn agrees<T>(result: Result<T, String>, expected: Result<T, Seq<char>>) -> bool {
    match (result, expected) {
        (Ok(value), Ok(wanted)) => value == wanted,
        (Err(message), Err(wanted)) => message@ == wanted,
        _ => false,
    }
}

/// Converts an amount at a rate; at the rate one it stays as it is.
pub fn convert_cents(cents: i64, rate: Dec) -> (r: Result<i64, String>)
    requires
        rate.wf(),
    ensures
        agrees(r, converted(cents as int, rate.pair())),
        rate.pair() == (1int, 0int) ==> r == Ok::<i64, String>(cents),
        r matches Ok(n) ==> is_worth(n as int, cents as int, rate.pair()),
{
    let product = multiply(whole(cents), rate);
    proof {
        if let Some(d) = product {
            if fits_i64(nearest(d.mantissa as int, d.scale as int)) {
                nearest_is_worth(cents as int, rate.pair(), d.pair());
            }
        }
        if rate.pair() == (1int, 0int) {
            let a: int = cents as int;
            assert(a * 1 == a);
            assert(a * rate.mantissa == a) by (nonlinear_arith)
                requires
                    rate.mantissa == 1,
            ;
            assert(crate::decimal::pow10(0) == 1);
            assert(nearest(a, 0) == a);
        }
    }
    match product {
        None => Err("金额计算超出范围".to_owned()),
        Some(product) => match to_i64(product) {
            Some(n) => Ok(n),
            None => Err("换算后的金额超出范围".to_owned()),
        },
    }
}

/// A currency with its rate.
pub struct Rate {
    pub currency: String,
    pub rate: Dec,
}

/// The rates from several currencies into one.
pub struct RateTable {
    pub quote: String,
    pub rates: Vec<Rate>,
}

/// The rate of a currency in a list.
pub open spec fn rate_of(rates: Seq<Rate>, base: Seq<char>) -> Option<Dec>
    decreases rates.len(),
{
    if rates.len() == 0 {
        None
    } else if rates.last().currency@ == base {
        Some(rates.last().rate)
    } else {
        rate_of(rates.drop_last(), base)
    }
}

/// An amount of a currency in the currency of a table.
pub open spec fn table_converted(table: RateTable, cents: int, base: Seq<char>) -> Result<
    i64,
    Seq<char>,
> {
    match rate_of(table.rates@, base) {
        None => Err("缺少 "@ + base + "/"@ + table.quote@ + " 汇率"@),
        Some(rate) => converted(cents, rate.pair()),
    }
}

impl RateTable {
    /// Every rate can be held, and the rate of the table's own currency is one.
    pub open spec fn wf(self) -> bool {
        &&& forall|i: int| 0 <= i < self.rates@.len() ==> (#[trigger] self.rates@[i]).rate.wf()
        &&& rate_of(self.rates@, self.quote@) == Some(Dec { mantissa: 1, scale: 0 })
    }

    /// A table that knows only its own currency.
    pub fn new(quote: &str) -> (r: RateTable)
        ensures
            r.wf(),
            r.quote@ == quote@,
            forall|base: Seq<char>|
                base != quote@ ==> #[trigger] rate_of(r.rates@, base) is None,
    {
        let mut rates: Vec<Rate> = Vec::new();
        rates.push(Rate { currency: quote.to_owned(), rate: Dec { mantissa: 1, scale: 0 } });
        proof {
            reveal_with_fuel(rate_of, 2);
        }
        RateTable { quote: quote.to_owned(), rates }
    }

    /// The rate of a currency.
    pub fn get(&self, base: &str) -> (r: Option<Dec>)
        requires
            self.wf(),
        ensures
            r == rate_of(self.rates@, base@),
            r is Some ==> r->0.wf(),
    {
        let mut i: usize = self.rates.len();
        proof {
            assert(self.rates@.take(self.rates@.len() as int) =~= self.rates@);
        }
        while i > 0
            invariant
                i <= self.rates@.len(),
                self.wf(),
                rate_of(self.rates@.take(i as int), base@) == rate_of(self.rates@, base@),
            decreases i,
        {
            proof {
                assert(self.rates@.take(i as int).drop_last() =~= self.rates@.take(i - 1));
            }
            i = i - 1;
            if same(&self.rates[i].currency, base) {
                return Some(self.rates[i].rate);
            }
        }
        None
    }

    /// Adds the rate of a currency, unless the table knows it already.
    pub fn insert(&mut self, base: &str, rate: Dec)
        requires
            old(self).wf(),
            rate.wf(),
        ensures
            final(self).wf(),
            final(self).quote@ == old(self).quote@,
            forall|name: Seq<char>| #[trigger]
                rate_of(final(self).rates@, name) == if name == base@ && rate_of(
                    old(self).rates@,
                    name,
                ) is None {
                    Some(rate)
                } else {
                    rate_of(old(self).rates@, name)
                },
    {
        if self.get(base).is_none() {
            let ghost before = self.rates@;
            self.rates.push(Rate { currency: base.to_owned(), rate });
            proof {
                assert(self.rates@.drop_last() =~= before);
            }
        }
    }

    /// Converts an amount of a currency into the currency of the table. An amount of that
    /// currency itself stays as it is.
    pub fn convert(&self, cents: i64, base: &str) -> (r: Result<i64, String>)
        requires
            self.wf(),
        ensures
            agrees(r, table_converted(*self, cents as int, base@)),
            base@ == self.quote@ ==> r == Ok::<i64, String>(cents),
            r matches Ok(n) ==> is_worth_in(n as int, *self, cents as int, base@),
    {
        match self.get(base) {
            None => Err(join5("缺少 ", base, "/", &self.quote, " 汇率")),
            Some(rate) => convert_cents(cents, rate),
        }
    }
}

/// The currency in which sums are shown: the one that was chosen, or the usual one.
pub fn default_currency(preference: &Option<preference::Model>) -> (r: String)
    ensures
        r@ == (match *preference {
            Some(p) => p.default_currency@,
            None => FALLBACK_CURRENCY@,
        }),
{
    match preference {
        Some(p) => p.default_currency.clone(),
        None => FALLBACK_CURRENCY.to_owned(),
    }
}

/// A rate that is kept for a day that is over, or that belongs to the requested day or a later one, is
/// used as long as it is kept; another one that was fetched within a day is used for six hours and
/// not longer.
pub proof fn kept_rate_is_used_for_six_hours(
    requested_date: Date,
    rate_date: Date,
    fetched_at: DateTime,
    today: Date,
    now: DateTime,
    r: bool,
)
    requires
        call_ensures(cache_is_fresh, (requested_date, rate_date, fetched_at, today, now), r),
    ensures
        requested_date.days < today.days ==> r,
        rate_date.days >= requested_date.days ==> r,
        requested_date.days >= today.days && rate_date.days < requested_date.days && now.date
            == fetched_at.date && now.nano == fetched_at.nano ==> r == (now.second
            - fetched_at.second < 21_600),
        requested_date.days >= today.days && rate_date.days < requested_date.days && now.date.days
            == fetched_at.date.days + 1 && now.nano == fetched_at.nano ==> r == (now.second + 86_400
            - fetched_at.second < 21_600),
{
}

} // verus!
