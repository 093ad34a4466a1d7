//! Index quotes, and how much more or less than its base amount a smart investment invests.
use vstd::prelude::*;
use vstd::string::*;

use crate::calendar::{date_of_text, date_text, date_to_text, parse_date, Date, DateTime};
use crate::currency::{unquote, unquoted};
use crate::decimal::{
    aligned_difference, decimal_difference, decimal_of_text, decimal_product, decimal_quotient,
    decimal_sum, decimal_text, decimal_to_text, difference_number, divide, fits_i64, fits_mantissa,
    is_near, is_near_or_tiny, magnitude, many, minus, multiply, normal, normalize, number,
    parse_decimal, plus, pow10, pow10_adds, power_of_ten, product_as_real, product_number, quotient_number, round_dp,
    rounded_to, size, size_scaled, sum_number, whole, whole_number, Dec,
};
use crate::entity::market_index_quote;
use crate::order::{arranged, descending_order, ints, positions, sort_descending};
use crate::text::{int_text, int_to_text, join2, join3, join5, same, split, split_parts, views};

verus! {

/// An index that a smart investment can follow.
#[derive(Clone, Copy)]
pub struct IndexOption {
    pub code: &'static str,
    pub name: &'static str,
    pub source: &'static str,
}

/// The name and the source of an index, where it can be followed.
pub open spec fn index_named(code: Seq<char>) -> Option<(Seq<char>, Seq<char>)> {
    if code == "000300"@ {
        Some(("沪深300"@, "中证指数官网"@))
    } else if code == "H30455"@ {
        Some(("中证沪港深500"@, "中证指数官网"@))
    } else if code == "HSI"@ {
        Some(("恒生指数"@, "东方财富公开行情"@))
    } else {
        None
    }
}

/// These are the indexes to choose from, in the order in which they are offered.
pub open spec fn are_indexes(options: Seq<IndexOption>) -> bool {
    &&& options.len() == 3
    &&& options[0].code@ == "000300"@
    &&& options[1].code@ == "H30455"@
    &&& options[2].code@ == "HSI"@
    &&& forall|i: int|
        0 <= i < 3 ==> index_named((#[trigger] options[i]).code@) == Some(
            (options[i].name@, options[i].source@),
        )
}

/// The indexes to choose from, in the order in which they are offered.
pub fn index_options() -> (r: Vec<IndexOption>)
    ensures
        are_indexes(r@),
{
    proof {
        reveal_strlit("000300");
        reveal_strlit("H30455");
        reveal_strlit("HSI");
        assert("000300"@[0] == '0');
        assert("H30455"@.len() == 6 && "HSI"@.len() == 3);
        assert("H30455"@[0] == 'H');
    }
    vec![
        IndexOption { code: "000300", name: "沪深300", source: "中证指数官网" },
        IndexOption { code: "H30455", name: "中证沪港深500", source: "中证指数官网" },
        IndexOption { code: "HSI", name: "恒生指数", source: "东方财富公开行情" },
    ]
}

/// The index with a code.
pub fn index_option(code: &str) -> (r: Option<IndexOption>)
    ensures
        match r {
            Some(option) => option.code@ == code@ && index_named(code@) == Some(
                (option.name@, option.source@),
            ),
            None => index_named(code@) is None,
        },
{
    if same(code, "000300") {
        Some(IndexOption { code: "000300", name: "沪深300", source: "中证指数官网" })
    } else if same(code, "H30455") {
        Some(IndexOption { code: "H30455", name: "中证沪港深500", source: "中证指数官网" })
    } else if same(code, "HSI") {
        Some(IndexOption { code: "HSI", name: "恒生指数", source: "东方财富公开行情" })
    } else {
        None
    }
}

/// The numbers of days that a moving average can be taken over.
pub open spec fn is_moving_average(days: int) -> bool {
    days == 120 || days == 180 || days == 250 || days == 500
}

/// Whether a moving average can be taken over so many days.
pub fn valid_moving_average(days: i32) -> (r: bool)
    ensures
        r == is_moving_average(days as int),
{
    days == 120 || days == 180 || days == 250 || days == 500
}

/// The name under which a quote is kept.
pub fn quote_id(index_code: &str, date: Date) -> (r: String)
    ensures
        r@ == index_code@ + ":"@ + date_text(date),
{
    join3(index_code, ":", &date_to_text(date))
}

/// A day and the closing value of an index on it.
#[derive(Clone, Copy)]
pub struct QuoteValue {
    pub date: Date,
    pub close: Dec,
}

/// A quote as a day's number and a decimal number.
pub open spec fn quote_view(value: QuoteValue) -> (int, (int, int)) {
    (value.date.days as int, value.close.pair())
}

/// What a quote in the index company's notation comes to, or the message that refuses it.
pub open spec fn csindex_value(trade_date: Seq<char>, close: Seq<char>) -> Result<
    (int, (int, int)),
    Seq<char>,
> {
    match date_of_text(trade_date, "%Y%m%d"@) {
        None => Err("中证指数行情日期格式无效"@),
        Some(day) => match decimal_of_text(unquoted(close)) {
            Err(_) => Err("中证指数收盘点位格式无效"@),
            Ok(pair) => if pair.0 <= 0 {
                Err("中证指数收盘点位必须大于 0"@)
            } else {
                Ok((day, pair))
            },
        },
    }
}

/// What a quote in the notation of a day's line comes to, or the message that refuses it: the
/// first field is the day, the third the closing value.
pub open spec fn hang_seng_value(line: Seq<char>) -> Result<(int, (int, int)), Seq<char>> {
    let fields = split_parts(line, ',');
    if fields.len() < 3 {
        Err("恒生指数日线字段不完整"@)
    } else {
        match date_of_text(fields[0], "%Y-%m-%d"@) {
            None => Err("恒生指数行情日期格式无效"@),
            Some(day) => match decimal_of_text(fields[2]) {
                Err(_) => Err("恒生指数收盘点位格式无效"@),
                Ok(pair) => if pair.0 <= 0 {
                    Err("恒生指数收盘点位必须大于 0"@)
                } else {
                    Ok((day, pair))
                },
            },
        }
    }
}

/// A quote agrees with what its text comes to.
pub open spec fn quote_agrees(
    r: Result<QuoteValue, String>,
    expected: Result<(int, (int, int)), Seq<char>>,
) -> bool {
    match (r, expected) {
        (Ok(value), Ok(wanted)) => value.close.wf() && quote_view(value) == wanted,
        (Err(message), Err(wanted)) => message@ == wanted,
        _ => false,
    }
}

fn csindex_quote(trade_date: &str, close: &str) -> (r: Result<QuoteValue, String>)
    ensures
        quote_agrees(r, csindex_value(trade_date@, close@)),
{
    let date = match parse_date(trade_date, "%Y%m%d") {
        Some(date) => date,
        None => return Err("中证指数行情日期格式无效".to_owned()),
    };
    match parse_decimal(&unquote(close)) {
        Err(_) => Err("中证指数收盘点位格式无效".to_owned()),
        Ok(close) => if close.mantissa <= 0 {
            Err("中证指数收盘点位必须大于 0".to_owned())
        } else {
            Ok(QuoteValue { date, close })
        },
    }
}

fn hang_seng_quote(line: &str) -> (r: Result<QuoteValue, String>)
    ensures
        quote_agrees(r, hang_seng_value(line@)),
{
    let fields = split(line, ',');
    proof {
        assert(views(fields@).len() == fields@.len());
        if fields@.len() >= 3 {
            assert(views(fields@)[0] == fields@[0]@);
            assert(views(fields@)[2] == fields@[2]@);
        }
    }
    if fields.len() < 3 {
        return Err("恒生指数日线字段不完整".to_owned());
    }
    let date = match parse_date(&fields[0], "%Y-%m-%d") {
        Some(date) => date,
        None => return Err("恒生指数行情日期格式无效".to_owned()),
    };
    match parse_decimal(&fields[2]) {
        Err(_) => Err("恒生指数收盘点位格式无效".to_owned()),
        Ok(close) => if close.mantissa <= 0 {
            Err("恒生指数收盘点位必须大于 0".to_owned())
        } else {
            Ok(QuoteValue { date, close })
        },
    }
}

/// The values of a list, or the first message that refuses one of them.
pub open spec fn all_values(list: Seq<Result<(int, (int, int)), Seq<char>>>) -> Result<
    Seq<(int, (int, int))>,
    Seq<char>,
>
    decreases list.len(),
{
    if list.len() == 0 {
        Ok(Seq::empty())
    } else {
        match all_values(list.drop_last()) {
            Err(message) => Err(message),
            Ok(front) => match list.last() {
                Err(message) => Err(message),
                Ok(value) => Ok(front.push(value)),
            },
        }
    }
}

/// A list of quotes agrees with what their texts come to.
pub open spec fn quotes_agree(
    r: Result<Vec<QuoteValue>, String>,
    expected: Result<Seq<(int, (int, int))>, Seq<char>>,
) -> bool {
    match (r, expected) {
        (Ok(values), Ok(wanted)) => {
            &&& forall|i: int| 0 <= i < values@.len() ==> (#[trigger] values@[i]).close.wf()
            &&& Seq::new(values@.len(), |i: int| quote_view(values@[i])) == wanted
        },
        (Err(message), Err(wanted)) => message@ == wanted,
        _ => false,
    }
}

/// A message at some place of a list refuses the whole list once nothing before it does.
proof fn all_values_stops(list: Seq<Result<(int, (int, int)), Seq<char>>>, n: int)
    requires
        0 <= n <= list.len(),
        all_values(list.take(n)) is Err,
    ensures
        all_values(list) == all_values(list.take(n)),
    decreases list.len(),
{
    if n == list.len() {
        assert(list.take(n) =~= list);
    } else {
        assert(list.drop_last().take(n) =~= list.take(n));
        all_values_stops(list.drop_last(), n);
    }
}

/// A quote of the index company: the day and the closing value as the service writes them.
pub struct CsIndexQuote {
    pub trade_date: String,
    pub close: String,
}

/// What the quotes of the index company come to, each on its own.
pub open spec fn csindex_each(data: Seq<CsIndexQuote>) -> Seq<
    Result<(int, (int, int)), Seq<char>>,
> {
    Seq::new(data.len(), |i: int| csindex_value(data[i].trade_date@, data[i].close@))
}

/// Reads the answer of the index company: the quotes, or why there are none.
pub fn csindex_values(success: bool, message: &str, data: &Vec<CsIndexQuote>) -> (r: Result<
    Vec<QuoteValue>,
    String,
>)
    ensures
        quotes_agree(
            r,
            if success {
                all_values(csindex_each(data@))
            } else {
                Err("中证指数行情请求失败："@ + message@)
            },
        ),
{
    if !success {
        return Err(join2("中证指数行情请求失败：", message));
    }
    let ghost list = csindex_each(data@);
    let mut values: Vec<QuoteValue> = Vec::new();
    let mut i: usize = 0;
    proof {
        assert(list.take(0) =~= Seq::empty());
        assert(Seq::new(values@.len(), |i: int| quote_view(values@[i])) =~= Seq::empty());
    }
    while i < data.len()
        invariant
            i <= data.len(),
            success,
            list == csindex_each(data@),
            forall|j: int| 0 <= j < values@.len() ==> (#[trigger] values@[j]).close.wf(),
            all_values(list.take(i as int)) == Ok::<Seq<(int, (int, int))>, Seq<char>>(
                Seq::new(values@.len(), |j: int| quote_view(values@[j])),
            ),
        decreases data.len() - i,
    {
        proof {
            assert(list.take(i + 1).drop_last() =~= list.take(i as int));
        }
        let ghost before = values@;
        match csindex_quote(&data[i].trade_date, &data[i].close) {
            Ok(value) => {
                values.push(value);
                proof {
                    assert(Seq::new(values@.len(), |j: int| quote_view(values@[j])) =~= Seq::new(
                        before.len(),
                        |j: int| quote_view(before[j]),
                    ).push(quote_view(value)));
                }
            },
            Err(message) => {
                proof {
                    all_values_stops(list, i + 1);
                }
                return Err(message);
            },
        }
        i = i + 1;
    }
    proof {
        assert(list.take(list.len() as int) =~= list);
    }
    Ok(values)
}

/// What the lines of the Hang Seng index come to, each on its own.
pub open spec fn hang_seng_each(lines: Seq<String>) -> Seq<Result<(int, (int, int)), Seq<char>>> {
    Seq::new(lines.len(), |i: int| hang_seng_value(lines[i]@))
}

/// Reads the answer with the lines of the Hang Seng index: the quotes, or why there are none.
pub fn hang_seng_values(lines: &Option<Vec<String>>) -> (r: Result<Vec<QuoteValue>, String>)
    ensures
        quotes_agree(
            r,
            match *lines {
                Some(lines) => all_values(hang_seng_each(lines@)),
                None => Err("恒生指数行情没有返回数据"@),
            },
        ),
{
    let data = match lines {
        Some(lines) => lines,
        None => return Err("恒生指数行情没有返回数据".to_owned()),
    };
    let ghost list = hang_seng_each(data@);
    let mut values: Vec<QuoteValue> = Vec::new();
    let mut i: usize = 0;
    proof {
        assert(list.take(0) =~= Seq::empty());
        assert(Seq::new(values@.len(), |i: int| quote_view(values@[i])) =~= Seq::empty());
    }
    while i < data.len()
        invariant
            i <= data.len(),
            *lines == Some(*data),
            list == hang_seng_each(data@),
            forall|j: int| 0 <= j < values@.len() ==> (#[trigger] values@[j]).close.wf(),
            all_values(list.take(i as int)) == Ok::<Seq<(int, (int, int))>, Seq<char>>(
                Seq::new(values@.len(), |j: int| quote_view(values@[j])),
            ),
        decreases data.len() - i,
    {
        proof {
            assert(list.take(i + 1).drop_last() =~= list.take(i as int));
        }
        let ghost before = values@;
        match hang_seng_quote(&data[i]) {
            Ok(value) => {
                values.push(value);
                proof {
                    assert(Seq::new(values@.len(), |j: int| quote_view(values@[j])) =~= Seq::new(
                        before.len(),
                        |j: int| quote_view(before[j]),
                    ).push(quote_view(value)));
                }
            },
            Err(message) => {
                proof {
                    all_values_stops(list, i + 1);
                }
                return Err(message);
            },
        }
        i = i + 1;
    }
    proof {
        assert(list.take(list.len() as int) =~= list);
    }
    Ok(values)
}

/// Checks a request for the quotes of an index between two days.
pub fn check_refresh(index_code: &str, start: Date, end: Date) -> (r: Result<IndexOption, String>)
    ensures
        match r {
            Ok(option) => option.code@ == index_code@ && index_named(index_code@) == Some(
                (option.name@, option.source@),
            ) && start.days <= end.days,
            Err(message) => if index_named(index_code@) is None {
                message@ == "不支持的跟踪指数"@
            } else {
                start.days > end.days && message@ == "指数行情查询区间无效"@
            },
        },
{
    match index_option(index_code) {
        None => Err("不支持的跟踪指数".to_owned()),
        Some(option) => if start.days > end.days {
            Err("指数行情查询区间无效".to_owned())
        } else {
            Ok(option)
        },
    }
}

/// The row that keeps a quote.
pub open spec fn keeps_quote(
    row: market_index_quote::Model,
    option: IndexOption,
    value: QuoteValue,
    fetched_at: DateTime,
) -> bool {
    let shown = normal(value.close.mantissa as int, value.close.scale as int);
    &&& row.id@ == option.code@ + ":"@ + date_text(value.date)
    &&& row.index_code@ == option.code@
    &&& row.trade_date == value.date
    &&& row.close@ == decimal_text(shown.0, shown.1)
    &&& row.source@ == option.source@
    &&& row.fetched_at == fetched_at
}

/// The rows that keep the quotes that were fetched, one for each; without any quote the refresh
/// is refused.
pub fn refresh_index(option: IndexOption, values: &Vec<QuoteValue>, fetched_at: DateTime) -> (r:
    Result<Vec<market_index_quote::Model>, String>)
    requires
        forall|i: int| 0 <= i < values@.len() ==> (#[trigger] values@[i]).close.wf(),
    ensures
        match r {
            Ok(rows) => values@.len() > 0 && rows@.len() == values@.len() && forall|i: int|
                0 <= i < rows@.len() ==> keeps_quote(
                    #[trigger] rows@[i],
                    option,
                    values@[i],
                    fetched_at,
                ),
            Err(message) => values@.len() == 0 && message@ == option.source@
                + "没有返回可用的指数日线"@,
        },
{
    if values.len() == 0 {
        return Err(join2(option.source, "没有返回可用的指数日线"));
    }
    let mut rows: Vec<market_index_quote::Model> = Vec::new();
    let mut i: usize = 0;
    while i < values.len()
        invariant
            i <= values.len(),
            rows@.len() == i,
            forall|j: int| 0 <= j < values@.len() ==> (#[trigger] values@[j]).close.wf(),
            forall|j: int|
                0 <= j < rows@.len() ==> keeps_quote(
                    #[trigger] rows@[j],
                    option,
                    values@[j],
                    fetched_at,
                ),
        decreases values.len() - i,
    {
        let value = values[i];
        rows.push(
            market_index_quote::Model {
                id: quote_id(option.code, value.date),
                index_code: option.code.to_owned(),
                trade_date: value.date,
                close: decimal_to_text(normalize(value.close)),
                source: option.source.to_owned(),
                fetched_at,
            },
        );
        i = i + 1;
    }
    Ok(rows)
}

/// How far above or below its average an index closed, in steps: none up to two percent, then
/// one for each percent begun, at most five.
pub open spec fn deviation_steps(mantissa: int, scale: int) -> int {
    let distance = magnitude(mantissa);
    let percent = pow10(scale);
    if distance <= 2 * percent {
        0
    } else if distance <= 3 * percent {
        1
    } else if distance <= 4 * percent {
        2
    } else if distance <= 5 * percent {
        3
    } else if distance <= 6 * percent {
        4
    } else {
        5
    }
}

/// The part of the base amount to invest, in hundredths of a percent: a tenth less for each step
/// above the average, a tenth more for each step below.
pub open spec fn multiplier(mantissa: int, scale: int) -> int {
    if mantissa > 0 {
        10_000 - deviation_steps(mantissa, scale) * 1_000
    } else {
        10_000 + deviation_steps(mantissa, scale) * 1_000
    }
}

/// The part of the base amount to invest at a deviation from the average in percent.
pub fn multiplier_for_deviation(deviation_percent: Dec) -> (r: i64)
    requires
        deviation_percent.wf(),
    ensures
        r == multiplier(deviation_percent.mantissa as int, deviation_percent.scale as int),
        5_000 <= r <= 15_000,
{
    let distance: i128 = if deviation_percent.mantissa < 0 {
        -deviation_percent.mantissa
    } else {
        deviation_percent.mantissa
    };
    let percent: i128 = power_of_ten(deviation_percent.scale);
    let step: i64 = if distance <= 2 * percent {
        0
    } else if distance <= 3 * percent {
        1
    } else if distance <= 4 * percent {
        2
    } else if distance <= 5 * percent {
        3
    } else if distance <= 6 * percent {
        4
    } else {
        5
    };
    if deviation_percent.mantissa > 0 {
        10_000 - step * 1_000
    } else {
        10_000 + step * 1_000
    }
}

/// The part to invest is between half and one and a half times the base amount, is the base
/// amount up to two percent from the average, and falls short of it above the average by as much
/// as it exceeds it the same distance below.
pub proof fn multiplier_law(mantissa: int, scale: int)
    ensures
        5_000 <= multiplier(mantissa, scale) <= 15_000,
        magnitude(mantissa) <= 2 * pow10(scale) ==> multiplier(mantissa, scale) == 10_000,
        multiplier(mantissa, scale) + multiplier(-mantissa, scale) == 20_000,
{
    crate::decimal::pow10_grows(
        0,
        if scale < 0 {
            0
        } else {
            scale
        },
    );
}

/// The further an index is above its average, the less is invested, with however many digits the
/// two deviations are written: `low` and `high` are a mantissa and a scale each.
pub proof fn multiplier_falls(low: (int, int), high: (int, int))
    requires
        low.0 * pow10(high.1) <= high.0 * pow10(low.1),
    ensures
        multiplier(low.0, low.1) >= multiplier(high.0, high.1),
{
    pow10_positive(low.1);
    pow10_positive(high.1);
    let (a, b) = (low.0, high.0);
    let (p, q) = (pow10(low.1), pow10(high.1));
    if a > 0 {
        assert(b > 0) by (nonlinear_arith)
            requires
                a > 0,
                p > 0,
                q > 0,
                a * q <= b * p,
        ;
        steps_grow((a, low.1), (b, high.1));
    } else if b <= 0 {
        assert((-b) * p <= (-a) * q) by (nonlinear_arith)
            requires
                a * q <= b * p,
        ;
        steps_grow((-b, high.1), (-a, low.1));
    }
}

proof fn pow10_positive(n: int)
    ensures
        pow10(n) > 0,
{
    crate::decimal::pow10_grows(
        0,
        if n < 0 {
            0
        } else {
            n
        },
    );
}

/// A larger distance from the average is never fewer steps.
proof fn steps_grow(near: (int, int), far: (int, int))
    requires
        0 <= near.0,
        0 <= far.0,
        near.0 * pow10(far.1) <= far.0 * pow10(near.1),
    ensures
        deviation_steps(near.0, near.1) <= deviation_steps(far.0, far.1),
{
    pow10_positive(near.1);
    pow10_positive(far.1);
    let (p, q) = (pow10(near.1), pow10(far.1));
    assert forall|k: int| #[trigger] (k * p) < near.0 && k >= 0 implies k * q < far.0 by {
        assert(k * q < far.0) by (nonlinear_arith)
            requires
                k * p < near.0,
                near.0 * q <= far.0 * p,
                p > 0,
                q > 0,
        ;
    }
    assert(2 * p < near.0 ==> 2 * q < far.0);
    assert(3 * p < near.0 ==> 3 * q < far.0);
    assert(4 * p < near.0 ==> 4 * q < far.0);
    assert(5 * p < near.0 ==> 5 * q < far.0);
    assert(6 * p < near.0 ==> 6 * q < far.0);
}

/// A quote of an index from before a day.
pub open spec fn is_past(
    quote: market_index_quote::Model,
    index_code: Seq<char>,
    trade_date: Date,
) -> bool {
    quote.index_code@ == index_code && quote.trade_date.days < trade_date.days
}

/// The quotes of an index from before a day.
pub open spec fn past_quotes(
    quotes: Seq<market_index_quote::Model>,
    index_code: Seq<char>,
    trade_date: Date,
) -> Seq<market_index_quote::Model>
    decreases quotes.len(),
{
    if quotes.len() == 0 {
        Seq::empty()
    } else {
        let front = past_quotes(quotes.drop_last(), index_code, trade_date);
        if is_past(quotes.last(), index_code, trade_date) {
            front.push(quotes.last())
        } else {
            front
        }
    }
}

/// The days of quotes, as numbers.
pub open spec fn quote_days(quotes: Seq<market_index_quote::Model>) -> Seq<int> {
    Seq::new(quotes.len(), |i: int| quotes[i].trade_date.days as int)
}

/// The quotes of an index from before a day, the latest first.
pub open spec fn latest_quotes(
    quotes: Seq<market_index_quote::Model>,
    index_code: Seq<char>,
    trade_date: Date,
) -> Seq<market_index_quote::Model> {
    let past = past_quotes(quotes, index_code, trade_date);
    arranged(past, quote_days(past))
}

/// The closing values of quotes, or the message of the first that is no number.
pub open spec fn closes(quotes: Seq<market_index_quote::Model>) -> Result<
    Seq<(int, int)>,
    Seq<char>,
>
    decreases quotes.len(),
{
    if quotes.len() == 0 {
        Ok(Seq::empty())
    } else {
        match closes(quotes.drop_last()) {
            Err(message) => Err(message),
            Ok(front) => match decimal_of_text(quotes.last().close@) {
                Err(message) => Err(message),
                Ok(pair) => Ok(front.push(pair)),
            },
        }
    }
}

proof fn closes_stops(quotes: Seq<market_index_quote::Model>, n: int)
    requires
        0 <= n <= quotes.len(),
        closes(quotes.take(n)) is Err,
    ensures
        closes(quotes) == closes(quotes.take(n)),
    decreases quotes.len(),
{
    if n == quotes.len() {
        assert(quotes.take(n) =~= quotes);
    } else {
        assert(quotes.drop_last().take(n) =~= quotes.take(n));
        closes_stops(quotes.drop_last(), n);
    }
}

/// The sum of decimal numbers, summed from the front.
pub open spec fn sum_of(values: Seq<(int, int)>) -> Option<(int, int)>
    decreases values.len(),
{
    if values.len() == 0 {
        Some((0, 0))
    } else {
        match sum_of(values.drop_last()) {
            Some(sum) => decimal_sum(sum, values.last()),
            None => None,
        }
    }
}

proof fn sum_of_stops(values: Seq<(int, int)>, n: int)
    requires
        0 <= n <= values.len(),
        sum_of(values.take(n)) is None,
    ensures
        sum_of(values) is None,
    decreases values.len(),
{
    if n == values.len() {
        assert(values.take(n) =~= values);
    } else {
        assert(values.drop_last().take(n) =~= values.take(n));
        sum_of_stops(values.drop_last(), n);
    }
}

/// The average of closing values and how far the first of them is from it in percent; none where
/// decimal arithmetic cannot hold it.
pub open spec fn average_of(values: Seq<(int, int)>) -> Option<(int, int)> {
    match sum_of(values) {
        Some(sum) => decimal_quotient(sum, (values.len() as int, 0int)),
        None => None,
    }
}

/// How far a closing value is from an average in percent; none where decimal arithmetic cannot
/// hold it.
pub open spec fn deviation_of(close: (int, int), average: (int, int)) -> Option<(int, int)> {
    match decimal_difference(close, average) {
        Some(difference) => match decimal_product(difference, (100int, 0int)) {
            Some(product) => decimal_quotient(product, average),
            None => None,
        },
        None => None,
    }
}

/// A percentage is the distance of a closing value from an average, in hundredths of the average,
/// but for what is rounded away.
pub open spec fn is_relative(
    close: (int, int),
    average: (int, int),
    deviation: (int, int),
) -> bool {
    let (c, a, q) = (number(close), number(average), number(deviation));
    size(q * a - 100real * (c - a)) * 100000000000000000000000000real <= (1real + size(q)) * a
}

/// All digits of a hundred times the distance of a closing value from an average can be held.
pub open spec fn digits_held(close: (int, int), average: (int, int)) -> bool {
    fits_mantissa(aligned_difference(close, average).0 * 100)
}

/// Where all digits can be held, a percentage is not above a whole number that the distance is not
/// above.
pub open spec fn keeps_bound(
    close: (int, int),
    average: (int, int),
    deviation: (int, int),
    bound: int,
) -> bool {
    let (c, a) = (number(close), number(average));
    digits_held(close, average) && 100real * size(c - a) <= bound as real * a ==> magnitude(
        deviation.0,
    ) <= bound * pow10(deviation.1)
}

proof fn deviation_keeps_bound(
    close: (int, int),
    average: (int, int),
    difference: (int, int),
    product: (int, int),
    deviation: (int, int),
    bound: int,
)
    requires
        close.1 >= 0,
        average.1 >= 0,
        0 <= bound <= 6,
        average.0 > 0,
        close.0 != 0 && fits_mantissa(aligned_difference(close, average).0) ==> difference
            == aligned_difference(close, average),
        difference.0 == 0 ==> product == (0int, 0int),
        difference.0 != 0 && fits_mantissa(difference.0 * 100) && difference.1 <= 28 ==> product
            == (difference.0 * 100, difference.1),
        difference.1 <= 28,
        is_near_or_tiny(
            deviation,
            product.0 * pow10(average.1),
            average.0 * pow10(product.1),
        ),
    ensures
        keeps_bound(close, average, deviation, bound),
{
    let (c, a) = (number(close), number(average));
    if digits_held(close, average) && 100real * size(c - a) <= bound as real * a {
        pow10_positive(average.1);
        pow10_positive(close.1);
        pow10_positive(deviation.1);
        let (x, y) = (average.0 as real, pow10(average.1) as real);
        assert(a > 0real && a * y == x) by (nonlinear_arith)
            requires
                x > 0real,
                y > 0real,
                a == x / y,
        ;
        if close.0 == 0 {
            assert(c == 0real) by (nonlinear_arith)
                requires
                    c == 0real / (pow10(close.1) as real),
                    pow10(close.1) as real > 0real,
            ;
            assert(bound as real * a <= 6real * a) by (nonlinear_arith)
                requires
                    bound as real <= 6real,
                    a > 0real,
            ;
            assert(false);
        }
        aligned_number(close, average);
        let (dm, s) = difference;
        pow10_positive(s);
        let (u, v) = (dm as real, pow10(s) as real);
        let diff = c - a;
        assert(diff * v == u) by (nonlinear_arith)
            requires
                diff == u / v,
                v > 0real,
        ;
        let n = product.0 * pow10(average.1);
        let unit = average.0 * pow10(product.1);
        pow10_positive(product.1);
        assert(unit > 0) by (nonlinear_arith)
            requires
                unit == average.0 * pow10(product.1),
                average.0 > 0,
                pow10(product.1) > 0,
        ;
        if dm == 0 {
            assert(n == 0) by (nonlinear_arith)
                requires
                    n == 0 * pow10(average.1),
            ;
            assert(0 <= bound * unit) by (nonlinear_arith)
                requires
                    bound >= 0,
                    unit > 0,
            ;
        } else {
            product_as_real(magnitude(dm), pow10(average.1));
            product_as_real(average.0, pow10(s));
            product_as_real(bound, unit);
            size_scaled(diff, v);
            let (sd, b) = (size(diff), bound as real);
            assert(100real * size(u) * y <= b * (x * v)) by (nonlinear_arith)
                requires
                    100real * sd <= b * a,
                    sd * v == size(u),
                    a * y == x,
                    v > 0real,
                    y > 0real,
            ;
            assert(product.1 == s);
            assert(magnitude(dm) as real == size(u));
            let left = magnitude(dm) * pow10(average.1);
            assert(left as real == size(u) * y);
            assert(unit as real == x * v);
            assert((bound * unit) as real == b * (x * v));
            assert(100real * (size(u) * y) == 100real * size(u) * y) by (nonlinear_arith);
            assert((100 * left) as real == 100real * left as real);
            assert(100 * left <= bound * unit);
            assert(magnitude(n) == 100 * (magnitude(dm) * pow10(average.1))) by (nonlinear_arith)
                requires
                    n == (dm * 100) * pow10(average.1),
                    pow10(average.1) > 0,
                    magnitude(dm) == (if dm < 0 {
                        -dm
                    } else {
                        dm
                    }),
                    magnitude(n) == (if n < 0 {
                        -n
                    } else {
                        n
                    }),
            ;
        }
        let (m, t) = (deviation.0, pow10(deviation.1));
        assert(magnitude(m) <= bound * t) by (nonlinear_arith)
            requires
                -unit < m * unit - n * t < unit,
                -(bound * unit) <= n <= bound * unit,
                unit > 0,
                t > 0,
                magnitude(m) == (if m < 0 {
                    -m
                } else {
                    m
                }),
        ;
    }
}

/// Subtracting over the larger scale is exact.
proof fn aligned_number(a: (int, int), b: (int, int))
    requires
        a.1 >= 0,
        b.1 >= 0,
    ensures
        number(aligned_difference(a, b)) == number(a) - number(b),
        aligned_difference(a, b).1 >= 0,
{
    pow10_positive(a.1);
    pow10_positive(b.1);
    let (x, y) = (a.0 as real, b.0 as real);
    let (p, q) = (pow10(a.1) as real, pow10(b.1) as real);
    if a.1 >= b.1 {
        let k = pow10(a.1 - b.1);
        pow10_positive(a.1 - b.1);
        pow10_adds(b.1, a.1 - b.1);
        product_as_real(b.0, k);
        product_as_real(pow10(b.1), k);
        let z = k as real;
        assert((x - y * z) / p == x / p - y / q) by (nonlinear_arith)
            requires
                p == q * z,
                q > 0real,
                z > 0real,
        ;
    } else {
        let k = pow10(b.1 - a.1);
        pow10_positive(b.1 - a.1);
        pow10_adds(a.1, b.1 - a.1);
        product_as_real(a.0, k);
        product_as_real(pow10(a.1), k);
        let z = k as real;
        assert((x * z - y) / q == x / p - y / q) by (nonlinear_arith)
            requires
                q == p * z,
                p > 0real,
                z > 0real,
        ;
    }
}

/// A deviation that is computed by subtracting, multiplying by a hundred and dividing is relative
/// to the average.
pub(crate) proof fn deviation_is_relative(
    close: (int, int),
    average: (int, int),
    difference: (int, int),
    product: (int, int),
    deviation: (int, int),
)
    requires
        close.1 >= 0,
        average.1 >= 0,
        difference.1 >= 0,
        product.1 >= 0,
        average.0 > 0,
        is_near(
            difference,
            close.0 * pow10(average.1) - average.0 * pow10(close.1),
            pow10(close.1 + average.1),
        ),
        is_near(product, difference.0 * 100, pow10(difference.1 + 0)),
        is_near_or_tiny(
            deviation,
            product.0 * pow10(average.1),
            average.0 * pow10(product.1),
        ),
    ensures
        is_relative(close, average, deviation),
{
    let (c, a, q) = (number(close), number(average), number(deviation));
    let (d, p) = (number(difference), number(product));
    difference_number(close, average, difference);
    product_number(difference, (100, 0), product);
    whole_number(100);
    quotient_number(product, average, deviation);
    let ratio = p / a;
    assert(ratio * a == p) by (nonlinear_arith)
        requires
            a > 0real,
            ratio == p / a,
    ;
    size_scaled(q - ratio, a);
    size_scaled(q, a);
    let (eq, sq) = (size(q - ratio), size(q));
    assert((q - ratio) * a == q * a - p) by (nonlinear_arith)
        requires
            ratio * a == p,
    ;
    assert(eq * a * many() <= a + sq * a) by (nonlinear_arith)
        requires
            a > 0real,
            eq * many() <= 1real + sq,
    ;
    assert((1real + sq) * a == a + sq * a) by (nonlinear_arith);
}

/// The sum of numbers.
pub open spec fn number_sum(values: Seq<(int, int)>) -> real
    decreases values.len(),
{
    if values.len() == 0 {
        0real
    } else {
        number_sum(values.drop_last()) + number(values.last())
    }
}

/// No value is negative.
pub open spec fn not_negative(values: Seq<(int, int)>) -> bool {
    forall|i: int| 0 <= i < values.len() ==> (#[trigger] values[i]).0 >= 0 && values[i].1 >= 0
}

/// A sum is that of the first `n` values, but for what is rounded away.
spec fn sums_up(values: Seq<(int, int)>, n: int, sum: (int, int)) -> bool {
    let s = number_sum(values.take(n));
    not_negative(values) ==> sum.0 >= 0 && s >= 0real && size(number(sum) - s) * many() <= 2real
        * n as real * s
}

proof fn sums_up_step(values: Seq<(int, int)>, n: int, sum: (int, int), next: (int, int))
    requires
        0 <= n < values.len() <= 1000,
        sums_up(values, n, sum),
        not_negative(values) ==> next.0 >= 0,
        sum.1 >= 0,
        values[n].1 >= 0,
        is_near(
            next,
            sum.0 * pow10(values[n].1) + values[n].0 * pow10(sum.1),
            pow10(sum.1 + values[n].1),
        ),
    ensures
        sums_up(values, n + 1, next),
{
    assert(values.take(n + 1).drop_last() =~= values.take(n));
    let v = number(values[n]);
    let s = number_sum(values.take(n));
    if not_negative(values) {
        sum_number(sum, values[n], next);
        number_not_negative(values[n]);
        number_not_negative(next);
        let (m, k) = (number(next), n as real);
        let e = size(m - (s + v));
        assert(2real * k * s <= 2real * k * (s + v)) by (nonlinear_arith)
            requires
                k >= 0real,
                v >= 0real,
                s >= 0real,
        ;
        assert(e * many() <= 2real * k * (s + v) + (s + v) + e);
        let t = s + v;
        let two = 2real * k * t;
        assert(e * (many() - 1real) <= two + t);
        assert(two <= 2000real * t) by (nonlinear_arith)
            requires
                two == 2real * k * t,
                k <= 1000real,
                t >= 0real,
        ;
        assert(e * many() <= two + 2real * t);
        assert(2real * (k + 1real) * t == two + 2real * t) by (nonlinear_arith)
            requires
                two == 2real * k * t,
        ;
        assert((n + 1) as real == k + 1real);
    }
}

proof fn number_not_negative(d: (int, int))
    requires
        d.0 >= 0,
    ensures
        number(d) >= 0real,
{
    pow10_positive(d.1);
    let (x, y) = (d.0 as real, pow10(d.1) as real);
    assert(x / y >= 0real) by (nonlinear_arith)
        requires
            x >= 0real,
            y > 0real,
    ;
}

/// A number is the average of values, but for what is rounded away: so many times the number is
/// their sum.
pub open spec fn is_average(values: Seq<(int, int)>, average: (int, int)) -> bool {
    let s = number_sum(values);
    not_negative(values) ==> size(number(average) * values.len() as real - s)
        * 10000000000000000000000real <= 1real + s
}

proof fn quotient_is_average(values: Seq<(int, int)>, sum: (int, int), average: (int, int))
    requires
        1 <= values.len() <= 1000,
        sums_up(values, values.len() as int, sum),
        sum.1 >= 0,
        is_near_or_tiny(average, sum.0 * pow10(0), values.len() * pow10(sum.1)),
    ensures
        is_average(values, average),
{
    assert(values.take(values.len() as int) =~= values);
    let len = values.len() as int;
    let n = len as real;
    let s = number_sum(values);
    if not_negative(values) {
        quotient_number(sum, (len, 0), average);
        whole_number(len);
        let (a, t) = (number(average), number(sum));
        let ratio = t / n;
        assert(ratio * n == t) by (nonlinear_arith)
            requires
                n > 0real,
                ratio == t / n,
        ;
        size_scaled(a - ratio, n);
        size_scaled(a, n);
        let (e, sa) = (size(a - ratio), size(a));
        assert((a - ratio) * n == a * n - t) by (nonlinear_arith)
            requires
                ratio * n == t,
        ;
        assert(e * n * many() <= n + sa * n) by (nonlinear_arith)
            requires
                n > 0real,
                e * many() <= 1real + sa,
        ;
        let two = 2real * n * s;
        assert(0real <= two <= 2000real * s) by (nonlinear_arith)
            requires
                two == 2real * n * s,
                0real <= n <= 1000real,
                s >= 0real,
        ;
        assert(size(t - s) * many() <= two);
        assert(size(a * n - t) * many() <= 1000real + size(a * n));
    }
}

/// What a smart investment is decided on.
pub struct SmartDecision {
    pub index_code: String,
    pub index_name: String,
    pub moving_average_days: i32,
    pub quote_date: Date,
    pub close: Dec,
    pub moving_average: Dec,
    pub deviation_percent: Dec,
    pub multiplier_bps: i64,
    pub source: String,
}

/// The message when there are too few quotes for an average.
pub open spec fn too_few(name: Seq<char>, days: int, have: int) -> Seq<char> {
    name + "的"@ + int_text(days) + "日均线数据不足：需要 "@ + int_text(days) + (
    " 个交易日，当前只有 "@ + int_text(have) + " 个"@)
}

/// Why a decision is refused, where it is.
pub open spec fn decision_refusal(
    index_code: Seq<char>,
    days: int,
    latest: Seq<market_index_quote::Model>,
) -> Option<Seq<char>> {
    match index_named(index_code) {
        None => Some("不支持的跟踪指数"@),
        Some(named) => if !is_moving_average(days) {
            Some("不支持的均线周期"@)
        } else if latest.len() < days {
            Some(too_few(named.0, days, latest.len() as int))
        } else {
            match closes(latest.take(days)) {
                Err(message) => Some(message),
                Ok(values) => match average_of(values) {
                    None => Some("金额计算超出范围"@),
                    Some(average) => if average.0 <= 0 {
                        Some("指数均线必须大于 0"@)
                    } else if deviation_of(values[0], average) is None {
                        Some("金额计算超出范围"@)
                    } else {
                        None
                    },
                },
            }
        },
    }
}

/// The latest closing value of a decision.
pub open spec fn decision_close(days: int, latest: Seq<market_index_quote::Model>) -> (int, int) {
    closes(latest.take(days))->Ok_0[0]
}

/// The average closing value of a decision.
pub open spec fn decision_average(days: int, latest: Seq<market_index_quote::Model>) -> (int, int) {
    average_of(closes(latest.take(days))->Ok_0)->0
}

/// The part of the base amount that is decided on, in hundredths of a percent.
pub open spec fn decision_multiplier(days: int, latest: Seq<market_index_quote::Model>) -> int {
    let deviation = deviation_of(decision_close(days, latest), decision_average(days, latest))->0;
    multiplier(deviation.0, deviation.1)
}

/// The decision taken on the latest quotes.
pub open spec fn is_decision(
    d: SmartDecision,
    index_code: Seq<char>,
    days: int,
    latest: Seq<market_index_quote::Model>,
) -> bool {
    let named = index_named(index_code)->0;
    let values = closes(latest.take(days))->Ok_0;
    let average = average_of(values)->0;
    let deviation = deviation_of(values[0], average)->0;
    &&& d.index_code@ == index_code
    &&& d.index_name@ == named.0
    &&& d.moving_average_days == days
    &&& d.quote_date == latest[0].trade_date
    &&& d.source@ == latest[0].source@
    &&& d.close.pair() == values[0]
    &&& d.moving_average.pair() == average
    &&& d.deviation_percent.pair() == deviation
    &&& d.multiplier_bps == multiplier(deviation.0, deviation.1)
    &&& d.close.wf()
    &&& d.moving_average.wf()
    &&& d.deviation_percent.wf()
}

fn select_past(quotes: &Vec<market_index_quote::Model>, index_code: &str, trade_date: Date) -> (r:
    Vec<usize>)
    ensures
        r@.len() == past_quotes(quotes@, index_code@, trade_date).len(),
        forall|i: int|
            0 <= i < r@.len() ==> #[trigger] r@[i] < quotes@.len() && quotes@[r@[i] as int]
                == past_quotes(quotes@, index_code@, trade_date)[i],
{
    let mut chosen: Vec<usize> = Vec::new();
    let mut i: usize = 0;
    proof {
        assert(quotes@.take(0) =~= Seq::empty());
    }
    while i < quotes.len()
        invariant
            i <= quotes.len(),
            chosen@.len() == past_quotes(quotes@.take(i as int), index_code@, trade_date).len(),
            forall|j: int|
                0 <= j < chosen@.len() ==> #[trigger] chosen@[j] < quotes@.len()
                    && quotes@[chosen@[j] as int] == past_quotes(
                    quotes@.take(i as int),
                    index_code@,
                    trade_date,
                )[j],
        decreases quotes.len() - i,
    {
        proof {
            assert(quotes@.take(i + 1).drop_last() =~= quotes@.take(i as int));
        }
        if same(&quotes[i].index_code, index_code) && quotes[i].trade_date.days < trade_date.days {
            chosen.push(i);
        }
        i = i + 1;
    }
    proof {
        assert(quotes@.take(quotes@.len() as int) =~= quotes@);
    }
    chosen
}

/// Decides how much of its base amount a smart investment invests on a day: the latest closing
/// value from before the day is compared with the average over so many days up to it.
pub fn smart_decision(
    index_code: &str,
    moving_average_days: i32,
    trade_date: Date,
    quotes: &Vec<market_index_quote::Model>,
) -> (r: Result<SmartDecision, String>)
    ensures
        ({
            let latest = latest_quotes(quotes@, index_code@, trade_date);
            let refusal = decision_refusal(index_code@, moving_average_days as int, latest);
            match r {
                Ok(d) => refusal is None && is_decision(
                    d,
                    index_code@,
                    moving_average_days as int,
                    latest,
                ),
                Err(message) => refusal == Some(message@),
            }
        }),
        r matches Ok(d) ==> {
            let (close, average) = (d.close.pair(), d.moving_average.pair());
            let latest = latest_quotes(quotes@, index_code@, trade_date);
            &&& average.0 > 0
            &&& is_average(closes(latest.take(moving_average_days as int))->Ok_0, average)
            &&& is_relative(close, average, d.deviation_percent.pair())
            &&& forall|k: int|
                0 <= k <= 6 ==> #[trigger] keeps_bound(
                    close,
                    average,
                    d.deviation_percent.pair(),
                    k,
                )
        },
{
    let option = match index_option(index_code) {
        Some(option) => option,
        None => return Err("不支持的跟踪指数".to_owned()),
    };
    if !valid_moving_average(moving_average_days) {
        return Err("不支持的均线周期".to_owned());
    }
    let ghost past = past_quotes(quotes@, index_code@, trade_date);
    let ghost latest = latest_quotes(quotes@, index_code@, trade_date);
    let chosen = select_past(quotes, index_code, trade_date);
    let mut keys: Vec<i128> = Vec::new();
    let mut k: usize = 0;
    while k < chosen.len()
        invariant
            k <= chosen.len(),
            keys@.len() == k,
            past == past_quotes(quotes@, index_code@, trade_date),
            chosen@.len() == past.len(),
            forall|i: int|
                0 <= i < chosen@.len() ==> #[trigger] chosen@[i] < quotes@.len()
                    && quotes@[chosen@[i] as int] == past[i],
            forall|i: int| 0 <= i < k ==> #[trigger] keys@[i] == past[i].trade_date.days,
        decreases chosen.len() - k,
    {
        keys.push(quotes[chosen[k]].trade_date.days as i128);
        k = k + 1;
    }
    let order = sort_descending(&keys);
    proof {
        assert(ints(keys@) =~= quote_days(past));
        assert(positions(order@).len() == order@.len());
        assert forall|i: int| 0 <= i < order@.len() implies quotes@[chosen@[#[trigger] order@[i] as int] as int]
            == latest[i] by {
            assert(positions(order@)[i] == order@[i]);
            assert(descending_order(quote_days(past))[i] == order@[i]);
        }
    }
    let needed: usize = moving_average_days as usize;
    if order.len() < needed {
        let days = int_to_text(moving_average_days as i64);
        let front = join5(option.name, "的", &days, "日均线数据不足：需要 ", &days);
        let have = crate::text::nat_to_text(order.len() as u128);
        return Err(join2(&front, &join3(" 个交易日，当前只有 ", &have, " 个")));
    }
    let ghost used = latest.take(needed as int);
    let ghost mut pairs: Seq<(int, int)> = Seq::empty();
    let mut values: Vec<Dec> = Vec::new();
    let mut i: usize = 0;
    proof {
        assert(used.take(0) =~= Seq::empty());
    }
    while i < needed
        invariant
            i <= needed <= order@.len(),
            needed == moving_average_days,
            is_moving_average(needed as int),
            index_named(index_code@) is Some,
            latest == latest_quotes(quotes@, index_code@, trade_date),
            latest.len() == order@.len(),
            used == latest.take(needed as int),
            values@.len() == i,
            pairs.len() == i,
            forall|j: int|
                0 <= j < i ==> (#[trigger] values@[j]).wf() && values@[j].pair() == pairs[j],
            closes(used.take(i as int)) == Ok::<Seq<(int, int)>, Seq<char>>(pairs),
            forall|j: int|
                0 <= j < order@.len() ==> #[trigger] order@[j] < chosen@.len()
                    && chosen@[order@[j] as int] < quotes@.len()
                    && quotes@[chosen@[order@[j] as int] as int] == latest[j],
        decreases needed - i,
    {
        proof {
            assert(used.take(i + 1).drop_last() =~= used.take(i as int));
            assert(used.take(i + 1).last() == latest[i as int]);
        }
        match parse_decimal(&quotes[chosen[order[i]]].close) {
            Ok(d) => {
                values.push(d);
                proof {
                    pairs = pairs.push(d.pair());
                }
            },
            Err(message) => {
                proof {
                    closes_stops(used, i + 1);
                }
                return Err(message);
            },
        }
        i = i + 1;
    }
    proof {
        assert(used.take(needed as int) =~= used);
    }
    let mut sum: Dec = Dec { mantissa: 0, scale: 0 };
    let mut j: usize = 0;
    proof {
        assert(pairs.take(0) =~= Seq::empty());
        whole_number(0);
    }
    while j < needed
        invariant
            j <= needed,
            needed == moving_average_days,
            is_moving_average(needed as int),
            index_named(index_code@) is Some,
            latest == latest_quotes(quotes@, index_code@, trade_date),
            latest.len() >= needed,
            closes(latest.take(needed as int)) == Ok::<Seq<(int, int)>, Seq<char>>(pairs),
            values@.len() == needed,
            pairs.len() == needed,
            forall|i: int|
                0 <= i < needed ==> (#[trigger] values@[i]).wf() && values@[i].pair() == pairs[i],
            sum.wf(),
            sum_of(pairs.take(j as int)) == Some(sum.pair()),
            sums_up(pairs, j as int, sum.pair()),
        decreases needed - j,
    {
        proof {
            assert(pairs.take(j + 1).drop_last() =~= pairs.take(j as int));
        }
        match plus(sum, values[j]) {
            Some(s) => {
                proof {
                    assert(values@[j as int].pair() == pairs[j as int]);
                    sums_up_step(pairs, j as int, sum.pair(), s.pair());
                }
                sum = s;
            },
            None => {
                proof {
                    sum_of_stops(pairs, j + 1);
                }
                return Err("金额计算超出范围".to_owned());
            },
        }
        j = j + 1;
    }
    proof {
        assert(pairs.take(needed as int) =~= pairs);
    }
    let average = match divide(sum, whole(moving_average_days as i64)) {
        Some(average) => average,
        None => return Err("金额计算超出范围".to_owned()),
    };
    if average.mantissa <= 0 {
        return Err("指数均线必须大于 0".to_owned());
    }
    let close: Dec = values[0];
    let difference = match minus(close, average) {
        Some(difference) => difference,
        None => return Err("金额计算超出范围".to_owned()),
    };
    let product = match multiply(difference, whole(100)) {
        Some(product) => product,
        None => return Err("金额计算超出范围".to_owned()),
    };
    let deviation = match divide(product, average) {
        Some(deviation) => deviation,
        None => return Err("金额计算超出范围".to_owned()),
    };
    proof {
        quotient_is_average(pairs, sum.pair(), average.pair());
        deviation_is_relative(
            close.pair(),
            average.pair(),
            difference.pair(),
            product.pair(),
            deviation.pair(),
        );
        assert forall|k: int| 0 <= k <= 6 implies #[trigger] keeps_bound(
            close.pair(),
            average.pair(),
            deviation.pair(),
            k,
        ) by {
            deviation_keeps_bound(
                close.pair(),
                average.pair(),
                difference.pair(),
                product.pair(),
                deviation.pair(),
                k,
            );
        }
    }
    let newest: usize = chosen[order[0]];
    Ok(
        SmartDecision {
            index_code: index_code.to_owned(),
            index_name: option.name.to_owned(),
            moving_average_days,
            quote_date: quotes[newest].trade_date,
            close,
            moving_average: average,
            deviation_percent: deviation,
            multiplier_bps: multiplier_for_deviation(deviation),
            source: quotes[newest].source.clone(),
        },
    )
}

/// A distance in hundredths of an average is up to a percentage, with a part to spare for what is
/// rounded away.
pub open spec fn within(distance: real, average: real, percent: int) -> bool {
    size(distance) * 10000000000000000000000000real <= percent as real * average
        * 9999999999999999999999999real
}

/// A distance in hundredths of an average is above a percentage, with a part to spare for what is
/// rounded away.
pub open spec fn beyond(distance: real, average: real, percent: int) -> bool {
    size(distance) * 10000000000000000000000000real >= percent as real * average
        * 10000000000000000000000001real
}

/// How much is invested goes by how far the close lies from the average as a part of the average.
/// The deviation times the average is a hundred times the distance. Up to two percent from the
/// average the base amount is invested; for each percent begun beyond that a tenth less above the
/// average and a tenth more below it, down to a half and up to one and a half.
pub proof fn decision_is_relative_to_the_average(
    index_code: &str,
    days: i32,
    trade_date: Date,
    quotes: &Vec<market_index_quote::Model>,
    d: SmartDecision,
    k: int,
)
    requires
        call_ensures(smart_decision, (index_code, days, trade_date, quotes), Ok(d)),
        2 <= k <= 5,
    ensures
        ({
            let (c, a) = (number(d.close.pair()), number(d.moving_average.pair()));
            let q = number(d.deviation_percent.pair());
            let distance = 100real * (c - a);
            let up = c > a;
            &&& a > 0real
            &&& size(q * a - distance) * 100000000000000000000000000real <= (1real + size(q)) * a
            &&& digits_held(d.close.pair(), d.moving_average.pair()) && 50real * size(c - a) <= a
                ==> d.multiplier_bps == 10_000
            &&& within(distance, a, 2) ==> d.multiplier_bps == 10_000
            &&& beyond(distance, a, k) && within(distance, a, k + 1) ==> d.multiplier_bps == (
            if up {
                10_000 - 1_000 * (k - 1)
            } else {
                10_000 + 1_000 * (k - 1)
            })
            &&& beyond(distance, a, 6) ==> d.multiplier_bps == (if up {
                5_000int
            } else {
                15_000
            })
        }),
{
    let (close, average) = (d.close.pair(), d.moving_average.pair());
    let deviation = d.deviation_percent.pair();
    let (c, a, q) = (number(close), number(average), number(deviation));
    let distance = 100real * (c - a);
    pow10_positive(average.1);
    let (x, y) = (average.0 as real, pow10(average.1) as real);
    assert(a > 0real) by (nonlinear_arith)
        requires
            a == x / y,
            x > 0real,
            y > 0real,
    ;
    assert((1real + size(q)) * a == a + size(q) * a) by (nonlinear_arith);
    size_scaled(q, a);
    assert(keeps_bound(close, average, deviation, 2));
    deviation_bound(deviation, a, distance, 2);
    deviation_bound(deviation, a, distance, 3);
    deviation_bound(deviation, a, distance, 4);
    deviation_bound(deviation, a, distance, 5);
    deviation_bound(deviation, a, distance, 6);
    assert(2real * a * 1real == 2real * a);
}

proof fn deviation_bound(deviation: (int, int), a: real, distance: real, k: int)
    requires
        a > 0real,
        size(number(deviation) * a - distance) * 100000000000000000000000000real <= a + size(
            number(deviation),
        ) * a,
        size(number(deviation) * a) == size(number(deviation)) * a,
        1 <= k <= 6,
    ensures
        within(distance, a, k) ==> magnitude(deviation.0) <= k * pow10(deviation.1),
        beyond(distance, a, k) ==> magnitude(deviation.0) > k * pow10(deviation.1),
        beyond(distance, a, k) ==> (deviation.0 > 0 <==> distance > 0real),
{
    pow10_positive(deviation.1);
    let q = number(deviation);
    let (m, p) = (deviation.0 as real, pow10(deviation.1) as real);
    assert(q * p == m) by (nonlinear_arith)
        requires
            q == m / p,
            p > 0real,
    ;
    size_scaled(q, p);
    assert((deviation.0 > 0 <==> q > 0real) && (q > 0real <==> q * a > 0real)) by (nonlinear_arith)
        requires
            q * p == m,
            p > 0real,
            a > 0real,
            deviation.0 > 0 <==> m > 0real,
    ;
    product_as_real(k, pow10(deviation.1));
    let (sq, b) = (size(q), k as real);
    let (x, y) = (sq * a, b * a);
    assert(a <= y <= 6real * a) by (nonlinear_arith)
        requires
            y == b * a,
            1real <= b <= 6real,
            a > 0real,
    ;
    if within(distance, a, k) {
        assert(x <= y);
        assert(sq <= b) by (nonlinear_arith)
            requires
                sq * a <= b * a,
                a > 0real,
        ;
        assert(sq * p <= b * p) by (nonlinear_arith)
            requires
                sq <= b,
                p > 0real,
        ;
    }
    if beyond(distance, a, k) {
        assert(x > y);
        assert(sq > b) by (nonlinear_arith)
            requires
                sq * a > b * a,
                a > 0real,
        ;
        assert(sq * p > b * p) by (nonlinear_arith)
            requires
                sq > b,
                p > 0real,
        ;
    }
}

/// Two decisions whose close and average stand in the same ratio have the same deviation, but for
/// what is rounded away: an index in other units is decided on in the same way.
pub proof fn decision_depends_on_the_ratio(
    index_codes: (&str, &str),
    days: (i32, i32),
    trade_dates: (Date, Date),
    quotes: (&Vec<market_index_quote::Model>, &Vec<market_index_quote::Model>),
    d: SmartDecision,
    e: SmartDecision,
)
    requires
        call_ensures(smart_decision, (index_codes.0, days.0, trade_dates.0, quotes.0), Ok(d)),
        call_ensures(smart_decision, (index_codes.1, days.1, trade_dates.1, quotes.1), Ok(e)),
        number(d.close.pair()) * number(e.moving_average.pair()) == number(e.close.pair()) * number(
            d.moving_average.pair(),
        ),
    ensures
        ({
            let (p, q) = (
                number(d.deviation_percent.pair()),
                number(e.deviation_percent.pair()),
            );
            size(p - q) * 100000000000000000000000000real <= 2real + size(p) + size(q)
        }),
{
    let (c1, a1) = (number(d.close.pair()), number(d.moving_average.pair()));
    let (c2, a2) = (number(e.close.pair()), number(e.moving_average.pair()));
    let (p, q) = (number(d.deviation_percent.pair()), number(e.deviation_percent.pair()));
    positive_number(d.moving_average.pair());
    positive_number(e.moving_average.pair());
    let (r1, r2) = (100real * (c1 - a1) / a1, 100real * (c2 - a2) / a2);
    assert(r1 == r2) by (nonlinear_arith)
        requires
            r1 == 100real * (c1 - a1) / a1,
            r2 == 100real * (c2 - a2) / a2,
            c1 * a2 == c2 * a1,
            a1 > 0real,
            a2 > 0real,
    ;
    ratio_error(p, a1, 100real * (c1 - a1));
    ratio_error(q, a2, 100real * (c2 - a2));
}

proof fn positive_number(d: (int, int))
    requires
        d.0 > 0,
    ensures
        number(d) > 0real,
{
    pow10_positive(d.1);
    let (x, y) = (d.0 as real, pow10(d.1) as real);
    assert(x / y > 0real) by (nonlinear_arith)
        requires
            x > 0real,
            y > 0real,
    ;
}

proof fn ratio_error(q: real, a: real, distance: real)
    requires
        a > 0real,
        size(q * a - distance) * 100000000000000000000000000real <= (1real + size(q)) * a,
    ensures
        size(q - distance / a) * 100000000000000000000000000real <= 1real + size(q),
{
    let r = distance / a;
    assert((q - r) * a == q * a - distance) by (nonlinear_arith)
        requires
            r == distance / a,
            a > 0real,
    ;
    size_scaled(q - r, a);
    let (e, s) = (size(q - r), size(q));
    assert(e * 100000000000000000000000000real <= 1real + s) by (nonlinear_arith)
        requires
            e * a * 100000000000000000000000000real <= (1real + s) * a,
            a > 0real,
    ;
}

/// The sum of the closing values of quotes.
pub open spec fn close_sum(quotes: Seq<market_index_quote::Model>) -> real
    decreases quotes.len(),
{
    if quotes.len() == 0 {
        0real
    } else {
        close_sum(quotes.drop_last()) + number(decimal_of_text(quotes.last().close@)->Ok_0)
    }
}

/// A decision is taken on the latest quotes of its index from before its day: the close is that of
/// the latest one, and the average, so many times as there are days, is the sum of the closing
/// values of as many quotes, but for what is rounded away.
pub proof fn decision_takes_the_latest_average(
    index_code: &str,
    days: i32,
    trade_date: Date,
    quotes: &Vec<market_index_quote::Model>,
    d: SmartDecision,
)
    requires
        call_ensures(smart_decision, (index_code, days, trade_date, quotes), Ok(d)),
    ensures
        ({
            let latest = latest_quotes(quotes@, index_code@, trade_date);
            let used = latest.take(days as int);
            let a = number(d.moving_average.pair());
            &&& days > 0 && latest.len() >= days
            &&& decimal_of_text(latest[0].close@) == Ok::<(int, int), Seq<char>>(d.close.pair())
            &&& d.quote_date == latest[0].trade_date
            &&& (forall|i: int|
                0 <= i < days ==> decimal_of_text((#[trigger] used[i]).close@)->Ok_0.0 >= 0
                    && decimal_of_text(used[i].close@)->Ok_0.1 >= 0) ==> size(
                a * days as real - close_sum(used),
            ) * 10000000000000000000000real <= 1real + close_sum(used)
        }),
{
    let latest = latest_quotes(quotes@, index_code@, trade_date);
    let used = latest.take(days as int);
    let values = closes(used)->Ok_0;
    closes_are(used);
    assert(used[0] == latest[0]);
    if forall|i: int|
        0 <= i < days ==> decimal_of_text((#[trigger] used[i]).close@)->Ok_0.0 >= 0
            && decimal_of_text(used[i].close@)->Ok_0.1 >= 0 {
        assert forall|i: int| 0 <= i < values.len() implies (#[trigger] values[i]).0 >= 0
            && values[i].1 >= 0 by {
            assert(decimal_of_text(used[i].close@)->Ok_0 == values[i]);
        }
    }
}

proof fn closes_are(quotes: Seq<market_index_quote::Model>)
    requires
        closes(quotes) is Ok,
    ensures
        closes(quotes)->Ok_0.len() == quotes.len(),
        forall|i: int|
            0 <= i < quotes.len() ==> decimal_of_text((#[trigger] quotes[i]).close@) == Ok::<
                (int, int),
                Seq<char>,
            >(closes(quotes)->Ok_0[i]),
        number_sum(closes(quotes)->Ok_0) == close_sum(quotes),
    decreases quotes.len(),
{
    if quotes.len() > 0 {
        let front = quotes.drop_last();
        closes_are(front);
        let values = closes(quotes)->Ok_0;
        assert(values.drop_last() =~= closes(front)->Ok_0);
        assert forall|i: int| 0 <= i < quotes.len() implies decimal_of_text(
            (#[trigger] quotes[i]).close@,
        ) == Ok::<(int, int), Seq<char>>(values[i]) by {
            if i < front.len() {
                assert(front[i] == quotes[i]);
            }
        }
    }
}

/// The latest quotes of an index are all its quotes from before a day, the latest first.
pub proof fn latest_quotes_are_all(
    quotes: Seq<market_index_quote::Model>,
    index_code: Seq<char>,
    trade_date: Date,
)
    ensures
        ({
            let latest = latest_quotes(quotes, index_code, trade_date);
            &&& forall|i: int, j: int|
                0 <= i < j < latest.len() ==> (#[trigger] latest[i]).trade_date.days >= (
                #[trigger] latest[j]).trade_date.days
            &&& forall|i: int|
                0 <= i < latest.len() ==> (#[trigger] latest[i]).index_code@ == index_code
                    && latest[i].trade_date.days < trade_date.days && quotes.contains(latest[i])
            &&& forall|q: market_index_quote::Model| #[trigger]
                quotes.contains(q) && q.index_code@ == index_code && q.trade_date.days
                    < trade_date.days ==> latest.contains(q)
            &&& latest.to_multiset().len() == quotes.filter(
                |q: market_index_quote::Model|
                    q.index_code@ == index_code && q.trade_date.days < trade_date.days,
            ).len()
        }),
{
    let past = past_quotes(quotes, index_code, trade_date);
    let latest = latest_quotes(quotes, index_code, trade_date);
    let order = descending_order(quote_days(past));
    past_quotes_are(quotes, index_code, trade_date);
    crate::order::descending_exists(quote_days(past));
    crate::order::positions_covered(quote_days(past), order);
    latest.to_multiset_ensures();
    assert forall|i: int, j: int| 0 <= i < j < latest.len() implies (
    #[trigger] latest[i]).trade_date.days >= (#[trigger] latest[j]).trade_date.days by {
        assert(crate::order::ahead(quote_days(past), order[i], order[j]));
    }
    assert forall|i: int| 0 <= i < latest.len() implies (#[trigger] latest[i]).index_code@
        == index_code && latest[i].trade_date.days < trade_date.days && quotes.contains(
        latest[i],
    ) by {
        assert(past.contains(past[order[i]]));
    }
    assert forall|q: market_index_quote::Model| #[trigger]
        quotes.contains(q) && q.index_code@ == index_code && q.trade_date.days
            < trade_date.days implies latest.contains(q) by {
        assert(past.contains(q));
        let p = choose|p: int| 0 <= p < past.len() && past[p] == q;
        assert(order.contains(p));
        let k = choose|k: int| 0 <= k < order.len() && order[k] == p;
        assert(latest[k] == q);
    }
}

proof fn past_quotes_are(
    quotes: Seq<market_index_quote::Model>,
    index_code: Seq<char>,
    trade_date: Date,
)
    ensures
        past_quotes(quotes, index_code, trade_date) == quotes.filter(
            |q: market_index_quote::Model|
                q.index_code@ == index_code && q.trade_date.days < trade_date.days,
        ),
        forall|q: market_index_quote::Model| #[trigger]
            past_quotes(quotes, index_code, trade_date).contains(q) <==> quotes.contains(q)
                && q.index_code@ == index_code && q.trade_date.days < trade_date.days,
    decreases quotes.len(),
{
    let f = |q: market_index_quote::Model|
        q.index_code@ == index_code && q.trade_date.days < trade_date.days;
    reveal(Seq::filter);
    if quotes.len() > 0 {
        let front = quotes.drop_last();
        let (before, past) = (
            past_quotes(front, index_code, trade_date),
            past_quotes(quotes, index_code, trade_date),
        );
        past_quotes_are(front, index_code, trade_date);
        assert forall|q: market_index_quote::Model| #[trigger]
            past.contains(q) <==> quotes.contains(q) && q.index_code@ == index_code
                && q.trade_date.days < trade_date.days by {
            if quotes.contains(q) && f(q) {
                let i = choose|i: int| 0 <= i < quotes.len() && quotes[i] == q;
                if i < front.len() {
                    assert(front[i] == q);
                    assert(before.contains(q));
                    let k = choose|k: int| 0 <= k < before.len() && before[k] == q;
                    assert(past[k] == q);
                } else {
                    assert(past[past.len() - 1] == q);
                }
            }
            if past.contains(q) {
                let k = choose|k: int| 0 <= k < past.len() && past[k] == q;
                if k < before.len() {
                    assert(before.contains(before[k]));
                    let i = choose|i: int| 0 <= i < front.len() && front[i] == q;
                    assert(quotes[i] == q);
                } else {
                    assert(quotes[quotes.len() - 1] == q);
                }
            }
        }
    }
}

/// A decision reads only quotes of its index from before its day.
pub proof fn decision_looks_back(
    quotes: Seq<market_index_quote::Model>,
    index_code: Seq<char>,
    trade_date: Date,
    i: int,
)
    requires
        0 <= i < latest_quotes(quotes, index_code, trade_date).len(),
    ensures
        is_past(latest_quotes(quotes, index_code, trade_date)[i], index_code, trade_date),
{
    let past = past_quotes(quotes, index_code, trade_date);
    past_quotes_are_past(quotes, index_code, trade_date);
    crate::order::descending_exists(quote_days(past));
}

proof fn past_quotes_are_past(
    quotes: Seq<market_index_quote::Model>,
    index_code: Seq<char>,
    trade_date: Date,
)
    ensures
        forall|i: int|
            0 <= i < past_quotes(quotes, index_code, trade_date).len() ==> is_past(
                #[trigger] past_quotes(quotes, index_code, trade_date)[i],
                index_code,
                trade_date,
            ),
    decreases quotes.len(),
{
    if quotes.len() > 0 {
        past_quotes_are_past(quotes.drop_last(), index_code, trade_date);
        let front = past_quotes(quotes.drop_last(), index_code, trade_date);
        let all = past_quotes(quotes, index_code, trade_date);
        assert forall|i: int| 0 <= i < all.len() implies is_past(
            #[trigger] all[i],
            index_code,
            trade_date,
        ) by {
            if i < front.len() {
                assert(is_past(front[i], index_code, trade_date));
            }
        }
    }
}

/// A quotient without its fraction.
pub open spec fn quotient_towards_zero(n: int, unit: int) -> int {
    if n < 0 {
        -((-n) / unit)
    } else {
        n / unit
    }
}

/// An amount times a part in hundredths of a percent, half a cent added and the fraction dropped.
pub open spec fn adjusted(base_amount: int, multiplier_bps: int) -> int {
    quotient_towards_zero(base_amount * multiplier_bps + 5_000, 10_000)
}

/// The amount to invest: the base amount times the part in hundredths of a percent.
pub fn adjusted_amount(base_amount: i64, multiplier_bps: i64) -> (r: Result<i64, String>)
    ensures
        match r {
            Ok(n) => n == adjusted(base_amount as int, multiplier_bps as int),
            Err(message) => !fits_i64(adjusted(base_amount as int, multiplier_bps as int))
                && message@ == "聪明定投金额计算超出范围"@,
        },
{
    proof {
        let a = base_amount as int;
        let b = multiplier_bps as int;
        assert(-0x4000_0000_0000_0000_0000_0000_0000_0000 <= a * b
            <= 0x4000_0000_0000_0000_0000_0000_0000_0000) by (nonlinear_arith)
            requires
                -0x8000_0000_0000_0000 <= a <= 0x7fff_ffff_ffff_ffff,
                -0x8000_0000_0000_0000 <= b <= 0x7fff_ffff_ffff_ffff,
        ;
    }
    let numerator: i128 = base_amount as i128 * multiplier_bps as i128 + 5_000;
    let quotient: i128 = if numerator < 0 {
        -((-numerator) / 10_000)
    } else {
        numerator / 10_000
    };
    if (i64::MIN as i128) <= quotient && quotient <= (i64::MAX as i128) {
        Ok(quotient as i64)
    } else {
        Err("聪明定投金额计算超出范围".to_owned())
    }
}

/// The amount to invest is the cent nearest to the exact product of nonnegative numbers, halves
/// going up; the whole of the base amount is the base amount.
pub proof fn adjusted_is_nearest(base_amount: int, multiplier_bps: int)
    requires
        base_amount >= 0,
        multiplier_bps >= 0,
    ensures
        -5_000 <= base_amount * multiplier_bps - 10_000 * adjusted(base_amount, multiplier_bps)
            < 5_000,
        adjusted(base_amount, 10_000) == base_amount,
{
    assert(base_amount * multiplier_bps >= 0) by (nonlinear_arith)
        requires
            base_amount >= 0,
            multiplier_bps >= 0,
    ;
}

/// A closing value with at most two digits behind the point.
pub open spec fn point_text(value: (int, int)) -> Seq<char> {
    let rounded = rounded_to(value.0, value.1, 2);
    let shown = normal(rounded.0, rounded.1);
    decimal_text(shown.0, shown.1)
}

/// Writes a closing value with at most two digits behind the point.
pub fn format_point(value: Dec) -> (r: String)
    requires
        value.wf(),
    ensures
        r@ == point_text(value.pair()),
{
    decimal_to_text(normalize(round_dp(value, 2)))
}

/// A percentage with at most two digits behind the point and a sign.
pub open spec fn percent_text(value: (int, int)) -> Seq<char> {
    if rounded_to(value.0, value.1, 2).0 > 0 {
        "+"@ + point_text(value) + "%"@
    } else {
        point_text(value) + "%"@
    }
}

/// Writes a percentage with at most two digits behind the point and a sign.
pub fn format_percent(value: Dec) -> (r: String)
    requires
        value.wf(),
    ensures
        r@ == percent_text(value.pair()),
{
    let rounded = round_dp(value, 2);
    let text = decimal_to_text(normalize(rounded));
    if rounded.mantissa > 0 {
        join3("+", &text, "%")
    } else {
        join2(&text, "%")
    }
}

/// A part in hundredths of a percent as a percentage.
pub open spec fn multiplier_text(multiplier_bps: int) -> Seq<char> {
    let shown = normal(multiplier_bps, 2);
    decimal_text(shown.0, shown.1) + "%"@
}

/// Writes a part in hundredths of a percent as a percentage.
pub fn format_multiplier(multiplier_bps: i64) -> (r: String)
    ensures
        r@ == multiplier_text(multiplier_bps as int),
{
    join2(&decimal_to_text(normalize(Dec { mantissa: multiplier_bps as i128, scale: 2 })), "%")
}

/// The quotes of the index company are read one for one: the day in the notation without hyphens, and
/// a closing value above zero, as it is written.
pub proof fn csindex_values_are_read(
    success: bool,
    message: &str,
    data: &Vec<CsIndexQuote>,
    values: Vec<QuoteValue>,
    i: int,
)
    requires
        call_ensures(csindex_values, (success, message, data), Ok(values)),
        0 <= i < data@.len(),
    ensures
        success,
        values@.len() == data@.len(),
        date_of_text(data@[i].trade_date@, "%Y%m%d"@) == Some(values@[i].date.days as int),
        decimal_of_text(unquoted(data@[i].close@)) == Ok::<(int, int), Seq<char>>(
            values@[i].close.pair(),
        ),
        values@[i].close.mantissa > 0,
{
    let list = csindex_each(data@);
    all_values_are(list, i);
    let wanted = all_values(list)->Ok_0;
    let seen = Seq::new(values@.len(), |i: int| quote_view(values@[i]));
    assert(seen.len() == values@.len());
    assert(seen[i] == quote_view(values@[i]));
    assert(list[i] == Ok::<(int, (int, int)), Seq<char>>(wanted[i]));
}

/// The quotes of the Hang Seng index are read one for one: the first field of a line is the day, the
/// third one a closing value above zero.
pub proof fn hang_seng_values_are_read(
    lines: &Option<Vec<String>>,
    values: Vec<QuoteValue>,
    i: int,
)
    requires
        call_ensures(hang_seng_values, (lines,), Ok(values)),
        *lines matches Some(data) ==> 0 <= i < data@.len(),
    ensures
        *lines is Some,
        values@.len() == (*lines)->0@.len(),
        ({
            let fields = split_parts((*lines)->0@[i]@, ',');
            &&& fields.len() >= 3
            &&& date_of_text(fields[0], "%Y-%m-%d"@) == Some(values@[i].date.days as int)
            &&& decimal_of_text(fields[2]) == Ok::<(int, int), Seq<char>>(values@[i].close.pair())
            &&& values@[i].close.mantissa > 0
        }),
{
    let data = (*lines)->0;
    let list = hang_seng_each(data@);
    all_values_are(list, i);
    let wanted = all_values(list)->Ok_0;
    let seen = Seq::new(values@.len(), |i: int| quote_view(values@[i]));
    assert(seen.len() == values@.len());
    assert(seen[i] == quote_view(values@[i]));
    assert(list[i] == Ok::<(int, (int, int)), Seq<char>>(wanted[i]));
}

proof fn all_values_are(list: Seq<Result<(int, (int, int)), Seq<char>>>, i: int)
    requires
        all_values(list) is Ok,
        0 <= i < list.len(),
    ensures
        all_values(list)->Ok_0.len() == list.len(),
        list[i] == Ok::<(int, (int, int)), Seq<char>>(all_values(list)->Ok_0[i]),
    decreases list.len(),
{
    all_values_len(list);
    if i < list.len() - 1 {
        all_values_are(list.drop_last(), i);
    } else {
        all_values_len(list.drop_last());
    }
}

proof fn all_values_len(list: Seq<Result<(int, (int, int)), Seq<char>>>)
    requires
        all_values(list) is Ok,
    ensures
        all_values(list)->Ok_0.len() == list.len(),
    decreases list.len(),
{
    if list.len() > 0 {
        all_values_len(list.drop_last());
    }
}

} // verus!
