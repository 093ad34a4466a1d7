//! Converting an amount between currencies.
use vstd::prelude::*;
use vstd::string::*;

use crate::calendar::{
    date_text, date_to_text, day_of_text, parse_day, time_text, time_to_text, Date,
};
use crate::currency::{is_currency, valid, RateInfo};
use crate::decimal::{
    decimal_of_text, decimal_product, decimal_text, decimal_to_text, is_near_or_tiny, many,
    multiply, normal, normalize, number, parse_decimal, pow10, product_number, round_dp,
    rounded_number, rounded_to, size, Dec,
};
use crate::error::{
    arithmetic_overflow, bad, bad_request, overflowed, ErrorView, HandlerResult,
};
use crate::text::{join2, join3, join5, same, trimmed, upper_text, uppercase};

verus! {

/// What is to be converted.
pub struct ConverterQuery {
    pub amount: String,
    pub from: String,
    pub to: String,
    pub date: String,
}

/// The currency of a field in upper case, or one in its place where the field is empty.
pub open spec fn chosen_currency(field: Seq<char>, otherwise: Seq<char>) -> Seq<char> {
    if trimmed(field).len() == 0 {
        otherwise
    } else {
        upper_text(trimmed(field))
    }
}

fn choose_currency(field: &str, otherwise: &str) -> (r: String)
    ensures
        r@ == chosen_currency(field@, otherwise@),
{
    let code = field.trim();
    if code.is_empty() {
        otherwise.to_owned()
    } else {
        uppercase(code)
    }
}

/// The amount of a query, one where the field is empty.
pub open spec fn amount_field(query: ConverterQuery) -> Seq<char> {
    if trimmed(query.amount@).len() == 0 {
        "1.00"@
    } else {
        query.amount@
    }
}

/// The currency that a query converts from.
pub open spec fn from_currency(query: ConverterQuery, default_currency: Seq<char>) -> Seq<char> {
    chosen_currency(query.from@, default_currency)
}

/// The currency that a query converts to: dollars, or yuan where dollars are the default.
pub open spec fn to_currency(query: ConverterQuery, default_currency: Seq<char>) -> Seq<char> {
    chosen_currency(
        query.to@,
        if default_currency == "USD"@ {
            "CNY"@
        } else {
            "USD"@
        },
    )
}

/// The day of a query, today where the field is empty; none where it is no day.
pub open spec fn day_field(query: ConverterQuery, today: Date) -> Option<Date> {
    if trimmed(query.date@).len() == 0 {
        Some(today)
    } else {
        day_of_text(query.date@)
    }
}

/// Why a query is refused, where it is.
pub open spec fn query_refusal(query: ConverterQuery, default_currency: Seq<char>, today: Date) -> Option<
    ErrorView,
> {
    if !is_currency(from_currency(query, default_currency)) || !is_currency(
        to_currency(query, default_currency),
    ) {
        Some(bad("请选择支持的换算货币"@))
    } else {
        match day_field(query, today) {
            None => Some(bad("换算日期格式不正确"@)),
            Some(date) => if date.days > today.days {
                Some(bad("不能查询未来汇率"@))
            } else {
                match decimal_of_text(trimmed(amount_field(query))) {
                    Err(_) => Some(bad("换算金额格式不正确"@)),
                    Ok(amount) => if amount.0 < 0 {
                        Some(bad("换算金额不能小于 0"@))
                    } else {
                        None
                    },
                }
            },
        }
    }
}

/// A query as it counts: the amount, the two currencies and the day.
pub struct Conversion {
    pub amount_text: String,
    pub amount: Dec,
    pub from: String,
    pub to: String,
    pub date: Date,
}

/// Reads a query: which rate is to be had, and what is to be converted.
pub fn read_query(query: &ConverterQuery, default_currency: &str, today: Date) -> (r: HandlerResult<
    Conversion,
>)
    ensures
        match (r, query_refusal(*query, default_currency@, today)) {
            (Ok(c), None) => {
                &&& c.amount_text@ == amount_field(*query)
                &&& c.amount.wf()
                &&& decimal_of_text(trimmed(amount_field(*query))) == Ok::<(int, int), Seq<char>>(
                    c.amount.pair(),
                )
                &&& c.from@ == from_currency(*query, default_currency@)
                &&& c.to@ == to_currency(*query, default_currency@)
                &&& day_field(*query, today) == Some(c.date)
            },
            (Err(error), Some(wanted)) => error@ == wanted,
            _ => false,
        },
{
    let from = choose_currency(&query.from, default_currency);
    let to = choose_currency(
        &query.to,
        if same(default_currency, "USD") {
            "CNY"
        } else {
            "USD"
        },
    );
    if !valid(&from) || !valid(&to) {
        return Err(bad_request("请选择支持的换算货币"));
    }
    let date = if query.date.as_str().trim().is_empty() {
        today
    } else {
        match parse_day(&query.date) {
            Some(date) => date,
            None => return Err(bad_request("换算日期格式不正确")),
        }
    };
    if date.days > today.days {
        return Err(bad_request("不能查询未来汇率"));
    }
    let amount_text = if query.amount.as_str().trim().is_empty() {
        "1.00".to_owned()
    } else {
        query.amount.clone()
    };
    match parse_decimal(amount_text.as_str().trim()) {
        Err(_) => Err(bad_request("换算金额格式不正确")),
        Ok(amount) => if amount.mantissa < 0 {
            Err(bad_request("换算金额不能小于 0"))
        } else {
            Ok(Conversion { amount_text, amount, from, to, date })
        },
    }
}

/// The page of the converter.
pub struct ConverterPage {
    pub amount: String,
    pub from: String,
    pub to: String,
    pub date: String,
    pub result: String,
    pub rate: String,
    pub rate_date: String,
    pub fetched_at: String,
    pub same_currency: bool,
}

/// A decimal number with at most so many digits behind the point and no trailing zeros.
pub open spec fn short_text(d: (int, int), places: int) -> Seq<char> {
    let rounded = rounded_to(d.0, d.1, places);
    let shown = normal(rounded.0, rounded.1);
    decimal_text(shown.0, shown.1)
}

/// The page of the converter, once the rate was had.
pub fn converter(conversion: Conversion, info: RateInfo) -> (r: HandlerResult<ConverterPage>)
    requires
        conversion.amount.wf(),
        info.rate.wf(),
    ensures
        match (r, decimal_product(conversion.amount.pair(), info.rate.pair())) {
            (Ok(page), Some(product)) => {
                &&& page.amount@ == conversion.amount_text@
                &&& page.from@ == conversion.from@
                &&& page.to@ == conversion.to@
                &&& page.date@ == date_text(conversion.date)
                &&& page.result@ == conversion.to@ + " "@ + short_text(product, 4)
                &&& page.rate@ == "1 "@ + conversion.from@ + " = "@ + short_text(
                    info.rate.pair(),
                    8,
                ) + (" "@ + conversion.to@)
                &&& page.rate_date@ == date_text(info.rate_date)
                &&& page.fetched_at@ == (match info.fetched_at {
                    Some(time) => time_text(time),
                    None => Seq::empty(),
                })
                &&& page.same_currency == (conversion.from@ == conversion.to@)
                &&& is_near_or_tiny(
                    product,
                    conversion.amount.mantissa * info.rate.mantissa,
                    pow10(conversion.amount.scale + info.rate.scale),
                )
                &&& product.1 >= 0
            },
            (Err(error), None) => error@ == overflowed(),
            _ => false,
        },
{
    let product = match multiply(conversion.amount, info.rate) {
        Some(product) => product,
        None => return Err(arithmetic_overflow()),
    };
    let shown = decimal_to_text(normalize(round_dp(product, 4)));
    let rate = decimal_to_text(normalize(round_dp(info.rate, 8)));
    let same_currency = same(&conversion.from, &conversion.to);
    let rate_text = join5("1 ", &conversion.from, " = ", &rate, &join2(" ", &conversion.to));
    Ok(
        ConverterPage {
            amount: conversion.amount_text,
            date: date_to_text(conversion.date),
            result: join3(&conversion.to, " ", &shown),
            rate: rate_text,
            rate_date: date_to_text(info.rate_date),
            fetched_at: match info.fetched_at {
                Some(time) => time_to_text(time),
                None => String::new(),
            },
            same_currency,
            from: conversion.from,
            to: conversion.to,
        },
    )
}

/// The converter shows the amount times the rate, rounded to four digits behind the point, and the
/// rate rounded to eight.
pub proof fn converter_multiplies(conversion: Conversion, info: RateInfo, page: ConverterPage) -> (p: (
    int,
    int,
))
    requires
        conversion.amount.wf(),
        info.rate.wf(),
        call_ensures(converter, (conversion, info), Ok(page)),
    ensures
        ({
            let exact = number(conversion.amount.pair()) * number(info.rate.pair());
            &&& 20000real * size(number(p) - exact) * many() <= many() + 40000real + 40000real
                * size(exact)
            &&& page.result@ == conversion.to@ + " "@ + decimal_text(
                normal(p.0, p.1).0,
                normal(p.0, p.1).1,
            )
        }),
{
    let product = decimal_product(conversion.amount.pair(), info.rate.pair())->0;
    let p = rounded_to(product.0, product.1, 4);
    product_number(conversion.amount.pair(), info.rate.pair(), product);
    rounded_number(product, 4);
    reveal_with_fuel(pow10, 5);
    assert(pow10(4) == 10000);
    let exact = number(conversion.amount.pair()) * number(info.rate.pair());
    let (a, b) = (size(number(p) - number(product)), size(number(product) - exact));
    assert(2real * a * 10000real <= 1real);
    assert(size(number(product)) <= size(exact) + b);
    assert(b * many() <= 1real + size(exact) + b);
    assert(size(number(p) - exact) <= a + b);
    assert(a * 20000real <= 1real) by (nonlinear_arith)
        requires
            2real * a * 10000real <= 1real,
    ;
    assert(b * many() <= 2real + 2real * size(exact));
    p
}

} // verus!
