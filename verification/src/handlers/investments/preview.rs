//! What a smart investment would be decided on.
use vstd::prelude::*;
use vstd::string::*;

use crate::calendar::{date_text, date_to_text, day_of_text, parse_day, plus_days, Date};
use crate::entity::market_index_quote;
use crate::error::{bad, bad_request, ErrorView, HandlerResult};
use crate::handlers::bills::text_view;
use crate::market_data::{
    decision_average, decision_close, decision_multiplier, decision_refusal, deviation_of,
    format_multiplier, format_percent, format_point, index_named, index_option, is_moving_average,
    latest_quotes, multiplier_text, percent_text, point_text, smart_decision, valid_moving_average,
    SmartDecision,
};
use crate::text::{join2, join3, trimmed};

verus! {

/// For what a decision is asked.
pub struct SmartPreviewQuery {
    pub index_code: String,
    pub moving_average_days: i32,
    pub trade_date: String,
}

/// What a smart investment would be decided on.
pub struct SmartPreviewResponse {
    pub ok: bool,
    pub index_name: String,
    pub moving_average_days: i32,
    pub quote_date: String,
    pub close: String,
    pub moving_average: String,
    pub deviation: String,
    pub multiplier: String,
    pub source: String,
    pub warning: String,
}

/// The day for which a decision is asked, which is today where none is given, or why it is
/// refused.
pub open spec fn preview_day(query: SmartPreviewQuery, today: Date) -> Result<Date, ErrorView> {
    if index_named(trimmed(query.index_code@)) is None {
        Err(bad("请选择支持的跟踪指数"@))
    } else if !is_moving_average(query.moving_average_days as int) {
        Err(bad("请选择支持的均线周期"@))
    } else if trimmed(query.trade_date@).len() == 0 {
        Ok(today)
    } else {
        match day_of_text(query.trade_date@) {
            Some(date) => Ok(date),
            None => Err(bad("计划执行日期格式不正确"@)),
        }
    }
}

fn find_preview_day(query: &SmartPreviewQuery, today: Date) -> (r: HandlerResult<Date>)
    ensures
        crate::error::agrees(r, preview_day(*query, today)),
{
    if index_option(query.index_code.as_str().trim()).is_none() {
        return Err(bad_request("请选择支持的跟踪指数"));
    }
    if !valid_moving_average(query.moving_average_days) {
        return Err(bad_request("请选择支持的均线周期"));
    }
    if query.trade_date.as_str().trim().is_empty() {
        return Ok(today);
    }
    match parse_day(&query.trade_date) {
        Some(date) => Ok(date),
        None => Err(bad_request("计划执行日期格式不正确")),
    }
}

/// From when to when quotes are needed for a decision, or the refusal: up to the day before, from
/// twice as many days as the average has and sixty before.
pub open spec fn preview_range(query: SmartPreviewQuery, today: Date) -> Result<
    (Date, Date),
    ErrorView,
> {
    match preview_day(query, today) {
        Err(e) => Err(e),
        Ok(date) => match (
            plus_days(date, -(query.moving_average_days * 2 + 60)),
            plus_days(date, -1),
        ) {
            (Some(start), Some(end)) => Ok((start, end)),
            _ => Err(bad("指数行情结束日期超出范围"@)),
        },
    }
}

/// From when to when quotes are to be brought up to date before a decision is shown.
pub fn preview_history(query: &SmartPreviewQuery, today: Date) -> (r: HandlerResult<(Date, Date)>)
    ensures
        crate::error::agrees(r, preview_range(*query, today)),
{
    let date = match find_preview_day(query, today) {
        Ok(date) => date,
        Err(error) => return Err(error),
    };
    match date.add_days(-(query.moving_average_days as i64 * 2 + 60)) {
        None => Err(bad_request("指数行情结束日期超出范围")),
        Some(start) => match date.add_days(-1) {
            None => Err(bad_request("指数行情结束日期超出范围")),
            Some(end) => Ok((start, end)),
        },
    }
}

/// The quotes that a decision is taken on, the latest first.
pub open spec fn preview_quotes(
    query: SmartPreviewQuery,
    quotes: Seq<market_index_quote::Model>,
    today: Date,
) -> Seq<market_index_quote::Model> {
    latest_quotes(quotes, trimmed(query.index_code@), preview_day(query, today)->Ok_0)
}

/// Why there is no decision to show, where there is none.
pub open spec fn preview_refusal(
    query: SmartPreviewQuery,
    quotes: Seq<market_index_quote::Model>,
    refresh_error: Option<Seq<char>>,
    today: Date,
) -> Option<ErrorView> {
    match preview_range(query, today) {
        Err(e) => Some(e),
        Ok(_) => match decision_refusal(
            trimmed(query.index_code@),
            query.moving_average_days as int,
            preview_quotes(query, quotes, today),
        ) {
            None => None,
            Some(message) => Some(
                match refresh_error {
                    Some(error) => bad(error + "；"@ + message),
                    None => bad(message),
                },
            ),
        },
    }
}

/// The answer shows these values.
pub open spec fn is_preview(
    r: SmartPreviewResponse,
    query: SmartPreviewQuery,
    quotes: Seq<market_index_quote::Model>,
    refresh_error: Option<Seq<char>>,
    today: Date,
) -> bool {
    let days = query.moving_average_days as int;
    let latest = preview_quotes(query, quotes, today);
    let close = decision_close(days, latest);
    let average = decision_average(days, latest);
    &&& r.ok
    &&& r.index_name@ == (index_named(trimmed(query.index_code@))->0).0
    &&& r.moving_average_days == days
    &&& r.quote_date@ == date_text(latest[0].trade_date)
    &&& r.close@ == point_text(close)
    &&& r.moving_average@ == point_text(average)
    &&& r.deviation@ == percent_text(deviation_of(close, average)->0)
    &&& r.multiplier@ == multiplier_text(decision_multiplier(days, latest))
    &&& r.source@ == latest[0].source@
    &&& r.warning@ == (match refresh_error {
        Some(error) => "行情更新失败，当前使用本地缓存："@ + error,
        None => Seq::empty(),
    })
}

/// Shows what a smart investment would be decided on. `refresh_error` is why the quotes could not
/// be brought up to date, where they could not.
pub fn smart_preview(
    query: &SmartPreviewQuery,
    quotes: &Vec<market_index_quote::Model>,
    refresh_error: &Option<String>,
    today: Date,
) -> (r: HandlerResult<SmartPreviewResponse>)
    ensures
        match (r, preview_refusal(*query, quotes@, text_view(*refresh_error), today)) {
            (Ok(response), None) => is_preview(
                response,
                *query,
                quotes@,
                text_view(*refresh_error),
                today,
            ),
            (Err(error), Some(wanted)) => error@ == wanted,
            _ => false,
        },
{
    match preview_history(query, today) {
        Ok(_) => {},
        Err(error) => return Err(error),
    }
    let trade_date = match find_preview_day(query, today) {
        Ok(date) => date,
        Err(error) => return Err(error),
    };
    let decision = match smart_decision(
        query.index_code.as_str().trim(),
        query.moving_average_days,
        trade_date,
        quotes,
    ) {
        Ok(decision) => decision,
        Err(message) => return match refresh_error {
            Some(error) => Err(bad_request(&join3(error, "；", &message))),
            None => Err(bad_request(&message)),
        },
    };
    let warning = match refresh_error {
        Some(error) => join2("行情更新失败，当前使用本地缓存：", error),
        None => String::new(),
    };
    proof {
        if *refresh_error is None {
            assert(warning@ =~= Seq::empty());
        }
    }
    Ok(
        SmartPreviewResponse {
            ok: true,
            index_name: decision.index_name,
            moving_average_days: decision.moving_average_days,
            quote_date: date_to_text(decision.quote_date),
            close: format_point(decision.close),
            moving_average: format_point(decision.moving_average),
            deviation: format_percent(decision.deviation_percent),
            multiplier: format_multiplier(decision.multiplier_bps),
            source: decision.source,
            warning,
        },
    )
}

/// The preview shows what would be decided: the close, the average, the deviation and the part of the
/// base amount are those of the decision on the same quotes.
pub proof fn preview_shows_the_decision(
    query: &SmartPreviewQuery,
    quotes: &Vec<market_index_quote::Model>,
    refresh_error: &Option<String>,
    today: Date,
    r: SmartPreviewResponse,
    index_code: &str,
    d: SmartDecision,
)
    requires
        call_ensures(smart_preview, (query, quotes, refresh_error, today), Ok(r)),
        index_code@ == trimmed(query.index_code@),
        preview_day(*query, today) matches Ok(date) ==> call_ensures(
            smart_decision,
            (index_code, query.moving_average_days, date, quotes),
            Ok(d),
        ),
    ensures
        r.close@ == point_text(d.close.pair()),
        r.moving_average@ == point_text(d.moving_average.pair()),
        r.deviation@ == percent_text(d.deviation_percent.pair()),
        r.multiplier@ == multiplier_text(d.multiplier_bps as int),
        r.quote_date@ == date_text(d.quote_date),
        r.source@ == d.source@,
{
}

} // verus!
