use haruka::calendar::{from_ymd, Date, DateTime};
use haruka::currency::{
    after_cache, after_fetch, after_latest, begin_rate, cache_id, cache_is_fresh, convert_cents,
    currencies, default_currency, format as format_amount, latest_rate, unquote, valid,
    FetchOutcome, RateAction, RateTable,
};
use haruka::decimal::{whole, Dec};
use haruka::entity::{exchange_rate, market_index_quote, preference};
use haruka::market_data::{
    adjusted_amount, check_refresh, csindex_values, format_multiplier, format_percent,
    format_point, hang_seng_values, index_option, index_options, multiplier_for_deviation,
    quote_id, refresh_index, smart_decision, valid_moving_average, CsIndexQuote, QuoteValue,
};

fn day(year: i32, month: u32, day: u32) -> Date {
    from_ymd(year, month, day).unwrap()
}

fn noon(date: Date) -> DateTime {
    DateTime { date, second: 43200, nano: 0 }
}

#[test]
fn smart_multiplier_respects_every_boundary() {
    let cases: [(i128, u32, i64); 21] = [
        (0, 0, 10_000),
        (2, 0, 10_000),
        (201, 2, 9_000),
        (3, 0, 9_000),
        (301, 2, 8_000),
        (4, 0, 8_000),
        (401, 2, 7_000),
        (5, 0, 7_000),
        (501, 2, 6_000),
        (6, 0, 6_000),
        (601, 2, 5_000),
        (-2, 0, 10_000),
        (-201, 2, 11_000),
        (-3, 0, 11_000),
        (-301, 2, 12_000),
        (-4, 0, 12_000),
        (-401, 2, 13_000),
        (-5, 0, 13_000),
        (-501, 2, 14_000),
        (-6, 0, 14_000),
        (-601, 2, 15_000),
    ];
    for (mantissa, scale, expected) in cases {
        assert_eq!(multiplier_for_deviation(Dec { mantissa, scale }), expected);
    }
}

#[test]
fn adjusted_amount_rounds_to_nearest_cent() {
    assert_eq!(adjusted_amount(10_001, 9_000).unwrap(), 9_001);
    assert_eq!(adjusted_amount(10_001, 11_000).unwrap(), 11_001);
}

#[test]
fn adjusted_amount_can_be_too_large() {
    assert_eq!(adjusted_amount(i64::MAX, 15_000).unwrap_err(), "聪明定投金额计算超出范围");
    assert_eq!(adjusted_amount(-1, 10_000).unwrap(), 0);
}

#[test]
fn indexes_and_averages_are_known() {
    assert_eq!(index_option("HSI").unwrap().name, "恒生指数");
    assert!(index_option("hsi").is_none());
    let codes: Vec<&str> = index_options().iter().map(|o| o.code).collect();
    assert_eq!(codes, vec!["000300", "H30455", "HSI"]);
    for days in [120, 180, 250, 500] {
        assert!(valid_moving_average(days));
    }
    assert!(!valid_moving_average(60));
    assert_eq!(quote_id("HSI", day(2026, 1, 5)), "HSI:2026-01-05");
    assert_eq!(format_point(Dec { mantissa: 1234560, scale: 3 }), "1234.56");
    assert_eq!(format_percent(Dec { mantissa: 251, scale: 2 }), "+2.51%");
    assert_eq!(format_percent(Dec { mantissa: -251, scale: 2 }), "-2.51%");
    assert_eq!(format_multiplier(9_000), "90%");
}

#[test]
fn quotes_are_read() {
    let quote = |date: &str, close: &str| CsIndexQuote {
        trade_date: date.to_owned(),
        close: close.to_owned(),
    };
    let values = csindex_values(true, "", &vec![quote("20260105", "4321.5")]).unwrap_or_default();
    assert_eq!(values.len(), 1);
    assert_eq!(values[0].date, day(2026, 1, 5));
    assert_eq!(values[0].close, Dec { mantissa: 43215, scale: 1 });
    let fail = |r: Result<Vec<QuoteValue>, String>| match r {
        Ok(_) => panic!("accepted"),
        Err(message) => message,
    };
    assert_eq!(
        fail(csindex_values(false, "忙", &vec![])),
        "中证指数行情请求失败：忙"
    );
    assert_eq!(
        fail(csindex_values(true, "", &vec![quote("x", "1")])),
        "中证指数行情日期格式无效"
    );
    assert_eq!(
        fail(csindex_values(true, "", &vec![quote("20260105", "x")])),
        "中证指数收盘点位格式无效"
    );
    assert_eq!(
        fail(csindex_values(true, "", &vec![quote("20260105", "0")])),
        "中证指数收盘点位必须大于 0"
    );
    let lines = Some(vec!["2026-01-05,1,25000.5,3".to_owned()]);
    let values = match hang_seng_values(&lines) {
        Ok(values) => values,
        Err(message) => panic!("{}", message),
    };
    assert_eq!(values[0].date, day(2026, 1, 5));
    assert_eq!(values[0].close, Dec { mantissa: 250005, scale: 1 });
    assert!(hang_seng_values(&None).is_err());
}

#[test]
fn refreshes_keep_each_quote() {
    let option = match check_refresh("000300", day(2026, 1, 1), day(2026, 1, 2)) {
        Ok(option) => option,
        Err(message) => panic!("{}", message),
    };
    assert!(check_refresh("x", day(2026, 1, 1), day(2026, 1, 2)).is_err());
    assert!(check_refresh("HSI", day(2026, 1, 2), day(2026, 1, 1)).is_err());
    let values = vec![QuoteValue { date: day(2026, 1, 5), close: Dec { mantissa: 43200, scale: 1 } }];
    let rows = match refresh_index(option, &values, noon(day(2026, 1, 6))) {
        Ok(rows) => rows,
        Err(message) => panic!("{}", message),
    };
    assert_eq!(rows[0].id, "000300:2026-01-05");
    assert_eq!(rows[0].close, "4320");
    assert!(refresh_index(option, &Vec::new(), noon(day(2026, 1, 6))).is_err());
}

fn quotes(count: i32, last_close: &str) -> Vec<market_index_quote::Model> {
    let end = day(2026, 1, 6);
    (0..count)
        .map(|i| {
            let date = Date { days: end.days - i };
            market_index_quote::Model {
                id: quote_id("000300", date),
                index_code: "000300".to_owned(),
                trade_date: date,
                close: if i == 1 { last_close.to_owned() } else { "100".to_owned() },
                source: "test".to_owned(),
                fetched_at: noon(date),
            }
        })
        .collect()
}

#[test]
fn decisions_look_back_only() {
    let trade = day(2026, 1, 6);
    let decision = match smart_decision("000300", 120, trade, &quotes(121, "103")) {
        Ok(decision) => decision,
        Err(message) => panic!("{}", message),
    };
    assert_eq!(decision.quote_date, day(2026, 1, 5));
    assert_eq!(decision.multiplier_bps, 9_000);
    let other_today = {
        let mut list = quotes(121, "103");
        list[0].close = "999".to_owned();
        list
    };
    match smart_decision("000300", 120, trade, &other_today) {
        Ok(again) => assert_eq!(again.multiplier_bps, decision.multiplier_bps),
        Err(message) => panic!("{}", message),
    }
    let few = match smart_decision("000300", 120, trade, &quotes(120, "103")) {
        Ok(_) => panic!("decided on too few quotes"),
        Err(message) => message,
    };
    assert_eq!(
        few,
        "沪深300的120日均线数据不足：需要 120 个交易日，当前只有 119 个"
    );
    assert!(smart_decision("x", 120, trade, &quotes(121, "1")).is_err());
    assert!(smart_decision("000300", 60, trade, &quotes(121, "1")).is_err());
}

#[test]
fn currencies_are_converted() {
    assert!(valid("CNY") && !valid("cny"));
    assert!(currencies().iter().any(|c| c.code == "USD"));
    assert_eq!(format_amount(-5, "USD"), "USD -0.05");
    assert_eq!(cache_id(day(2026, 1, 5), "USD", "CNY"), "2026-01-05:USD:CNY");
    assert_eq!(convert_cents(100, Dec { mantissa: 725, scale: 2 }).unwrap(), 725);
    assert_eq!(convert_cents(1, Dec { mantissa: 25, scale: 1 }).unwrap(), 2);
    assert!(convert_cents(i64::MAX, whole(2)).is_err());
    let mut table = RateTable::new("CNY");
    assert_eq!(table.convert(123, "CNY").unwrap(), 123);
    assert_eq!(table.convert(1, "USD").unwrap_err(), "缺少 USD/CNY 汇率");
    table.insert("USD", Dec { mantissa: 7, scale: 0 });
    assert_eq!(table.get("USD"), Some(whole(7)));
    assert_eq!(table.convert(100, "USD").unwrap(), 700);
    assert_eq!(unquote("\"7.1\""), "7.1");
    let chosen = preference::Model {
        id: 1,
        default_currency: "USD".to_owned(),
        owner_name: String::new(),
        sms_api_token_hash: String::new(),
    };
    assert_eq!(default_currency(&Some(chosen)), "USD");
    assert_eq!(default_currency(&None), "CNY");
}

#[test]
fn rates_come_from_the_cache_or_the_service() {
    let today = day(2026, 1, 5);
    let now = noon(today);
    assert!(matches!(begin_rate("CNY", "CNY", today), RateAction::Done(_)));
    match begin_rate("XXX", "CNY", today) {
        RateAction::Refused(message) => assert_eq!(message, "不支持的货币：XXX/CNY"),
        _ => panic!("not refused"),
    }
    let request = match begin_rate("USD", "CNY", today) {
        RateAction::ReadCache(request) => request,
        _ => panic!("no look into the cache"),
    };
    let request = match after_cache(request, &Vec::new(), today, now) {
        RateAction::LockAndReadCache(request) => request,
        _ => panic!("no second look"),
    };
    let (request, date) = match after_cache(request, &Vec::new(), today, now) {
        RateAction::Fetch(request, date) => (request, date),
        _ => panic!("no fetch"),
    };
    assert_eq!(date, today);
    let (request, date) = match after_fetch(request, FetchOutcome::Failed("HTTP 500".to_owned()), now) {
        RateAction::Fetch(request, date) => (request, date),
        _ => panic!("no second fetch"),
    };
    assert_eq!(date, day(2026, 1, 4));
    match after_fetch(request, FetchOutcome::Quoted(date, "\"7.25\"".to_owned()), now) {
        RateAction::Store(row, info) => {
            assert_eq!(row.id, "2026-01-05:USD:CNY");
            assert_eq!(row.rate, "7.25");
            assert_eq!(info.rate, Dec { mantissa: 725, scale: 2 });
        }
        _ => panic!("not stored"),
    }
    assert!(cache_is_fresh(today, today, now, today, now));
    let early = DateTime { date: day(2026, 1, 4), second: 0, nano: 0 };
    assert!(!cache_is_fresh(today, day(2026, 1, 2), early, today, now));
}

#[test]
fn the_multiplier_falls_over_all_scales() {
    let rising = [(-61, 1), (-6, 0), (-2001, 3), (-2, 0), (2, 0), (200, 2), (2001, 3), (3, 0), (61, 1)];
    let parts: Vec<i64> = rising
        .iter()
        .map(|&(mantissa, scale)| multiplier_for_deviation(Dec { mantissa, scale }))
        .collect();
    let wanted = vec![15_000, 14_000, 11_000, 10_000, 10_000, 10_000, 9_000, 9_000, 5_000];
    assert_eq!(parts, wanted);
}

#[test]
fn the_latest_kept_rate_is_the_last_resort() {
    let today = day(2026, 1, 5);
    let now = noon(today);
    let fetch = |mut action: RateAction| loop {
        action = match action {
            RateAction::ReadCache(r) | RateAction::LockAndReadCache(r) => {
                after_cache(r, &Vec::new(), today, now)
            }
            RateAction::Fetch(r, _) => after_fetch(r, FetchOutcome::Failed("断网".to_owned()), now),
            other => return other,
        };
    };
    let request = match fetch(begin_rate("USD", "CNY", today)) {
        RateAction::ReadLatest(request) => request,
        _ => panic!("gave up early"),
    };
    let row = |date: Date, base: &str, quote: &str, rate: &str| exchange_rate::Model {
        id: cache_id(date, base, quote),
        requested_date: date,
        rate_date: date,
        base_currency: base.to_owned(),
        quote_currency: quote.to_owned(),
        rate: rate.to_owned(),
        fetched_at: now,
    };
    let rows = vec![
        row(day(2025, 11, 1), "USD", "CNY", "7.0"),
        row(day(2025, 12, 1), "USD", "CNY", "7.1"),
        row(day(2026, 1, 6), "USD", "CNY", "7.2"),
        row(day(2026, 1, 4), "CNY", "USD", "0.14"),
        row(day(2026, 1, 4), "EUR", "CNY", "8"),
    ];
    assert_eq!(latest_rate(&rows, "USD", "CNY", today), Some(1));
    assert_eq!(latest_rate(&rows, "USD", "CNY", day(2025, 11, 30)), Some(0));
    assert_eq!(latest_rate(&rows, "USD", "CNY", day(2025, 10, 31)), None);
    assert_eq!(latest_rate(&rows, "CNY", "EUR", today), None);
    match after_latest(request, &rows) {
        RateAction::Done(info) => assert_eq!(info.rate, Dec { mantissa: 71, scale: 1 }),
        _ => panic!("not answered"),
    }
    let request = match fetch(begin_rate("USD", "CNY", today)) {
        RateAction::ReadLatest(request) => request,
        _ => panic!("gave up early"),
    };
    let others = vec![row(day(2026, 1, 6), "USD", "CNY", "7.2"), row(today, "CNY", "USD", "0.14")];
    match after_latest(request, &others) {
        RateAction::Refused(message) => {
            assert_eq!(message, "无法取得 2026-01-05 的 USD/CNY 汇率，且没有可用缓存：断网");
        }
        _ => panic!("not refused"),
    }
    let kept = |date: Date| after_cache(
        match begin_rate("USD", "CNY", date) {
            RateAction::ReadCache(request) => request,
            _ => panic!("no look into the cache"),
        },
        &rows,
        today,
        now,
    );
    match kept(day(2025, 12, 1)) {
        RateAction::Done(info) => assert_eq!(info.rate, Dec { mantissa: 71, scale: 1 }),
        _ => panic!("not answered"),
    }
    assert!(matches!(kept(today), RateAction::LockAndReadCache(_)));
}
