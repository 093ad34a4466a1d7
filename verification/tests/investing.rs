use haruka::book::Book;
use haruka::calendar::{from_ymd, Date, DateTime};
use haruka::crypto::{decrypt_cents, decrypt_string, encrypt_cents, encrypt_string};
use haruka::entity::{
    account, account_detail, bill, investment_execution, investment_sms_event, market_closed_day,
    market_index_quote, recurring_investment, transfer,
};
use haruka::error::{HandlerError, HandlerResult, Status};
use haruka::handlers::accounts::current_balance;
use haruka::handlers::investments::confirm::{confirm_sms_transfer, sms_source_account, SmsConfirmFormData};
use haruka::handlers::investments::due::{due_plans, has_history, history_range, run_due, Feed};
use haruka::handlers::investments::execution::{
    ensure_fee_category, execute_manual, execute_plan_day, Ledger, ManualExecuteFormData,
};
use haruka::handlers::investments::inbox::{
    bearer_token, process_pending_sms, queue_sms, receive_sms, sms_token_matches,
};
use haruka::handlers::investments::messages::{
    normalized_sms_name, own_repayment, process_one_sms, record_sms_event, sms_plan_matches,
};
use haruka::handlers::investments::page::{list, InvestmentRecords, InvestmentsQuery};
use haruka::handlers::investments::plans::{
    create, delete, edit_form, new_form, parse_form, toggle, update, InvestmentFormData,
};
use haruka::handlers::investments::preview::{preview_history, smart_preview, SmartPreviewQuery};
use haruka::handlers::investments::sms::{
    event_hash, match_template, parse_sms, read_sms, restore_sms, sms_date, PendingSms, SmsGroups,
    SmsKind, SmsWebhookData, Template,
};
use haruka::handlers::investments::trading::{
    calculate_fee, china_today, create_closed_day, delete_closed_day, format_fee_rate,
    is_trading_day, moving_average_options, next_trading_day, parse_amount, parse_fee_rate_bps,
    parse_nonnegative_amount, ClosedDayFormData,
};
use haruka::handlers::Page;

const DEK: [u8; 32] = [7u8; 32];
const SUCCESS: &str = "【招商银行】您尾号1234的账户于09月15日执行「沪深300 指数A」的定投计划，扣款100.50元，活期余额2345.67元。";
const FAILURE: &str = "【招商银行】您尾号1234的账户于09月15日存在1笔定投计划执行失败，原因：余额不足，涉及沪深300指数A。查看计划 x";
const SENT: &str = "【招商银行】您账户1234于09月15日10:00实时转至他行人民币30.00，余额70.00，收款人张三";
const PAID: &str = "【招商银行】您账户1234于09月15日10:00在财付通-信用卡还款-张三快捷支付20.00元，余额80.00";

fn day(year: i32, month: u32, day: u32) -> Date {
    from_ymd(year, month, day).unwrap()
}

fn now() -> DateTime {
    DateTime { date: day(2026, 9, 15), second: 7200, nano: 0 }
}

fn ok<T>(r: HandlerResult<T>) -> T {
    match r {
        Ok(value) => value,
        Err(error) => panic!("{}", error.message),
    }
}

fn refused<T>(r: HandlerResult<T>) -> HandlerError {
    match r {
        Ok(_) => panic!("accepted"),
        Err(error) => error,
    }
}

fn said<T>(r: HandlerResult<T>) -> String {
    refused(r).message
}

fn text(s: &str) -> String {
    encrypt_string(&DEK, s)
}

fn money(cents: i64) -> String {
    encrypt_cents(&DEK, cents)
}

fn account_row(id: i64, kind: &str, offset: i64) -> account::Model {
    account::Model {
        id,
        name: text(&format!("账户{id}")),
        kind: kind.to_owned(),
        currency: "CNY".to_owned(),
        balance_offset: money(offset),
        note: text(""),
        created_at: now(),
    }
}

fn detail_row(id: i64, card: &str, limit: i64) -> account_detail::Model {
    account_detail::Model {
        account_id: id,
        card_number: text(card),
        account_username: text(""),
        credit_limit: money(limit),
        billing_day: 1,
    }
}

/// A bank account with 1000.00, a fund, and a credit card that is 50.00 in debt.
fn ledger() -> Ledger {
    Ledger {
        book: Book {
            accounts: vec![
                account_row(1, "bank", 100_000),
                account_row(2, "investment", 0),
                account_row(3, "credit_card", -5_000),
            ],
            details: vec![detail_row(1, "6222 1234", 0), detail_row(3, "4000", 50_000)],
            bills: Vec::new(),
            transfers: Vec::new(),
            people: Vec::new(),
            debts: Vec::new(),
            adjustments: Vec::new(),
        },
        categories: Vec::new(),
        closed: closed(),
        executions: Vec::new(),
        events: Vec::new(),
    }
}

fn closed() -> Vec<market_closed_day::Model> {
    vec![market_closed_day::Model {
        date: day(2026, 9, 14),
        name: "测试".to_owned(),
        source: "builtin".to_owned(),
        created_at: now(),
    }]
}

fn plan(id: i64, strategy: &str) -> recurring_investment::Model {
    recurring_investment::Model {
        id,
        name: text("计划"),
        from_account_id: 1,
        fund_account_id: 2,
        amount: money(10_000),
        fee_rate_bps: money(15),
        strategy: strategy.to_owned(),
        index_code: if strategy == "smart" { "000300".to_owned() } else { String::new() },
        moving_average_days: if strategy == "smart" { 120 } else { 180 },
        sms_fund_name: text("沪深300指数"),
        start_date: day(2026, 9, 1),
        next_trade_date: day(2026, 9, 11),
        active: true,
        note: text(""),
        created_at: now(),
    }
}

fn quotes() -> Vec<market_index_quote::Model> {
    let end = day(2026, 9, 14);
    (0..130)
        .map(|i| {
            let date = Date { days: end.days - i };
            market_index_quote::Model {
                id: format!("{i}"),
                index_code: "000300".to_owned(),
                trade_date: date,
                close: "100".to_owned(),
                source: "test".to_owned(),
                fetched_at: now(),
            }
        })
        .collect()
}

#[test]
fn trading_days_leave_out_weekends_and_closed_days() {
    let closed = closed();
    assert!(is_trading_day(&closed, day(2026, 9, 11)));
    assert!(!is_trading_day(&closed, day(2026, 9, 12)));
    assert!(!is_trading_day(&closed, day(2026, 9, 14)));
    assert_eq!(ok(next_trading_day(&closed, day(2026, 9, 12))), day(2026, 9, 15));
    assert_eq!(ok(next_trading_day(&closed, day(2026, 9, 15))), day(2026, 9, 15));
    let always: Vec<market_closed_day::Model> = (0..600)
        .map(|i| market_closed_day::Model {
            date: Date { days: day(2026, 1, 1).days + i },
            name: String::new(),
            source: String::new(),
            created_at: now(),
        })
        .collect();
    assert_eq!(
        said(next_trading_day(&always, day(2026, 1, 1))),
        "未来一年内没有可用的中国大陆交易日"
    );
    let late = DateTime { date: day(2026, 9, 15), second: 16 * 3600, nano: 0 };
    assert_eq!(china_today(late), day(2026, 9, 16));
    assert_eq!(china_today(now()), day(2026, 9, 15));
}

#[test]
fn closed_days_are_entered_and_removed() {
    let closed = closed();
    let form = |date: &str, name: &str| ClosedDayFormData {
        date: date.to_owned(),
        name: name.to_owned(),
    };
    let row = ok(create_closed_day(&closed, &form("2027-01-01", " 元旦 "), now()));
    assert_eq!((row.name.as_str(), row.source.as_str()), ("元旦", "user"));
    assert_eq!(said(create_closed_day(&closed, &form("2026-09-14", "x"), now())), "该日期已经登记为休市日");
    assert_eq!(said(create_closed_day(&closed, &form("x", "x"), now())), "休市日期格式不正确");
    assert_eq!(said(create_closed_day(&closed, &form("2027-01-01", " "), now())), "休市原因不能为空");
    let own = vec![row];
    assert_eq!(ok(delete_closed_day(&own, "2027-01-01")), day(2027, 1, 1));
    assert_eq!(said(delete_closed_day(&closed, "2026-09-14")), "内置的官方休市日不能删除");
    assert_eq!(refused(delete_closed_day(&closed, "2026-09-15")).status, Status::NotFound);
}

#[test]
fn fees_are_rounded_to_the_nearest_cent() {
    assert_eq!(ok(calculate_fee(10_000, 15)), 15);
    assert_eq!(ok(calculate_fee(333, 15)), 0);
    assert_eq!(ok(calculate_fee(334, 15)), 1);
    assert_eq!(said(calculate_fee(i64::MAX, i64::MAX)), "手续费计算超出范围");
    assert_eq!(ok(parse_fee_rate_bps("0.15")), 15);
    assert_eq!(ok(parse_fee_rate_bps(" ")), 0);
    assert_eq!(said(parse_fee_rate_bps("100.01")), "手续费率必须位于 0% 到 100% 之间");
    assert_eq!(said(parse_fee_rate_bps("x")), "手续费率格式不正确");
    assert_eq!(format_fee_rate(15), "0.15%");
    assert_eq!(ok(parse_amount("1.005")), 100);
    assert_eq!(said(parse_amount("0")), "定投金额必须大于 0");
    assert_eq!(ok(parse_nonnegative_amount("0", "余额")), 0);
    assert_eq!(said(parse_nonnegative_amount("-1", "余额")), "余额不能小于 0");
    assert!(moving_average_options(250)[2].selected);
}

fn form(strategy: &str) -> InvestmentFormData {
    InvestmentFormData {
        name: " 计划 ".to_owned(),
        amount: "100".to_owned(),
        fee_rate: "0.15".to_owned(),
        strategy: strategy.to_owned(),
        index_code: "000300".to_owned(),
        sms_fund_name: "沪深300".to_owned(),
        moving_average_days: "180".to_owned(),
        from_account_id: 1,
        fund_account_id: 2,
        start_date: "2026-09-19".to_owned(),
        note: String::new(),
        active: Some("on".to_owned()),
    }
}

#[test]
fn plans_are_read_and_kept() {
    let book = ledger().book;
    let row = ok(create(&DEK, &book, &closed(), &form("fixed"), day(2026, 9, 15), now()));
    assert_eq!(decrypt_string(&DEK, &row.name), "计划");
    assert_eq!((row.next_trade_date, row.moving_average_days), (day(2026, 9, 21), 180));
    assert_eq!(row.index_code, "");
    let fails = |f: InvestmentFormData| said(parse_form(&DEK, &book, &f));
    assert_eq!(fails(InvestmentFormData { name: " ".to_owned(), ..form("fixed") }), "定投计划名不能为空");
    assert_eq!(fails(InvestmentFormData { fund_account_id: 1, ..form("fixed") }), "扣款账户和基金账户不能相同");
    assert_eq!(fails(InvestmentFormData { from_account_id: 9, ..form("fixed") }), "扣款账户不存在");
    assert_eq!(
        fails(InvestmentFormData { from_account_id: 3, ..form("fixed") }),
        "信用卡和信贷服务不能作为定投扣款账户"
    );
    assert_eq!(fails(InvestmentFormData { fund_account_id: 3, ..form("fixed") }), "定投的固定基金账户必须是投资账户");
    assert_eq!(fails(form("x")), "请选择支持的扣款策略");
    assert_eq!(fails(InvestmentFormData { index_code: "x".to_owned(), ..form("smart") }), "请选择支持的跟踪指数");
    assert_eq!(
        fails(InvestmentFormData { moving_average_days: "x".to_owned(), ..form("smart") }),
        "均线周期格式不正确"
    );
    assert_eq!(
        fails(InvestmentFormData { moving_average_days: "60".to_owned(), ..form("smart") }),
        "请选择支持的均线周期"
    );
    assert_eq!(
        fails(InvestmentFormData { sms_fund_name: " ".to_owned(), ..form("sms") }),
        "短信实扣模式必须填写短信中的基金名称"
    );
    assert_eq!(fails(InvestmentFormData { start_date: "x".to_owned(), ..form("sms") }), "开始日期格式不正确");
    assert_eq!(ok(parse_form(&DEK, &book, &form("sms"))).amount, 0);
    let manual = InvestmentFormData { amount: String::new(), ..form("manual") };
    assert_eq!(ok(parse_form(&DEK, &book, &manual)).amount, 0);
    assert_eq!(
        said(create(&DEK, &book, &closed(), &form("fixed"), day(2026, 9, 20), now())),
        "新定投计划不能从过去日期开始"
    );
    let plans = vec![plan(1, "fixed")];
    let changed = ok(update(&DEK, &book, &closed(), &plans, 1, &form("fixed"), day(2026, 9, 15)));
    assert_eq!((changed.id, changed.next_trade_date), (1, day(2026, 9, 21)));
    assert_eq!(ok(toggle(&closed(), &plans, 1, day(2026, 9, 15))), (false, day(2026, 9, 11)));
    let paused = vec![recurring_investment::Model { active: false, ..plan(1, "fixed") }];
    assert_eq!(ok(toggle(&closed(), &paused, 1, day(2026, 9, 12))), (true, day(2026, 9, 15)));
    assert_eq!(refused(toggle(&closed(), &plans, 2, day(2026, 9, 12))).status, Status::NotFound);
    assert!(delete(&plans, 1).is_ok() && delete(&plans, 2).is_err());
    let page = ok(edit_form(&DEK, &book.accounts, &plans, 1));
    assert_eq!((page.amount.as_str(), page.fee_rate.as_str()), ("100.00", "0.15"));
    assert_eq!(page.source_accounts.len(), 2);
    assert_eq!(page.fund_accounts.len(), 1);
    assert_eq!(new_form(&DEK, &book.accounts, day(2026, 9, 15)).start_date, "2026-09-15");
}

#[test]
fn a_plan_is_carried_out_once_a_day() {
    let mut ledger = ledger();
    let date = day(2026, 9, 11);
    let plan = plan(5, "fixed");
    let run = ok(execute_plan_day(&DEK, &mut ledger, &plan, &Vec::new(), date, None, None, now()));
    assert_eq!(run.next_date, day(2026, 9, 15));
    assert!(run.entry.is_some());
    assert_eq!(ok(current_balance(&DEK, &ledger.book, 1)), 100_000 - 10_000 - 15);
    assert_eq!(ok(current_balance(&DEK, &ledger.book, 2)), 10_000);
    assert_eq!(decrypt_string(&DEK, &ledger.book.transfers[0].note), "每日定投 · 计划");
    assert_eq!(decrypt_string(&DEK, &ledger.book.bills[0].note), "每日定投手续费 · 计划");
    assert_eq!(ledger.book.bills[0].happened_at.second, 7 * 3600);
    assert_eq!(ledger.categories.len(), 1);
    let again = ok(execute_plan_day(&DEK, &mut ledger, &plan, &Vec::new(), date, None, None, now()));
    assert_eq!((again.next_date, again.entry), (run.next_date, None));
    assert_eq!((ledger.book.transfers.len(), ledger.executions.len()), (1, 1));
    assert_eq!(
        said(execute_plan_day(&DEK, &mut ledger, &plan, &Vec::new(), day(2026, 9, 12), None, None, now())),
        "2026-09-12 不是中国大陆交易日"
    );
    let rich = recurring_investment::Model { amount: money(100_000), ..self::plan(6, "fixed") };
    assert_eq!(
        said(execute_plan_day(&DEK, &mut ledger, &rich, &Vec::new(), date, None, None, now())),
        "该账户不允许透支"
    );
    let manual = self::plan(7, "manual");
    assert_eq!(
        said(execute_plan_day(&DEK, &mut ledger, &manual, &Vec::new(), date, None, None, now())),
        "手动金额计划需要填写本期定投金额"
    );
    let mut categories = Vec::new();
    ensure_fee_category(&DEK, &mut categories, now());
    ensure_fee_category(&DEK, &mut categories, now());
    assert_eq!(categories.len(), 1);
}

#[test]
fn a_smart_plan_keeps_what_it_was_decided_on() {
    let mut ledger = ledger();
    let mut list = quotes();
    let last = list.iter().position(|q| q.trade_date == day(2026, 9, 10)).unwrap();
    list[last].close = "96".to_owned();
    let smart = plan(5, "smart");
    let date = day(2026, 9, 11);
    let run = ok(execute_plan_day(&DEK, &mut ledger, &smart, &list, date, None, None, now()));
    assert!(run.entry.is_some());
    let e = &ledger.executions[0];
    assert_eq!(e.index_close, "96");
    assert_eq!(e.quote_date, Some(day(2026, 9, 10)));
    assert_eq!(decrypt_cents(&DEK, &e.multiplier_bps), 12_000);
    assert_eq!(decrypt_cents(&DEK, &ledger.book.transfers[0].amount), 12_000);
    assert_eq!(
        decrypt_string(&DEK, &ledger.book.transfers[0].note),
        "聪明定投 · 计划 · 沪深300 120 · 120%"
    );
    let mut poor = self::ledger();
    assert!(said(execute_plan_day(&DEK, &mut poor, &smart, &Vec::new(), date, None, None, now()))
        .contains("均线数据不足"));
    assert!(poor.book.transfers.is_empty());
}

#[test]
fn amounts_given_by_hand_need_the_right_day() {
    let mut ledger = ledger();
    let plans = vec![plan(1, "manual"), plan(2, "fixed")];
    let mut run = |id: i64, date: &str, amount: &str, today: Date| {
        execute_manual(
            &DEK,
            &mut ledger,
            &plans,
            &Vec::new(),
            id,
            &ManualExecuteFormData { trade_date: date.to_owned(), amount: amount.to_owned() },
            today,
            now(),
        )
    };
    let today = day(2026, 9, 15);
    assert_eq!(said(run(1, "x", "1", today)), "待执行交易日格式不正确");
    assert_eq!(said(run(2, "2026-09-11", "1", today)), "这个计划不是每日手动金额策略");
    assert_eq!(said(run(1, "2026-09-15", "1", today)), "待执行日期已经变化，请刷新页面后重新填写");
    assert_eq!(said(run(1, "2026-09-11", "1", day(2026, 9, 10))), "尚未到这个交易日，不能提前执行");
    assert_eq!(said(run(3, "2026-09-11", "1", today)), "定投计划不存在");
    assert_eq!(ok(run(1, "2026-09-11", "50", today)).next_date, day(2026, 9, 15));
    assert_eq!(decrypt_cents(&DEK, &ledger.book.transfers[0].amount), 5_000);
}

#[test]
fn missed_days_are_made_up_for() {
    let mut ledger = ledger();
    let plans = vec![plan(1, "fixed"), plan(2, "manual"), plan(3, "smart")];
    let today = day(2026, 9, 15);
    assert_eq!(due_plans(&plans, today), vec![0, 2]);
    let feeds = vec![
        Feed { error: None, quotes: Vec::new() },
        Feed { error: Some("断网".to_owned()), quotes: Vec::new() },
    ];
    let (reports, response) = run_due(&DEK, &mut ledger, &plans, &feeds, today, now());
    let response = ok(response);
    assert_eq!(response.executed, 2);
    assert!(!response.ok);
    assert_eq!(response.message, "已完成 2 笔定投，1 个计划未完成");
    assert!(response.failures[0].starts_with("计划：行情更新失败且缓存不可用：断网；"));
    let days: Vec<Date> = reports[0].days.iter().map(|d| d.trade_date).collect();
    assert_eq!(days, vec![day(2026, 9, 11), day(2026, 9, 15)]);
    assert_eq!(reports[0].next_date, Some(day(2026, 9, 16)));
    assert_eq!(reports[1].next_date, None);
    let feeds = vec![
        Feed { error: None, quotes: Vec::new() },
        Feed { error: Some("断网".to_owned()), quotes: quotes() },
    ];
    let (_, response) = run_due(&DEK, &mut ledger, &plans, &feeds, today, now());
    let response = ok(response);
    assert_eq!(response.warnings.len(), 1);
    assert_eq!(response.executed, 4);
    assert_eq!(ledger.executions.len(), 4);
    let poor = vec![recurring_investment::Model { amount: money(90_000), ..plan(8, "fixed") }];
    let feed = vec![Feed { error: None, quotes: Vec::new() }];
    let (reports, _) = run_due(&DEK, &mut ledger, &poor, &feed, today, now());
    assert_eq!(
        reports[0].failure.as_deref(),
        Some("计划（2026-09-11）：该账户不允许透支")
    );
    assert_eq!(reports[0].next_date, Some(day(2026, 9, 11)));
    let (start, end) = ok(history_range(&plans[2], today));
    assert_eq!((start.days, end), (day(2026, 9, 11).days - 300, day(2026, 9, 14)));
    let odd = recurring_investment::Model { moving_average_days: -5, ..plan(3, "smart") };
    assert!(has_history(&odd));
    assert_eq!(ok(history_range(&odd, today)).0.days, day(2026, 9, 11).days - 62);
    let far = recurring_investment::Model { moving_average_days: i32::MAX, ..plan(3, "smart") };
    assert!(!has_history(&far));
    let (none, response) = run_due(&DEK, &mut ledger, &Vec::new(), &Vec::new(), today, now());
    assert!(none.is_empty());
    assert_eq!(ok(response).message, "当前没有待执行的定投");
}

#[test]
fn a_second_run_finds_nothing() {
    let mut ledger = ledger();
    let mut plans = vec![plan(1, "fixed"), plan(2, "manual")];
    let today = day(2026, 9, 15);
    let feeds = vec![Feed { error: None, quotes: Vec::new() }];
    let (reports, response) = run_due(&DEK, &mut ledger, &plans, &feeds, today, now());
    let response = ok(response);
    assert_eq!((response.ok, response.executed), (true, 2));
    for report in &reports {
        for plan in plans.iter_mut().filter(|plan| plan.id == report.plan_id) {
            plan.next_trade_date = report.next_date.unwrap();
        }
    }
    let (none, response) = run_due(&DEK, &mut ledger, &plans, &Vec::new(), today, now());
    let response = ok(response);
    assert!(none.is_empty());
    assert_eq!((response.ok, response.executed), (true, 0));
    assert_eq!(ledger.executions.len(), 2);
}

fn data(raw: &str) -> SmsWebhookData {
    SmsWebhookData { time: " 2026-09-15T10:00:00+08:00 ".to_owned(), raw: raw.to_owned() }
}

fn sms(raw: &str) -> PendingSms {
    ok(parse_sms(&data(raw)))
}

#[test]
fn messages_of_each_kind_are_read() {
    let success = sms(SUCCESS);
    assert_eq!(success.occurred_at, now());
    assert_eq!(success.sms_date, day(2026, 9, 15));
    assert_eq!((success.card_last4.as_str(), success.fund_name.as_str()), ("1234", "沪深300 指数A"));
    match success.kind {
        SmsKind::Success { amount, balance } => assert_eq!((amount, balance), (10_050, Some(234_567))),
        _ => panic!("wrong kind"),
    }
    match sms(FAILURE).kind {
        SmsKind::Failure { reason } => assert_eq!(reason, "余额不足，涉及沪深300指数A"),
        _ => panic!("wrong kind"),
    }
    match sms(SENT).kind {
        SmsKind::BankTransfer { recipient, amount, balance } => {
            assert_eq!((recipient.as_str(), amount, balance), ("张三", 3_000, 7_000));
        }
        _ => panic!("wrong kind"),
    }
    match sms(PAID).kind {
        SmsKind::QuickPayment { description, amount, balance } => {
            assert_eq!((description.as_str(), amount, balance), ("财付通-信用卡还款-张三", 2_000, 8_000));
        }
        _ => panic!("wrong kind"),
    }
    assert_eq!(success.event_hash, event_hash("2026-09-15T10:00:00+08:00", SUCCESS));
    assert_eq!(success.event_hash.len(), 64);
    assert_eq!(said(parse_sms(&data("hello"))), "无法匹配已支持的招商银行短信模板");
    assert_eq!(said(parse_sms(&data(&"x".repeat(4097)))), "raw 短信内容不能超过 4096 字节");
    let wrong_time = SmsWebhookData { time: "2026-09-15 10:00".to_owned(), raw: SUCCESS.to_owned() };
    assert_eq!(said(parse_sms(&wrong_time)), "time 必须是带时区的 ISO8601 日期时间");
    let other_day = SmsWebhookData { time: "2026-09-15T20:00:00Z".to_owned(), raw: SUCCESS.to_owned() };
    assert_eq!(
        said(parse_sms(&other_day)),
        "短信日期 09月15日 与 time 对应的北京时间 09月16日 不一致"
    );
    let other_minute = SmsWebhookData { time: "2026-09-15T10:01:00+08:00".to_owned(), raw: SENT.to_owned() };
    assert_eq!(said(parse_sms(&other_minute)), "短信时分与 time 对应的北京时间不一致");
    let restored = ok(restore_sms("h", success.occurred_at, &success.raw));
    assert_eq!((restored.fund_name, restored.event_hash.as_str()), (success.fund_name, "h"));
    assert_eq!(ok(sms_date("09月15日", day(2026, 9, 15))), day(2026, 9, 15));
    assert!(match_template(Template::BankTransfer, SUCCESS).is_none());
}

#[test]
fn messages_need_their_parts() {
    let some = |s: &str| Some(s.to_owned());
    let mut groups = SmsGroups {
        last4: some("1234"),
        month: some("09"),
        day: some("15"),
        hour: some("x"),
        minute: some("00"),
        fund: None,
        reason: None,
        amount: some("1"),
        balance: some("2"),
        recipient: some("张三"),
        description: None,
    };
    let read = |groups: &SmsGroups, template: Template| {
        read_sms(template, groups, "h", now(), "raw", day(2026, 9, 15), 36000)
    };
    assert_eq!(said(read(&groups, Template::BankTransfer)), "短信小时格式不正确");
    groups.hour = some("10");
    assert_eq!(ok(read(&groups, Template::BankTransfer)).card_last4, "1234");
    assert_eq!(said(read(&groups, Template::InvestmentSuccess)), "短信缺少 fund 字段");
    assert_eq!(said(read(&groups, Template::QuickPayment)), "短信缺少 description 字段");
    groups.month = None;
    assert_eq!(said(read(&groups, Template::BankTransfer)), "短信缺少 month 字段");
}

#[test]
fn messages_lead_to_investments_once() {
    let mut ledger = ledger();
    let plans = vec![plan(5, "sms")];
    let message = sms(SUCCESS);
    assert_eq!(normalized_sms_name(" 沪深300 指数A"), "沪深300指数a");
    assert!(sms_plan_matches(&DEK, &ledger.book.details, &plans[0], &message));
    let run = process_one_sms(&DEK, &mut ledger, "张三", &plans, &message, now());
    let outcome = ok(run.outcome);
    assert!(outcome.ok);
    assert_eq!(outcome.status, "executed");
    assert_eq!(outcome.message, "计划 已按短信实扣 100.50 元记账；短信报告活期余额 2345.67");
    assert_eq!(run.day.unwrap().run.next_date, day(2026, 9, 16));
    assert_eq!(ok(current_balance(&DEK, &ledger.book, 1)), 100_000 - 10_050);
    assert_eq!(ledger.book.transfers[0].happened_at, now());
    let again = process_one_sms(&DEK, &mut ledger, "张三", &plans, &message, now());
    assert_eq!(ok(again.outcome).status, "duplicate");
    assert_eq!((ledger.book.transfers.len(), ledger.events.len()), (1, 1));
    let failed = process_one_sms(&DEK, &mut ledger, "张三", &plans, &sms(FAILURE), now());
    assert_eq!(ok(failed.outcome).status, "failed");
    let both = vec![plan(5, "sms"), plan(6, "sms")];
    let mut other = self::ledger();
    let many = ok(process_one_sms(&DEK, &mut other, "张三", &both, &message, now()).outcome);
    assert_eq!((many.ok, many.status.as_str()), (false, "error"));
    let none = ok(process_one_sms(&DEK, &mut other, "张三", &Vec::new(), &message, now()).outcome);
    assert_eq!(none.status, "unmatched");
    assert_eq!(other.events.len(), 1);
}

#[test]
fn repayments_name_the_owner() {
    let mut ledger = ledger();
    let raw = "【招商银行】您账户1234于09月15日10:00在财付通-信用卡还款-张三A快捷支付20.00元，余额80.00";
    let run = process_one_sms(&DEK, &mut ledger, "张三", &Vec::new(), &sms(raw), now());
    let outcome = ok(run.outcome);
    assert_eq!((outcome.ok, outcome.status.as_str()), (true, "pending"));
    assert!(ledger.book.transfers.is_empty() && ledger.book.bills.is_empty());
    assert_eq!(ledger.events.len(), 1);
}

#[test]
fn transfers_wait_to_be_confirmed() {
    let mut ledger = ledger();
    let settle = |ledger: &mut Ledger, owner: &str, raw: &str| {
        ok(process_one_sms(&DEK, ledger, owner, &Vec::new(), &sms(raw), now()).outcome)
    };
    assert_eq!(settle(&mut ledger, " ", SENT).status, "unmatched");
    assert_eq!(settle(&mut ledger, "李四", SENT).status, "unmatched");
    assert_eq!(settle(&mut ledger, "李四", PAID).status, "unmatched");
    let pending = settle(&mut ledger, "张三", SENT);
    assert!(pending.ok);
    assert_eq!(
        pending.message,
        "已识别本人账户转账候选：转给 张三，金额 30.00 元，短信余额 70.00；请选择转入账户后确认"
    );
    assert_eq!(settle(&mut ledger, "张三", PAID).status, "pending");
    assert!(ledger.book.transfers.is_empty() && ledger.executions.is_empty());
    assert!(own_repayment("x信用卡还款-张三", " 张三 ") && !own_repayment("张三", "张三"));
    assert!(own_repayment("信用卡还款-张三A", "张三") && !own_repayment("信用卡还款-张", "张三"));
    assert!(!own_repayment("信用卡还款-", " ") && !own_repayment("信用卡还款- 张三", "张三"));
    let mut id = 0;
    for event in ledger.events.iter_mut() {
        id += 1;
        event.id = id;
    }
    let confirm = |id: i64, to: i64, owner: &str| {
        confirm_sms_transfer(
            &DEK,
            &ledger.book,
            &ledger.events,
            id,
            &SmsConfirmFormData { to_account_id: to },
            owner,
            now(),
        )
    };
    assert_eq!(said(confirm(9, 2, "张三")), "短信记录不存在");
    assert_eq!(said(confirm(1, 9, "张三")), "选择的转入账户不存在");
    assert_eq!(said(confirm(1, 1, "张三")), "转出账户和转入账户不能相同");
    assert_eq!(said(confirm(1, 2, "李四")), "短信收款人与当前配置的本人姓名不一致");
    assert_eq!(said(confirm(2, 2, "张三")), "信用卡还款只能确认到信用卡或信贷服务账户");
    let done = ok(confirm(2, 3, "张三"));
    assert_eq!(decrypt_cents(&DEK, &done.transfer.amount), 2_000);
    assert_eq!(done.status, "confirmed");
    assert_eq!(decrypt_string(&DEK, &done.detail), "已确认从 账户1 转入 账户3，金额 20.00 元");
    let mut events = Vec::new();
    for e in &ledger.events {
        events.push(investment_sms_event::Model {
            status: "confirmed".to_owned(),
            event_hash: e.event_hash.clone(),
            kind: e.kind.clone(),
            raw: e.raw.clone(),
            detail: e.detail.clone(),
            ..*e
        });
    }
    assert_eq!(
        said(confirm_sms_transfer(
            &DEK,
            &ledger.book,
            &events,
            2,
            &SmsConfirmFormData { to_account_id: 3 },
            "张三",
            now()
        )),
        "这条短信当前不需要确认，或已经处理过"
    );
    assert_eq!(said(sms_source_account(&DEK, &ledger.book, "9999")), "没有找到尾号 9999 的账户");
}

#[test]
fn messages_wait_while_the_ledger_is_locked() {
    let mut ledger = ledger();
    let mut queue: Vec<PendingSms> = Vec::new();
    let plans = vec![plan(5, "sms")];
    let denied = receive_sms(false, &data(SUCCESS), None, &mut ledger, &mut queue, "", &plans, now());
    assert_eq!(refused(denied.response).status, Status::Unauthorized);
    for _ in 0..2 {
        let waiting = receive_sms(true, &data(SUCCESS), None, &mut ledger, &mut queue, "", &plans, now());
        assert!(waiting.waits);
        assert_eq!(ok(waiting.response).pending, 1);
    }
    let (runs, response) = process_pending_sms(&DEK, &mut ledger, &mut queue, "张三", &plans, now());
    assert_eq!((runs.len(), response.processed, queue.len()), (1, 1, 0));
    assert_eq!(response.message, "已处理 1 条定投短信");
    assert_eq!(ledger.executions.len(), 1);
    let (_, empty) = process_pending_sms(&DEK, &mut ledger, &mut queue, "张三", &plans, now());
    assert_eq!(empty.message, "没有待处理的短信");
    let open = receive_sms(true, &data(SENT), Some(&DEK), &mut ledger, &mut queue, "张三", &plans, now());
    assert_eq!(ok(open.response).status, "pending");
    for i in 0..100 {
        let mut message = sms(SUCCESS);
        message.event_hash = format!("{i}");
        ok(queue_sms(&mut queue, message));
    }
    assert_eq!(refused(queue_sms(&mut queue, sms(SUCCESS))).status, Status::TooManyRequests);
    assert_eq!(queue.len(), 100);
}

#[test]
fn unmatched_messages_are_tried_again() {
    let mut ledger = ledger();
    let first = process_one_sms(&DEK, &mut ledger, "", &Vec::new(), &sms(SUCCESS), now());
    assert_eq!(ok(first.outcome).status, "unmatched");
    let mut queue = Vec::new();
    let plans = vec![plan(5, "sms")];
    let (runs, response) = process_pending_sms(&DEK, &mut ledger, &mut queue, "", &plans, now());
    assert_eq!(runs.len(), 1);
    assert!(response.ok);
    assert_eq!(ledger.events.len(), 1);
    assert_eq!(ledger.events[0].status, "executed");
    ok(record_sms_event(&DEK, &mut ledger.events, &sms(SENT), None, "pending", "x", now()));
    assert_eq!(ledger.events.len(), 2);
}

#[test]
fn callers_send_their_token() {
    assert_eq!(bearer_token(Some(Some("Bearer a")), Some(Some("Bearer b"))), "a");
    assert_eq!(bearer_token(None, Some(Some("Bearer b"))), "b");
    assert_eq!(bearer_token(Some(None), Some(Some("Bearer b"))), "");
    assert_eq!(bearer_token(Some(Some("Basic a")), None), "");
    let hash = "ba7816bf8f01cfea414140de5dae2223b00361a396177a9cb410ff61f20015ad";
    assert!(sms_token_matches(hash, Some("x"), None, "abc"));
    assert!(!sms_token_matches(hash, Some("x"), None, "x"));
    assert!(sms_token_matches("", Some("x"), Some("y"), "x"));
    assert!(sms_token_matches("", None, Some("y"), "y"));
    assert!(!sms_token_matches("", None, None, ""));
}

#[test]
fn the_page_of_investments_lists_everything() {
    let mut ledger = ledger();
    let fixed = plan(1, "fixed");
    ok(execute_plan_day(&DEK, &mut ledger, &fixed, &Vec::new(), day(2026, 9, 11), None, None, now()));
    let records = InvestmentRecords {
        accounts: vec![account_row(1, "bank", 0), account_row(2, "investment", 0)],
        transfers: vec![transfer::Model { id: 10, ..ledger.book.transfers.remove(0) }],
        bills: vec![bill::Model { id: 11, ..ledger.book.bills.remove(0) }],
        plans: vec![plan(1, "fixed"), plan(2, "manual"), plan(3, "sms"), plan(4, "smart")],
        events: vec![investment_sms_event::Model {
            id: 1,
            event_hash: "h".to_owned(),
            occurred_at: now(),
            kind: "bank_transfer".to_owned(),
            status: "pending".to_owned(),
            plan_id: None,
            transfer_id: None,
            raw: text("raw"),
            detail: text("detail"),
            created_at: now(),
        }],
        executions: vec![
            investment_execution::Model {
                transfer_id: Some(10),
                fee_bill_id: Some(11),
                ..ledger.executions.remove(0)
            },
        ],
        closed: closed(),
    };
    let page = |status: &str, keyword: &str| {
        ok(list(
            &DEK,
            &records,
            &InvestmentsQuery {
                page: 1,
                per_page: 10,
                keyword: keyword.to_owned(),
                status: status.to_owned(),
            },
            3,
            day(2027, 1, 2),
            Page { start: 0, per_page: 10 },
        ))
    };
    let all = page("x", "");
    assert_eq!(all.list.total_records, 4);
    assert_eq!((all.list.active_count, all.list.due_count, all.list.automatic_due_count), (4, 3, 2));
    assert_eq!(all.list.manual_due[0].default_amount, "100.00");
    assert_eq!(all.list.plans[2].next_trade_date, "等待短信");
    assert_eq!(all.list.plans[3].strategy_label, "聪明定投 · 沪深300 · 120日均线");
    assert_eq!(all.executions[0].fee, "CNY 0.15");
    assert_eq!(all.executions[0].strategy, "固定金额");
    assert_eq!(all.sms_events[0].plan_name, "本人账户转账");
    assert_eq!(all.pending_sms_count, 3);
    assert!(all.calendar_warning && all.custom_closed_days.is_empty());
    assert_eq!(page("due", "").list.total_records, 3);
    assert_eq!(page("", "聪明").list.total_records, 1);
    assert_eq!(page("paused", "").list.total_records, 0);
}

#[test]
fn decisions_are_shown_beforehand() {
    let query = |code: &str, days: i32, date: &str| SmartPreviewQuery {
        index_code: code.to_owned(),
        moving_average_days: days,
        trade_date: date.to_owned(),
    };
    let today = day(2026, 9, 15);
    let shown = ok(smart_preview(&query(" 000300 ", 120, ""), &quotes(), &None, today));
    assert_eq!(shown.quote_date, "2026-09-14");
    assert_eq!((shown.close.as_str(), shown.multiplier.as_str()), ("100", "100%"));
    assert_eq!(shown.warning, "");
    let stale = Some("断网".to_owned());
    let cached = ok(smart_preview(&query("000300", 120, "2026-09-15"), &quotes(), &stale, today));
    assert_eq!(cached.warning, "行情更新失败，当前使用本地缓存：断网");
    assert!(said(smart_preview(&query("000300", 120, ""), &Vec::new(), &stale, today)).starts_with("断网；"));
    assert_eq!(said(smart_preview(&query("x", 120, ""), &quotes(), &None, today)), "请选择支持的跟踪指数");
    assert_eq!(said(smart_preview(&query("000300", 1, ""), &quotes(), &None, today)), "请选择支持的均线周期");
    assert_eq!(
        said(smart_preview(&query("000300", 120, "x"), &quotes(), &None, today)),
        "计划执行日期格式不正确"
    );
    let (start, end) = ok(preview_history(&query("000300", 120, ""), today));
    assert_eq!((start.days, end), (today.days - 300, day(2026, 9, 14)));
}
