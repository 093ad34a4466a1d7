use haruka::book::Book;
use haruka::calendar::{from_ymd, Date, DateTime};
use haruka::crypto::{decrypt_cents, decrypt_string, encrypt_cents, encrypt_string};
use haruka::currency::RateTable;
use haruka::decimal::{whole, Dec};
use haruka::entity::{
    account, account_detail, bill, budget, category, debt_person, debt_record, installment_item,
    subscription, transfer,
};
use haruka::error::{HandlerError, HandlerResult, Status};
use haruka::handlers::accounts::{self, AccountBalanceFormData, AccountFormData};
use haruka::handlers::auth::{
    ensure_default_account, setup, setup_form, unlock, unlock_form, SetupFormData, SetupOutcome,
    UnlockFormData,
};
use haruka::handlers::bills::{self, BillFormData, BillsQuery, DeleteFormData};
use haruka::handlers::budgets::{self, BudgetFormData};
use haruka::handlers::currencies::{converter, read_query, ConverterQuery};
use haruka::handlers::dashboard::{self, Agenda};
use haruka::handlers::debts::{
    self, DebtPeopleQuery, DebtPersonFormData, DebtRecordFormData, DeleteRecordFormData,
};
use haruka::handlers::installments::{self, PaidFormData};
use haruka::handlers::settings::{self, CategoryFormData};
use haruka::handlers::statistics::{self, StatisticsQuery};
use haruka::handlers::subscriptions::{
    self, CreateExpenseFormData, SubscriptionFormData, SubscriptionsQuery,
};
use haruka::handlers::transfers::{self, QuoteQuery, TransferFormData};
use haruka::handlers::{public_response, transfer_to_cents, MaskedDetail, Page};

const DEK: [u8; 32] = [7u8; 32];
const ALL: Page = Page { start: 0, per_page: 100 };

fn day(year: i32, month: u32, day: u32) -> Date {
    from_ymd(year, month, day).unwrap()
}

fn at(date: Date, hour: u32) -> DateTime {
    DateTime { date, second: hour * 3600, nano: 0 }
}

fn now() -> DateTime {
    at(day(2026, 9, 15), 10)
}

fn text(s: &str) -> String {
    encrypt_string(&DEK, s)
}

fn money(cents: i64) -> String {
    encrypt_cents(&DEK, cents)
}

fn ok<T>(r: HandlerResult<T>) -> T {
    match r {
        Ok(value) => value,
        Err(error) => panic!("{}", error.message),
    }
}

fn refused<T>(r: HandlerResult<T>) -> HandlerError {
    match r {
        Ok(_) => panic!("accepted"),
        Err(error) => error,
    }
}

fn said<T>(r: HandlerResult<T>) -> String {
    refused(r).message
}

fn account_row(id: i64, kind: &str, currency: &str) -> account::Model {
    account::Model {
        id,
        name: text(&format!("账户{id}")),
        kind: kind.to_owned(),
        currency: currency.to_owned(),
        balance_offset: money(0),
        note: text(""),
        created_at: now(),
    }
}

fn detail_row(id: i64, card: &str, limit: i64) -> account_detail::Model {
    account_detail::Model {
        account_id: id,
        card_number: text(card),
        account_username: text(""),
        credit_limit: money(limit),
        billing_day: 1,
    }
}

fn bill_row(id: i64, account_id: i64, kind: &str, cents: i64, time: DateTime) -> bill::Model {
    bill::Model {
        id,
        account_id,
        kind: kind.to_owned(),
        amount: money(cents),
        category: text("餐饮"),
        is_food: true,
        note: text(""),
        happened_at: time,
        created_at: time,
    }
}

fn category_row(id: i64, kind: &str, name: &str) -> category::Model {
    category::Model {
        id,
        kind: kind.to_owned(),
        name: text(name),
        is_food: name == "餐饮",
        created_at: now(),
    }
}

/// A bank account with 100.00, a credit card with a limit of 500.00, an account in dollars.
fn book() -> Book {
    Book {
        accounts: vec![
            account_row(1, "bank", "CNY"),
            account_row(2, "credit_card", "CNY"),
            account_row(3, "bank", "USD"),
        ],
        details: vec![detail_row(1, "6222 0000 1234", 0), detail_row(2, "", 50_000)],
        bills: vec![bill_row(1, 1, "income", 10_000, now())],
        transfers: Vec::new(),
        people: vec![debt_person::Model {
            id: 1,
            name: text("张三"),
            note: text(""),
            created_at: now(),
        }],
        debts: Vec::new(),
        adjustments: Vec::new(),
    }
}

fn rates() -> RateTable {
    let mut table = RateTable::new("CNY");
    table.insert("USD", whole(7));
    table
}

fn masks() -> Vec<MaskedDetail> {
    vec![MaskedDetail {
        account_id: 1,
        card_number: "6222 **** 1234".to_owned(),
        account_username: String::new(),
    }]
}

#[test]
fn balances_respect_their_limits() {
    let book = book();
    assert_eq!(ok(accounts::current_balance(&DEK, &book, 1)), 10_000);
    assert_eq!(ok(accounts::transaction_balance(&DEK, &book, 1)), 10_000);
    assert_eq!(refused(accounts::current_balance(&DEK, &book, 9)).status, Status::NotFound);
    ok(accounts::ensure_balance_delta(&DEK, &book, 1, -10_000));
    assert_eq!(
        said(accounts::ensure_balance_delta(&DEK, &book, 1, -10_001)),
        "该账户不允许透支"
    );
    ok(accounts::ensure_balance_delta(&DEK, &book, 2, -50_000));
    assert_eq!(
        said(accounts::ensure_balance_delta(&DEK, &book, 2, -50_001)),
        "操作后将超过该账户的可用授信额度"
    );
    assert_eq!(
        said(accounts::ensure_balance_delta(&DEK, &book, 1, i64::MAX)),
        "余额超出范围"
    );
    let summary = ok(accounts::balance_summary(&DEK, &book, 1));
    assert_eq!(summary.balance, "CNY 100.00");
    assert!(summary.ok && summary.can_transfer_out);
}

#[test]
fn accounts_are_made_shown_and_forced() {
    let form = AccountFormData {
        name: " 招行 ".to_owned(),
        account_kind: "credit_card".to_owned(),
        currency: "CNY".to_owned(),
        card_number: "6222".to_owned(),
        account_username: String::new(),
        credit_limit: "500".to_owned(),
        billing_day: "15".to_owned(),
        note: String::new(),
    };
    let made = ok(accounts::create(&DEK, &form, now()));
    assert_eq!(decrypt_string(&DEK, &made.account.name), "招行");
    assert_eq!((made.credit_limit, made.billing_day), (50_000, 15));
    let with = |f: &dyn Fn(&mut AccountFormData)| {
        let mut form = AccountFormData {
            name: "a".to_owned(),
            account_kind: "bank".to_owned(),
            currency: "CNY".to_owned(),
            card_number: String::new(),
            account_username: String::new(),
            credit_limit: String::new(),
            billing_day: String::new(),
            note: String::new(),
        };
        f(&mut form);
        said(accounts::create(&DEK, &form, now()))
    };
    assert_eq!(with(&|f| f.name = " ".to_owned()), "账户名不能为空");
    assert_eq!(with(&|f| f.account_kind = "x".to_owned()), "账户类型无效");
    assert_eq!(with(&|f| f.currency = "x".to_owned()), "账户货币无效");
    assert_eq!(
        with(&|f| {
            f.account_kind = "credit_card".to_owned();
            f.credit_limit = "1".to_owned();
            f.billing_day = "32".to_owned();
        }),
        "账单日必须是 1 到 31"
    );
    let book = book();
    let forced = ok(accounts::force_balance(
        &DEK,
        &book,
        1,
        &AccountBalanceFormData { balance: "250".to_owned() },
        now(),
    ));
    let mut after = self::book();
    after.accounts[0].balance_offset = forced.balance_offset;
    assert_eq!(ok(accounts::current_balance(&DEK, &after, 1)), 25_000);
    assert_eq!(said(accounts::parse_balance("x")), "余额格式不正确");
    let rows = ok(accounts::list(&DEK, &book, &masks(), ALL));
    assert_eq!(rows.len(), 3);
    assert_eq!(rows[0].balance, "CNY 100.00");
    let page = ok(accounts::detail(&DEK, &book, &Vec::new(), 1, day(2026, 9, 20), "****", ALL));
    assert_eq!(page.balance, rows[0].balance);
    assert_eq!(page.month_income, "CNY 100.00");
    assert_eq!(page.total_records, 1);
    assert_eq!(ok(accounts::card_number(&DEK, &book, 1)).card_number, "6222 0000 1234");
    assert!(accounts::valid_account_kind("bank") && !accounts::valid_account_kind("x"));
    assert!(accounts::credit_kind("credit_service") && !accounts::credit_kind("bank"));
}

#[test]
fn an_account_with_records_keeps_its_currency() {
    let form = AccountFormData {
        name: "a".to_owned(),
        account_kind: "bank".to_owned(),
        currency: "USD".to_owned(),
        card_number: String::new(),
        account_username: String::new(),
        credit_limit: String::new(),
        billing_day: String::new(),
        note: String::new(),
    };
    assert_eq!(
        said(accounts::update(&DEK, &book(), 1, &form)),
        "已有余额或流水的账户不能修改货币；请新建对应货币账户后转账"
    );
    ok(accounts::update(&DEK, &book(), 3, &form));
    ok(accounts::delete(&DEK, &book(), 3));
    assert_eq!(refused(accounts::delete(&DEK, &book(), 9)).status, Status::NotFound);
}

fn bill_form(kind: &str, amount: &str) -> BillFormData {
    BillFormData {
        account_id: "1".to_owned(),
        kind: kind.to_owned(),
        amount: amount.to_owned(),
        category: "餐饮".to_owned(),
        note: " 午饭 ".to_owned(),
        happened_at: "2026-09-15T12:00".to_owned(),
        use_installment: false,
        installment_term: String::new(),
        installment_method: String::new(),
        installment_annual_rate: String::new(),
        installment_fee: String::new(),
        installment_first_due_date: String::new(),
        redirect_to: None,
    }
}

#[test]
fn bills_are_added_changed_and_deleted() {
    let mut book = book();
    let categories = vec![category_row(1, "expense", "餐饮"), category_row(2, "income", "工资")];
    let made = ok(bills::create(&DEK, &book, &categories, &bill_form("expense", "30.005"), now()));
    assert_eq!(decrypt_cents(&DEK, &made.bill.amount), 3_000);
    assert_eq!(decrypt_string(&DEK, &made.bill.note), "午饭");
    assert!(made.bill.is_food && made.plan.is_none());
    let before = ok(accounts::current_balance(&DEK, &book, 1));
    book.bills.push(bill::Model { id: 2, ..made.bill });
    assert_eq!(ok(accounts::current_balance(&DEK, &book, 1)), before - 3_000);
    let fails = |form: BillFormData| said(bills::create(&DEK, &self::book(), &categories, &form, now()));
    assert_eq!(fails(bill_form("expense", "100.01")), "该账户不允许透支");
    assert_eq!(fails(bill_form("x", "1")), "类型必须是收入或支出");
    assert_eq!(fails(bill_form("income", "1")), "请选择设置中已有的对应收支分类");
    assert_eq!(fails(BillFormData { account_id: "x".to_owned(), ..bill_form("expense", "1") }), "账户无效");
    assert_eq!(
        fails(BillFormData { happened_at: "x".to_owned(), ..bill_form("expense", "1") }),
        "时间格式不正确"
    );
    assert_eq!(
        fails(BillFormData { category: " ".to_owned(), ..bill_form("expense", "1") }),
        "分类不能为空"
    );
    let none = DeleteFormData { redirect_to: Some("/bills".to_owned()) };
    let target = ok(bills::delete(&DEK, &book, &Vec::new(), &Vec::new(), &Vec::new(), 2, &none));
    assert_eq!(target, "/bills");
    assert_eq!(
        said(bills::delete(&DEK, &book, &Vec::new(), &Vec::new(), &Vec::new(), 1, &none)),
        "该账户不允许透支"
    );
    let changed = ok(bills::update(
        &DEK,
        &book,
        &categories,
        &Vec::new(),
        &Vec::new(),
        &Vec::new(),
        2,
        &bill_form("expense", "40"),
    ));
    assert_eq!(decrypt_cents(&DEK, &changed.amount), 4_000);
    let form = ok(bills::edit_form(&DEK, &book, &Vec::new(), &Vec::new(), &Vec::new(), 2));
    assert_eq!(form.amount, "30.00");
    assert_eq!(ok(bills::account_options(&DEK, &book, &masks())).len(), 3);
}

fn query() -> BillsQuery {
    BillsQuery {
        page: 1,
        per_page: 10,
        mode: String::new(),
        start_date: String::new(),
        end_date: String::new(),
        flow_kind: String::new(),
        category: String::new(),
        min_income: String::new(),
        max_income: String::new(),
        min_expense: String::new(),
        max_expense: String::new(),
        keyword: String::new(),
    }
}

#[test]
fn the_ledger_is_searched() {
    let mut book = book();
    book.bills.push(bill_row(2, 1, "expense", 2_500, at(day(2026, 9, 16), 8)));
    book.bills.push(bill_row(3, 3, "expense", 100, at(day(2026, 9, 17), 8)));
    let page = |q: BillsQuery, advanced: bool| {
        bills::render_list(
            &DEK,
            &book,
            &masks(),
            &Vec::new(),
            &rates(),
            "CNY",
            &Vec::new(),
            q,
            advanced,
            ALL,
        )
    };
    let all = ok(page(query(), false));
    assert_eq!(all.total_records, 3);
    assert_eq!(all.records[0].bill_kind, "expense");
    assert_eq!(all.total_expense, "CNY 32.00");
    assert_eq!(all.net, "CNY 68.00");
    let third = ok(page(BillsQuery { page: 3, per_page: 50, ..query() }, false));
    assert_eq!((third.query.page, third.query.per_page), (3, 50));
    let min = BillsQuery { min_expense: "20".to_owned(), ..query() };
    assert_eq!(ok(page(min, true)).total_records, 1);
    let keyword = BillsQuery { keyword: "USD".to_owned(), ..query() };
    assert_eq!(ok(page(keyword, true)).total_records, 1);
    let crossed = BillsQuery {
        start_date: "2026-09-02".to_owned(),
        end_date: "2026-09-01".to_owned(),
        ..query()
    };
    assert_eq!(said(page(crossed, true)), "开始日期不能晚于结束日期");
}

#[test]
fn transfers_move_money() {
    let mut book = book();
    let form = |from: i64, to: i64, amount: &str, received: &str| TransferFormData {
        from_account_id: from,
        to_account_id: to,
        amount: amount.to_owned(),
        to_amount: received.to_owned(),
        note: "x".to_owned(),
        happened_at: "2026-09-15T12:00".to_owned(),
        redirect_to: None,
    };
    let rate: Result<Dec, String> = Ok(Dec { mantissa: 14, scale: 2 });
    let create = |form: &TransferFormData| transfers::create(&DEK, &self::book(), form, &rate, now());
    assert_eq!(said(create(&form(1, 1, "1", ""))), "转出和转入账户不能相同");
    assert_eq!(said(create(&form(9, 1, "1", ""))), "转出账户不存在");
    assert_eq!(said(create(&form(1, 9, "1", ""))), "转入账户不存在");
    assert_eq!(said(create(&form(1, 2, "0", ""))), "金额必须大于 0");
    assert_eq!(said(create(&form(1, 2, "100.01", ""))), "该账户不允许透支");
    assert_eq!(
        said(create(&form(2, 1, "1", ""))),
        "信用账户只有在余额为正时才允许转出"
    );
    let exchanged = ok(create(&form(1, 3, "50", "")));
    assert_eq!(transfer_to_cents(&DEK, &exchanged), 700);
    let given = ok(create(&form(1, 3, "50", "7.5")));
    assert_eq!(transfer_to_cents(&DEK, &given), 750);
    let row = ok(create(&form(1, 2, "40", "")));
    let total = ok(accounts::current_balance(&DEK, &book, 1)) + ok(accounts::current_balance(&DEK, &book, 2));
    book.transfers.push(transfer::Model { id: 1, ..row });
    assert_eq!(ok(accounts::current_balance(&DEK, &book, 1)), 6_000);
    assert_eq!(
        ok(accounts::current_balance(&DEK, &book, 1)) + ok(accounts::current_balance(&DEK, &book, 2)),
        total
    );
    let quote = QuoteQuery {
        from_account_id: 1,
        to_account_id: 3,
        amount: "10".to_owned(),
        happened_at: "2026-09-15T12:00".to_owned(),
    };
    assert_eq!(ok(transfers::quote(&book, &quote, &rate)).to_amount, "1.40");
    assert_eq!(
        refused(transfers::quote(&book, &quote, &Err("断网".to_owned()))).status,
        Status::Internal
    );
    assert!(transfers::rate_needed(&book, &form(1, 3, "1", "")).is_some());
    assert!(transfers::rate_needed(&book, &form(1, 2, "1", "")).is_none());
    assert!(transfers::accepts_json(Some("Application/JSON")));
    assert!(!transfers::accepts_json(None));
    ok(transfers::delete(
        &DEK,
        &book,
        &Vec::new(),
        &Vec::new(),
        1,
        &transfers::DeleteFormData { redirect_to: None },
    ));
}

#[test]
fn instalments_pay_everything() {
    let read = |term: &str, method: &str, rate: &str| {
        installments::parse_input(term, method, rate, "1", "2026-10-31")
    };
    assert_eq!(said(read("x", "equal_principal", "0")), "分期期限无效");
    assert_eq!(said(read("3", "x", "0")), "还款方式无效");
    assert_eq!(said(read("3", "equal_principal", "101")), "年利率必须在 0% 到 100% 之间");
    for method in ["equal_principal", "equal_payment", "flat"] {
        let plan = ok(read("3", method, "12"));
        let amounts = ok(installments::schedule(10_000, &plan));
        assert_eq!(amounts.len(), 3);
        assert_eq!(amounts.iter().map(|a| a.principal).sum::<i64>(), 10_000);
        assert_eq!(amounts.iter().map(|a| a.fee).sum::<i64>(), 100);
        assert!(amounts.iter().all(|a| a.total == a.principal + a.interest + a.fee));
        assert!(amounts.iter().all(|a| a.interest >= 0));
        assert_eq!(amounts[1].due_date, day(2026, 11, 30));
    }
    let parts: Vec<i64> = (1..=3).map(|i| installments::split_amount(10_000, 3, i)).collect();
    assert_eq!(parts.iter().sum::<i64>(), 10_000);
    let plan = ok(read("3", "equal_principal", "12"));
    let amounts = ok(installments::schedule(10_000, &plan));
    assert_eq!(amounts[0].interest, 100);
    let rows = ok(installments::create_plan(&DEK, 1, 2, 10_000, plan, now()));
    let items = installments::plan_items(&DEK, 5, &rows.amounts, now());
    assert_eq!(ok(installments::sum_items(&DEK, &items, 5)).0, amounts.iter().map(|a| a.interest).sum::<i64>());
    let numbered: Vec<installment_item::Model> =
        items.into_iter().map(|i| installment_item::Model { id: 7, ..i }).collect();
    let (paid, target) = ok(installments::set_paid(&numbered, 7, &PaidFormData { paid: true }, now()));
    assert_eq!((paid, target.as_str()), (Some(now()), "/installments/5"));
    assert_eq!(
        refused(installments::set_paid(&numbered, 8, &PaidFormData { paid: true }, now())).status,
        Status::NotFound
    );
}

fn debt_form(kind: &str, amount: &str) -> DebtRecordFormData {
    DebtRecordFormData {
        person_id: 1,
        account_id: 1,
        kind: kind.to_owned(),
        amount: amount.to_owned(),
        note: String::new(),
        happened_at: "2026-09-15T12:00".to_owned(),
        redirect_to: None,
    }
}

#[test]
fn debts_are_lent_and_paid_back() {
    let mut book = book();
    let create = |book: &Book, form: &DebtRecordFormData| {
        debts::create_record(&DEK, book, &rates(), "CNY", form, now())
    };
    assert_eq!(said(create(&book, &debt_form("x", "1"))), "借还类型无效");
    assert_eq!(said(create(&book, &debt_form("repayment_received", "1"))), "还款金额超过对方尚欠金额");
    assert_eq!(said(create(&book, &debt_form("repayment_paid", "1"))), "还款金额超过尚欠对方金额");
    assert_eq!(said(create(&book, &debt_form("lend", "100.01"))), "该账户不允许透支");
    let lent = ok(create(&book, &debt_form("lend", "60")));
    book.debts.push(debt_record::Model { id: 1, ..lent });
    assert_eq!(ok(debts::person_outstanding(&DEK, &book, &rates(), "CNY", 1)), (6_000, 0));
    assert_eq!(ok(accounts::current_balance(&DEK, &book, 1)), 4_000);
    assert_eq!(said(create(&book, &debt_form("repayment_received", "60.01"))), "还款金额超过对方尚欠金额");
    let back = ok(create(&book, &debt_form("repayment_received", "60")));
    book.debts.push(debt_record::Model { id: 2, ..back });
    assert_eq!(ok(debts::person_outstanding(&DEK, &book, &rates(), "CNY", 1)), (0, 0));
    ok(debts::delete_record(&DEK, &book, 2, &DeleteRecordFormData { redirect_to: None }));
    let person = DebtPersonFormData { name: " 李四 ".to_owned(), note: String::new() };
    assert_eq!(decrypt_string(&DEK, &ok(debts::create_person(&DEK, &person, now())).name), "李四");
    let nobody = DebtPersonFormData { name: " ".to_owned(), note: String::new() };
    assert_eq!(said(debts::create_person(&DEK, &nobody, now())), "姓名不能为空");
    let q = DebtPeopleQuery {
        page: 1,
        per_page: 10,
        mode: String::new(),
        keyword: String::new(),
        relationship: String::new(),
        min_receivable: String::new(),
        max_receivable: String::new(),
        min_payable: String::new(),
        max_payable: String::new(),
    };
    let page = ok(debts::render_people(&DEK, &book, &rates(), "CNY", q, false, ALL));
    assert_eq!(page.people[0].receivable_cents, 0);
    assert_eq!((page.query.page, page.query.per_page), (1, 10));
}

fn subscription_row(id: i64, expires_at: DateTime, account: Option<i64>, cents: i64) -> subscription::Model {
    subscription::Model {
        id,
        name: text("音乐"),
        amount: money(cents),
        currency: "CNY".to_owned(),
        category: text("娱乐"),
        period: "month".to_owned(),
        expires_at,
        auto_debit_account_id: account,
        balance_check_days: 3,
        note: text(""),
        created_at: now(),
    }
}

#[test]
fn subscriptions_are_renewed() {
    let categories = vec![category_row(1, "expense", "娱乐")];
    let form = SubscriptionFormData {
        name: "音乐".to_owned(),
        amount: "15".to_owned(),
        currency: "CNY".to_owned(),
        category: "娱乐".to_owned(),
        period: "month".to_owned(),
        expires_at: "2026-10-01T00:00".to_owned(),
        note: String::new(),
    };
    let fields = ok(subscriptions::create(&DEK, &categories, &form));
    assert_eq!(decrypt_cents(&DEK, &fields.amount), 1_500);
    assert!(subscriptions::valid_period("year") && !subscriptions::valid_period("x"));
    let rows = vec![subscription_row(1, at(day(2026, 8, 31), 0), None, 1_500)];
    let renewed = ok(subscriptions::create_expense(
        &DEK,
        &book(),
        &categories,
        &rows,
        1,
        &CreateExpenseFormData { account_id: 1 },
        &Ok(whole(1)),
        now(),
        now(),
    ));
    assert!(rows[0].expires_at.before(renewed.expires_at));
    assert_eq!(decrypt_cents(&DEK, &renewed.bill.amount), 1_500);
    assert_eq!(said(subscriptions::renewed_expiry(now(), "x", now())), "订阅周期无效");
    let q = SubscriptionsQuery {
        page: 1,
        per_page: 10,
        mode: String::new(),
        keyword: String::new(),
        status: String::new(),
        period: String::new(),
        currency: String::new(),
        category: String::new(),
        start_date: String::new(),
        end_date: String::new(),
    };
    let page = ok(subscriptions::render_list(&DEK, &rows, &categories, q, false, now(), ALL));
    assert_eq!((page.expired_count, page.due_soon_count, page.total_records), (1, 0, 1));
    assert_eq!((page.query.page, page.query.per_page), (1, 10));
}

fn budget_row(daily: Option<i64>, monthly: Option<i64>) -> budget::Model {
    let keep = |n: Option<i64>| budgets::encrypt_optional(&DEK, n);
    budget::Model {
        id: 1,
        daily_amount: keep(daily),
        weekly_amount: keep(None),
        monthly_amount: keep(monthly),
        updated_at: now(),
    }
}

#[test]
fn budgets_warn_at_four_fifths() {
    let mut book = book();
    let today = day(2026, 9, 16);
    let statuses = |book: &Book, spent: i64| {
        let mut bills = vec![bill_row(9, 1, "expense", spent, at(today, 8))];
        bills.append(&mut book.bills.iter().map(|b| bill_row(b.id, 1, "income", 1, b.happened_at)).collect());
        ok(budgets::current_statuses(
            &DEK,
            &Some(budget_row(Some(10_000), Some(20_000))),
            &bills,
            &book.accounts,
            &rates(),
            "CNY",
            today,
        ))
    };
    book.debts.clear();
    let calm = statuses(&book, 7_999);
    assert!(!calm[0].near_limit && !calm[0].over_budget);
    let near = statuses(&book, 8_000);
    assert!(near[0].near_limit);
    assert_eq!(near[0].label, "今日预算");
    assert_eq!(near[0].used, "CNY 80.00");
    assert_eq!(near[1].label, "本月预算");
    assert!(statuses(&book, 10_001)[0].over_budget);
    let form = |daily: &str| BudgetFormData {
        daily_amount: daily.to_owned(),
        weekly_amount: String::new(),
        monthly_amount: String::new(),
    };
    let kept = ok(budgets::update(&DEK, &form("10"), now()));
    assert_eq!(budgets::decrypt_optional(&DEK, &kept.daily_amount), Some(1_000));
    assert_eq!(budgets::decrypt_optional(&DEK, &kept.weekly_amount), None);
    assert!(said(budgets::update(&DEK, &form("0"), now())).ends_with("必须大于 0；留空可停用"));
}

#[test]
fn categories_have_one_name_each() {
    let rows = vec![category_row(1, "expense", "餐饮")];
    let form = |name: &str, kind: &str| CategoryFormData { name: name.to_owned(), kind: kind.to_owned() };
    assert!(settings::create_category(&DEK, &rows, &form(" 餐饮 ", "expense"), now()).is_err());
    ok(settings::create_category(&DEK, &rows, &form("餐饮", "income"), now()));
    assert!(settings::create_category(&DEK, &rows, &form("", "expense"), now()).is_err());
    assert!(settings::create_category(&DEK, &rows, &form("a", "x"), now()).is_err());
    ok(settings::update_category(&DEK, &rows, 1, &form("餐饮", "expense")));
    assert_eq!(
        refused(settings::update_category(&DEK, &rows, 2, &form("a", "expense"))).status,
        Status::NotFound
    );
    assert_eq!(settings::delete_category(), "/settings");
}

#[test]
fn amounts_are_converted_on_their_page() {
    let q = |amount: &str, from: &str| ConverterQuery {
        amount: amount.to_owned(),
        from: from.to_owned(),
        to: "CNY".to_owned(),
        date: "2026-09-15".to_owned(),
    };
    let conversion = ok(read_query(&q("2", "USD"), "CNY", day(2026, 9, 15)));
    let page = ok(converter(
        conversion,
        haruka::currency::RateInfo {
            rate: Dec { mantissa: 725, scale: 2 },
            rate_date: day(2026, 9, 14),
            fetched_at: Some(now()),
        },
    ));
    assert!(page.result.contains("14.5"));
    assert!(!page.same_currency);
    assert!(read_query(&q("x", "USD"), "CNY", day(2026, 9, 15)).is_err());
}

#[test]
fn statistics_rank_what_was_spent() {
    let mut book = book();
    book.bills.push(bill_row(2, 1, "expense", 2_500, at(day(2026, 9, 10), 8)));
    book.bills.push(bill_row(3, 1, "expense", 500, at(day(2026, 9, 11), 8)));
    let q = StatisticsQuery {
        period: "custom".to_owned(),
        start_date: "2026-09-01".to_owned(),
        end_date: "2026-09-30".to_owned(),
    };
    let page = ok(statistics::show(&DEK, &book, &masks(), &rates(), "CNY", &q, day(2026, 9, 20)));
    assert_eq!(page.total_expense, "CNY 30.00");
    assert_eq!(page.largest_expenses[0].id, 2);
    assert_eq!(page.expense_count, 2);
    assert_eq!(page.expense_category_rankings[0].share, "100");
    assert_eq!(page.calendar_days, 30);
    assert!(!statistics::escape_json("</script>").contains("</"));
}

fn agenda() -> Agenda {
    Agenda {
        subscriptions: vec![
            subscription_row(1, at(day(2026, 9, 16), 0), Some(1), 20_000),
            subscription_row(2, at(day(2027, 1, 1), 0), None, 100),
        ],
        plans: Vec::new(),
        items: Vec::new(),
        categories: vec![category_row(1, "expense", "餐饮")],
        budget: None,
    }
}

#[test]
fn the_overview_sums_up() {
    let mut book = book();
    book.bills.push(bill_row(2, 1, "expense", 2_500, at(day(2026, 9, 15), 8)));
    let page = ok(dashboard::show(
        &DEK,
        &book,
        &masks(),
        &agenda(),
        &rates(),
        "CNY",
        now(),
        day(2026, 9, 15),
    ));
    assert_eq!(page.net_assets, "CNY 75.00");
    assert_eq!(page.month_income, "CNY 100.00");
    assert_eq!(page.month_expense, "CNY 25.00");
    assert_eq!(page.engel_coefficient, "100%");
    assert_eq!(page.reports.daily.labels[8], "08:00");
    assert_eq!(page.reports.daily.expense[8], 2_500);
    assert_eq!(page.reports.weekly.income.iter().sum::<i64>(), 10_000);
    assert_eq!(page.reports.yearly.labels.len(), 365);
    assert_eq!(page.first_due_date, "2026-10-15");
    assert_eq!(page.subscription_reminder_count, 1);
    assert!(page.subscription_reminders[0].detail.contains("自动扣款"));
    assert_eq!(
        page.auto_debit_warnings[0].detail,
        "账户1 · 卡号 6222 **** 1234 · CNY的余额仅有 CNY 75.00，不足以支付 CNY 200.00"
    );
    assert_eq!(page.quick_redirect_to, dashboard::redirect());
    assert_eq!(page.accounts.len(), 3);
    assert_eq!(dashboard::account_kind_label("x"), "其他");
}

#[test]
fn a_password_unlocks_the_ledger() {
    let form = |password: &str, confirm: &str| SetupFormData {
        password: password.to_owned(),
        confirm: confirm.to_owned(),
    };
    let (row, dek) = match setup(false, &form("secret1", "secret1")) {
        SetupOutcome::Created(row, dek) => (row, dek),
        _ => panic!("not set"),
    };
    assert!(matches!(setup(true, &form("secret1", "secret1")), SetupOutcome::AlreadySet));
    match setup(false, &form("short", "short")) {
        SetupOutcome::Refused(message) => assert_eq!(message, "密码至少 6 位"),
        _ => panic!("accepted"),
    }
    match setup(false, &form("secret1", "secret2")) {
        SetupOutcome::Refused(message) => assert_eq!(message, "两次输入的密码不一致"),
        _ => panic!("accepted"),
    }
    let row = Some(row);
    let enter = |password: &str| unlock(&row, &UnlockFormData { password: password.to_owned() });
    assert_eq!(ok(enter("secret1")), Ok(dek));
    assert!(ok(enter("secret2")).is_err());
    assert_eq!(setup_form(true), Some("/unlock"));
    assert_eq!(unlock_form(false), Some("/setup"));
    let first = ok(ensure_default_account(Some(&dek), 0, now())).unwrap();
    assert_eq!(decrypt_string(&dek, &first.name), "默认账户");
    assert_eq!(decrypt_string(&dek, &first.note), "");
    assert!(ok(ensure_default_account(Some(&dek), 1, now())).is_none());
    let refused = ensure_default_account(None, 0, now()).err().unwrap();
    assert_eq!((refused.status, refused.message.as_str()), (Status::Unauthorized, "未解锁"));
}

#[test]
fn public_pages_are_not_cached() {
    let headers = public_response(false);
    assert_eq!((headers[0].name, headers[0].value), ("cache-control", "no-store"));
    assert!(!headers[5].value.contains("connect-src"));
    assert!(public_response(true)[5].value.contains("connect-src 'self'"));
}

#[test]
fn details_of_accounts_depend_on_their_kind() {
    let keep = |kind: &str, card: &str, user: &str| {
        accounts::save_account_detail(&DEK, 4, kind, card, user, 500, 15)
    };
    let card = keep("credit_card", " 6222 ", "user").unwrap();
    assert_eq!(decrypt_string(&DEK, &card.card_number), "6222");
    assert_eq!(decrypt_string(&DEK, &card.account_username), "");
    assert_eq!((decrypt_cents(&DEK, &card.credit_limit), card.billing_day), (500, 15));
    let bank = keep("bank", "6222", "user").unwrap();
    assert_eq!((decrypt_cents(&DEK, &bank.credit_limit), bank.billing_day), (0, 0));
    assert!(keep("other", "6222", "user").is_none());
    assert!(keep("bank", " ", "user").is_none());
    let form = ok(accounts::balance_form(&DEK, &book(), 1));
    assert_eq!(form.current_balance, "CNY 100.00");
    assert_eq!(accounts::new_form("USD").currency, "USD");
    assert_eq!(ok(accounts::edit_form(&DEK, &book(), 1)).card_number, "6222 0000 1234");
    let item = installment_item::Model {
        id: 1,
        plan_id: 2,
        sequence: 1,
        due_date: day(2026, 10, 1),
        principal: money(1),
        interest: money(0),
        fee: money(0),
        total: money(1),
        paid_at: Some(now()),
        repayment_account_id: Some(1),
        principal_transfer_id: Some(2),
        charge_bill_id: Some(3),
        created_at: now(),
    };
    let reset = accounts::reset_payment(item);
    assert_eq!((reset.paid_at, reset.repayment_account_id, reset.charge_bill_id), (None, None, None));
}

#[test]
fn people_and_categories_have_their_forms() {
    let book = book();
    let form = DebtPersonFormData { name: "王五".to_owned(), note: "x".to_owned() };
    let changed = ok(debts::update_person(&DEK, &book, 1, &form));
    assert_eq!(decrypt_string(&DEK, &changed.name), "王五");
    assert_eq!(refused(debts::update_person(&DEK, &book, 9, &form)).status, Status::NotFound);
    assert_eq!(ok(debts::edit_person_form(&DEK, &book, 1)).name, "张三");
    assert_eq!(debts::new_person_form().name, "");
    ok(debts::delete_person(&DEK, &book, 1));
    assert_eq!(refused(debts::delete_person(&DEK, &book, 9)).status, Status::NotFound);
    let rows = vec![category_row(1, "expense", "餐饮")];
    assert_eq!(ok(settings::edit_category_form(&DEK, &rows, 1)).name, "餐饮");
    let (income, expense) = settings::show(&DEK, &rows);
    assert_eq!((income.len(), expense.len()), (0, 1));
    assert_eq!(budgets::input_amount(Some(1_050)), "10.50");
    assert_eq!(budgets::input_amount(None), "");
    let bills_page = Some("/bills".to_owned());
    assert_eq!(transfers::created_response(&bills_page).redirect, "/bills");
    assert_eq!(debts::created_response(&None).message, "借还记录已保存");
}
