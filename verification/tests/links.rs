use haruka::book::Book;
use haruka::calendar::{from_ymd, Date, DateTime};
use haruka::chain::{digest, to_signed_bytes};
use haruka::config::{
    default_passkey_origin, port_addr, required_arg, resolve_listen_addr, Start, Variable,
};
use haruka::crypto::{decrypt_cents, decrypt_string, encrypt_cents, encrypt_string};
use haruka::currency::RateTable;
use haruka::db::{
    closed_days, columns_statement, ensure_column, init_steps, seed_market_closed_days, Step,
};
use haruka::entity::{account, account_detail, bill, debt_person, debt_record};
use haruka::error::HandlerResult;
use haruka::handlers::debt_requests::{
    self, account_identifier, chain_head, confirm, decrypt_snapshot, decrypt_submission,
    digest_code, find_public_request, find_to_confirm, mark_confirmed, read_answer, revoke,
    verify_chain, CreateRequestForm, PayerSubmission, PublicPage, ReadRequest, RequestSnapshot,
    SubmitRequestForm,
};
use haruka::handlers::passkeys::{
    ceremony_messages, check_prf, complete_registration, decode_prf, finish_authentication,
    finish_registration, flow_id, prf_input, start_authentication, start_registration, Ceremony,
    Flows, StartRegistration, CEREMONY_TTL,
};
use haruka::handlers::shares::{
    self, find_valid_share, shown_share, CreateShareForm, DeleteShareForm, SharePageQuery,
    SharedPage, UnlockShareForm,
};
use haruka::handlers::MaskedDetail;
use haruka::sessions::{
    clear_session_cookie, remove_session, session_dek, session_token, unlock_target, Sessions,
};
use haruka::token::{decode_token, new_token, same_bytes, token_hash};

const DEK: [u8; 32] = [7u8; 32];

fn day(year: i32, month: u32, day: u32) -> Date {
    from_ymd(year, month, day).unwrap()
}

fn now() -> DateTime {
    DateTime { date: day(2026, 9, 15), second: 36000, nano: 0 }
}

fn later() -> DateTime {
    DateTime { date: day(2026, 9, 30), second: 0, nano: 0 }
}

fn ok<T>(r: HandlerResult<T>) -> T {
    match r {
        Ok(value) => value,
        Err(error) => panic!("{}", error.message),
    }
}

fn said<T>(r: HandlerResult<T>) -> String {
    match r {
        Ok(_) => panic!("accepted"),
        Err(error) => error.message,
    }
}

fn book() -> Book {
    Book {
        accounts: vec![account::Model {
            id: 1,
            name: encrypt_string(&DEK, "招行"),
            kind: "bank".to_owned(),
            currency: "CNY".to_owned(),
            balance_offset: encrypt_cents(&DEK, 0),
            note: encrypt_string(&DEK, ""),
            created_at: now(),
        }],
        details: vec![account_detail::Model {
            account_id: 1,
            card_number: encrypt_string(&DEK, "62221234"),
            account_username: encrypt_string(&DEK, ""),
            credit_limit: encrypt_cents(&DEK, 0),
            billing_day: 0,
        }],
        bills: vec![bill::Model {
            id: 1,
            account_id: 1,
            kind: "expense".to_owned(),
            amount: encrypt_cents(&DEK, 1_250),
            category: encrypt_string(&DEK, "餐饮"),
            is_food: true,
            note: encrypt_string(&DEK, "午饭"),
            happened_at: now(),
            created_at: now(),
        }],
        transfers: Vec::new(),
        people: vec![debt_person::Model {
            id: 1,
            name: encrypt_string(&DEK, "张三"),
            note: encrypt_string(&DEK, ""),
            created_at: now(),
        }],
        debts: Vec::new(),
        adjustments: Vec::new(),
    }
}

fn masks() -> Vec<MaskedDetail> {
    vec![MaskedDetail {
        account_id: 1,
        card_number: "****1234".to_owned(),
        account_username: String::new(),
    }]
}

#[test]
fn digests_tell_lists_apart() {
    let parts = |list: &[&str]| list.iter().map(|p| p.as_bytes().to_vec()).collect::<Vec<_>>();
    assert_ne!(digest("x", &parts(&["ab", "c"])), digest("x", &parts(&["a", "bc"])));
    assert_ne!(digest("x", &parts(&["ab"])), digest("x", &parts(&["ab", ""])));
    assert_ne!(digest("x", &parts(&["ab"])), digest("y", &parts(&["ab"])));
    assert_eq!(digest("x", &parts(&["ab"])).len(), 32);
    assert_eq!(to_signed_bytes(258), vec![0, 0, 0, 0, 0, 0, 1, 2]);
    assert_eq!(to_signed_bytes(-1), vec![255; 8]);
}

#[test]
fn tokens_are_read_back() {
    let (bytes, text) = new_token();
    assert_eq!(text.len(), 43);
    assert_eq!(decode_token(&text), Some(bytes.to_vec()));
    assert_eq!(decode_token(&text[1..]), None);
    assert_eq!(decode_token(&"!".repeat(43)), None);
    assert_eq!(token_hash(b"abc")[..4], [0xba, 0x78, 0x16, 0xbf]);
    assert!(same_bytes(&vec![1, 2], &vec![1, 2]) && !same_bytes(&vec![1], &vec![2]));
}

fn share_form(password: &str) -> CreateShareForm {
    CreateShareForm {
        expires_at: "2026-09-30T00:00".to_owned(),
        password: password.to_owned(),
        confirm: password.to_owned(),
    }
}

#[test]
fn a_shared_bill_is_shown_until_it_ends() {
    let book = book();
    let form = share_form("");
    let prepared = ok(shares::prepare(&DEK, &book, &masks(), 1, &form, now()));
    assert_eq!(prepared.label, "支出 · CNY 12.50 · 餐饮");
    assert_eq!(prepared.snapshot.account, "招行 · 卡号 ****1234 · CNY");
    let row = ok(shares::create(&DEK, 1, "", &prepared, b"{}", now()));
    let token = decrypt_string(&DEK, &row.token);
    let rows = vec![row];
    match shares::open(&rows, &token, now()) {
        SharedPage::Bill { encoded, expires_at } => {
            assert_eq!(encoded, b"{}");
            assert_eq!(expires_at, "2026-09-30T00:00");
        }
        _ => panic!("not shown"),
    }
    assert!(matches!(shares::open(&rows, &token, later()), SharedPage::Unavailable));
    assert!(matches!(shares::open(&rows, "x", now()), SharedPage::Unavailable));
    assert!(find_valid_share(&rows, &token, now()).is_some());
    let views = shares::list(&DEK, &book.bills, &rows, now());
    assert_eq!(views[0].path, format!("/s/{token}"));
    assert!(views[0].source_exists && !views[0].expired);
    let page = ok(shares::bill_share_form(
        &DEK,
        &book,
        &masks(),
        &rows,
        1,
        &SharePageQuery { created: 0 },
        now(),
    ));
    assert_eq!(page.created_path, views[0].path);
    assert_eq!(page.default_expires_at, "2026-09-22T10:00");
}

#[test]
fn a_password_guards_a_shared_bill() {
    let book = book();
    let prepared = ok(shares::prepare(&DEK, &book, &masks(), 1, &share_form("pw"), now()));
    let row = ok(shares::create(&DEK, 1, "pw", &prepared, b"{\"a\":1}", now()));
    assert!(row.has_password);
    let token = decrypt_string(&DEK, &row.token);
    let rows = vec![row];
    assert!(matches!(shares::open(&rows, &token, now()), SharedPage::Prompt { .. }));
    let enter = |password: &str| {
        shares::unlock(&rows, &token, &UnlockShareForm { password: password.to_owned() }, now())
    };
    match enter("pw") {
        SharedPage::Bill { encoded, .. } => assert_eq!(encoded, b"{\"a\":1}"),
        _ => panic!("not shown"),
    }
    match enter("no") {
        SharedPage::Prompt { error, .. } => assert_eq!(error, "分享密码不正确"),
        _ => panic!("shown"),
    }
    assert!(matches!(enter(&"x".repeat(257)), SharedPage::Prompt { .. }));
    let fails = |form: CreateShareForm, id: i64| {
        said(shares::prepare(&DEK, &book, &masks(), id, &form, now()))
    };
    assert_eq!(
        fails(CreateShareForm { confirm: "x".to_owned(), ..share_form("pw") }, 1),
        "两次输入的分享密码不一致"
    );
    assert_eq!(fails(share_form(&"x".repeat(257)), 1), "分享密码不能超过 256 个字符");
    assert_eq!(
        fails(CreateShareForm { expires_at: "2026-09-15T10:00".to_owned(), ..share_form("") }, 1),
        "有效期结束时间必须晚于现在"
    );
    assert_eq!(
        fails(CreateShareForm { expires_at: "x".to_owned(), ..share_form("") }, 1),
        "有效期结束时间格式不正确"
    );
    assert_eq!(fails(share_form(""), 2), "账单不存在");
    let back = DeleteShareForm { return_to: "bill".to_owned() };
    assert_eq!(ok(shares::delete(&rows, 0, &back)), "/bills/1/share");
    assert_eq!(said(shares::delete(&rows, 5, &back)), "分享记录不存在");
    assert_eq!(shares::created_target(1, 2), "/bills/1/share?created=2");
    assert!(shown_share(None).is_none());
    assert!(shown_share(Some(prepared.snapshot)).is_some());
}

fn request_form(kind: &str, person_id: i64) -> CreateRequestForm {
    CreateRequestForm {
        kind: kind.to_owned(),
        person_id,
        account_id: 1,
        amount: "50".to_owned(),
        recipient_name: " 本人 ".to_owned(),
        note: "房租".to_owned(),
        expires_at: "2026-09-30T00:00".to_owned(),
    }
}

fn snapshot() -> RequestSnapshot {
    ok(debt_requests::prepare(&DEK, &book(), &masks(), &request_form("borrow", 0), now())).0
}

fn submission() -> PayerSubmission {
    PayerSubmission {
        version: 1,
        payer_name: "李四".to_owned(),
        payer_contact: "138".to_owned(),
        payer_account: "6217".to_owned(),
        amount_cents: 5_000,
        note: "已付".to_owned(),
        paid_at: "2026-09-16T08:00".to_owned(),
    }
}

fn rates() -> RateTable {
    RateTable::new("CNY")
}

#[test]
fn requests_are_refused_for_each_reason() {
    let fails = |form: CreateRequestForm| {
        said(debt_requests::prepare(&DEK, &book(), &masks(), &form, now()))
    };
    assert_eq!(fails(request_form("x", 0)), "请求类型无效");
    assert_eq!(fails(request_form("repayment_received", 0)), "请对方还款时必须选择已有借贷对象");
    assert_eq!(fails(request_form("borrow", 9)), "借贷对象不存在");
    assert_eq!(fails(CreateRequestForm { account_id: 9, ..request_form("borrow", 0) }), "收款账户不存在");
    assert_eq!(
        fails(CreateRequestForm { recipient_name: " ".to_owned(), ..request_form("borrow", 0) }),
        "请填写 1 到 100 个字符的收款人姓名或户名"
    );
    assert_eq!(
        fails(CreateRequestForm { amount: "0".to_owned(), ..request_form("borrow", 0) }),
        "金额必须大于 0"
    );
    assert_eq!(
        fails(CreateRequestForm { expires_at: "x".to_owned(), ..request_form("borrow", 0) }),
        "有效期结束时间格式不正确"
    );
    let (asked, _) = ok(debt_requests::prepare(&DEK, &book(), &masks(), &request_form("borrow", 0), now()));
    assert_eq!(asked.kind_label, "向对方借款");
    assert_eq!((asked.identifier.as_str(), asked.identifier_masked.as_str()), ("62221234", "****1234"));
    assert_eq!(asked.recipient_name, "本人");
    let page = debt_requests::new_form(&DEK, &book(), &masks(), now());
    assert_eq!(page.accounts.len(), 1);
    assert_eq!(page.default_expires_at, "2026-09-22T10:00");
}

#[test]
fn a_request_goes_its_way() {
    let form = request_form("borrow", 0);
    let (asked, expires_at) = ok(debt_requests::prepare(&DEK, &book(), &masks(), &form, now()));
    let row = ok(debt_requests::create(&DEK, &form, &asked, b"asked", expires_at, now()));
    assert!(verify_chain(&row));
    assert_eq!(decrypt_string(&DEK, &row.label), "向对方借款 · CNY 50.00");
    let token = decrypt_string(&DEK, &row.token);
    let rows = vec![row];
    let (at, bytes) = find_public_request(&rows, &token, now()).unwrap();
    assert!(find_public_request(&rows, &token, later()).is_none());
    assert_eq!(decrypt_snapshot(&rows[at], &bytes), Some(b"asked".to_vec()));
    assert_eq!(decrypt_submission(&rows[at], &bytes), None);
    match debt_requests::open(&rows[at], &Some(snapshot()), &None) {
        PublicPage::Form { requested_amount, amount_input, .. } => {
            assert_eq!((requested_amount.as_str(), amount_input.as_str()), ("CNY 50.00", "50.00"));
        }
        _ => panic!("no form"),
    }
    assert_eq!(account_identifier(&rows[at], &Some(snapshot())).unwrap().value, "62221234");
    let answer = SubmitRequestForm {
        payer_name: " 李四 ".to_owned(),
        payer_contact: "138".to_owned(),
        payer_account: "6217".to_owned(),
        amount: "50".to_owned(),
        note: "已付".to_owned(),
        paid_at: "2026-09-16T08:00".to_owned(),
    };
    let read = ok(read_answer(&rows[at], &Some(snapshot()), &answer).unwrap());
    assert_eq!((read.payer_name.as_str(), read.amount_cents), ("李四", 5_000));
    let long = SubmitRequestForm { note: "x".repeat(1001), ..answer };
    assert_eq!(said(read_answer(&rows[at], &Some(snapshot()), &long).unwrap()), "提交的信息过长");
    assert!(read_answer(&rows[at], &None, &long).is_none());
    let first_code = digest_code(chain_head(&rows[at]));
    assert_eq!(first_code.len(), 64 + 7);
    let row = rows.into_iter().next().unwrap();
    let row = debt_requests::submit(row, &bytes, b"told", now());
    assert!(verify_chain(&row));
    assert_eq!(decrypt_submission(&row, &bytes), Some(b"told".to_vec()));
    assert_ne!(digest_code(chain_head(&row)), first_code);
    match debt_requests::submitted_page(&row, &snapshot(), &submission()) {
        PublicPage::Receipt { paid_amount, verification_code, .. } => {
            assert_eq!(paid_amount, "CNY 50.00");
            assert_eq!(verification_code, digest_code(chain_head(&row)));
        }
        _ => panic!("no receipt"),
    }
    match debt_requests::open(&row, &Some(snapshot()), &Some(submission())) {
        PublicPage::Receipt { paid_amount, confirmed, .. } => {
            assert_eq!((paid_amount.as_str(), confirmed), ("CNY 50.00", false));
        }
        _ => panic!("no receipt"),
    }
    let rows = vec![row];
    let (request, token_bytes) = ok(find_to_confirm(&DEK, &rows, 0));
    assert_eq!(token_bytes, bytes);
    let added = ok(confirm(
        &DEK,
        &book(),
        &rates(),
        "CNY",
        request,
        &Some(snapshot()),
        &Some(submission()),
        now(),
    ));
    assert_eq!((&added.record.kind, added.record.account_id), (&request.kind, request.account_id));
    let person = added.person.unwrap();
    assert_eq!(decrypt_string(&DEK, &person.note), "联系方式：138\n打款账户：6217");
    assert_eq!(decrypt_cents(&DEK, &added.record.amount), 5_000);
    assert_eq!(decrypt_string(&DEK, &added.record.note), "房租 · 已付");
    assert_eq!(added.record.happened_at.date, day(2026, 9, 16));
    let row = mark_confirmed(rows.into_iter().next().unwrap(), 77, now());
    assert!(verify_chain(&row));
    assert_eq!(row.confirmed_debt_record_id, Some(77));
    let reads = vec![ReadRequest { snapshot: Some(snapshot()), submission: Some(submission()) }];
    let rows = vec![row];
    let views = debt_requests::list(&DEK, &rows, &reads, now());
    assert_eq!(views[0].status_label, "已确认到账");
    assert!(views[0].verification_ok && !views[0].can_confirm && !views[0].can_revoke);
    assert_eq!(said(revoke(&rows, 0)), "该请求不能再撤销");
    assert_eq!(said(find_to_confirm(&DEK, &rows, 0)), "请求尚未提交、已经处理或验证链不完整");
}

#[test]
fn a_changed_request_is_noticed() {
    let form = request_form("borrow", 0);
    let (asked, expires_at) = ok(debt_requests::prepare(&DEK, &book(), &masks(), &form, now()));
    let mut row = ok(debt_requests::create(&DEK, &form, &asked, b"asked", expires_at, now()));
    row.account_id = 2;
    assert!(!verify_chain(&row));
    assert!(matches!(
        debt_requests::open(&row, &Some(snapshot()), &None),
        PublicPage::Unavailable
    ));
    row.account_id = 1;
    row.person_id = Some(5);
    assert!(!verify_chain(&row));
    row.person_id = None;
    assert!(verify_chain(&row));
    assert_eq!(ok(revoke(&vec![row], 0)), "revoked");
}

#[test]
fn money_paid_back_cannot_exceed_what_is_owed() {
    let form = request_form("repayment_received", 1);
    let (asked, expires_at) = ok(debt_requests::prepare(&DEK, &book(), &masks(), &form, now()));
    let row = ok(debt_requests::create(&DEK, &form, &asked, b"asked", expires_at, now()));
    let attempt = |book: &Book| {
        confirm(&DEK, book, &rates(), "CNY", &row, &Some(snapshot()), &Some(submission()), now())
    };
    assert_eq!(said(attempt(&book())), "打款金额超过对方当前尚欠金额");
    let mut owing = book();
    owing.debts.push(debt_record::Model {
        id: 1,
        person_id: 1,
        account_id: 1,
        kind: "lend".to_owned(),
        amount: encrypt_cents(&DEK, 5_000),
        note: encrypt_string(&DEK, ""),
        happened_at: now(),
        created_at: now(),
    });
    owing.bills.clear();
    owing.accounts[0].balance_offset = encrypt_cents(&DEK, 10_000);
    let rows = ok(attempt(&owing));
    assert!(rows.person.is_none());
    assert_eq!(rows.record.person_id, 1);
    assert_eq!(
        said(confirm(&DEK, &owing, &rates(), "CNY", &row, &None, &None, now())),
        "请求快照无法解密"
    );
}

#[test]
fn passkeys_give_back_the_data_key() {
    let name = ok(start_registration(&StartRegistration { name: " 手机 ".to_owned() }));
    assert_eq!(name, "手机");
    assert_eq!(said(start_registration(&StartRegistration { name: " ".to_owned() })), "请填写 Passkey 名称");
    assert_eq!(
        said(start_registration(&StartRegistration { name: "x".repeat(81) })),
        "Passkey 名称不能超过 80 个字符"
    );
    let secret = flow_id();
    let row = ok(complete_registration(
        &DEK,
        true,
        vec![1, 2],
        "{}".to_owned(),
        "手机",
        &secret,
        now(),
    ));
    assert_eq!(decrypt_string(&DEK, &row.name), "手机");
    let rows = vec![row];
    assert_eq!(ok(finish_authentication(&rows, &vec![1, 2], &secret)), (0, DEK));
    assert_eq!(said(finish_authentication(&rows, &vec![3], &secret)), "Passkey 不存在");
    assert_eq!(
        said(finish_authentication(&rows, &vec![1, 2], &flow_id())),
        "Passkey PRF 输出无法解锁数据"
    );
    assert_eq!(said(decode_prf("AA")), "Passkey PRF 输出长度无效");
    assert_eq!(said(decode_prf("!")), "Passkey PRF 输出格式无效");
    assert_eq!(said(finish_registration(&rows, &vec![1, 2])), "该 Passkey 已注册");
    ok(finish_registration(&rows, &vec![9]));
    ok(start_authentication(&rows));
    assert_eq!(said(start_authentication(&Vec::new())), "尚未设置 Passkey");
    assert!(check_prf(true).is_ok() && check_prf(false).is_err());
    assert_eq!(prf_input(), "aGFydWthIHBhc3NrZXkgREVLIHdyYXBwaW5nIGtleSB2MQ");
}

#[test]
fn ceremonies_finish_once_and_in_time() {
    let mut flows: Flows<u32> = Flows::new();
    let (unknown, expired) = ceremony_messages(Ceremony::Registration);
    flows.insert("a".to_owned(), 1, 0);
    flows.insert("b".to_owned(), 2, 10);
    assert_eq!(ok(flows.take("a", 20, unknown, expired)), 1);
    assert_eq!(
        said(flows.take("a", 20, unknown, expired)),
        "Passkey 注册请求不存在或已使用，请重试"
    );
    assert_eq!(
        said(flows.take("b", 10 + CEREMONY_TTL, unknown, expired)),
        "Passkey 注册请求已过期，请重试"
    );
    for i in 0..64u32 {
        flows.insert(format!("{i}"), i, 0);
    }
    assert_eq!(flows.entries.len(), 64);
    flows.insert("last".to_owned(), 9, 0);
    assert_eq!(flows.entries.len(), 1);
    flows.insert("late".to_owned(), 9, CEREMONY_TTL);
    assert_eq!(flows.entries.len(), 1);
}

#[test]
fn sessions_are_found_by_their_cookies() {
    let mut sessions = Sessions::new();
    assert_eq!(sessions.any_session_dek(), None);
    let cookie = sessions.create_session(&DEK);
    assert!(cookie.ends_with("; Path=/; HttpOnly; SameSite=Strict"));
    let sent = format!("x=1; {}", cookie.split(';').next().unwrap());
    assert_eq!(session_token(Some(&sent)).unwrap().len(), 43);
    assert_eq!(session_dek(&sessions, Some(&sent)), Some(DEK));
    assert_eq!(session_dek(&sessions, Some("haruka_session=x")), None);
    assert_eq!(session_dek(&sessions, None), None);
    assert_eq!(sessions.any_session_dek(), Some(DEK));
    remove_session(&mut sessions, Some(&sent));
    assert_eq!(session_dek(&sessions, Some(&sent)), None);
    let again = sessions.create_session(&DEK);
    sessions.clear_sessions();
    assert_eq!(session_dek(&sessions, Some(&again)), None);
    assert!(clear_session_cookie().contains("Max-Age=0"));
    assert_eq!((unlock_target(true), unlock_target(false)), ("/unlock", "/setup"));
}

fn start(args: &[&str], listen: Variable, port: Variable) -> String {
    let args: Vec<String> = args.iter().map(|a| a.to_string()).collect();
    match resolve_listen_addr(&args, listen, port) {
        Start::Listen(addr) => addr,
        Start::Help => "help".to_owned(),
        Start::Refused(message) => message,
    }
}

#[test]
fn the_listen_address_has_its_precedence() {
    let none = || Variable::Missing;
    let with = |s: &str| Variable::Text(s.to_owned());
    assert_eq!(start(&[], none(), none()), "127.0.0.1:3000");
    assert_eq!(start(&[], none(), with(" 80 ")), "0.0.0.0:80");
    assert_eq!(start(&[], with("1.2.3.4:5"), with("80")), "1.2.3.4:5");
    assert_eq!(start(&["--port", "81"], with("1.2.3.4:5"), none()), "0.0.0.0:81");
    assert_eq!(start(&["--listen=::1:9"], none(), with("80")), "::1:9");
    assert_eq!(start(&["--listen=--listen=a"], none(), none()), "a");
    assert_eq!(start(&["--listen", "a", "--port=1"], none(), none()), "--listen 和 --port 不能同时使用");
    assert_eq!(start(&["--port"], none(), none()), "--port 后面缺少值");
    assert_eq!(start(&["--listen="], none(), none()), "--listen 后面缺少值");
    assert_eq!(start(&["x", "-h"], none(), none()), "未知参数：x");
    assert_eq!(start(&["-h", "x"], none(), none()), "help");
    assert_eq!(start(&[], with(" "), none()), "LISTEN_ADDR 不能为空");
    assert_eq!(start(&[], Variable::NotText, none()), "LISTEN_ADDR 不是有效文本");
    assert_eq!(start(&[], none(), Variable::NotText), "PORT 不是有效文本");
    assert_eq!(start(&[], none(), with("0")), "PORT 不能为 0");
    assert_eq!(port_addr("65536", "PORT").unwrap_err(), "PORT 必须是 1 到 65535 之间的端口号");
    assert_eq!(required_arg(&vec!["v".to_owned()], 0, "--x").unwrap(), "v");
    assert_eq!(default_passkey_origin("127.0.0.1:8080"), "http://localhost:8080");
    assert_eq!(default_passkey_origin("localhost"), "http://localhost:3000");
}

#[test]
fn the_database_is_set_up() {
    let steps = init_steps();
    assert_eq!(steps.len(), 38);
    assert!(matches!(steps[0], Step::CreateTable("meta")));
    assert!(matches!(steps[8], Step::EnsureColumn("accounts", "kind", _)));
    assert_eq!(columns_statement("bills"), "PRAGMA table_info(bills)");
    let columns = vec!["id".to_owned(), "kind".to_owned()];
    assert_eq!(ensure_column(&columns, "bills", "kind", "TEXT"), None);
    assert_eq!(
        ensure_column(&columns, "bills", "is_food", "BOOLEAN NOT NULL DEFAULT 0").unwrap(),
        "ALTER TABLE bills ADD COLUMN is_food BOOLEAN NOT NULL DEFAULT 0"
    );
    let grown = vec!["id".to_owned(), "is_food".to_owned()];
    assert_eq!(ensure_column(&grown, "bills", "is_food", "BOOLEAN NOT NULL DEFAULT 0"), None);
    assert_eq!(closed_days().len(), 37);
    assert_eq!(closed_days()[0].date, "2025-01-01");
    assert!(seed_market_closed_days()[36].contains("('2026-10-07', '国庆节', 'builtin'"));
}
