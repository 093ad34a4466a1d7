//! The messages of the bank: what kinds there are, and how one is read.
use regex::Regex;
use vstd::prelude::*;
use vstd::string::*;
use vstd::utf8::encode_utf8;

use crate::calendar::{
    day_of, in_calendar, in_shanghai, month_of, parse_rfc3339, parts, rfc3339_time, shanghai_time,
    Date, DateTime,
};
use crate::crypto::{digest_bytes, sha256};
use crate::decimal::{padded, push_padded};
use crate::error::{agrees, bad, bad_request, ErrorView, HandlerResult};
use crate::handlers::bills::text_view;
use crate::handlers::investments::trading::{
    invested, nonnegative, parse_amount, parse_nonnegative_amount,
};
use crate::text::{bounded, hex, hex_text, join3, join5, parse_u32, same, trimmed, unsigned_value};

verus! {

/// A message as it comes in: when it was received, and its text.
pub struct SmsWebhookData {
    pub time: String,
    pub raw: String,
}

/// What a message of the bank says.
#[allow(inconsistent_fields)]
pub enum SmsKind {
    /// An investment was carried out.
    Success { amount: i64, balance: Option<i64> },
    /// An investment failed.
    Failure { reason: String },
    /// Money was sent to an account at another bank.
    BankTransfer { recipient: String, amount: i64, balance: i64 },
    /// Something was paid.
    QuickPayment { description: String, amount: i64, balance: i64 },
}

/// What a message of the bank says, as a value.
#[allow(inconsistent_fields)]
pub enum KindView {
    Success { amount: i64, balance: Option<i64> },
    Failure { reason: Seq<char> },
    BankTransfer { recipient: Seq<char>, amount: i64, balance: i64 },
    QuickPayment { description: Seq<char>, amount: i64, balance: i64 },
}

impl View for SmsKind {
    type V = KindView;

    open spec fn view(&self) -> KindView {
        match *self {
            SmsKind::Success { amount, balance } => KindView::Success { amount, balance },
            SmsKind::Failure { reason } => KindView::Failure { reason: reason@ },
            SmsKind::BankTransfer { recipient, amount, balance } => KindView::BankTransfer {
                recipient: recipient@,
                amount,
                balance,
            },
            SmsKind::QuickPayment { description, amount, balance } => KindView::QuickPayment {
                description: description@,
                amount,
                balance,
            },
        }
    }
}

/// A message that was read.
pub struct PendingSms {
    pub event_hash: String,
    pub occurred_at: DateTime,
    pub raw: String,
    pub sms_date: Date,
    pub card_last4: String,
    pub fund_name: String,
    pub kind: SmsKind,
}

/// A message that was read, as a value.
pub struct SmsView {
    pub event_hash: Seq<char>,
    pub occurred_at: DateTime,
    pub raw: Seq<char>,
    pub sms_date: Date,
    pub card_last4: Seq<char>,
    pub fund_name: Seq<char>,
    pub kind: KindView,
}

impl View for PendingSms {
    type V = SmsView;

    open spec fn view(&self) -> SmsView {
        SmsView {
            event_hash: self.event_hash@,
            occurred_at: self.occurred_at,
            raw: self.raw@,
            sms_date: self.sms_date,
            card_last4: self.card_last4@,
            fund_name: self.fund_name@,
            kind: self.kind@,
        }
    }
}

/// The kinds of messages that are known.
#[derive(Clone, Copy, Debug, PartialEq, Eq, Structural)]
pub enum Template {
    InvestmentSuccess,
    InvestmentFailure,
    BankTransfer,
    QuickPayment,
}

/// How messages of a kind are written, in the notation of regular expressions.
pub open spec fn pattern_of(template: Template) -> Seq<char> {
    match template {
        Template::InvestmentSuccess => r"^【招商银行】您尾号(?P<last4>\d{4})的账户于(?P<month>\d{2})月(?P<day>\d{2})日执行「(?P<fund>.+?)」的(?:聪明)?定投计划，扣款(?P<amount>\d+(?:\.\d{1,2})?)元，活期余额(?P<balance>\d+(?:\.\d{1,2})?)元[。.]?$"@,
        Template::InvestmentFailure => r"^【招商银行】您尾号(?P<last4>\d{4})的账户于(?P<month>\d{2})月(?P<day>\d{2})日存在\d+笔定投计划执行失败，原因：(?P<reason>.+?涉及(?P<fund>[^。，,]+))(?:。查看计划.*)?[。.]?$"@,
        Template::BankTransfer => r"^【招商银行】您账户(?P<last4>\d{4})于(?P<month>\d{2})月(?P<day>\d{2})日(?P<hour>\d{2}):(?P<minute>\d{2})实时转至他行人民币(?P<amount>\d+(?:\.\d{1,2})?)(?:元)?，余额(?P<balance>\d+(?:\.\d{1,2})?)(?:元)?，收款人(?P<recipient>.+?)[。.]?$"@,
        Template::QuickPayment => r"^【招商银行】您账户(?P<last4>\d{4})于(?P<month>\d{2})月(?P<day>\d{2})日(?P<hour>\d{2}):(?P<minute>\d{2})在(?P<description>.+?)快捷支付(?P<amount>\d+(?:\.\d{1,2})?)元，余额(?P<balance>\d+(?:\.\d{1,2})?)(?:元)?[。.]?$"@,
    }
}

fn pattern(template: Template) -> (r: &'static str)
    ensures
        r@ == pattern_of(template),
{
    match template {
        Template::InvestmentSuccess => r"^【招商银行】您尾号(?P<last4>\d{4})的账户于(?P<month>\d{2})月(?P<day>\d{2})日执行「(?P<fund>.+?)」的(?:聪明)?定投计划，扣款(?P<amount>\d+(?:\.\d{1,2})?)元，活期余额(?P<balance>\d+(?:\.\d{1,2})?)元[。.]?$",
        Template::InvestmentFailure => r"^【招商银行】您尾号(?P<last4>\d{4})的账户于(?P<month>\d{2})月(?P<day>\d{2})日存在\d+笔定投计划执行失败，原因：(?P<reason>.+?涉及(?P<fund>[^。，,]+))(?:。查看计划.*)?[。.]?$",
        Template::BankTransfer => r"^【招商银行】您账户(?P<last4>\d{4})于(?P<month>\d{2})月(?P<day>\d{2})日(?P<hour>\d{2}):(?P<minute>\d{2})实时转至他行人民币(?P<amount>\d+(?:\.\d{1,2})?)(?:元)?，余额(?P<balance>\d+(?:\.\d{1,2})?)(?:元)?，收款人(?P<recipient>.+?)[。.]?$",
        Template::QuickPayment => r"^【招商银行】您账户(?P<last4>\d{4})于(?P<month>\d{2})月(?P<day>\d{2})日(?P<hour>\d{2}):(?P<minute>\d{2})在(?P<description>.+?)快捷支付(?P<amount>\d+(?:\.\d{1,2})?)元，余额(?P<balance>\d+(?:\.\d{1,2})?)(?:元)?[。.]?$",
    }
}

/// The named groups of a regular expression that took part in its first match in a text, each with
/// what it matched; none where the expression does not match or is none.
pub uninterp spec fn regex_groups(pattern: Seq<char>, text: Seq<char>) -> Option<
    Map<Seq<char>, Seq<char>>,
>;

/// What a named group matched, where it took part.
pub open spec fn group_in(groups: Map<Seq<char>, Seq<char>>, name: Seq<char>) -> Option<Seq<char>> {
    if groups.dom().contains(name) {
        Some(groups[name])
    } else {
        None
    }
}

/// `Regex::captures` and `Captures::name` of regex: the first match of an expression in a text,
/// and what the groups with these names matched in it. All of it is a function of the expression
/// and the text. An expression that `Regex::new` refuses matches nothing.
#[verifier::external_body]
fn captures(pattern: &str, text: &str, names: &Vec<&'static str>) -> (r: Option<
    Vec<Option<String>>,
>)
    ensures
        match (r, regex_groups(pattern@, text@)) {
            (Some(values), Some(groups)) => values@.len() == names@.len() && forall|i: int|
                0 <= i < names@.len() ==> text_view(#[trigger] values@[i]) == group_in(
                    groups,
                    names@[i]@,
                ),
            (None, None) => true,
            _ => false,
        },
{
    let found = Regex::new(pattern).ok()?.captures(text)?;
    let value = |name: &&str| found.name(name).map(|part| part.as_str().to_owned());
    Some(names.iter().map(value).collect())
}

/// The parts of a message.
pub struct SmsGroups {
    pub last4: Option<String>,
    pub month: Option<String>,
    pub day: Option<String>,
    pub hour: Option<String>,
    pub minute: Option<String>,
    pub fund: Option<String>,
    pub reason: Option<String>,
    pub amount: Option<String>,
    pub balance: Option<String>,
    pub recipient: Option<String>,
    pub description: Option<String>,
}

/// The parts of a message, as values.
pub struct GroupsView {
    pub last4: Option<Seq<char>>,
    pub month: Option<Seq<char>>,
    pub day: Option<Seq<char>>,
    pub hour: Option<Seq<char>>,
    pub minute: Option<Seq<char>>,
    pub fund: Option<Seq<char>>,
    pub reason: Option<Seq<char>>,
    pub amount: Option<Seq<char>>,
    pub balance: Option<Seq<char>>,
    pub recipient: Option<Seq<char>>,
    pub description: Option<Seq<char>>,
}

impl View for SmsGroups {
    type V = GroupsView;

    open spec fn view(&self) -> GroupsView {
        GroupsView {
            last4: text_view(self.last4),
            month: text_view(self.month),
            day: text_view(self.day),
            hour: text_view(self.hour),
            minute: text_view(self.minute),
            fund: text_view(self.fund),
            reason: text_view(self.reason),
            amount: text_view(self.amount),
            balance: text_view(self.balance),
            recipient: text_view(self.recipient),
            description: text_view(self.description),
        }
    }
}

/// The parts of a message by their names.
pub open spec fn groups_of(groups: Map<Seq<char>, Seq<char>>) -> GroupsView {
    GroupsView {
        last4: group_in(groups, "last4"@),
        month: group_in(groups, "month"@),
        day: group_in(groups, "day"@),
        hour: group_in(groups, "hour"@),
        minute: group_in(groups, "minute"@),
        fund: group_in(groups, "fund"@),
        reason: group_in(groups, "reason"@),
        amount: group_in(groups, "amount"@),
        balance: group_in(groups, "balance"@),
        recipient: group_in(groups, "recipient"@),
        description: group_in(groups, "description"@),
    }
}

/// The parts of a text that is a message of a kind; none where it is not.
pub open spec fn matched(template: Template, text: Seq<char>) -> Option<GroupsView> {
    match regex_groups(pattern_of(template), text) {
        Some(groups) => Some(groups_of(groups)),
        None => None,
    }
}

/// Reads the parts of a message of a kind.
pub fn match_template(template: Template, text: &str) -> (r: Option<SmsGroups>)
    ensures
        match r {
            Some(groups) => matched(template, text@) == Some(groups@),
            None => matched(template, text@) is None,
        },
{
    let names: Vec<&'static str> = vec![
        "description",
        "recipient",
        "balance",
        "amount",
        "reason",
        "fund",
        "minute",
        "hour",
        "day",
        "month",
        "last4",
    ];
    let mut values = match captures(pattern(template), text, &names) {
        Some(values) => values,
        None => return None,
    };
    let ghost all = values@;
    proof {
        assert(forall|i: int|
            0 <= i < 11 ==> text_view(#[trigger] all[i]) == group_in(
                regex_groups(pattern_of(template), text@)->0,
                names@[i]@,
            ));
    }
    let last4 = values.pop().unwrap();
    let month = values.pop().unwrap();
    let day = values.pop().unwrap();
    let hour = values.pop().unwrap();
    let minute = values.pop().unwrap();
    let fund = values.pop().unwrap();
    let reason = values.pop().unwrap();
    let amount = values.pop().unwrap();
    let balance = values.pop().unwrap();
    let recipient = values.pop().unwrap();
    let description = values.pop().unwrap();
    Some(
        SmsGroups {
            last4,
            month,
            day,
            hour,
            minute,
            fund,
            reason,
            amount,
            balance,
            recipient,
            description,
        },
    )
}

/// A part that a message has to have.
pub open spec fn required(value: Option<Seq<char>>, name: Seq<char>) -> Result<
    Seq<char>,
    ErrorView,
> {
    match value {
        Some(text) => Ok(text),
        None => Err(bad("短信缺少 "@ + name + " 字段"@)),
    }
}

/// A part that a message has to have.
pub fn capture<'a>(value: &'a Option<String>, name: &str) -> (r: HandlerResult<&'a str>)
    ensures
        match (r, required(text_view(*value), name@)) {
            (Ok(text), Ok(wanted)) => text@ == wanted,
            (Err(error), Err(wanted)) => error@ == wanted,
            _ => false,
        },
{
    match value {
        Some(text) => Ok(text.as_str()),
        None => Err(bad_request(&join3("短信缺少 ", name, " 字段"))),
    }
}

/// A day as month and day of the month.
pub open spec fn sms_day_text(date: Date) -> Seq<char> {
    padded(month_of(date), 2) + "月"@ + padded(day_of(date), 2) + "日"@
}

fn write_sms_day(date: Date) -> (r: String)
    ensures
        r@ == sms_day_text(date),
{
    let (_year, month, day) = parts(date);
    let mut s = String::new();
    push_padded(&mut s, month as u128, 2);
    s.append("月");
    push_padded(&mut s, day as u128, 2);
    s.append("日");
    proof {
        assert(s@ =~= sms_day_text(date));
    }
    s
}

/// The day of a message, which has to be the local one when it was received.
pub open spec fn day_checked(value: Seq<char>, local: Date) -> Result<Date, ErrorView> {
    if value == sms_day_text(local) {
        Ok(local)
    } else {
        Err(
            bad(
                "短信日期 "@ + value + " 与 time 对应的北京时间 "@ + sms_day_text(local)
                    + " 不一致"@,
            ),
        )
    }
}

/// Holds the day of a message against the local one when it was received.
pub fn sms_date(value: &str, local: Date) -> (r: HandlerResult<Date>)
    ensures
        agrees(r, day_checked(value@, local)),
{
    let expected = write_sms_day(local);
    if same(value, &expected) {
        Ok(local)
    } else {
        Err(
            bad_request(
                &join5(
                    "短信日期 ",
                    value,
                    " 与 time 对应的北京时间 ",
                    &expected,
                    " 不一致",
                ),
            ),
        )
    }
}

/// A number of at most 32 bits that a text denotes.
pub open spec fn number32(s: Seq<char>) -> Option<int> {
    bounded(unsigned_value(s), 0, u32::MAX as int)
}

/// The day of a message. It has to be the local day when the message was received; where the
/// message tells the hour and the minute, these have to be the local ones.
pub open spec fn time_checked(groups: GroupsView, local: Date, second: int) -> Result<
    Date,
    ErrorView,
> {
    match required(groups.month, "month"@) {
        Err(e) => Err(e),
        Ok(month) => match required(groups.day, "day"@) {
            Err(e) => Err(e),
            Ok(day) => match day_checked(month + "月"@ + day + "日"@, local) {
                Err(e) => Err(e),
                Ok(date) => match (groups.hour, groups.minute) {
                    (Some(hour), Some(minute)) => if number32(hour) is None {
                        Err(bad("短信小时格式不正确"@))
                    } else if number32(minute) is None {
                        Err(bad("短信分钟格式不正确"@))
                    } else if number32(hour) != Some(second / 3600) || number32(minute) != Some(
                        second / 60 % 60,
                    ) {
                        Err(bad("短信时分与 time 对应的北京时间不一致"@))
                    } else {
                        Ok(date)
                    },
                    _ => Ok(date),
                },
            },
        },
    }
}

/// Holds the time of a message against the local one when it was received.
pub fn validate_captured_time(groups: &SmsGroups, local: Date, second: u32) -> (r: HandlerResult<
    Date,
>)
    ensures
        agrees(r, time_checked(groups@, local, second as int)),
{
    let month = match capture(&groups.month, "month") {
        Ok(month) => month,
        Err(error) => return Err(error),
    };
    let day = match capture(&groups.day, "day") {
        Ok(day) => day,
        Err(error) => return Err(error),
    };
    let date = match sms_date(&crate::text::join4(month, "月", day, "日"), local) {
        Ok(date) => date,
        Err(error) => return Err(error),
    };
    if let Some(hour) = &groups.hour {
        if let Some(minute) = &groups.minute {
            let sms_hour: u32 = match parse_u32(hour) {
                Some(n) => n,
                None => return Err(bad_request("短信小时格式不正确")),
            };
            let sms_minute: u32 = match parse_u32(minute) {
                Some(n) => n,
                None => return Err(bad_request("短信分钟格式不正确")),
            };
            if second / 3600 != sms_hour || second / 60 % 60 != sms_minute {
                return Err(bad_request("短信时分与 time 对应的北京时间不一致"));
            }
        }
    }
    Ok(date)
}

/// The fund that a message of a kind names, white space around it aside. Only messages on
/// investments name one.
pub open spec fn fund_of(template: Template, groups: GroupsView) -> Result<Seq<char>, ErrorView> {
    match template {
        Template::InvestmentSuccess | Template::InvestmentFailure => match required(
            groups.fund,
            "fund"@,
        ) {
            Err(e) => Err(e),
            Ok(fund) => Ok(trimmed(fund)),
        },
        _ => Ok(Seq::empty()),
    }
}

/// The amount and the balance that a message tells.
pub open spec fn money_of(groups: GroupsView, field: Seq<char>) -> Result<(i64, i64), ErrorView> {
    match required(groups.amount, "amount"@) {
        Err(e) => Err(e),
        Ok(amount) => match invested(amount) {
            Err(e) => Err(e),
            Ok(amount) => match required(groups.balance, "balance"@) {
                Err(e) => Err(e),
                Ok(balance) => match nonnegative(balance, field) {
                    Err(e) => Err(e),
                    Ok(balance) => Ok((amount, balance)),
                },
            },
        },
    }
}

fn read_money(groups: &SmsGroups, field: &str) -> (r: HandlerResult<(i64, i64)>)
    ensures
        agrees(r, money_of(groups@, field@)),
        r matches Ok(money) ==> money.0 > 0 && money.1 >= 0,
{
    let amount: i64 = match capture(&groups.amount, "amount") {
        Err(error) => return Err(error),
        Ok(text) => match parse_amount(text) {
            Ok(amount) => amount,
            Err(error) => return Err(error),
        },
    };
    match capture(&groups.balance, "balance") {
        Err(error) => Err(error),
        Ok(text) => match parse_nonnegative_amount(text, field) {
            Ok(balance) => Ok((amount, balance)),
            Err(error) => Err(error),
        },
    }
}

/// What a message of a kind says.
pub open spec fn kind_of(template: Template, groups: GroupsView) -> Result<KindView, ErrorView> {
    match template {
        Template::InvestmentSuccess => match money_of(groups, "短信活期余额"@) {
            Err(e) => Err(e),
            Ok(money) => Ok(KindView::Success { amount: money.0, balance: Some(money.1) }),
        },
        Template::InvestmentFailure => match required(groups.reason, "reason"@) {
            Err(e) => Err(e),
            Ok(reason) => Ok(KindView::Failure { reason: trimmed(reason) }),
        },
        Template::BankTransfer => match required(groups.recipient, "recipient"@) {
            Err(e) => Err(e),
            Ok(recipient) => match money_of(groups, "短信余额"@) {
                Err(e) => Err(e),
                Ok(money) => Ok(
                    KindView::BankTransfer {
                        recipient: trimmed(recipient),
                        amount: money.0,
                        balance: money.1,
                    },
                ),
            },
        },
        Template::QuickPayment => match required(groups.description, "description"@) {
            Err(e) => Err(e),
            Ok(description) => match money_of(groups, "短信余额"@) {
                Err(e) => Err(e),
                Ok(money) => Ok(
                    KindView::QuickPayment {
                        description: trimmed(description),
                        amount: money.0,
                        balance: money.1,
                    },
                ),
            },
        },
    }
}

fn read_kind(template: Template, groups: &SmsGroups) -> (r: HandlerResult<SmsKind>)
    ensures
        match (r, kind_of(template, groups@)) {
            (Ok(kind), Ok(wanted)) => kind@ == wanted,
            (Err(error), Err(wanted)) => error@ == wanted,
            _ => false,
        },
{
    match template {
        Template::InvestmentSuccess => match read_money(groups, "短信活期余额") {
            Err(error) => Err(error),
            Ok(money) => Ok(SmsKind::Success { amount: money.0, balance: Some(money.1) }),
        },
        Template::InvestmentFailure => match capture(&groups.reason, "reason") {
            Err(error) => Err(error),
            Ok(reason) => Ok(SmsKind::Failure { reason: reason.trim().to_owned() }),
        },
        Template::BankTransfer => match capture(&groups.recipient, "recipient") {
            Err(error) => Err(error),
            Ok(recipient) => match read_money(groups, "短信余额") {
                Err(error) => Err(error),
                Ok(money) => Ok(
                    SmsKind::BankTransfer {
                        recipient: recipient.trim().to_owned(),
                        amount: money.0,
                        balance: money.1,
                    },
                ),
            },
        },
        Template::QuickPayment => match capture(&groups.description, "description") {
            Err(error) => Err(error),
            Ok(description) => match read_money(groups, "短信余额") {
                Err(error) => Err(error),
                Ok(money) => Ok(
                    SmsKind::QuickPayment {
                        description: description.trim().to_owned(),
                        amount: money.0,
                        balance: money.1,
                    },
                ),
            },
        },
    }
}

/// The message that its parts make, or why they are refused.
pub open spec fn sms_of_parts(
    template: Template,
    groups: GroupsView,
    event_hash: Seq<char>,
    occurred_at: DateTime,
    raw: Seq<char>,
    local: Date,
    second: int,
) -> Result<SmsView, ErrorView> {
    match time_checked(groups, local, second) {
        Err(e) => Err(e),
        Ok(sms_date) => match required(groups.last4, "last4"@) {
            Err(e) => Err(e),
            Ok(card_last4) => match fund_of(template, groups) {
                Err(e) => Err(e),
                Ok(fund_name) => match kind_of(template, groups) {
                    Err(e) => Err(e),
                    Ok(kind) => Ok(
                        SmsView {
                            event_hash,
                            occurred_at,
                            raw,
                            sms_date,
                            card_last4,
                            fund_name,
                            kind,
                        },
                    ),
                },
            },
        },
    }
}

/// Makes a message of a kind out of its parts, for the local day and the second of the day at
/// which it was received.
pub fn read_sms(
    template: Template,
    groups: &SmsGroups,
    event_hash: &str,
    occurred_at: DateTime,
    raw: &str,
    local: Date,
    second: u32,
) -> (r: HandlerResult<PendingSms>)
    ensures
        match (
            r,
            sms_of_parts(
                template,
                groups@,
                event_hash@,
                occurred_at,
                raw@,
                local,
                second as int,
            ),
        ) {
            (Ok(sms), Ok(wanted)) => sms@ == wanted,
            (Err(error), Err(wanted)) => error@ == wanted,
            _ => false,
        },
{
    let date = match validate_captured_time(groups, local, second) {
        Ok(date) => date,
        Err(error) => return Err(error),
    };
    let card_last4 = match capture(&groups.last4, "last4") {
        Ok(last4) => last4.to_owned(),
        Err(error) => return Err(error),
    };
    let fund_name = match template {
        Template::InvestmentSuccess | Template::InvestmentFailure => match capture(
            &groups.fund,
            "fund",
        ) {
            Ok(fund) => fund.trim().to_owned(),
            Err(error) => return Err(error),
        },
        _ => String::new(),
    };
    proof {
        assert(fund_name@ =~= fund_of(template, groups@)->Ok_0);
    }
    match read_kind(template, groups) {
        Err(error) => Err(error),
        Ok(kind) => Ok(
            PendingSms {
                event_hash: event_hash.to_owned(),
                occurred_at,
                raw: raw.to_owned(),
                sms_date: date,
                card_last4,
                fund_name,
                kind,
            },
        ),
    }
}

/// The number of a message: the digest of its time and its text, white space around them aside.
pub open spec fn hash_text(time: Seq<char>, raw: Seq<char>) -> Seq<char> {
    hex_text(
        sha256(encode_utf8(trimmed(time)) + seq![10u8] + encode_utf8(trimmed(raw))),
    )
}

/// The number of a message.
pub fn event_hash(time: &str, raw: &str) -> (r: String)
    ensures
        r@ == hash_text(time@, raw@),
{
    let mut bytes: Vec<u8> = Vec::new();
    bytes.extend_from_slice(time.trim().as_bytes());
    bytes.push(10);
    bytes.extend_from_slice(raw.trim().as_bytes());
    proof {
        assert(bytes@ =~= encode_utf8(trimmed(time@)) + seq![10u8] + encode_utf8(trimmed(raw@)));
    }
    hex(digest_bytes(bytes.as_slice()).as_slice())
}

/// The kind of a message and its parts: the first kind that it matches.
pub open spec fn recognised(text: Seq<char>) -> Option<(Template, GroupsView)> {
    match matched(Template::InvestmentSuccess, text) {
        Some(groups) => Some((Template::InvestmentSuccess, groups)),
        None => match matched(Template::InvestmentFailure, text) {
            Some(groups) => Some((Template::InvestmentFailure, groups)),
            None => match matched(Template::BankTransfer, text) {
                Some(groups) => Some((Template::BankTransfer, groups)),
                None => match matched(Template::QuickPayment, text) {
                    Some(groups) => Some((Template::QuickPayment, groups)),
                    None => None,
                },
            },
        },
    }
}

fn recognise(text: &str) -> (r: Option<(Template, SmsGroups)>)
    ensures
        match r {
            Some((template, groups)) => recognised(text@) == Some((template, groups@)),
            None => recognised(text@) is None,
        },
{
    if let Some(groups) = match_template(Template::InvestmentSuccess, text) {
        Some((Template::InvestmentSuccess, groups))
    } else if let Some(groups) = match_template(Template::InvestmentFailure, text) {
        Some((Template::InvestmentFailure, groups))
    } else if let Some(groups) = match_template(Template::BankTransfer, text) {
        Some((Template::BankTransfer, groups))
    } else if let Some(groups) = match_template(Template::QuickPayment, text) {
        Some((Template::QuickPayment, groups))
    } else {
        None
    }
}

/// The most bytes that the text of a message may have.
pub const LONGEST_SMS: usize = 4096;

/// The message that a text is which was received at a time, or why it is none.
pub open spec fn sms_received_at(
    event_hash: Seq<char>,
    occurred_at: DateTime,
    raw: Seq<char>,
) -> Result<SmsView, ErrorView> {
    match recognised(trimmed(raw)) {
        None => Err(bad("无法匹配已支持的招商银行短信模板"@)),
        Some((template, groups)) => {
            let local = shanghai_time(occurred_at.date.days as int, occurred_at.second as int);
            sms_of_parts(
                template,
                groups,
                event_hash,
                occurred_at,
                trimmed(raw),
                Date { days: local.0 as i32 },
                local.1,
            )
        },
    }
}

fn read_received(event_hash: &str, occurred_at: DateTime, raw: &str) -> (r: HandlerResult<
    PendingSms,
>)
    requires
        in_calendar(occurred_at.date.days - 1),
        in_calendar(occurred_at.date.days + 1),
        occurred_at.second < 86400,
    ensures
        match (r, sms_received_at(event_hash@, occurred_at, raw@)) {
            (Ok(sms), Ok(wanted)) => sms@ == wanted,
            (Err(error), Err(wanted)) => error@ == wanted,
            _ => false,
        },
{
    let text = raw.trim();
    match recognise(text) {
        None => Err(bad_request("无法匹配已支持的招商银行短信模板")),
        Some((template, groups)) => {
            let (local, second) = in_shanghai(occurred_at.date, occurred_at.second);
            read_sms(template, &groups, event_hash, occurred_at, text, local, second)
        },
    }
}

/// The message that a text is, with the time at which it was received, or why it is none.
pub open spec fn sms_of_data(time: Seq<char>, raw: Seq<char>) -> Result<SmsView, ErrorView> {
    if encode_utf8(raw).len() > LONGEST_SMS {
        Err(bad("raw 短信内容不能超过 4096 字节"@))
    } else {
        match rfc3339_time(trimmed(time)) {
            None => Err(bad("time 必须是带时区的 ISO8601 日期时间"@)),
            Some((day, second, nano)) => sms_received_at(
                hash_text(time, raw),
                DateTime {
                    date: Date { days: day as i32 },
                    second: second as u32,
                    nano: nano as u32,
                },
                raw,
            ),
        }
    }
}

/// Reads a message.
pub fn parse_sms(data: &SmsWebhookData) -> (r: HandlerResult<PendingSms>)
    ensures
        match (r, sms_of_data(data.time@, data.raw@)) {
            (Ok(sms), Ok(wanted)) => sms@ == wanted,
            (Err(error), Err(wanted)) => error@ == wanted,
            _ => false,
        },
{
    if data.raw.as_str().as_bytes().len() > LONGEST_SMS {
        return Err(bad_request("raw 短信内容不能超过 4096 字节"));
    }
    match parse_rfc3339(data.time.as_str().trim()) {
        None => Err(bad_request("time 必须是带时区的 ISO8601 日期时间")),
        Some(occurred_at) => read_received(
            &event_hash(&data.time, &data.raw),
            occurred_at,
            &data.raw,
        ),
    }
}

/// A day that the notation of times reaches: from the first of the year 0 to the last of the year
/// 9999.
pub open spec fn has_four_digits(date: Date) -> bool {
    -365 <= date.days <= 3652059
}

/// The message that was stored under a number with its time and its text, or why it is none.
pub open spec fn sms_stored(event_hash: Seq<char>, occurred_at: DateTime, raw: Seq<char>) -> Result<
    SmsView,
    ErrorView,
> {
    if encode_utf8(raw).len() > LONGEST_SMS {
        Err(bad("raw 短信内容不能超过 4096 字节"@))
    } else if !has_four_digits(occurred_at.date) {
        Err(bad("time 必须是带时区的 ISO8601 日期时间"@))
    } else {
        sms_received_at(event_hash, occurred_at, raw)
    }
}

/// Reads a message that was stored.
pub fn restore_sms(event_hash: &str, occurred_at: DateTime, raw: &str) -> (r: HandlerResult<
    PendingSms,
>)
    requires
        occurred_at.second < 86400,
    ensures
        match (r, sms_stored(event_hash@, occurred_at, raw@)) {
            (Ok(sms), Ok(wanted)) => sms@ == wanted,
            (Err(error), Err(wanted)) => error@ == wanted,
            _ => false,
        },
{
    if raw.as_bytes().len() > LONGEST_SMS {
        return Err(bad_request("raw 短信内容不能超过 4096 字节"));
    }
    if occurred_at.date.days < -365 || occurred_at.date.days > 3652059 {
        return Err(bad_request("time 必须是带时区的 ISO8601 日期时间"));
    }
    read_received(event_hash, occurred_at, raw)
}

/// A message that was read is read again in the same way once it is stored with its time and its
/// text, unless its time lies outside of the years that the notation of times reaches.
pub proof fn stored_sms_reads_back(time: Seq<char>, raw: Seq<char>)
    requires
        sms_of_data(time, raw) matches Ok(sms) && has_four_digits(sms.occurred_at.date),
    ensures
        ({
            let sms = sms_of_data(time, raw)->Ok_0;
            sms_stored(sms.event_hash, sms.occurred_at, sms.raw) == Ok::<SmsView, ErrorView>(sms)
        }),
{
    crate::text::trimmed_twice(raw);
    crate::text::trimmed_bytes(raw);
}

} // verus!
