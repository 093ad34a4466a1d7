//! What is done with the messages of the bank.
use vstd::prelude::*;
use vstd::string::*;

use crate::book::{find, found};
use crate::calendar::{date_text, date_to_text, DateTime};
use crate::crypto::{
    decrypt_string, encrypt_string, is_sealable, plain, sealable, Dek,
};
use crate::decimal::{cents_text, fmt_cents};
use crate::entity::{account_detail, investment_sms_event, preference, recurring_investment};
use crate::error::{text_too_long, too_long, ErrorView, HandlerResult};
use crate::handlers::investments::execution::{
    day_carried_out, execute_plan_day, find_executed, run_view, was_executed, DayRun, Ledger,
    Occasion,
};
use crate::handlers::investments::sms::{KindView, PendingSms, SmsKind, SmsView};
use crate::text::{
    chars_of, contains, digits_of, ends_with, has_end, has_part, is_white, join2, join3, join4,
    join5, keep_digits, lower_char, lower_of, same, trimmed, white_space,
};

verus! {

/// The name of a kind of message.
pub open spec fn kind_name(kind: KindView) -> Seq<char> {
    match kind {
        KindView::Success { .. } => "success"@,
        KindView::Failure { .. } => "failure"@,
        KindView::BankTransfer { .. } => "bank_transfer"@,
        KindView::QuickPayment { .. } => "quick_payment"@,
    }
}

fn name_kind(kind: &SmsKind) -> (r: &'static str)
    ensures
        r@ == kind_name(kind@),
{
    match kind {
        SmsKind::Success { .. } => "success",
        SmsKind::Failure { .. } => "failure",
        SmsKind::BankTransfer { .. } => "bank_transfer",
        SmsKind::QuickPayment { .. } => "quick_payment",
    }
}

/// What is kept of a message.
pub struct EventNote {
    pub plan_id: Option<i64>,
    pub status: Seq<char>,
    pub detail: Seq<char>,
}

/// A row keeps what is to be kept of a message.
pub open spec fn is_event(
    e: investment_sms_event::Model,
    dek: Seq<u8>,
    sms: SmsView,
    note: EventNote,
) -> bool {
    &&& e.event_hash@ == sms.event_hash
    &&& e.occurred_at == sms.occurred_at
    &&& e.kind@ == kind_name(sms.kind)
    &&& e.status@ == note.status
    &&& e.plan_id == note.plan_id
    &&& plain(dek, e.raw@) == sms.raw
    &&& plain(dek, e.detail@) == note.detail
}

/// The first place, from a place on, at which a message with a number is kept; the length of the
/// list where it is not.
pub open spec fn event_place(
    events: Seq<investment_sms_event::Model>,
    event_hash: Seq<char>,
    from: int,
) -> int
    decreases events.len() - from,
{
    if from >= events.len() {
        events.len() as int
    } else if events[from].event_hash@ == event_hash {
        from
    } else {
        event_place(events, event_hash, from + 1)
    }
}

/// The first place at which a message with a number is kept.
pub fn find_event(events: &Vec<investment_sms_event::Model>, event_hash: &str) -> (r: usize)
    ensures
        r == event_place(events@, event_hash@, 0),
        r <= events@.len(),
        r < events@.len() ==> events@[r as int].event_hash@ == event_hash@,
{
    let mut i: usize = 0;
    while i < events.len()
        invariant
            i <= events.len(),
            event_place(events@, event_hash@, 0) == event_place(events@, event_hash@, i as int),
        decreases events.len() - i,
    {
        if same(&events[i].event_hash, event_hash) {
            return i;
        }
        i = i + 1;
    }
    i
}

/// The messages that are kept once one is recorded: the row of a message that is kept already is
/// changed, a new message gets a new row.
pub open spec fn event_recorded(
    before: Seq<investment_sms_event::Model>,
    after: Seq<investment_sms_event::Model>,
    dek: Seq<u8>,
    sms: SmsView,
    note: EventNote,
    now: DateTime,
) -> bool {
    let at = event_place(before, sms.event_hash, 0);
    if at < before.len() {
        &&& after == before.update(at, after[at])
        &&& is_event(after[at], dek, sms, note)
        &&& after[at].id == before[at].id
        &&& after[at].transfer_id == before[at].transfer_id
        &&& after[at].created_at == before[at].created_at
    } else {
        &&& after == before.push(after[at])
        &&& is_event(after[at], dek, sms, note)
        &&& after[at].transfer_id is None
        &&& after[at].created_at == now
    }
}

/// A message and what is noted of it are short enough to be encrypted.
pub open spec fn note_fits(sms: SmsView, note: EventNote) -> bool {
    sealable(sms.raw) && sealable(note.detail)
}

/// Keeps a message with what came of it.
pub fn record_sms_event(
    dek: &Dek,
    events: &mut Vec<investment_sms_event::Model>,
    sms: &PendingSms,
    plan_id: Option<i64>,
    status: &str,
    detail: &str,
    now: DateTime,
) -> (r: HandlerResult<()>)
    ensures
        ({
            let note = EventNote { plan_id, status: status@, detail: detail@ };
            match r {
                Ok(_) => note_fits(sms@, note) && event_recorded(
                    old(events)@,
                    final(events)@,
                    dek@,
                    sms@,
                    note,
                    now,
                ),
                Err(error) => !note_fits(sms@, note) && *final(events) == *old(events) && error@
                    == too_long(),
            }
        }),
{
    if !is_sealable(&sms.raw) || !is_sealable(detail) {
        return Err(text_too_long());
    }
    let at: usize = find_event(events, &sms.event_hash);
    let ghost before = events@;
    let known: bool = at < events.len();
    let row = investment_sms_event::Model {
        id: if known {
            events[at].id
        } else {
            0
        },
        event_hash: sms.event_hash.clone(),
        occurred_at: sms.occurred_at,
        kind: name_kind(&sms.kind).to_owned(),
        status: status.to_owned(),
        plan_id,
        transfer_id: if known {
            events[at].transfer_id
        } else {
            None
        },
        raw: encrypt_string(dek, &sms.raw),
        detail: encrypt_string(dek, detail),
        created_at: if known {
            events[at].created_at
        } else {
            now
        },
    };
    if known {
        events.set(at, row);
        proof {
            assert(events@ =~= before.update(at as int, events@[at as int]));
        }
    } else {
        events.push(row);
        proof {
            assert(events@ =~= before.push(events@[at as int]));
        }
    }
    Ok(())
}

/// A card has these last digits.
pub open spec fn card_ends(
    dek: Seq<u8>,
    details: Seq<account_detail::Model>,
    account_id: i64,
    last4: Seq<char>,
) -> bool {
    found(details, account_id) matches Some(detail) && has_end(
        digits_of(plain(dek, detail.card_number@)),
        last4,
    )
}

/// Whether the card of an account has these last digits.
pub fn card_matches(
    dek: &Dek,
    details: &Vec<account_detail::Model>,
    account_id: i64,
    last4: &str,
) -> (r: bool)
    ensures
        r == card_ends(dek@, details@, account_id, last4@),
{
    match find(details, account_id) {
        None => false,
        Some(detail) => ends_with(
            &keep_digits(&decrypt_string(dek, &detail.card_number)),
            last4,
        ),
    }
}

/// The name of a fund as it is compared: without white space, each character in lower case.
pub open spec fn condensed(s: Seq<char>) -> Seq<char>
    decreases s.len(),
{
    if s.len() == 0 {
        Seq::empty()
    } else if white_space(s.last()) {
        condensed(s.drop_last())
    } else {
        condensed(s.drop_last()) + lower_char(s.last())
    }
}

/// The name of a fund as it is compared.
pub fn normalized_sms_name(s: &str) -> (r: String)
    ensures
        r@ == condensed(s@),
{
    let chars = chars_of(s);
    let mut kept = String::new();
    let mut i: usize = 0;
    proof {
        assert(chars@.take(0) =~= Seq::empty());
    }
    while i < chars.len()
        invariant
            i <= chars.len(),
            kept@ == condensed(chars@.take(i as int)),
        decreases chars.len() - i,
    {
        proof {
            assert(chars@.take(i + 1).drop_last() =~= chars@.take(i as int));
        }
        let c = chars[i];
        if !is_white(c) {
            kept.append(&lower_of(c));
        }
        i = i + 1;
    }
    proof {
        assert(chars@.take(chars@.len() as int) =~= s@);
    }
    kept
}

/// A message is meant for a plan: the name of the fund, in either direction one a part of the
/// other, and the last digits of the card agree.
pub open spec fn is_meant(
    dek: Seq<u8>,
    details: Seq<account_detail::Model>,
    plan: recurring_investment::Model,
    sms: SmsView,
) -> bool {
    let configured = condensed(plain(dek, plan.sms_fund_name@));
    let incoming = condensed(sms.fund_name);
    &&& configured.len() > 0
    &&& has_part(configured, incoming) || has_part(incoming, configured)
    &&& card_ends(dek, details, plan.from_account_id, sms.card_last4)
}

/// Whether a message is meant for a plan.
pub fn sms_plan_matches(
    dek: &Dek,
    details: &Vec<account_detail::Model>,
    plan: &recurring_investment::Model,
    sms: &PendingSms,
) -> (r: bool)
    ensures
        r == is_meant(dek@, details@, *plan, sms@),
{
    let configured = normalized_sms_name(&decrypt_string(dek, &plan.sms_fund_name));
    let incoming = normalized_sms_name(&sms.fund_name);
    if configured.as_str().is_empty() {
        return false;
    }
    if !contains(&configured, &incoming) && !contains(&incoming, &configured) {
        return false;
    }
    card_matches(dek, details, plan.from_account_id, &sms.card_last4)
}

/// The positions among the first `n` plans of those that a message is meant for. Only active plans
/// that follow the messages of the bank count.
pub open spec fn meant_plans(
    dek: Seq<u8>,
    details: Seq<account_detail::Model>,
    plans: Seq<recurring_investment::Model>,
    sms: SmsView,
    n: int,
) -> Seq<int>
    decreases n,
{
    if n <= 0 {
        Seq::empty()
    } else if plans[n - 1].active && plans[n - 1].strategy@ == "sms"@ && is_meant(
        dek,
        details,
        plans[n - 1],
        sms,
    ) {
        meant_plans(dek, details, plans, sms, n - 1).push(n - 1)
    } else {
        meant_plans(dek, details, plans, sms, n - 1)
    }
}

fn find_meant(
    dek: &Dek,
    details: &Vec<account_detail::Model>,
    plans: &Vec<recurring_investment::Model>,
    sms: &PendingSms,
) -> (r: Vec<usize>)
    ensures
        crate::order::positions(r@) == meant_plans(
            dek@,
            details@,
            plans@,
            sms@,
            plans@.len() as int,
        ),
        forall|i: int| 0 <= i < r@.len() ==> #[trigger] r@[i] < plans@.len(),
{
    let mut chosen: Vec<usize> = Vec::new();
    let mut i: usize = 0;
    proof {
        assert(crate::order::positions(chosen@) =~= Seq::empty());
    }
    while i < plans.len()
        invariant
            i <= plans.len(),
            crate::order::positions(chosen@) == meant_plans(
                dek@,
                details@,
                plans@,
                sms@,
                i as int,
            ),
            forall|j: int| 0 <= j < chosen@.len() ==> #[trigger] chosen@[j] < plans@.len(),
        decreases plans.len() - i,
    {
        if plans[i].active && same(&plans[i].strategy, "sms") && sms_plan_matches(
            dek,
            details,
            &plans[i],
            sms,
        ) {
            let ghost front = chosen@;
            chosen.push(i);
            proof {
                assert(crate::order::positions(chosen@) =~= crate::order::positions(front).push(
                    i as int,
                ));
            }
        }
        i = i + 1;
    }
    chosen
}

/// The name of the owner, where it is known.
pub open spec fn owner_of(dek: Seq<u8>, p: Option<preference::Model>) -> Seq<char> {
    match p {
        Some(p) => plain(dek, p.owner_name@),
        None => Seq::empty(),
    }
}

/// The name of the owner, where it is known.
pub fn owner_name(dek: &Dek, p: &Option<preference::Model>) -> (r: String)
    ensures
        r@ == owner_of(dek@, *p),
{
    match p {
        Some(p) => decrypt_string(dek, &p.owner_name),
        None => {
            let s = String::new();
            proof {
                assert(s@ =~= Seq::empty());
            }
            s
        },
    }
}

/// Whether a message is settled, and what is noted of it.
pub struct Answer {
    pub ok: bool,
    pub note: EventNote,
}

/// What is answered to a message on a transfer to another bank: it may go to an account of the
/// owner, who is then asked to which.
pub open spec fn transfer_answer(owner: Seq<char>, recipient: Seq<char>, amount: int, balance: int) -> Answer {
    if trimmed(owner).len() == 0 {
        Answer {
            ok: false,
            note: EventNote {
                plan_id: None,
                status: "unmatched"@,
                detail: "识别到实时转账短信；请先在设置中填写本人姓名，再判断是否为本人账户互转"@,
            },
        }
    } else if trimmed(recipient) == trimmed(owner) {
        Answer {
            ok: true,
            note: EventNote {
                plan_id: None,
                status: "pending"@,
                detail: "已识别本人账户转账候选：转给 "@ + recipient + "，金额 "@ + cents_text(
                    amount,
                ) + (" 元，短信余额 "@ + cents_text(balance) + "；请选择转入账户后确认"@),
            },
        }
    } else {
        Answer {
            ok: false,
            note: EventNote {
                plan_id: None,
                status: "unmatched"@,
                detail: "识别到转给 "@ + recipient + " 的实时转账 "@ + cents_text(amount)
                    + " 元；收款人与本人姓名不一致，未自动记账"@,
            },
        }
    }
}

/// What a description says in front of a name when a credit card is paid back.
pub open spec fn repayment_mark() -> Seq<char> {
    "信用卡还款-"@
}

/// A payment pays back a credit card of the owner: its description holds the mark with the name
/// of the owner behind it.
pub open spec fn is_own_repayment(description: Seq<char>, owner: Seq<char>) -> bool {
    trimmed(owner).len() > 0 && has_part(description, repayment_mark() + trimmed(owner))
}

/// Whether a payment pays back a credit card of the owner.
pub fn own_repayment(description: &str, owner: &str) -> (r: bool)
    ensures
        r == is_own_repayment(description@, owner@),
{
    let name = owner.trim();
    !name.is_empty() && contains(description, &join2("信用卡还款-", name))
}

/// What is answered to a message on a payment: it may pay back a credit card of the owner, who is
/// then asked which.
pub open spec fn payment_answer(owner: Seq<char>, description: Seq<char>, amount: int, balance: int) -> Answer {
    if trimmed(owner).len() == 0 {
        Answer {
            ok: false,
            note: EventNote {
                plan_id: None,
                status: "unmatched"@,
                detail:
                    "识别到快捷支付短信；请先在设置中填写本人姓名，再判断是否为本人信用卡还款"@,
            },
        }
    } else if is_own_repayment(description, owner) {
        Answer {
            ok: true,
            note: EventNote {
                plan_id: None,
                status: "pending"@,
                detail: "已识别本人信用卡还款候选："@ + cents_text(amount) + " 元，短信余额 "@
                    + cents_text(balance) + "；请选择还款进入的信用账户后确认"@,
            },
        }
    } else {
        Answer {
            ok: false,
            note: EventNote {
                plan_id: None,
                status: "unmatched"@,
                detail: "识别到快捷支付“"@ + description + "” "@ + cents_text(amount)
                    + " 元，但不能确认是本人信用卡还款，未自动记账"@,
            },
        }
    }
}

/// What is done with a message.
pub enum Verdict {
    /// It was settled before.
    Known,
    /// It is kept with a note.
    Noted(Answer),
    /// The plan at a position is carried out.
    Carried { plan: int, amount: i64, balance: Option<i64> },
}

/// The message when no plan agrees with a message.
pub open spec fn no_plan_text(sms: SmsView) -> Seq<char> {
    "未找到同时匹配尾号 "@ + sms.card_last4 + " 和基金“"@ + sms.fund_name
        + "”的短信实扣计划"@
}

/// The message when several plans agree with a message.
pub open spec fn many_plans_text(sms: SmsView) -> Seq<char> {
    "有多个计划同时匹配尾号 "@ + sms.card_last4 + " 和基金“"@ + sms.fund_name
        + "”，请修改短信基金名称使其唯一"@
}

/// The message was settled before.
pub open spec fn is_settled(events: Seq<investment_sms_event::Model>, event_hash: Seq<char>) -> bool {
    let at = event_place(events, event_hash, 0);
    at < events.len() && events[at].status@ != "error"@ && events[at].status@ != "unmatched"@
}

/// What is done with a message.
pub open spec fn verdict(
    dek: Seq<u8>,
    ledger: Ledger,
    owner: Seq<char>,
    plans: Seq<recurring_investment::Model>,
    sms: SmsView,
) -> Verdict {
    if is_settled(ledger.events@, sms.event_hash) {
        Verdict::Known
    } else {
        match sms.kind {
            KindView::BankTransfer { recipient, amount, balance } => Verdict::Noted(
                transfer_answer(owner, recipient, amount as int, balance as int),
            ),
            KindView::QuickPayment { description, amount, balance } => Verdict::Noted(
                payment_answer(owner, description, amount as int, balance as int),
            ),
            _ => {
                let meant = meant_plans(
                    dek,
                    ledger.book.details@,
                    plans,
                    sms,
                    plans.len() as int,
                );
                if meant.len() == 0 {
                    Verdict::Noted(
                        Answer {
                            ok: false,
                            note: EventNote {
                                plan_id: None,
                                status: "unmatched"@,
                                detail: no_plan_text(sms),
                            },
                        },
                    )
                } else if meant.len() > 1 {
                    Verdict::Noted(
                        Answer {
                            ok: false,
                            note: EventNote {
                                plan_id: None,
                                status: "error"@,
                                detail: many_plans_text(sms),
                            },
                        },
                    )
                } else {
                    plan_verdict(dek, ledger, plans, meant[0], sms)
                }
            },
        }
    }
}

/// What is done with a message that is meant for one plan.
pub open spec fn plan_verdict(
    dek: Seq<u8>,
    ledger: Ledger,
    plans: Seq<recurring_investment::Model>,
    at: int,
    sms: SmsView,
) -> Verdict {
    let plan = plans[at];
    let name = plain(dek, plan.name@);
    match sms.kind {
        KindView::Failure { reason } => Verdict::Noted(
            Answer {
                ok: false,
                note: EventNote {
                    plan_id: Some(plan.id),
                    status: "failed"@,
                    detail: name + " 扣款失败："@ + reason,
                },
            },
        ),
        KindView::Success { amount, balance } => if was_executed(
            ledger.executions@,
            plan.id,
            sms.sms_date,
        ) {
            Verdict::Noted(
                Answer {
                    ok: true,
                    note: EventNote {
                        plan_id: Some(plan.id),
                        status: "duplicate"@,
                        detail: name + " 在 "@ + date_text(sms.sms_date)
                            + " 已经记过账，本条短信不再重复扣款"@,
                    },
                },
            )
        } else {
            Verdict::Carried { plan: at, amount, balance }
        },
        _ => Verdict::Known,
    }
}

/// What is answered once a plan was carried out, or was not.
pub open spec fn carried_answer(
    dek: Seq<u8>,
    plan: recurring_investment::Model,
    amount: i64,
    balance: Option<i64>,
    d: Result<DayRun, ErrorView>,
) -> Answer {
    let name = plain(dek, plan.name@);
    match d {
        Ok(_) => Answer {
            ok: true,
            note: EventNote {
                plan_id: Some(plan.id),
                status: "executed"@,
                detail: name + " 已按短信实扣 "@ + cents_text(amount as int) + " 元记账"@ + (
                match balance {
                    Some(left) => "；短信报告活期余额 "@ + cents_text(left as int),
                    None => Seq::empty(),
                }),
            },
        },
        Err(e) => Answer {
            ok: false,
            note: EventNote {
                plan_id: Some(plan.id),
                status: "error"@,
                detail: name + " 短信已收到，但记账失败："@ + e.message,
            },
        },
    }
}

/// Whether a message is settled, and what is noted of it.
struct SmsAnswer {
    ok: bool,
    plan_id: Option<i64>,
    status: &'static str,
    detail: String,
}

impl SmsAnswer {
    spec fn answer(self) -> Answer {
        Answer {
            ok: self.ok,
            note: EventNote {
                plan_id: self.plan_id,
                status: self.status@,
                detail: self.detail@,
            },
        }
    }
}

fn answer_transfer(owner: &str, recipient: &str, amount: i64, balance: i64) -> (r: SmsAnswer)
    ensures
        r.answer() == transfer_answer(owner@, recipient@, amount as int, balance as int),
{
    if owner.trim().is_empty() {
        SmsAnswer {
            ok: false,
            plan_id: None,
            status: "unmatched",
            detail: "识别到实时转账短信；请先在设置中填写本人姓名，再判断是否为本人账户互转".to_owned(),
        }
    } else if same(recipient.trim(), owner.trim()) {
        let rest = join3(" 元，短信余额 ", &fmt_cents(balance), "；请选择转入账户后确认");
        SmsAnswer {
            ok: true,
            plan_id: None,
            status: "pending",
            detail: join5(
                "已识别本人账户转账候选：转给 ",
                recipient,
                "，金额 ",
                &fmt_cents(amount),
                &rest,
            ),
        }
    } else {
        SmsAnswer {
            ok: false,
            plan_id: None,
            status: "unmatched",
            detail: join5(
                "识别到转给 ",
                recipient,
                " 的实时转账 ",
                &fmt_cents(amount),
                " 元；收款人与本人姓名不一致，未自动记账",
            ),
        }
    }
}

fn answer_payment(owner: &str, description: &str, amount: i64, balance: i64) -> (r: SmsAnswer)
    ensures
        r.answer() == payment_answer(owner@, description@, amount as int, balance as int),
{
    if owner.trim().is_empty() {
        SmsAnswer {
            ok: false,
            plan_id: None,
            status: "unmatched",
            detail: "识别到快捷支付短信；请先在设置中填写本人姓名，再判断是否为本人信用卡还款".to_owned(),
        }
    } else if own_repayment(description, owner) {
        SmsAnswer {
            ok: true,
            plan_id: None,
            status: "pending",
            detail: join5(
                "已识别本人信用卡还款候选：",
                &fmt_cents(amount),
                " 元，短信余额 ",
                &fmt_cents(balance),
                "；请选择还款进入的信用账户后确认",
            ),
        }
    } else {
        SmsAnswer {
            ok: false,
            plan_id: None,
            status: "unmatched",
            detail: join5(
                "识别到快捷支付“",
                description,
                "” ",
                &fmt_cents(amount),
                " 元，但不能确认是本人信用卡还款，未自动记账",
            ),
        }
    }
}

fn answer_carried(
    dek: &Dek,
    plan: &recurring_investment::Model,
    amount: i64,
    balance: Option<i64>,
    d: &HandlerResult<DayRun>,
) -> (r: SmsAnswer)
    ensures
        r.answer() == carried_answer(dek@, *plan, amount, balance, run_view(*d)),
{
    let name = decrypt_string(dek, &plan.name);
    match d {
        Ok(_) => {
            let left = match balance {
                Some(left) => join2("；短信报告活期余额 ", &fmt_cents(left)),
                None => String::new(),
            };
            let detail = join5(&name, " 已按短信实扣 ", &fmt_cents(amount), " 元记账", &left);
            proof {
                if balance is None {
                    assert(left@ =~= Seq::empty());
                }
            }
            SmsAnswer { ok: true, plan_id: Some(plan.id), status: "executed", detail }
        },
        Err(error) => SmsAnswer {
            ok: false,
            plan_id: Some(plan.id),
            status: "error",
            detail: join3(&name, " 短信已收到，但记账失败：", &error.message),
        },
    }
}

/// What is answered to a message.
pub struct SmsOutcome {
    pub ok: bool,
    pub status: String,
    pub message: String,
}

/// What is answered to a message, as a value.
pub struct OutcomeView {
    pub ok: bool,
    pub status: Seq<char>,
    pub message: Seq<char>,
}

impl View for SmsOutcome {
    type V = OutcomeView;

    open spec fn view(&self) -> OutcomeView {
        OutcomeView { ok: self.ok, status: self.status@, message: self.message@ }
    }
}

/// A result as a value.
pub open spec fn outcome_view(r: HandlerResult<SmsOutcome>) -> Result<OutcomeView, ErrorView> {
    match r {
        Ok(outcome) => Ok(outcome@),
        Err(error) => Err(error@),
    }
}

/// A plan that was carried out for a message, and what came of it.
#[derive(Clone, Copy, Debug, PartialEq, Eq, Structural)]
pub struct SmsDay {
    pub plan_id: i64,
    pub run: DayRun,
}

/// What came of a message.
pub struct SmsRun {
    pub day: Option<SmsDay>,
    pub outcome: HandlerResult<SmsOutcome>,
}

/// What all messages have in common.
pub struct SmsSource {
    pub dek: Seq<u8>,
    pub owner: Seq<char>,
    pub plans: Seq<recurring_investment::Model>,
    pub now: DateTime,
}

/// A message is kept with a note: nothing else of the ledger changes.
pub open spec fn noted(
    before: Ledger,
    after: Ledger,
    r: Result<OutcomeView, ErrorView>,
    s: SmsSource,
    sms: SmsView,
    answer: Answer,
) -> bool {
    if note_fits(sms, answer.note) {
        &&& after.book == before.book
        &&& after.categories == before.categories
        &&& after.closed == before.closed
        &&& after.executions == before.executions
        &&& event_recorded(before.events@, after.events@, s.dek, sms, answer.note, s.now)
        &&& r == Ok::<OutcomeView, ErrorView>(
            OutcomeView {
                ok: answer.ok,
                status: answer.note.status,
                message: answer.note.detail,
            },
        )
    } else {
        after == before && r == Err::<OutcomeView, ErrorView>(too_long())
    }
}

/// The plan that a message is meant for, on the day of the message.
pub open spec fn sms_occasion(s: SmsSource, plan: int, amount: i64, sms: SmsView) -> Occasion {
    Occasion {
        dek: s.dek,
        plan: s.plans[plan],
        quotes: Seq::empty(),
        date: sms.sms_date,
        given: Some(amount),
        at: Some(sms.occurred_at),
        now: s.now,
    }
}

/// The plan that was carried out, and what came of it.
pub open spec fn day_of(plan_id: i64, d: Result<DayRun, ErrorView>) -> Option<SmsDay> {
    match d {
        Ok(run) => Some(SmsDay { plan_id, run }),
        Err(_) => None,
    }
}

/// What comes of a message, and what the ledger is then. A message that was settled before changes
/// nothing.
pub open spec fn sms_processed(
    before: Ledger,
    after: Ledger,
    day: Option<SmsDay>,
    r: Result<OutcomeView, ErrorView>,
    s: SmsSource,
    sms: SmsView,
) -> bool {
    match verdict(s.dek, before, s.owner, s.plans, sms) {
        Verdict::Known => {
            &&& after == before
            &&& day is None
            &&& r == Ok::<OutcomeView, ErrorView>(
                OutcomeView {
                    ok: true,
                    status: "duplicate"@,
                    message: "这条短信已经处理过，没有重复记账"@,
                },
            )
        },
        Verdict::Noted(answer) => day is None && noted(before, after, r, s, sms, answer),
        Verdict::Carried { plan, amount, balance } => exists|
            mid: Ledger,
            d: Result<DayRun, ErrorView>,
        | #[trigger]
            day_carried_out(before, mid, d, sms_occasion(s, plan, amount, sms)) && day == day_of(
                s.plans[plan].id,
                d,
            ) && noted(
                mid,
                after,
                r,
                s,
                sms,
                carried_answer(s.dek, s.plans[plan], amount, balance, d),
            ),
    }
}

fn note_sms(dek: &Dek, ledger: &mut Ledger, sms: &PendingSms, answer: SmsAnswer, now: DateTime) -> (r:
    HandlerResult<SmsOutcome>)
    ensures
        forall|s: SmsSource|
            s.dek == dek@ && s.now == now ==> #[trigger] noted(
                *old(ledger),
                *final(ledger),
                outcome_view(r),
                s,
                sms@,
                answer.answer(),
            ),
{
    match record_sms_event(
        dek,
        &mut ledger.events,
        sms,
        answer.plan_id,
        answer.status,
        &answer.detail,
        now,
    ) {
        Err(error) => Err(error),
        Ok(_) => Ok(
            SmsOutcome {
                ok: answer.ok,
                status: answer.status.to_owned(),
                message: answer.detail,
            },
        ),
    }
}

/// Settles a message: what the owner has to confirm is kept for that, what is meant for a plan is
/// entered, and everything else is kept with a note.
pub fn process_one_sms(
    dek: &Dek,
    ledger: &mut Ledger,
    owner: &str,
    plans: &Vec<recurring_investment::Model>,
    sms: &PendingSms,
    now: DateTime,
) -> (r: SmsRun)
    ensures
        sms_processed(
            *old(ledger),
            *final(ledger),
            r.day,
            outcome_view(r.outcome),
            SmsSource { dek: dek@, owner: owner@, plans: plans@, now },
            sms@,
        ),
{
    let ghost s = SmsSource { dek: dek@, owner: owner@, plans: plans@, now };
    let ghost before = *ledger;
    let at: usize = find_event(&ledger.events, &sms.event_hash);
    if at < ledger.events.len() && !same(&ledger.events[at].status, "error") && !same(
        &ledger.events[at].status,
        "unmatched",
    ) {
        return SmsRun {
            day: None,
            outcome: Ok(
                SmsOutcome {
                    ok: true,
                    status: "duplicate".to_owned(),
                    message: "这条短信已经处理过，没有重复记账".to_owned(),
                },
            ),
        };
    }
    match &sms.kind {
        SmsKind::BankTransfer { recipient, amount, balance } => {
            let answer = answer_transfer(owner, recipient, *amount, *balance);
            return SmsRun { day: None, outcome: note_sms(dek, ledger, sms, answer, now) };
        },
        SmsKind::QuickPayment { description, amount, balance } => {
            let answer = answer_payment(owner, description, *amount, *balance);
            return SmsRun { day: None, outcome: note_sms(dek, ledger, sms, answer, now) };
        },
        _ => {},
    }
    let meant = find_meant(dek, &ledger.book.details, plans, sms);
    let ghost wanted = meant_plans(dek@, ledger.book.details@, plans@, sms@, plans@.len() as int);
    proof {
        assert(meant@.len() == wanted.len());
    }
    if meant.len() == 0 {
        let detail = join5(
            "未找到同时匹配尾号 ",
            &sms.card_last4,
            " 和基金“",
            &sms.fund_name,
            "”的短信实扣计划",
        );
        let answer = SmsAnswer { ok: false, plan_id: None, status: "unmatched", detail };
        return SmsRun { day: None, outcome: note_sms(dek, ledger, sms, answer, now) };
    }
    if meant.len() > 1 {
        let detail = join5(
            "有多个计划同时匹配尾号 ",
            &sms.card_last4,
            " 和基金“",
            &sms.fund_name,
            "”，请修改短信基金名称使其唯一",
        );
        let answer = SmsAnswer { ok: false, plan_id: None, status: "error", detail };
        return SmsRun { day: None, outcome: note_sms(dek, ledger, sms, answer, now) };
    }
    proof {
        assert(crate::order::positions(meant@)[0] == meant@[0]);
    }
    let plan = &plans[meant[0]];
    match &sms.kind {
        SmsKind::Failure { reason } => {
            let detail = join3(&decrypt_string(dek, &plan.name), " 扣款失败：", reason);
            let answer = SmsAnswer { ok: false, plan_id: Some(plan.id), status: "failed", detail };
            SmsRun { day: None, outcome: note_sms(dek, ledger, sms, answer, now) }
        },
        SmsKind::Success { amount, balance } => {
            if find_executed(&ledger.executions, plan.id, sms.sms_date) {
                let detail = join4(
                    &decrypt_string(dek, &plan.name),
                    " 在 ",
                    &date_to_text(sms.sms_date),
                    " 已经记过账，本条短信不再重复扣款",
                );
                let answer = SmsAnswer {
                    ok: true,
                    plan_id: Some(plan.id),
                    status: "duplicate",
                    detail,
                };
                return SmsRun { day: None, outcome: note_sms(dek, ledger, sms, answer, now) };
            }
            let none: Vec<crate::entity::market_index_quote::Model> = Vec::new();
            let d = execute_plan_day(
                dek,
                ledger,
                plan,
                &none,
                sms.sms_date,
                Some(*amount),
                Some(sms.occurred_at),
                now,
            );
            let ghost mid = *ledger;
            let answer = answer_carried(dek, plan, *amount, *balance, &d);
            proof {
                assert(none@ =~= Seq::empty());
                assert(day_carried_out(
                    before,
                    mid,
                    run_view(d),
                    sms_occasion(s, wanted[0], *amount, sms@),
                ));
            }
            let day = match &d {
                Ok(run) => Some(SmsDay { plan_id: plan.id, run: *run }),
                Err(_) => None,
            };
            SmsRun { day, outcome: note_sms(dek, ledger, sms, answer, now) }
        },
        _ => SmsRun { day: None, outcome: Err(text_too_long()) },
    }
}

/// A message is entered once: when the message, or one with the same number, was entered or is
/// waiting to be confirmed, it changes nothing.
pub proof fn settled_once(
    before: Ledger,
    after: Ledger,
    day: Option<SmsDay>,
    r: Result<OutcomeView, ErrorView>,
    s: SmsSource,
    sms: SmsView,
)
    requires
        is_settled(before.events@, sms.event_hash),
        sms_processed(before, after, day, r, s, sms),
    ensures
        after == before,
        day is None,
{
}

/// A message that leads to an investment is settled by it: the same message changes nothing any
/// more.
pub proof fn executed_message_is_settled(
    before: Ledger,
    after: Ledger,
    day: SmsDay,
    outcome: OutcomeView,
    s: SmsSource,
    sms: SmsView,
)
    requires
        sms_processed(before, after, Some(day), Ok(outcome), s, sms),
    ensures
        is_settled(after.events@, sms.event_hash),
{
    reveal_strlit("executed");
    reveal_strlit("error");
    reveal_strlit("unmatched");
    assert("executed"@.len() == 8 && "error"@.len() == 5 && "unmatched"@.len() == 9);
    match verdict(s.dek, before, s.owner, s.plans, sms) {
        Verdict::Carried { plan, amount, balance } => {
            let (mid, d) = choose|mid: Ledger, d: Result<DayRun, ErrorView>| #[trigger]
                day_carried_out(before, mid, d, sms_occasion(s, plan, amount, sms)) && Some(day)
                    == day_of(s.plans[plan].id, d) && noted(
                    mid,
                    after,
                    Ok(outcome),
                    s,
                    sms,
                    carried_answer(s.dek, s.plans[plan], amount, balance, d),
                );
            let at = event_place(mid.events@, sms.event_hash, 0);
            event_place_bounds(mid.events@, sms.event_hash, 0);
            event_place_kept(mid.events@, after.events@, sms.event_hash, 0);
            assert(after.events@[at].status@ == "executed"@);
        },
        _ => {},
    }
}

proof fn event_place_bounds(
    events: Seq<investment_sms_event::Model>,
    event_hash: Seq<char>,
    from: int,
)
    requires
        0 <= from <= events.len(),
    ensures
        from <= event_place(events, event_hash, from) <= events.len(),
    decreases events.len() - from,
{
    if from < events.len() && events[from].event_hash@ != event_hash {
        event_place_bounds(events, event_hash, from + 1);
    }
}

/// A message that is recorded at its place is found there.
proof fn event_place_kept(
    before: Seq<investment_sms_event::Model>,
    after: Seq<investment_sms_event::Model>,
    event_hash: Seq<char>,
    from: int,
)
    requires
        0 <= from <= before.len(),
        ({
            let at = event_place(before, event_hash, from);
            &&& after == (if at < before.len() {
                before.update(at, after[at])
            } else {
                before.push(after[at])
            })
            &&& after[at].event_hash@ == event_hash
        }),
    ensures
        event_place(after, event_hash, from) == event_place(before, event_hash, from),
        event_place(before, event_hash, from) < after.len(),
    decreases before.len() - from,
{
    event_place_bounds(before, event_hash, from);
    if from < before.len() && before[from].event_hash@ != event_hash {
        event_place_bounds(before, event_hash, from + 1);
        event_place_kept(before, after, event_hash, from + 1);
        assert(after[from] == before[from]);
    }
}

/// Only a message on an investment that was carried out moves money: any other message leaves the
/// accounts, the records of money and the investments as they are. A transfer or a payment is
/// entered only once it is confirmed.
pub proof fn other_messages_move_no_money(
    before: Ledger,
    after: Ledger,
    day: Option<SmsDay>,
    r: Result<OutcomeView, ErrorView>,
    s: SmsSource,
    sms: SmsView,
)
    requires
        sms_processed(before, after, day, r, s, sms),
        !(sms.kind is Success),
    ensures
        after.book == before.book,
        after.executions == before.executions,
        day is None,
{
}

} // verus!
