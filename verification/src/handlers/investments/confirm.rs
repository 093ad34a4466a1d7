//! Confirming what a message of the bank reports as a transfer between own accounts.
use vstd::prelude::*;
use vstd::string::*;

use crate::book::{find, found, Book, Row};
use crate::calendar::DateTime;
use crate::crypto::{
    cents, decrypt_string, encrypt_cents, encrypt_string, is_sealable, plain, sealable, Dek,
};
use crate::decimal::{cents_text, fits_i64, fmt_cents};
use crate::entity::{account, investment_sms_event, transfer};
use crate::error::{
    bad, bad_request, missing, not_found, text_too_long, too_long, ErrorView, HandlerResult,
};
use crate::handlers::accounts::{
    change_allowed, credit_kind, ensure_balance_delta, is_credit,
};
use crate::handlers::investments::messages::{
    card_ends, card_matches, is_own_repayment, own_repayment,
};
use crate::handlers::investments::sms::{restore_sms, sms_stored, KindView, PendingSms, SmsKind, SmsView};
use crate::handlers::received;
use crate::text::{join2, join3, join5, same, trimmed};
use crate::totals::negated;

verus! {

impl Row for investment_sms_event::Model {
    open spec fn key(&self) -> i64 {
        self.id
    }

    fn row_key(&self) -> i64 {
        self.id
    }
}

/// The account that received what a message reports.
pub struct SmsConfirmFormData {
    pub to_account_id: i64,
}

/// The positions among the first `n` accounts of those whose card has these last digits.
pub open spec fn cards_ending(dek: Seq<u8>, book: Book, last4: Seq<char>, n: int) -> Seq<int>
    decreases n,
{
    if n <= 0 {
        Seq::empty()
    } else if card_ends(dek, book.details@, book.accounts@[n - 1].id, last4) {
        cards_ending(dek, book, last4, n - 1).push(n - 1)
    } else {
        cards_ending(dek, book, last4, n - 1)
    }
}

/// The account whose card has these last digits, or why there is none: it has to be the only one.
pub open spec fn source_account(dek: Seq<u8>, book: Book, last4: Seq<char>) -> Result<
    account::Model,
    ErrorView,
> {
    let matching = cards_ending(dek, book, last4, book.accounts@.len() as int);
    if matching.len() == 0 {
        Err(bad("没有找到尾号 "@ + last4 + " 的账户"@))
    } else if matching.len() == 1 {
        Ok(book.accounts@[matching[0]])
    } else {
        Err(
            bad(
                "有多个账户的卡号尾号都是 "@ + last4 + "，无法安全确认短信来源"@,
            ),
        )
    }
}

/// The account whose card has these last digits.
pub fn sms_source_account<'a>(dek: &Dek, book: &'a Book, last4: &str) -> (r: HandlerResult<
    &'a account::Model,
>)
    ensures
        match (r, source_account(dek@, *book, last4@)) {
            (Ok(a), Ok(wanted)) => *a == wanted,
            (Err(error), Err(wanted)) => error@ == wanted,
            _ => false,
        },
{
    let mut matching: Vec<usize> = Vec::new();
    let mut i: usize = 0;
    proof {
        assert(crate::order::positions(matching@) =~= Seq::empty());
    }
    while i < book.accounts.len()
        invariant
            i <= book.accounts.len(),
            crate::order::positions(matching@) == cards_ending(dek@, *book, last4@, i as int),
            forall|j: int| 0 <= j < matching@.len() ==> #[trigger] matching@[j] < i,
        decreases book.accounts.len() - i,
    {
        if card_matches(dek, &book.details, book.accounts[i].id, last4) {
            let ghost front = matching@;
            matching.push(i);
            proof {
                assert(crate::order::positions(matching@) =~= crate::order::positions(front).push(
                    i as int,
                ));
            }
        }
        i = i + 1;
    }
    proof {
        assert(crate::order::positions(matching@).len() == matching@.len());
    }
    if matching.len() == 0 {
        Err(bad_request(&join3("没有找到尾号 ", last4, " 的账户")))
    } else if matching.len() == 1 {
        proof {
            assert(crate::order::positions(matching@)[0] == matching@[0]);
        }
        Ok(&book.accounts[matching[0]])
    } else {
        Err(
            bad_request(
                &join3(
                    "有多个账户的卡号尾号都是 ",
                    last4,
                    "，无法安全确认短信来源",
                ),
            ),
        )
    }
}

/// Why a message that was read cannot be a transfer into an account, where it cannot.
pub open spec fn route_refusal(from: account::Model, to: account::Model) -> Option<ErrorView> {
    if from.id == to.id {
        Some(bad("转出账户和转入账户不能相同"@))
    } else if from.currency@ != "CNY"@ || to.currency@ != "CNY"@ {
        Some(bad("人民币短信只能确认到 CNY 账户"@))
    } else if is_credit(from.kind@) {
        Some(bad("短信中的扣款来源不能是信用账户"@))
    } else {
        None
    }
}

/// The amount and the note of the transfer that a message reports, or why it reports none. The
/// money has to go to the owner.
pub open spec fn reported_transfer(kind: KindView, owner: Seq<char>, to: account::Model) -> Result<
    (i64, Seq<char>),
    ErrorView,
> {
    match kind {
        KindView::BankTransfer { recipient, amount, .. } => if trimmed(owner).len() == 0 || trimmed(
            recipient,
        ) != trimmed(owner) {
            Err(bad("短信收款人与当前配置的本人姓名不一致"@))
        } else {
            Ok((amount, "招商银行短信确认 · 本人账户转账 · "@ + recipient))
        },
        KindView::QuickPayment { description, amount, .. } => if !is_own_repayment(
            description,
            owner,
        ) {
            Err(bad("这条快捷支付短信不能确认为本人信用卡还款"@))
        } else if !is_credit(to.kind@) {
            Err(bad("信用卡还款只能确认到信用卡或信贷服务账户"@))
        } else {
            Ok((amount, "招商银行短信确认 · "@ + description))
        },
        _ => Err(bad("这条短信不是可确认的本人转账或信用卡还款"@)),
    }
}

fn read_transfer(kind: &SmsKind, owner: &str, to: &account::Model) -> (r: HandlerResult<
    (i64, String),
>)
    ensures
        match (r, reported_transfer(kind@, owner@, *to)) {
            (Ok((amount, note)), Ok(wanted)) => amount == wanted.0 && note@ == wanted.1,
            (Err(error), Err(wanted)) => error@ == wanted,
            _ => false,
        },
{
    match kind {
        SmsKind::BankTransfer { recipient, amount, .. } => {
            if owner.trim().is_empty() || !same(recipient.as_str().trim(), owner.trim()) {
                Err(bad_request("短信收款人与当前配置的本人姓名不一致"))
            } else {
                Ok((*amount, join2("招商银行短信确认 · 本人账户转账 · ", recipient)))
            }
        },
        SmsKind::QuickPayment { description, amount, .. } => {
            if !own_repayment(description, owner) {
                Err(bad_request("这条快捷支付短信不能确认为本人信用卡还款"))
            } else if !credit_kind(&to.kind) {
                Err(bad_request("信用卡还款只能确认到信用卡或信贷服务账户"))
            } else {
                Ok((*amount, join2("招商银行短信确认 · ", description)))
            }
        },
        _ => Err(bad_request("这条短信不是可确认的本人转账或信用卡还款")),
    }
}

/// What is transferred when a message is confirmed.
pub struct Confirmed {
    pub from: account::Model,
    pub to: account::Model,
    pub sms: SmsView,
    pub amount: i64,
    pub note: Seq<char>,
}

impl Confirmed {
    /// What is told of it.
    pub open spec fn detail(self, dek: Seq<u8>) -> Seq<char> {
        "已确认从 "@ + plain(dek, self.from.name@) + " 转入 "@ + plain(dek, self.to.name@) + (
        "，金额 "@ + cents_text(self.amount as int) + " 元"@)
    }
}

/// What is transferred when a message is confirmed, or why it cannot be confirmed.
pub open spec fn confirmed(
    dek: Seq<u8>,
    book: Book,
    events: Seq<investment_sms_event::Model>,
    id: i64,
    to_account_id: i64,
    owner: Seq<char>,
) -> Result<Confirmed, ErrorView> {
    match found(events, id) {
        None => Err(missing("短信记录不存在"@)),
        Some(event) => if event.status@ != "pending"@ {
            Err(bad("这条短信当前不需要确认，或已经处理过"@))
        } else {
            match sms_stored(event.event_hash@, event.occurred_at, plain(dek, event.raw@)) {
                Err(e) => Err(e),
                Ok(sms) => match source_account(dek, book, sms.card_last4) {
                    Err(e) => Err(e),
                    Ok(from) => match found(book.accounts@, to_account_id) {
                        None => Err(bad("选择的转入账户不存在"@)),
                        Some(to) => confirmed_between(dek, book, from, to, sms, owner),
                    },
                },
            }
        },
    }
}

/// What is transferred between two accounts when a message is confirmed, or the refusal.
pub open spec fn confirmed_between(
    dek: Seq<u8>,
    book: Book,
    from: account::Model,
    to: account::Model,
    sms: SmsView,
    owner: Seq<char>,
) -> Result<Confirmed, ErrorView> {
    match route_refusal(from, to) {
        Some(e) => Err(e),
        None => match reported_transfer(sms.kind, owner, to) {
            Err(e) => Err(e),
            Ok((amount, note)) => if !fits_i64(-amount) {
                Err(bad("短信金额超出范围"@))
            } else {
                match change_allowed(dek, book, from.id, -amount) {
                    Err(e) => Err(e),
                    Ok(_) => match change_allowed(dek, book, to.id, amount as int) {
                        Err(e) => Err(e),
                        Ok(_) => {
                            let c = Confirmed { from, to, sms, amount, note };
                            if sealable(note) && sealable(c.detail(dek)) {
                                Ok(c)
                            } else {
                                Err(too_long())
                            }
                        },
                    },
                }
            },
        },
    }
}

/// A message that is confirmed: the transfer to store, and the status and the note that its record
/// gets then.
pub struct Confirmation {
    pub transfer: transfer::Model,
    pub status: String,
    pub detail: String,
}

/// A confirmation does these things.
pub open spec fn confirms(r: Confirmation, dek: Seq<u8>, c: Confirmed, now: DateTime) -> bool {
    &&& r.transfer.from_account_id == c.from.id
    &&& r.transfer.to_account_id == c.to.id
    &&& cents(dek, r.transfer.amount@) == c.amount
    &&& received(dek, r.transfer) == c.amount
    &&& plain(dek, r.transfer.note@) == c.note
    &&& r.transfer.happened_at == c.sms.occurred_at
    &&& r.transfer.created_at == now
    &&& r.status@ == "confirmed"@
    &&& plain(dek, r.detail@) == c.detail(dek)
}

fn confirm_between(
    dek: &Dek,
    book: &Book,
    from: &account::Model,
    to: &account::Model,
    sms: &PendingSms,
    owner: &str,
    now: DateTime,
) -> (r: HandlerResult<Confirmation>)
    ensures
        match (r, confirmed_between(dek@, *book, *from, *to, sms@, owner@)) {
            (Ok(c), Ok(wanted)) => confirms(c, dek@, wanted, now),
            (Err(error), Err(wanted)) => error@ == wanted,
            _ => false,
        },
{
    if from.id == to.id {
        return Err(bad_request("转出账户和转入账户不能相同"));
    }
    if !same(&from.currency, "CNY") || !same(&to.currency, "CNY") {
        return Err(bad_request("人民币短信只能确认到 CNY 账户"));
    }
    if credit_kind(&from.kind) {
        return Err(bad_request("短信中的扣款来源不能是信用账户"));
    }
    let (amount, note) = match read_transfer(&sms.kind, owner, to) {
        Ok(read) => read,
        Err(error) => return Err(error),
    };
    let charge: i64 = match negated(amount) {
        Some(charge) => charge,
        None => return Err(bad_request("短信金额超出范围")),
    };
    match ensure_balance_delta(dek, book, from.id, charge) {
        Ok(_) => {},
        Err(error) => return Err(error),
    }
    match ensure_balance_delta(dek, book, to.id, amount) {
        Ok(_) => {},
        Err(error) => return Err(error),
    }
    let told = join5(
        "已确认从 ",
        &decrypt_string(dek, &from.name),
        " 转入 ",
        &decrypt_string(dek, &to.name),
        &join3("，金额 ", &fmt_cents(amount), " 元"),
    );
    if !is_sealable(&note) || !is_sealable(&told) {
        return Err(text_too_long());
    }
    let to_amount = encrypt_cents(dek, amount);
    Ok(
        Confirmation {
            transfer: transfer::Model {
                id: 0,
                from_account_id: from.id,
                to_account_id: to.id,
                amount: encrypt_cents(dek, amount),
                to_amount,
                note: encrypt_string(dek, &note),
                happened_at: sms.occurred_at,
                created_at: now,
            },
            status: "confirmed".to_owned(),
            detail: encrypt_string(dek, &told),
        },
    )
}

/// Confirms a message on a transfer between own accounts.
pub fn confirm_sms_transfer(
    dek: &Dek,
    book: &Book,
    events: &Vec<investment_sms_event::Model>,
    id: i64,
    form: &SmsConfirmFormData,
    owner: &str,
    now: DateTime,
) -> (r: HandlerResult<Confirmation>)
    requires
        found(events@, id) matches Some(event) ==> event.occurred_at.second < 86400,
    ensures
        match (r, confirmed(dek@, *book, events@, id, form.to_account_id, owner@)) {
            (Ok(c), Ok(wanted)) => confirms(c, dek@, wanted, now),
            (Err(error), Err(wanted)) => error@ == wanted,
            _ => false,
        },
{
    let event = match find(events, id) {
        Some(event) => event,
        None => return Err(not_found("短信记录不存在")),
    };
    if !same(&event.status, "pending") {
        return Err(bad_request("这条短信当前不需要确认，或已经处理过"));
    }
    let sms = match restore_sms(
        &event.event_hash,
        event.occurred_at,
        &decrypt_string(dek, &event.raw),
    ) {
        Ok(sms) => sms,
        Err(error) => return Err(error),
    };
    let from = match sms_source_account(dek, book, &sms.card_last4) {
        Ok(from) => from,
        Err(error) => return Err(error),
    };
    let to = match find(&book.accounts, form.to_account_id) {
        Some(to) => to,
        None => return Err(bad_request("选择的转入账户不存在")),
    };
    confirm_between(dek, book, from, to, &sms, owner, now)
}

/// Only what waits to be confirmed can be confirmed: once its record has the status that it gets,
/// a message cannot be confirmed again.
pub proof fn confirmed_once(
    dek: Seq<u8>,
    book: Book,
    events: Seq<investment_sms_event::Model>,
    id: i64,
    to_account_id: i64,
    owner: Seq<char>,
)
    requires
        found(events, id) is Some,
        found(events, id)->0.status@ == "confirmed"@,
    ensures
        confirmed(dek, book, events, id, to_account_id, owner) is Err,
{
    reveal_strlit("confirmed");
    reveal_strlit("pending");
    assert("confirmed"@.len() != "pending"@.len());
}

proof fn source_has_the_card(dek: Seq<u8>, book: Book, last4: Seq<char>, n: int, i: int)
    requires
        0 <= n <= book.accounts@.len(),
        0 <= i < cards_ending(dek, book, last4, n).len(),
    ensures
        0 <= cards_ending(dek, book, last4, n)[i] < n,
        card_ends(
            dek,
            book.details@,
            book.accounts@[cards_ending(dek, book, last4, n)[i]].id,
            last4,
        ),
    decreases n,
{
    let front = cards_ending(dek, book, last4, n - 1);
    if i < front.len() {
        source_has_the_card(dek, book, last4, n - 1, i);
        assert(cards_ending(dek, book, last4, n)[i] == front[i]);
    }
}

/// Confirming a message moves the money that it reports: from the account whose card it names to the
/// account that was chosen, which is another one and in yuan. The transfer has the amount and the time
/// of the message, and the message names the owner.
pub proof fn confirmation_moves_what_is_reported(
    dek: &Dek,
    book: &Book,
    events: &Vec<investment_sms_event::Model>,
    id: i64,
    form: &SmsConfirmFormData,
    owner: &str,
    now: DateTime,
    c: Confirmation,
)
    requires
        found(events@, id) matches Some(event) ==> event.occurred_at.second < 86400,
        call_ensures(confirm_sms_transfer, (dek, book, events, id, form, owner, now), Ok(c)),
    ensures
        ({
            let event = found(events@, id)->0;
            let sms = sms_stored(event.event_hash@, event.occurred_at, plain(dek@, event.raw@))->Ok_0;
            let t = c.transfer;
            let amount = cents(dek@, t.amount@);
            &&& found(events@, id) is Some && event.status@ == "pending"@
            &&& match sms.kind {
                KindView::BankTransfer { recipient, amount: reported, .. } => amount == reported
                    && trimmed(recipient) == trimmed(owner@),
                KindView::QuickPayment { amount: reported, .. } => amount == reported,
                _ => false,
            }
            &&& trimmed(owner@).len() > 0
            &&& card_ends(dek@, book.details@, t.from_account_id, sms.card_last4)
            &&& (found(book.accounts@, form.to_account_id) matches Some(to) && t.to_account_id
                == to.id && to.currency@ == "CNY"@)
            &&& t.from_account_id != t.to_account_id
            &&& received(dek@, t) == amount
            &&& t.happened_at == sms.occurred_at
            &&& c.status@ == "confirmed"@
        }),
{
    let event = found(events@, id)->0;
    let sms = sms_stored(event.event_hash@, event.occurred_at, plain(dek@, event.raw@))->Ok_0;
    let n = book.accounts@.len() as int;
    assert(cards_ending(dek@, *book, sms.card_last4, n).len() == 1);
    source_has_the_card(dek@, *book, sms.card_last4, n, 0);
}

} // verus!
