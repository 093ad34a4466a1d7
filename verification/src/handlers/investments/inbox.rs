//! Messages as they come in, and those that wait until the ledger is unlocked.
use vstd::prelude::*;
use vstd::string::*;
use vstd::utf8::encode_utf8;

use crate::calendar::DateTime;
use crate::crypto::{decrypt_string, digest_bytes, plain, sha256, Dek};
use crate::entity::{investment_sms_event, recurring_investment};
use crate::error::{denied, unauthorized, ErrorView, HandlerError, HandlerResult, Status};
use crate::handlers::investments::execution::Ledger;
use crate::handlers::investments::messages::{
    outcome_view, process_one_sms, sms_processed, OutcomeView, SmsDay, SmsRun, SmsSource,
};
use crate::handlers::investments::sms::{
    parse_sms, restore_sms, sms_of_data, sms_stored, PendingSms, SmsView, SmsWebhookData,
};
use crate::text::{
    behind, hex, hex_text, int_text, join2, join3, join5, nat_to_text, same, strip_front, views,
};

verus! {

/// The token in the value of a header: what stands behind the word that marks it.
pub open spec fn token_in(value: Option<Seq<char>>) -> Seq<char> {
    match value {
        Some(text) => match behind(text, "Bearer "@) {
            Some(token) => token,
            None => Seq::empty(),
        },
        None => Seq::empty(),
    }
}

/// The value of an optional text.
pub open spec fn slice_view(text: Option<&str>) -> Option<Seq<char>> {
    match text {
        Some(t) => Some(t@),
        None => None,
    }
}

/// The token that a caller sends. The header `Authorization` comes first; the header
/// `Authentication` counts only where the other is not there. A header whose value is no text has
/// none.
pub fn bearer_token(authorization: Option<Option<&str>>, authentication: Option<Option<&str>>) -> (r:
    String)
    ensures
        r@ == token_in(
            match (authorization, authentication) {
                (Some(value), _) => slice_view(value),
                (None, Some(value)) => slice_view(value),
                (None, None) => None,
            },
        ),
{
    let value = match authorization {
        Some(value) => value,
        None => match authentication {
            Some(value) => value,
            None => None,
        },
    };
    let none = String::new();
    proof {
        assert(none@ =~= Seq::empty());
    }
    match value {
        Some(text) => match strip_front(text, "Bearer ") {
            Some(token) => token,
            None => none,
        },
        None => none,
    }
}

/// The messages of a list as values.
pub open spec fn sms_views(list: Seq<PendingSms>) -> Seq<SmsView> {
    Seq::new(list.len(), |i: int| list[i]@)
}

/// A message with a number is in a list.
pub open spec fn holds(list: Seq<SmsView>, event_hash: Seq<char>) -> bool {
    exists|i: int| 0 <= i < list.len() && (#[trigger] list[i]).event_hash == event_hash
}

fn is_held(list: &Vec<PendingSms>, event_hash: &str) -> (r: bool)
    ensures
        r == holds(sms_views(list@), event_hash@),
{
    let mut i: usize = 0;
    while i < list.len()
        invariant
            i <= list.len(),
            forall|j: int|
                0 <= j < i ==> (#[trigger] sms_views(list@)[j]).event_hash != event_hash@,
        decreases list.len() - i,
    {
        if same(&list[i].event_hash, event_hash) {
            proof {
                assert(sms_views(list@)[i as int].event_hash == event_hash@);
            }
            return true;
        }
        i = i + 1;
    }
    false
}

/// The answer to a message that came in.
pub struct SmsWebhookResponse {
    pub ok: bool,
    pub status: String,
    pub message: String,
    pub pending: usize,
}

/// How many messages wait at most.
pub const MOST_WAITING: usize = 100;

/// The answer when a message has to wait and too many wait already.
pub open spec fn queue_full() -> ErrorView {
    ErrorView {
        status: Status::TooManyRequests,
        message: "未解锁短信队列已满，请先解锁 Haruka 处理现有短信"@,
    }
}

/// The messages that wait once one more came in, or the refusal. A message waits once.
pub open spec fn queued(queue: Seq<SmsView>, sms: SmsView) -> Result<Seq<SmsView>, ErrorView> {
    if holds(queue, sms.event_hash) {
        Ok(queue)
    } else if queue.len() >= MOST_WAITING {
        Err(queue_full())
    } else {
        Ok(queue.push(sms))
    }
}

/// Lets a message wait until the ledger is unlocked.
pub fn queue_sms(queue: &mut Vec<PendingSms>, sms: PendingSms) -> (r: HandlerResult<
    SmsWebhookResponse,
>)
    ensures
        match (r, queued(sms_views(old(queue)@), sms@)) {
            (Ok(response), Ok(waiting)) => {
                &&& sms_views(final(queue)@) == waiting
                &&& response.ok
                &&& response.status@ == "queued"@
                &&& response.message@
                    == "账本当前未解锁，短信已暂存在服务内存中，解锁后自动处理"@
                &&& response.pending == waiting.len()
            },
            (Err(error), Err(wanted)) => *final(queue) == *old(queue) && error@ == wanted,
            _ => false,
        },
{
    if !is_held(queue, &sms.event_hash) {
        if queue.len() >= MOST_WAITING {
            return Err(
                HandlerError {
                    status: Status::TooManyRequests,
                    message: "未解锁短信队列已满，请先解锁 Haruka 处理现有短信".to_owned(),
                },
            );
        }
        let ghost front = queue@;
        queue.push(sms);
        proof {
            assert(sms_views(queue@) =~= sms_views(front).push(sms@));
        }
    }
    Ok(
        SmsWebhookResponse {
            ok: true,
            status: "queued".to_owned(),
            message: "账本当前未解锁，短信已暂存在服务内存中，解锁后自动处理".to_owned(),
            pending: queue.len(),
        },
    )
}

/// Messages that wait have different numbers, and no more wait than may.
pub open spec fn queue_ok(queue: Seq<SmsView>) -> bool {
    &&& queue.len() <= MOST_WAITING
    &&& forall|i: int, j: int|
        0 <= i < j < queue.len() ==> (#[trigger] queue[i]).event_hash != (
        #[trigger] queue[j]).event_hash
}

/// Messages that wait keep different numbers, and never are there more of them than may wait.
pub proof fn queue_stays_ok(queue: Seq<SmsView>, sms: SmsView)
    requires
        queue_ok(queue),
        queued(queue, sms) is Ok,
    ensures
        queue_ok(queued(queue, sms)->Ok_0),
        holds(queued(queue, sms)->Ok_0, sms.event_hash),
{
    if !holds(queue, sms.event_hash) {
        let longer = queue.push(sms);
        assert(longer[queue.len() as int].event_hash == sms.event_hash);
    }
}

/// The message that a caller sends, or why it is refused: the caller has to send the right token.
pub open spec fn admitted(authorized: bool, time: Seq<char>, raw: Seq<char>) -> Result<
    SmsView,
    ErrorView,
> {
    if !authorized {
        Err(denied("短信接口认证失败"@))
    } else {
        sms_of_data(time, raw)
    }
}

/// What is answered to a message that came in: the answer, whether the message waits, and the plan
/// that was carried out for it.
pub struct SmsReceipt {
    pub day: Option<SmsDay>,
    pub waits: bool,
    pub response: HandlerResult<SmsWebhookResponse>,
}

/// The answer tells what came of a message.
pub open spec fn tells(response: SmsWebhookResponse, outcome: OutcomeView, pending: int) -> bool {
    &&& response.ok == outcome.ok
    &&& response.status@ == outcome.status
    &&& response.message@ == outcome.message
    &&& response.pending == pending
}

/// The answer to a message that was settled at once.
pub open spec fn settled_answer(
    response: HandlerResult<SmsWebhookResponse>,
    pending: int,
    r: Result<OutcomeView, ErrorView>,
) -> bool {
    match (response, r) {
        (Ok(response), Ok(outcome)) => tells(response, outcome, pending),
        (Err(error), Err(wanted)) => error@ == wanted,
        _ => false,
    }
}

/// Receives a message: where the ledger is unlocked the message is settled at once, else it waits.
pub fn receive_sms(
    authorized: bool,
    data: &SmsWebhookData,
    session: Option<&Dek>,
    ledger: &mut Ledger,
    queue: &mut Vec<PendingSms>,
    owner: &str,
    plans: &Vec<recurring_investment::Model>,
    now: DateTime,
) -> (r: SmsReceipt)
    ensures
        match admitted(authorized, data.time@, data.raw@) {
            Err(wanted) => {
                &&& *final(ledger) == *old(ledger)
                &&& *final(queue) == *old(queue)
                &&& r.day is None
                &&& !r.waits
                &&& (r.response matches Err(error) && error@ == wanted)
            },
            Ok(sms) => match session {
                Some(dek) => {
                    &&& *final(queue) == *old(queue)
                    &&& !r.waits
                    &&& exists|outcome: Result<OutcomeView, ErrorView>|
                        settled_answer(r.response, old(queue)@.len() as int, outcome)
                            && #[trigger] sms_processed(
                            *old(ledger),
                            *final(ledger),
                            r.day,
                            outcome,
                            SmsSource { dek: dek@, owner: owner@, plans: plans@, now },
                            sms,
                        )
                },
                None => {
                    &&& *final(ledger) == *old(ledger)
                    &&& r.day is None
                    &&& match (r.response, queued(sms_views(old(queue)@), sms)) {
                        (Ok(response), Ok(waiting)) => {
                            &&& r.waits
                            &&& sms_views(final(queue)@) == waiting
                            &&& response.ok
                            &&& response.status@ == "queued"@
                            &&& response.message@
                                == "账本当前未解锁，短信已暂存在服务内存中，解锁后自动处理"@
                            &&& response.pending == waiting.len()
                        },
                        (Err(error), Err(wanted)) => {
                            &&& !r.waits
                            &&& *final(queue) == *old(queue)
                            &&& error@ == wanted
                        },
                        _ => false,
                    }
                },
            },
        },
{
    if !authorized {
        return SmsReceipt {
            day: None,
            waits: false,
            response: Err(unauthorized("短信接口认证失败")),
        };
    }
    let sms = match parse_sms(data) {
        Ok(sms) => sms,
        Err(error) => return SmsReceipt { day: None, waits: false, response: Err(error) },
    };
    match session {
        Some(dek) => {
            let run = process_one_sms(dek, ledger, owner, plans, &sms, now);
            let ghost outcome = outcome_view(run.outcome);
            let response = match run.outcome {
                Ok(o) => Ok(
                    SmsWebhookResponse {
                        ok: o.ok,
                        status: o.status,
                        message: o.message,
                        pending: queue.len(),
                    },
                ),
                Err(error) => Err(error),
            };
            proof {
                assert(settled_answer(response, old(queue)@.len() as int, outcome));
            }
            SmsReceipt { day: run.day, waits: false, response }
        },
        None => {
            let response = queue_sms(queue, sms);
            SmsReceipt { day: None, waits: response.is_ok(), response }
        },
    }
}

/// A message that is kept is to be tried again.
pub open spec fn is_open(event: investment_sms_event::Model) -> bool {
    event.status@ == "error"@ || event.status@ == "unmatched"@
}

/// The messages to settle: those that wait, and those among the first `n` kept ones that are to be
/// tried again and can still be read. None occurs twice.
pub open spec fn gathered(
    dek: Seq<u8>,
    queue: Seq<SmsView>,
    events: Seq<investment_sms_event::Model>,
    n: int,
) -> Seq<SmsView>
    decreases n,
{
    if n <= 0 {
        queue
    } else {
        let items = gathered(dek, queue, events, n - 1);
        let event = events[n - 1];
        if !is_open(event) || holds(items, event.event_hash@) {
            items
        } else {
            match sms_stored(event.event_hash@, event.occurred_at, plain(dek, event.raw@)) {
                Ok(sms) => items.push(sms),
                Err(_) => items,
            }
        }
    }
}

fn gather(dek: &Dek, queue: &mut Vec<PendingSms>, events: &Vec<investment_sms_event::Model>) -> (r:
    Vec<PendingSms>)
    requires
        forall|i: int|
            0 <= i < events@.len() && is_open(#[trigger] events@[i])
                ==> events@[i].occurred_at.second < 86400,
    ensures
        final(queue)@.len() == 0,
        sms_views(r@) == gathered(dek@, sms_views(old(queue)@), events@, events@.len() as int),
{
    let ghost waiting = sms_views(queue@);
    let mut items: Vec<PendingSms> = Vec::new();
    items.append(queue);
    proof {
        assert(sms_views(items@) =~= waiting);
    }
    let mut i: usize = 0;
    while i < events.len()
        invariant
            i <= events.len(),
            queue@.len() == 0,
            forall|j: int|
                0 <= j < events@.len() && is_open(#[trigger] events@[j])
                    ==> events@[j].occurred_at.second < 86400,
            sms_views(items@) == gathered(dek@, waiting, events@, i as int),
        decreases events.len() - i,
    {
        let event = &events[i];
        if (same(&event.status, "error") || same(&event.status, "unmatched")) && !is_held(
            &items,
            &event.event_hash,
        ) {
            proof {
                assert(is_open(events@[i as int]));
            }
            if let Ok(sms) = restore_sms(
                &event.event_hash,
                event.occurred_at,
                &decrypt_string(dek, &event.raw),
            ) {
                let ghost front = items@;
                items.push(sms);
                proof {
                    assert(sms_views(items@) =~= sms_views(front).push(sms@));
                }
            }
        }
        i = i + 1;
    }
    items
}

/// What came of the first messages, one after the other.
pub open spec fn all_processed(
    before: Ledger,
    after: Ledger,
    runs: Seq<SmsRun>,
    items: Seq<SmsView>,
    s: SmsSource,
) -> bool
    decreases runs.len(),
{
    if runs.len() == 0 {
        after == before
    } else {
        exists|mid: Ledger|
            all_processed(before, mid, runs.drop_last(), items, s) && #[trigger] sms_processed(
                mid,
                after,
                runs.last().day,
                outcome_view(runs.last().outcome),
                s,
                items[runs.len() - 1],
            )
    }
}

/// How many messages could be settled.
pub open spec fn settled_count(runs: Seq<SmsRun>) -> int
    decreases runs.len(),
{
    if runs.len() == 0 {
        0
    } else {
        settled_count(runs.drop_last()) + (if runs.last().outcome is Ok {
            1int
        } else {
            0
        })
    }
}

/// What is told of the messages that need attention.
pub open spec fn attention(runs: Seq<SmsRun>) -> Seq<Seq<char>>
    decreases runs.len(),
{
    if runs.len() == 0 {
        Seq::empty()
    } else {
        let front = attention(runs.drop_last());
        match outcome_view(runs.last().outcome) {
            Ok(outcome) => if outcome.ok {
                front
            } else {
                front.push(outcome.message)
            },
            Err(e) => front.push("短信暂时无法处理："@ + e.message),
        }
    }
}

/// The messages that wait on: those that could not be settled.
pub open spec fn left_over(runs: Seq<SmsRun>, items: Seq<SmsView>) -> Seq<SmsView>
    decreases runs.len(),
{
    if runs.len() == 0 {
        Seq::empty()
    } else if runs.last().outcome is Err {
        left_over(runs.drop_last(), items).push(items[runs.len() - 1])
    } else {
        left_over(runs.drop_last(), items)
    }
}

/// The answer when the messages that waited were settled.
pub struct SmsProcessResponse {
    pub ok: bool,
    pub processed: usize,
    pub failures: Vec<String>,
    pub message: String,
}

/// The answer sums up what came of the messages.
pub open spec fn sums_up_sms(response: SmsProcessResponse, runs: Seq<SmsRun>) -> bool {
    let failures = attention(runs);
    &&& response.ok == (failures.len() == 0)
    &&& response.processed == settled_count(runs)
    &&& views(response.failures@) == failures
    &&& response.message@ == (if runs.len() == 0 {
        "没有待处理的短信"@
    } else if failures.len() == 0 {
        "已处理 "@ + int_text(settled_count(runs)) + " 条定投短信"@
    } else {
        "已处理 "@ + int_text(settled_count(runs)) + " 条短信，其中 "@ + int_text(
            failures.len() as int,
        ) + " 条需要关注"@
    })
}

/// Settles the messages that wait and those that are to be tried again. What could not be settled
/// waits on.
pub fn process_pending_sms(
    dek: &Dek,
    ledger: &mut Ledger,
    queue: &mut Vec<PendingSms>,
    owner: &str,
    plans: &Vec<recurring_investment::Model>,
    now: DateTime,
) -> (r: (Vec<SmsRun>, SmsProcessResponse))
    requires
        forall|i: int|
            0 <= i < old(ledger).events@.len() && is_open(#[trigger] old(ledger).events@[i])
                ==> old(ledger).events@[i].occurred_at.second < 86400,
    ensures
        ({
            let items = gathered(
                dek@,
                sms_views(old(queue)@),
                old(ledger).events@,
                old(ledger).events@.len() as int,
            );
            let s = SmsSource { dek: dek@, owner: owner@, plans: plans@, now };
            &&& r.0@.len() == items.len()
            &&& all_processed(*old(ledger), *final(ledger), r.0@, items, s)
            &&& sums_up_sms(r.1, r.0@)
            &&& sms_views(final(queue)@) == left_over(r.0@, items)
        }),
{
    let ghost before = *ledger;
    let ghost s = SmsSource { dek: dek@, owner: owner@, plans: plans@, now };
    let ghost all = gathered(
        dek@,
        sms_views(queue@),
        ledger.events@,
        ledger.events@.len() as int,
    );
    let items = gather(dek, queue, &ledger.events);
    let ghost listed = items@;
    let total: usize = items.len();
    let mut runs: Vec<SmsRun> = Vec::new();
    let mut processed: usize = 0;
    let mut failures: Vec<String> = Vec::new();
    proof {
        assert(views(failures@) =~= attention(runs@));
        assert(sms_views(queue@) =~= left_over(runs@, all));
    }
    for item in it: items
        invariant
            it.seq() == listed,
            sms_views(listed) == all,
            before == *old(ledger),
            s == (SmsSource { dek: dek@, owner: owner@, plans: plans@, now }),
            runs@.len() == it.index(),
            all_processed(before, *ledger, runs@, all, s),
            processed == settled_count(runs@),
            processed <= it.index(),
            listed.len() == total,
            views(failures@) == attention(runs@),
            sms_views(queue@) == left_over(runs@, all),
    {
        let ghost mid = *ledger;
        let ghost front = runs@;
        let ghost told = failures@;
        let ghost waiting = queue@;
        let run = process_one_sms(dek, ledger, owner, plans, &item, now);
        proof {
            assert(all[front.len() as int] == item@);
        }
        match &run.outcome {
            Ok(outcome) => {
                processed = processed + 1;
                if !outcome.ok {
                    failures.push(outcome.message.clone());
                    proof {
                        assert(views(failures@) =~= views(told).push(outcome.message@));
                    }
                }
            },
            Err(error) => {
                failures.push(join2("短信暂时无法处理：", &error.message));
                queue.push(item);
                proof {
                    assert(views(failures@) =~= views(told).push(
                        "短信暂时无法处理："@ + error.message@,
                    ));
                    assert(sms_views(queue@) =~= sms_views(waiting).push(item@));
                }
            },
        }
        runs.push(run);
        proof {
            assert(runs@.drop_last() =~= front);
            assert(sms_processed(
                mid,
                *ledger,
                runs@.last().day,
                outcome_view(runs@.last().outcome),
                s,
                all[runs@.len() - 1],
            ));
        }
    }
    let ok: bool = failures.len() == 0;
    let count = nat_to_text(processed as u128);
    let message = if runs.len() == 0 {
        "没有待处理的短信".to_owned()
    } else if ok {
        join3("已处理 ", &count, " 条定投短信")
    } else {
        join5(
            "已处理 ",
            &count,
            " 条短信，其中 ",
            &nat_to_text(failures.len() as u128),
            " 条需要关注",
        )
    };
    proof {
        assert(views(failures@).len() == failures@.len());
    }
    (runs, SmsProcessResponse { ok, processed, failures, message })
}

/// No message is lost: each one that waited or was to be tried again is either settled or waits on.
pub proof fn no_message_is_lost(runs: Seq<SmsRun>, items: Seq<SmsView>)
    requires
        runs.len() <= items.len(),
    ensures
        settled_count(runs) + left_over(runs, items).len() == runs.len(),
        forall|i: int|
            0 <= i < runs.len() && (#[trigger] runs[i]).outcome is Err ==> left_over(
                runs,
                items,
            ).contains(items[i]),
    decreases runs.len(),
{
    if runs.len() > 0 {
        let front = runs.drop_last();
        no_message_is_lost(front, items);
        let rest = left_over(front, items);
        let whole = left_over(runs, items);
        assert forall|i: int|
            0 <= i < runs.len() && (#[trigger] runs[i]).outcome is Err implies whole.contains(
            items[i],
        ) by {
            if i < front.len() {
                assert(front[i] == runs[i]);
                let k = choose|k: int| 0 <= k < rest.len() && rest[k] == items[i];
                assert(whole[k] == items[i]);
            } else {
                assert(whole[rest.len() as int] == items[i]);
            }
        }
    }
}

/// A token may send messages. Where one was set for that, its digest decides; else the first of two
/// tokens of the environment that is there.
pub open spec fn token_accepted(
    stored_hash: Seq<char>,
    sms_api_token: Option<Seq<char>>,
    apple_token: Option<Seq<char>>,
    token: Seq<char>,
) -> bool {
    if stored_hash.len() > 0 {
        stored_hash == hex_text(sha256(encode_utf8(token)))
    } else {
        match (sms_api_token, apple_token) {
            (Some(wanted), _) => wanted.len() > 0 && token == wanted,
            (None, Some(wanted)) => wanted.len() > 0 && token == wanted,
            (None, None) => false,
        }
    }
}

/// Whether a token may send messages.
pub fn sms_token_matches(
    stored_hash: &str,
    sms_api_token: Option<&str>,
    apple_token: Option<&str>,
    token: &str,
) -> (r: bool)
    ensures
        r == token_accepted(
            stored_hash@,
            slice_view(sms_api_token),
            slice_view(apple_token),
            token@,
        ),
{
    if !stored_hash.is_empty() {
        return same(stored_hash, &hex(digest_bytes(token.as_bytes()).as_slice()));
    }
    let wanted = match sms_api_token {
        Some(wanted) => wanted,
        None => match apple_token {
            Some(wanted) => wanted,
            None => return false,
        },
    };
    !wanted.is_empty() && same(token, wanted)
}

} // verus!
