//! Unlocking the ledger with a passkey: the authenticator gives a secret under which the data key
//! is wrapped.
use vstd::prelude::*;
use vstd::string::*;
use vstd::utf8::encode_utf8;

use crate::calendar::DateTime;
use crate::crypto::{
    as_key, decode_url_base64, encode_url_base64, encrypt_string, plain, sealable, unsealed,
    unwrap_dek, url_base64_bytes, url_base64_text, wrap_dek, Dek, NONCE_LEN,
};
use crate::entity::passkey;
use crate::error::{bad, bad_request, missing, not_found, ErrorView, HandlerResult};
use crate::text::{same, trimmed};
use crate::token::{new_token, same_bytes};

verus! {

/// How long a ceremony may take, in nanoseconds.
pub const CEREMONY_TTL: u64 = 300_000_000_000;

/// How many ceremonies of a kind can be under way.
pub const MOST_FLOWS: usize = 64;

/// The number of the user, of which there is one.
pub const USER_ID: u128 = 0x6861_7275_6b61_0000_0000_0000_0000_0001;

/// What the authenticator makes its secret from.
pub open spec fn prf_purpose() -> Seq<char> {
    "haruka passkey DEK wrapping key v1"@
}

/// What the authenticator makes its secret from, as it is sent.
pub fn prf_input() -> (r: String)
    ensures
        r@ == url_base64_text(encode_utf8(prf_purpose())),
{
    proof {
        reveal_strlit("haruka passkey DEK wrapping key v1");
        crate::crypto::utf8_length(prf_purpose());
    }
    encode_url_base64("haruka passkey DEK wrapping key v1".as_bytes())
}

/// The secret that a text gives, or why it gives none.
pub open spec fn secret_of(value: Seq<char>) -> Result<Seq<u8>, ErrorView> {
    match url_base64_bytes(value) {
        None => Err(bad("Passkey PRF 输出格式无效"@)),
        Some(bytes) => if bytes.len() == 32 {
            Ok(bytes)
        } else {
            Err(bad("Passkey PRF 输出长度无效"@))
        },
    }
}

/// Reads the secret that an authenticator gave.
pub fn decode_prf(value: &str) -> (r: HandlerResult<Vec<u8>>)
    ensures
        match (r, secret_of(value@)) {
            (Ok(bytes), Ok(wanted)) => bytes@ == wanted,
            (Err(error), Err(wanted)) => error@ == wanted,
            _ => false,
        },
{
    match decode_url_base64(value) {
        None => Err(bad_request("Passkey PRF 输出格式无效")),
        Some(bytes) => if bytes.len() == 32 {
            Ok(bytes)
        } else {
            Err(bad_request("Passkey PRF 输出长度无效"))
        },
    }
}

/// The name of a new passkey.
pub struct StartRegistration {
    pub name: String,
}

/// Why a passkey cannot have a name, where it cannot.
pub open spec fn name_refusal(name: Seq<char>) -> Option<ErrorView> {
    if trimmed(name).len() == 0 {
        Some(bad("请填写 Passkey 名称"@))
    } else if trimmed(name).len() > 80 {
        Some(bad("Passkey 名称不能超过 80 个字符"@))
    } else {
        None
    }
}

/// Reads the name of a new passkey.
pub fn start_registration(form: &StartRegistration) -> (r: HandlerResult<String>)
    ensures
        match (r, name_refusal(form.name@)) {
            (Ok(name), None) => name@ == trimmed(form.name@),
            (Err(error), Some(wanted)) => error@ == wanted,
            _ => false,
        },
{
    let name = form.name.as_str().trim();
    if name.is_empty() {
        return Err(bad_request("请填写 Passkey 名称"));
    }
    if name.unicode_len() > 80 {
        return Err(bad_request("Passkey 名称不能超过 80 个字符"));
    }
    Ok(name.to_owned())
}

/// A ceremony that is under way: its number, when it began, and what is needed to finish it.
pub struct Flow<T> {
    pub id: String,
    pub created: u64,
    pub value: T,
}

/// How long ago a time is; nothing where it lies ahead.
pub open spec fn age(created: u64, now: u64) -> int {
    if now >= created {
        now - created
    } else {
        0
    }
}

/// A ceremony has not taken too long.
pub open spec fn is_fresh(created: u64, now: u64) -> bool {
    age(created, now) < CEREMONY_TTL
}

fn fresh(created: u64, now: u64) -> (r: bool)
    ensures
        r == is_fresh(created, now),
{
    if now >= created {
        now - created < CEREMONY_TTL
    } else {
        true
    }
}

/// The ceremonies among the first `n` that have not taken too long, without the one with a number.
pub open spec fn kept<T>(flows: Seq<Flow<T>>, now: u64, id: Seq<char>, n: int) -> Seq<Flow<T>>
    decreases n,
{
    if n <= 0 {
        Seq::empty()
    } else if is_fresh(flows[n - 1].created, now) && flows[n - 1].id@ != id {
        kept(flows, now, id, n - 1).push(flows[n - 1])
    } else {
        kept(flows, now, id, n - 1)
    }
}

/// How many ceremonies among the first `n` have not taken too long.
pub open spec fn fresh_count<T>(flows: Seq<Flow<T>>, now: u64, n: int) -> int
    decreases n,
{
    if n <= 0 {
        0
    } else {
        fresh_count(flows, now, n - 1) + (if is_fresh(flows[n - 1].created, now) {
            1int
        } else {
            0
        })
    }
}

/// The ceremonies that are under way.
pub struct Flows<T> {
    pub entries: Vec<Flow<T>>,
}

impl<T> Flows<T> {
    /// No ceremony is under way.
    pub fn new() -> (r: Flows<T>)
        ensures
            r.entries@.len() == 0,
    {
        Flows { entries: Vec::new() }
    }

    /// Begins a ceremony under a number. Those that took too long are given up; where too many are
    /// left, all are.
    pub fn insert(&mut self, id: String, value: T, now: u64)
        ensures
            ({
                let before = old(self).entries@;
                let n = before.len() as int;
                let front = if fresh_count(before, now, n) >= MOST_FLOWS {
                    Seq::empty()
                } else {
                    kept(before, now, id@, n)
                };
                final(self).entries@ == front.push(Flow { id, created: now, value })
            }),
    {
        let ghost before = self.entries@;
        let mut all: Vec<Flow<T>> = Vec::new();
        all.append(&mut self.entries);
        let mut front: Vec<Flow<T>> = Vec::new();
        let mut count: usize = 0;
        let total: usize = all.len();
        for flow in it: all
            invariant
                it.seq() == before,
                before.len() == total,
                front@ == kept(before, now, id@, it.index() as int),
                count == fresh_count(before, now, it.index() as int),
                count <= it.index(),
        {
            if fresh(flow.created, now) {
                count = count + 1;
                if !same(&flow.id, &id) {
                    front.push(flow);
                }
            }
        }
        if count >= MOST_FLOWS {
            front = Vec::new();
        }
        front.push(Flow { id, created: now, value });
        self.entries = front;
    }

    /// Takes a ceremony out to finish it. It can be finished once, and only while it has not taken
    /// too long; the two messages say which of these does not hold.
    pub fn take(&mut self, id: &str, now: u64, unknown: &str, expired: &str) -> (r: HandlerResult<T>)
        ensures
            ({
                let before = old(self).entries@;
                let at = flow_place(before, id@, 0);
                if at >= before.len() {
                    *final(self) == *old(self) && (r matches Err(error) && error@ == bad(unknown@))
                } else {
                    &&& final(self).entries@ == before.remove(at)
                    &&& if is_fresh(before[at].created, now) {
                        r matches Ok(value) && value == before[at].value
                    } else {
                        r matches Err(error) && error@ == bad(expired@)
                    }
                }
            }),
    {
        let mut i: usize = 0;
        while i < self.entries.len() && !same(&self.entries[i].id, id)
            invariant
                i <= self.entries.len(),
                flow_place(self.entries@, id@, 0) == flow_place(self.entries@, id@, i as int),
            decreases self.entries.len() - i,
        {
            i = i + 1;
        }
        if i >= self.entries.len() {
            return Err(bad_request(unknown));
        }
        let flow = self.entries.remove(i);
        if fresh(flow.created, now) {
            Ok(flow.value)
        } else {
            Err(bad_request(expired))
        }
    }
}

/// The first place, from a place on, of the ceremony with a number; the length of the list where
/// there is none.
pub open spec fn flow_place<T>(flows: Seq<Flow<T>>, id: Seq<char>, from: int) -> int
    decreases flows.len() - from,
{
    if from >= flows.len() {
        flows.len() as int
    } else if flows[from].id@ == id {
        from
    } else {
        flow_place(flows, id, from + 1)
    }
}

/// A fresh number for a ceremony.
pub fn flow_id() -> (r: String)
    ensures
        r@.len() == 43,
{
    let (_bytes, text) = new_token();
    text
}

/// A ceremony that is begun can be finished until it has taken too long, and then only once: no
/// second one has its number.
pub proof fn flow_finishes_once<T>(flows: Seq<Flow<T>>, flow: Flow<T>)
    requires
        forall|i: int| 0 <= i < flows.len() ==> (#[trigger] flows[i]).id@ != flow.id@,
    ensures
        flow_place(flows.push(flow), flow.id@, 0) == flows.len(),
        flow_place(flows.push(flow).remove(flows.len() as int), flow.id@, 0) == flows.len(),
{
    let longer = flows.push(flow);
    assert(longer.remove(flows.len() as int) =~= flows);
    place_skips(longer, flow.id@, 0, flows.len() as int);
    place_skips(flows, flow.id@, 0, flows.len() as int);
}

proof fn place_skips<T>(flows: Seq<Flow<T>>, id: Seq<char>, from: int, to: int)
    requires
        0 <= from <= to <= flows.len(),
        forall|i: int| from <= i < to ==> (#[trigger] flows[i]).id@ != id,
    ensures
        flow_place(flows, id, from) == flow_place(flows, id, to),
    decreases to - from,
{
    if from < to {
        place_skips(flows, id, from + 1, to);
    }
}

/// What the ceremonies are told when they are unknown or took too long.
pub fn ceremony_messages(step: Ceremony) -> (r: (&'static str, &'static str))
    ensures
        r.0@ == unknown_text(step),
        r.1@ == expired_text(step),
{
    match step {
        Ceremony::Registration => (
            "Passkey 注册请求不存在或已使用，请重试",
            "Passkey 注册请求已过期，请重试",
        ),
        Ceremony::Enrollment => (
            "Passkey 确认请求不存在或已使用，请重试",
            "Passkey 确认请求已过期，请重试",
        ),
        Ceremony::Authentication => (
            "Passkey 登录请求不存在或已使用，请重试",
            "Passkey 登录请求已过期，请重试",
        ),
    }
}

/// The kinds of ceremonies.
#[derive(Clone, Copy, Debug, PartialEq, Eq, Structural)]
pub enum Ceremony {
    /// A new passkey is made.
    Registration,
    /// The new passkey gives its secret.
    Enrollment,
    /// The ledger is unlocked.
    Authentication,
}

/// The message for a ceremony that is unknown.
pub open spec fn unknown_text(step: Ceremony) -> Seq<char> {
    match step {
        Ceremony::Registration => "Passkey 注册请求不存在或已使用，请重试"@,
        Ceremony::Enrollment => "Passkey 确认请求不存在或已使用，请重试"@,
        Ceremony::Authentication => "Passkey 登录请求不存在或已使用，请重试"@,
    }
}

/// The message for a ceremony that took too long.
pub open spec fn expired_text(step: Ceremony) -> Seq<char> {
    match step {
        Ceremony::Registration => "Passkey 注册请求已过期，请重试"@,
        Ceremony::Enrollment => "Passkey 确认请求已过期，请重试"@,
        Ceremony::Authentication => "Passkey 登录请求已过期，请重试"@,
    }
}

/// A new passkey can only be used where its authenticator gives a secret.
pub fn check_prf(prf_enabled: bool) -> (r: HandlerResult<()>)
    ensures
        match r {
            Ok(_) => prf_enabled,
            Err(error) => !prf_enabled && error@ == bad(
                "此浏览器或认证器不支持 WebAuthn PRF，无法用于解锁加密数据"@,
            ),
        },
{
    if prf_enabled {
        Ok(())
    } else {
        Err(
            bad_request("此浏览器或认证器不支持 WebAuthn PRF，无法用于解锁加密数据"),
        )
    }
}

/// The first place, from a place on, of the passkey with a number; the length of the list where
/// there is none.
pub open spec fn passkey_place(rows: Seq<passkey::Model>, credential_id: Seq<u8>, from: int) -> int
    decreases rows.len() - from,
{
    if from >= rows.len() {
        rows.len() as int
    } else if rows[from].credential_id@ == credential_id {
        from
    } else {
        passkey_place(rows, credential_id, from + 1)
    }
}

fn find_passkey(rows: &Vec<passkey::Model>, credential_id: &Vec<u8>) -> (r: usize)
    ensures
        r == passkey_place(rows@, credential_id@, 0),
        r <= rows@.len(),
{
    let mut i: usize = 0;
    while i < rows.len() && !same_bytes(&rows[i].credential_id, credential_id)
        invariant
            i <= rows.len(),
            passkey_place(rows@, credential_id@, 0) == passkey_place(
                rows@,
                credential_id@,
                i as int,
            ),
        decreases rows.len() - i,
    {
        i = i + 1;
    }
    i
}

/// A new passkey must not be known.
pub fn finish_registration(rows: &Vec<passkey::Model>, credential_id: &Vec<u8>) -> (r: HandlerResult<
    (),
>)
    ensures
        match r {
            Ok(_) => passkey_place(rows@, credential_id@, 0) == rows@.len(),
            Err(error) => passkey_place(rows@, credential_id@, 0) < rows@.len() && error@ == bad(
                "该 Passkey 已注册"@,
            ),
        },
{
    if find_passkey(rows, credential_id) < rows.len() {
        Err(bad_request("该 Passkey 已注册"))
    } else {
        Ok(())
    }
}

/// A passkey unlocks a data key: the secret unwraps it.
pub open spec fn unlocks(row: passkey::Model, secret: Seq<u8>, dek: Seq<u8>) -> bool {
    as_key(unsealed(secret, row.dek_nonce@, row.wrapped_dek@)) == Some(dek)
}

/// Completes a registration: the row to store. The data key is wrapped under the secret that the
/// new passkey gave.
pub fn complete_registration(
    dek: &Dek,
    same_credential: bool,
    credential_id: Vec<u8>,
    credential: String,
    name: &str,
    prf_result: &str,
    now: DateTime,
) -> (r: HandlerResult<passkey::Model>)
    requires
        sealable(name@),
    ensures
        if !same_credential {
            r matches Err(error) && error@ == bad("Passkey 凭据不匹配"@)
        } else {
            match (r, secret_of(prf_result@)) {
                (Ok(row), Ok(secret)) => {
                    &&& row.credential_id == credential_id
                    &&& row.credential == credential
                    &&& plain(dek@, row.name@) == name@
                    &&& row.dek_nonce@.len() == NONCE_LEN
                    &&& unlocks(row, secret, dek@)
                    &&& row.created_at == now
                },
                (Err(error), Err(wanted)) => error@ == wanted,
                _ => false,
            }
        },
{
    if !same_credential {
        return Err(bad_request("Passkey 凭据不匹配"));
    }
    let secret = match decode_prf(prf_result) {
        Ok(secret) => secret,
        Err(error) => return Err(error),
    };
    let (dek_nonce, wrapped_dek) = wrap_dek(dek, secret.as_slice());
    Ok(
        passkey::Model {
            id: 0,
            credential_id,
            credential,
            name: encrypt_string(dek, name),
            dek_nonce,
            wrapped_dek,
            created_at: now,
        },
    )
}

/// Without a passkey nobody can unlock the ledger with one.
pub fn start_authentication(rows: &Vec<passkey::Model>) -> (r: HandlerResult<()>)
    ensures
        match r {
            Ok(_) => rows@.len() > 0,
            Err(error) => rows@.len() == 0 && error@ == missing("尚未设置 Passkey"@),
        },
{
    if rows.len() == 0 {
        Err(not_found("尚未设置 Passkey"))
    } else {
        Ok(())
    }
}

/// The data key that a passkey unlocks with the secret that it gave, or why it does not.
pub open spec fn unlocked(rows: Seq<passkey::Model>, credential_id: Seq<u8>, prf_result: Seq<char>) -> Result<
    Seq<u8>,
    ErrorView,
> {
    let at = passkey_place(rows, credential_id, 0);
    if at >= rows.len() {
        Err(bad("Passkey 不存在"@))
    } else {
        match secret_of(prf_result) {
            Err(e) => Err(e),
            Ok(secret) => match as_key(
                unsealed(secret, rows[at].dek_nonce@, rows[at].wrapped_dek@),
            ) {
                Some(dek) => Ok(dek),
                None => Err(bad("Passkey PRF 输出无法解锁数据"@)),
            },
        }
    }
}

/// Unlocks the data key with a passkey that was verified: its position, and the key.
pub fn finish_authentication(
    rows: &Vec<passkey::Model>,
    credential_id: &Vec<u8>,
    prf_result: &str,
) -> (r: HandlerResult<(usize, Dek)>)
    requires
        ({
            let at = passkey_place(rows@, credential_id@, 0);
            at < rows@.len() ==> rows@[at].dek_nonce@.len() == NONCE_LEN
        }),
    ensures
        match (r, unlocked(rows@, credential_id@, prf_result@)) {
            (Ok((at, dek)), Ok(wanted)) => dek@ == wanted && at == passkey_place(
                rows@,
                credential_id@,
                0,
            ),
            (Err(error), Err(wanted)) => error@ == wanted,
            _ => false,
        },
{
    let at: usize = find_passkey(rows, credential_id);
    if at >= rows.len() {
        return Err(bad_request("Passkey 不存在"));
    }
    let secret = match decode_prf(prf_result) {
        Ok(secret) => secret,
        Err(error) => return Err(error),
    };
    let row = &rows[at];
    match unwrap_dek(row.dek_nonce.as_slice(), row.wrapped_dek.as_slice(), secret.as_slice()) {
        Some(dek) => Ok((at, dek)),
        None => Err(bad_request("Passkey PRF 输出无法解锁数据")),
    }
}

/// A passkey gives the data key back: one that was registered with a secret unlocks with the same
/// secret the data key that it was registered for.
pub proof fn passkey_gives_back_the_key(
    rows: Seq<passkey::Model>,
    at: int,
    prf_result: Seq<char>,
    dek: Seq<u8>,
)
    requires
        0 <= at < rows.len(),
        secret_of(prf_result) is Ok,
        unlocks(rows[at], secret_of(prf_result)->Ok_0, dek),
        forall|i: int|
            0 <= i < at ==> (#[trigger] rows[i]).credential_id@ != rows[at].credential_id@,
    ensures
        unlocked(rows, rows[at].credential_id@, prf_result) == Ok::<Seq<u8>, ErrorView>(dek),
{
    passkey_place_is(rows, rows[at].credential_id@, 0, at);
}

proof fn passkey_place_is(rows: Seq<passkey::Model>, credential_id: Seq<u8>, from: int, at: int)
    requires
        0 <= from <= at < rows.len(),
        rows[at].credential_id@ == credential_id,
        forall|i: int| from <= i < at ==> (#[trigger] rows[i]).credential_id@ != credential_id,
    ensures
        passkey_place(rows, credential_id, from) == at,
    decreases at - from,
{
    if from < at {
        passkey_place_is(rows, credential_id, from + 1, at);
    }
}

} // verus!
