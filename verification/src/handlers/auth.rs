//! Setting a password and unlocking the ledger with it.
use vstd::prelude::*;
use vstd::string::*;
use vstd::utf8::encode_utf8;

use crate::calendar::DateTime;
use crate::crypto::{
    argon2_key, as_key, derive_kek, encrypt_string, plain, random_bytes, unsealed, unwrap_dek,
    utf8_length, wrap_dek, Dek, NONCE_LEN, SALT_LEN,
};
use crate::entity::meta;
use crate::error::{denied, missing, not_found, unauthorized, HandlerResult};
use crate::text::same;

verus! {

/// The form that sets the password.
pub struct SetupFormData {
    pub password: String,
    pub confirm: String,
}

/// The form that unlocks the ledger.
pub struct UnlockFormData {
    pub password: String,
}

/// What follows when a password is to be set.
pub enum SetupOutcome {
    /// There is a password already: the ledger is to be unlocked with it.
    AlreadySet,
    /// The form is shown again with a message.
    Refused(String),
    /// The row is to be stored; the ledger is unlocked with the data key.
    Created(meta::Model, Dek),
}

/// The row wraps the data key for a password.
pub open spec fn wraps(row: meta::Model, password: Seq<char>, dek: Seq<u8>) -> bool {
    &&& row.salt@.len() == SALT_LEN
    &&& row.dek_nonce@.len() == NONCE_LEN
    &&& as_key(
        unsealed(argon2_key(encode_utf8(password), row.salt@), row.dek_nonce@, row.wrapped_dek@),
    ) == Some(dek)
}

/// Sets the password: a fresh data key is made and wrapped under a key derived from the password.
/// The password needs at least six bytes and has to be entered twice.
pub fn setup(has_meta: bool, form: &SetupFormData) -> (r: SetupOutcome)
    requires
        encode_utf8(form.password@).len() <= 0xffff_ffff,
    ensures
        match r {
            SetupOutcome::AlreadySet => has_meta,
            SetupOutcome::Refused(message) => !has_meta && (if encode_utf8(form.password@).len()
                < 6 {
                message@ == "密码至少 6 位"@
            } else {
                form.password@ != form.confirm@ && message@ == "两次输入的密码不一致"@
            }),
            SetupOutcome::Created(row, dek) => !has_meta && encode_utf8(form.password@).len() >= 6
                && form.password@ == form.confirm@ && row.id == 1 && wraps(
                row,
                form.password@,
                dek@,
            ),
        },
{
    if has_meta {
        return SetupOutcome::AlreadySet;
    }
    if form.password.as_str().as_bytes().len() < 6 {
        return SetupOutcome::Refused("密码至少 6 位".to_owned());
    }
    if !same(&form.password, &form.confirm) {
        return SetupOutcome::Refused("两次输入的密码不一致".to_owned());
    }
    let salt: [u8; 16] = random_bytes::<16>();
    let kek = derive_kek(&form.password, salt.as_slice());
    let dek: Dek = random_bytes::<32>();
    let (nonce, wrapped) = wrap_dek(&dek, kek.as_slice());
    SetupOutcome::Created(
        meta::Model {
            id: 1,
            salt: vstd::slice::slice_to_vec(salt.as_slice()),
            dek_nonce: nonce,
            wrapped_dek: wrapped,
        },
        dek,
    )
}

/// Unlocks the ledger: the data key where the password is the right one, else a message. The
/// password that a row was made for gives the data key of that row. A row whose salt or nonce has
/// a wrong length was not written by this library.
pub fn unlock(row: &Option<meta::Model>, form: &UnlockFormData) -> (r: HandlerResult<
    Result<Dek, String>,
>)
    requires
        encode_utf8(form.password@).len() <= 0xffff_ffff,
        row matches Some(m) ==> 8 <= m.salt@.len() <= 0xffff_ffff && m.dek_nonce@.len() == NONCE_LEN,
    ensures
        match (r, *row) {
            (Ok(outcome), Some(m)) => {
                let unwrapped = as_key(
                    unsealed(
                        argon2_key(encode_utf8(form.password@), m.salt@),
                        m.dek_nonce@,
                        m.wrapped_dek@,
                    ),
                );
                match outcome {
                    Ok(dek) => unwrapped == Some(dek@),
                    Err(message) => unwrapped is None && message@ == "密码错误"@,
                }
            },
            (Err(error), None) => error@ == missing("尚未设置密码"@),
            _ => false,
        },
        row matches Some(m) ==> forall|dek: Seq<u8>| #[trigger]
            wraps(*m, form.password@, dek) ==> (r matches Ok(Ok(unlocked)) && unlocked@ == dek),
{
    match row {
        None => Err(not_found("尚未设置密码")),
        Some(m) => {
            let kek = derive_kek(&form.password, m.salt.as_slice());
            match unwrap_dek(m.dek_nonce.as_slice(), m.wrapped_dek.as_slice(), kek.as_slice()) {
                Some(dek) => Ok(Ok(dek)),
                None => Ok(Err("密码错误".to_owned())),
            }
        },
    }
}

/// The texts of the account that a new ledger begins with.
pub struct DefaultAccount {
    pub name: String,
    pub note: String,
    pub created_at: DateTime,
}

/// What is to be stored when a ledger is unlocked: without a data key the request is refused;
/// a ledger without any account gets one that is called 默认账户, another ledger none.
pub open spec fn begins(
    r: HandlerResult<Option<DefaultAccount>>,
    dek: Option<Seq<u8>>,
    account_count: u64,
    now: DateTime,
) -> bool {
    match (r, dek) {
        (Err(error), None) => error@ == denied("未解锁"@),
        (Ok(None), Some(_)) => account_count != 0,
        (Ok(Some(a)), Some(key)) => account_count == 0 && plain(key, a.name@) == "默认账户"@
            && plain(key, a.note@).len() == 0 && a.created_at == now,
        _ => false,
    }
}

/// The account that an unlocked ledger without any account begins with.
pub fn ensure_default_account(dek: Option<&Dek>, account_count: u64, now: DateTime) -> (r:
    HandlerResult<Option<DefaultAccount>>)
    ensures
        begins(
            r,
            match dek {
                Some(key) => Some(key@),
                None => None,
            },
            account_count,
            now,
        ),
{
    let key = match dek {
        Some(key) => key,
        None => return Err(unauthorized("未解锁")),
    };
    if account_count != 0 {
        return Ok(None);
    }
    proof {
        reveal_strlit("默认账户");
        reveal_strlit("");
        utf8_length("默认账户"@);
        utf8_length(""@);
    }
    Ok(
        Some(
            DefaultAccount {
                name: encrypt_string(key, "默认账户"),
                note: encrypt_string(key, ""),
                created_at: now,
            },
        ),
    )
}

/// How many accounts there are once what is to be stored is stored.
pub open spec fn count_after(
    account_count: u64,
    r: HandlerResult<Option<DefaultAccount>>,
) -> int {
    match r {
        Ok(Some(_)) => account_count + 1,
        _ => account_count as int,
    }
}

/// A ledger is given its first account once: unlocking it adds one account where there is none and
/// leaves the others alone, and unlocking it again adds nothing; without a data key nothing is
/// added.
pub proof fn first_account_is_added_once(
    first: HandlerResult<Option<DefaultAccount>>,
    second: HandlerResult<Option<DefaultAccount>>,
    deks: (Option<Seq<u8>>, Option<Seq<u8>>),
    counts: (u64, u64),
    times: (DateTime, DateTime),
)
    requires
        begins(first, deks.0, counts.0, times.0),
        begins(second, deks.1, counts.1, times.1),
        counts.1 == count_after(counts.0, first),
    ensures
        deks.0 is None ==> counts.1 == counts.0,
        deks.0 is Some && counts.0 == 0 ==> counts.1 == 1,
        counts.0 != 0 ==> counts.1 == counts.0,
        deks.0 is Some ==> count_after(counts.1, second) == counts.1,
{
}

/// Where to go instead of setting a password, where there is one.
pub fn setup_form(has_meta: bool) -> (r: Option<&'static str>)
    ensures
        match r {
            Some(target) => has_meta && target@ == "/unlock"@,
            None => !has_meta,
        },
{
    if has_meta {
        Some("/unlock")
    } else {
        None
    }
}

/// Where to go instead of unlocking, where there is no password.
pub fn unlock_form(has_meta: bool) -> (r: Option<&'static str>)
    ensures
        match r {
            Some(target) => !has_meta && target@ == "/setup"@,
            None => has_meta,
        },
{
    if has_meta {
        None
    } else {
        Some("/setup")
    }
}

} // verus!
