//! Requests to lend money or to pay it back, sent by a link, answered by who pays, and confirmed by
//! the owner. Each step is bound to the one before it by a digest.
use vstd::prelude::*;
use vstd::string::*;
use vstd::utf8::encode_utf8;

use crate::book::{find, found, Book, Row};
use crate::calendar::{
    later_by_days, minute_of_text, parse_minute, parse_time, time_of_text, time_text, time_to_text,
    write_rfc3339, DateTime,
};
use crate::chain::{
    byte_views, digest, digest_binds, digest_of, digests_collide, short_parts, signed_bytes,
    signed_bytes_injective, to_signed_bytes,
};
use crate::crypto::{
    argon2_key, cents, decrypt, decrypt_string, decrypted, derive_key, encrypt, encrypt_cents,
    encrypt_string, is_sealable, plain, random_bytes, sealable, sha256, Dek, PLAINTEXT_END,
    SALT_LEN,
};
use crate::currency::{amount_text, RateTable};
use crate::decimal::{cents_text, fmt_cents};
use crate::entity::{account, account_detail, debt_person, debt_record, debt_request};
use crate::error::{
    bad, bad_request, err500, internal, missing, not_found, text_too_long, too_long, ErrorView,
    HandlerResult,
};
use crate::handlers::accounts::{change_allowed, ensure_balance_delta};
use crate::handlers::bills::{
    account_display_name, display_name, in_default, people_options, to_default, PersonOption,
};
use crate::handlers::debts::{owed, person_outstanding, records_refusal, DebtSource};
use crate::handlers::transfers::{amount_of_text, parse_amount};
use crate::handlers::MaskedDetail;
use crate::text::{hex, hex_text, join2, join3, same, trimmed};
use crate::token::{decode_token, new_token, same_bytes, token_hash, token_of};

verus! {

/// What the key of a request is made for.
pub open spec fn key_purpose() -> Seq<char> {
    "haruka debt request key v1\0"@
}

/// What the digests of a request are made for.
pub open spec fn chain_purpose() -> Seq<char> {
    "haruka debt request verification chain v1\0"@
}

/// What is asked for by a request.
pub struct RequestSnapshot {
    pub version: u8,
    pub kind: String,
    pub kind_label: String,
    pub amount_cents: i64,
    pub currency: String,
    pub recipient_name: String,
    pub account_name: String,
    pub account_kind: String,
    pub identifier_label: String,
    pub identifier_masked: String,
    pub identifier: String,
    pub note: String,
    pub created_at: String,
}

/// What who pays tells of the payment.
pub struct PayerSubmission {
    pub version: u8,
    pub payer_name: String,
    pub payer_contact: String,
    pub payer_account: String,
    pub amount_cents: i64,
    pub note: String,
    pub paid_at: String,
}

/// The key of a request, from its token.
pub open spec fn request_key_of(token: Seq<u8>, salt: Seq<u8>) -> Seq<u8> {
    argon2_key(encode_utf8(key_purpose()) + token, salt)
}

/// The key of a request.
pub fn request_key(token: &[u8], salt: &[u8]) -> (r: Dek)
    requires
        token@.len() == 32,
        8 <= salt@.len() <= 0xffff_ffff,
    ensures
        r@ == request_key_of(token@, salt@),
{
    let mut material: Vec<u8> = Vec::new();
    material.extend_from_slice("haruka debt request key v1\0".as_bytes());
    material.extend_from_slice(token);
    proof {
        crate::crypto::utf8_length(key_purpose());
        reveal_strlit("haruka debt request key v1\0");
        assert(material@ =~= encode_utf8(key_purpose()) + token@);
    }
    derive_key(material.as_slice(), salt)
}

/// The number of a person, zero for none.
pub open spec fn person_number(person_id: Option<i64>) -> int {
    match person_id {
        Some(id) => id as int,
        None => 0,
    }
}

/// What the digest of a request that is made covers.
pub open spec fn created_parts(request: debt_request::Model) -> Seq<Seq<u8>> {
    seq![
        encode_utf8("created"@),
        request.token_hash@,
        signed_bytes(request.account_id as int),
        signed_bytes(person_number(request.person_id)),
        encode_utf8(request.kind@),
        encode_utf8(request.snapshot@),
        encode_utf8(time_text(request.expires_at)),
        encode_utf8(request.created_at.rfc3339()),
    ]
}

/// What the digest of a request that is answered covers.
pub open spec fn submitted_parts(request: debt_request::Model, submitted_at: DateTime) -> Seq<
    Seq<u8>,
> {
    seq![
        encode_utf8("submitted"@),
        request.request_digest@,
        encode_utf8(request.submission@),
        encode_utf8(submitted_at.rfc3339()),
    ]
}

/// What the digest of a request that is confirmed covers.
pub open spec fn confirmed_parts(
    request: debt_request::Model,
    record_id: i64,
    confirmed_at: DateTime,
) -> Seq<Seq<u8>> {
    seq![
        encode_utf8("confirmed"@),
        request.submission_digest@,
        signed_bytes(record_id as int),
        encode_utf8(confirmed_at.rfc3339()),
    ]
}

fn bytes_of(text: &str) -> (r: Vec<u8>)
    ensures
        r@ == encode_utf8(text@),
{
    let mut bytes: Vec<u8> = Vec::new();
    bytes.extend_from_slice(text.as_bytes());
    proof {
        assert(bytes@ =~= encode_utf8(text@));
    }
    bytes
}

fn copy_of(bytes: &Vec<u8>) -> (r: Vec<u8>)
    ensures
        r@ == bytes@,
{
    let mut copy: Vec<u8> = Vec::new();
    copy.extend_from_slice(bytes.as_slice());
    proof {
        assert(copy@ =~= bytes@);
    }
    copy
}

/// The digest of a request that is made.
pub fn created_digest(
    token_hash: &Vec<u8>,
    account_id: i64,
    person_id: Option<i64>,
    kind: &str,
    snapshot: &str,
    expires_at: DateTime,
    created_at: DateTime,
) -> (r: Vec<u8>)
    requires
        created_at.wf(),
    ensures
        r@ == digest_of(
            chain_purpose(),
            seq![
                encode_utf8("created"@),
                token_hash@,
                signed_bytes(account_id as int),
                signed_bytes(person_number(person_id)),
                encode_utf8(kind@),
                encode_utf8(snapshot@),
                encode_utf8(time_text(expires_at)),
                encode_utf8(created_at.rfc3339()),
            ],
        ),
        r@.len() == 32,
{
    let person: i64 = match person_id {
        Some(id) => id,
        None => 0,
    };
    let parts: Vec<Vec<u8>> = vec![
        bytes_of("created"),
        copy_of(token_hash),
        to_signed_bytes(account_id),
        to_signed_bytes(person),
        bytes_of(kind),
        bytes_of(snapshot),
        bytes_of(&time_to_text(expires_at)),
        bytes_of(&write_rfc3339(created_at)),
    ];
    proof {
        assert(byte_views(parts@) =~= seq![
            encode_utf8("created"@),
            token_hash@,
            signed_bytes(account_id as int),
            signed_bytes(person_number(person_id)),
            encode_utf8(kind@),
            encode_utf8(snapshot@),
            encode_utf8(time_text(expires_at)),
            encode_utf8(created_at.rfc3339()),
        ]);
    }
    digest("haruka debt request verification chain v1\0", &parts)
}

/// The digest of a request that is answered.
pub fn submitted_digest(previous: &Vec<u8>, submission: &str, submitted_at: DateTime) -> (r: Vec<u8>)
    requires
        submitted_at.wf(),
    ensures
        r@ == digest_of(
            chain_purpose(),
            seq![
                encode_utf8("submitted"@),
                previous@,
                encode_utf8(submission@),
                encode_utf8(submitted_at.rfc3339()),
            ],
        ),
        r@.len() == 32,
{
    let parts: Vec<Vec<u8>> = vec![
        bytes_of("submitted"),
        copy_of(previous),
        bytes_of(submission),
        bytes_of(&write_rfc3339(submitted_at)),
    ];
    proof {
        assert(byte_views(parts@) =~= seq![
            encode_utf8("submitted"@),
            previous@,
            encode_utf8(submission@),
            encode_utf8(submitted_at.rfc3339()),
        ]);
    }
    digest("haruka debt request verification chain v1\0", &parts)
}

/// The digest of a request that is confirmed.
pub fn confirmed_digest(previous: &Vec<u8>, record_id: i64, confirmed_at: DateTime) -> (r: Vec<u8>)
    requires
        confirmed_at.wf(),
    ensures
        r@ == digest_of(
            chain_purpose(),
            seq![
                encode_utf8("confirmed"@),
                previous@,
                signed_bytes(record_id as int),
                encode_utf8(confirmed_at.rfc3339()),
            ],
        ),
        r@.len() == 32,
{
    let parts: Vec<Vec<u8>> = vec![
        bytes_of("confirmed"),
        copy_of(previous),
        to_signed_bytes(record_id),
        bytes_of(&write_rfc3339(confirmed_at)),
    ];
    proof {
        assert(byte_views(parts@) =~= seq![
            encode_utf8("confirmed"@),
            previous@,
            signed_bytes(record_id as int),
            encode_utf8(confirmed_at.rfc3339()),
        ]);
    }
    digest("haruka debt request verification chain v1\0", &parts)
}

/// The times of a request that are written in its digests.
pub open spec fn times_ok(request: debt_request::Model) -> bool {
    &&& request.created_at.wf()
    &&& (request.submitted_at matches Some(time) ==> time.wf())
    &&& (request.confirmed_at matches Some(time) ==> time.wf())
}

/// The digest of the first step is right.
pub open spec fn creation_holds(request: debt_request::Model) -> bool {
    request.request_digest@ == digest_of(chain_purpose(), created_parts(request))
}

/// The digest of the second step is right, where the request was answered.
pub open spec fn submission_holds(request: debt_request::Model) -> bool {
    request.submission@.len() > 0 ==> (request.submitted_at matches Some(time)
        && request.submission_digest@ == digest_of(
        chain_purpose(),
        submitted_parts(request, time),
    ))
}

/// The digest of the third step is right, where the request was confirmed.
pub open spec fn confirmation_holds(request: debt_request::Model) -> bool {
    request.status@ == "confirmed"@ ==> (match (
        request.confirmed_debt_record_id,
        request.confirmed_at,
    ) {
        (Some(id), Some(time)) => request.confirmation_digest@ == digest_of(
            chain_purpose(),
            confirmed_parts(request, id, time),
        ),
        _ => false,
    })
}

/// All digests of a request are right.
pub open spec fn chain_holds(request: debt_request::Model) -> bool {
    creation_holds(request) && submission_holds(request) && confirmation_holds(request)
}

/// Whether all digests of a request are right.
pub fn verify_chain(request: &debt_request::Model) -> (r: bool)
    requires
        times_ok(*request),
    ensures
        r == chain_holds(*request),
{
    let created = created_digest(
        &request.token_hash,
        request.account_id,
        request.person_id,
        &request.kind,
        &request.snapshot,
        request.expires_at,
        request.created_at,
    );
    if !same_bytes(&request.request_digest, &created) {
        return false;
    }
    if !request.submission.as_str().is_empty() {
        match request.submitted_at {
            None => return false,
            Some(time) => {
                let submitted = submitted_digest(
                    &request.request_digest,
                    &request.submission,
                    time,
                );
                if !same_bytes(&request.submission_digest, &submitted) {
                    return false;
                }
            },
        }
    }
    if same(&request.status, "confirmed") {
        match request.confirmed_debt_record_id {
            None => return false,
            Some(id) => match request.confirmed_at {
                None => return false,
                Some(time) => {
                    let confirmed = confirmed_digest(&request.submission_digest, id, time);
                    if !same_bytes(&request.confirmation_digest, &confirmed) {
                        return false;
                    }
                },
            },
        }
    }
    true
}

/// The digest of the last step that a request has taken.
pub open spec fn head_of(request: debt_request::Model) -> Seq<u8> {
    if request.confirmation_digest@.len() > 0 {
        request.confirmation_digest@
    } else if request.submission_digest@.len() > 0 {
        request.submission_digest@
    } else {
        request.request_digest@
    }
}

/// The digest of the last step that a request has taken.
pub fn chain_head(request: &debt_request::Model) -> (r: &Vec<u8>)
    ensures
        r@ == head_of(*request),
{
    if request.confirmation_digest.len() > 0 {
        &request.confirmation_digest
    } else if request.submission_digest.len() > 0 {
        &request.submission_digest
    } else {
        &request.request_digest
    }
}

/// A digest as a code to compare: four bytes in a group, in base sixteen.
pub open spec fn code_text(bytes: Seq<u8>) -> Seq<char>
    decreases bytes.len(),
{
    if bytes.len() <= 4 {
        hex_text(bytes)
    } else {
        hex_text(bytes.take(4)) + "-"@ + code_text(bytes.skip(4))
    }
}

/// A digest as a code to compare.
pub fn digest_code(value: &Vec<u8>) -> (r: String)
    ensures
        r@ == code_text(value@),
{
    let mut code = String::new();
    let mut at: usize = 0;
    proof {
        assert(value@.skip(0) =~= value@);
        assert(code@ + code_text(value@) =~= code_text(value@));
    }
    while value.len() - at > 4
        invariant
            at <= value.len(),
            code@ + code_text(value@.skip(at as int)) == code_text(value@),
        decreases value.len() - at,
    {
        let group = vstd::slice::slice_subrange(value.as_slice(), at, at + 4);
        let ghost rest = value@.skip(at as int);
        proof {
            assert(group@ =~= rest.take(4));
            assert(rest.skip(4) =~= value@.skip(at + 4));
        }
        let ghost before = code@;
        code.append(&hex(group));
        code.append("-");
        proof {
            assert(code@ + code_text(value@.skip(at + 4)) =~= before + code_text(rest));
        }
        at = at + 4;
    }
    let last = vstd::slice::slice_subrange(value.as_slice(), at, value.len());
    proof {
        assert(last@ =~= value@.skip(at as int));
    }
    code.append(&hex(last));
    code
}

/// Money can be asked for in these ways.
pub open spec fn is_request_kind(kind: Seq<char>) -> bool {
    kind == "borrow"@ || kind == "repayment_received"@
}

pub fn valid_kind(kind: &str) -> (r: bool)
    ensures
        r == is_request_kind(kind@),
{
    same(kind, "borrow") || same(kind, "repayment_received")
}

/// The way in which money is asked for, in words.
pub open spec fn request_kind_text(kind: Seq<char>) -> Seq<char> {
    if kind == "repayment_received"@ {
        "请对方归还欠款"@
    } else {
        "向对方借款"@
    }
}

pub fn kind_label(kind: &str) -> (r: &'static str)
    ensures
        r@ == request_kind_text(kind@),
{
    if same(kind, "repayment_received") {
        "请对方归还欠款"
    } else {
        "向对方借款"
    }
}

/// A kind of account, in words.
pub open spec fn account_kind_text(kind: Seq<char>) -> Seq<char> {
    if kind == "payment"@ {
        "支付账户"@
    } else if kind == "bank"@ {
        "银行账户"@
    } else if kind == "stored_value"@ {
        "储值卡"@
    } else if kind == "credit_card"@ {
        "信用卡"@
    } else if kind == "credit_service"@ {
        "信贷服务"@
    } else if kind == "investment"@ {
        "投资账户"@
    } else {
        "其他账户"@
    }
}

pub fn account_kind_label(kind: &str) -> (r: &'static str)
    ensures
        r@ == account_kind_text(kind@),
{
    if same(kind, "payment") {
        "支付账户"
    } else if same(kind, "bank") {
        "银行账户"
    } else if same(kind, "stored_value") {
        "储值卡"
    } else if same(kind, "credit_card") {
        "信用卡"
    } else if same(kind, "credit_service") {
        "信贷服务"
    } else if same(kind, "investment") {
        "投资账户"
    } else {
        "其他账户"
    }
}

/// What identifies an account to who pays: what it is, with most of its characters hidden, and in
/// full.
pub struct Identifier {
    pub label: String,
    pub masked: String,
    pub value: String,
}

/// What identifies an account: its card number, else its user name; none where it has neither. The
/// two with most of their characters hidden are given.
pub open spec fn identifier_of(
    dek: Seq<u8>,
    detail: Option<account_detail::Model>,
    mask: Option<MaskedDetail>,
) -> Option<(Seq<char>, Seq<char>, Seq<char>)> {
    match detail {
        None => None,
        Some(detail) => {
            let card = plain(dek, detail.card_number@);
            let username = plain(dek, detail.account_username@);
            if card.len() > 0 {
                Some(
                    (
                        "卡号"@,
                        match mask {
                            Some(m) => m.card_number@,
                            None => Seq::empty(),
                        },
                        card,
                    ),
                )
            } else if username.len() > 0 {
                Some(
                    (
                        "账户用户名"@,
                        match mask {
                            Some(m) => m.account_username@,
                            None => Seq::empty(),
                        },
                        username,
                    ),
                )
            } else {
                None
            }
        },
    }
}

/// What identifies an account of a book.
pub open spec fn account_identifier_of(
    dek: Seq<u8>,
    book: Book,
    masks: Seq<MaskedDetail>,
    id: i64,
) -> Option<(Seq<char>, Seq<char>, Seq<char>)> {
    identifier_of(dek, found(book.details@, id), found(masks, id))
}

/// What identifies an account to who pays.
pub fn shared_account_identifier(
    dek: &Dek,
    book: &Book,
    masks: &Vec<MaskedDetail>,
    id: i64,
) -> (r: Option<Identifier>)
    ensures
        match r {
            Some(i) => account_identifier_of(dek@, *book, masks@, id) == Some(
                (i.label@, i.masked@, i.value@),
            ),
            None => account_identifier_of(dek@, *book, masks@, id) is None,
        },
{
    let detail = match find(&book.details, id) {
        Some(detail) => detail,
        None => return None,
    };
    let empty = String::new();
    proof {
        assert(empty@ =~= Seq::empty());
    }
    let card = decrypt_string(dek, &detail.card_number);
    if !card.as_str().is_empty() {
        let masked = match find(masks, id) {
            Some(m) => m.card_number.clone(),
            None => empty,
        };
        return Some(Identifier { label: "卡号".to_owned(), masked, value: card });
    }
    let username = decrypt_string(dek, &detail.account_username);
    if username.as_str().is_empty() {
        return None;
    }
    let masked = match find(masks, id) {
        Some(m) => m.account_username.clone(),
        None => empty,
    };
    Some(Identifier { label: "账户用户名".to_owned(), masked, value: username })
}

/// An account that can receive money.
pub struct AccountOption {
    pub id: i64,
    pub name: String,
}

/// The accounts among the first `n` that can receive money by a request: those with something that
/// identifies them.
pub open spec fn receiving(dek: Seq<u8>, book: Book, masks: Seq<MaskedDetail>, n: int) -> Seq<
    account::Model,
>
    decreases n,
{
    if n <= 0 {
        Seq::empty()
    } else if account_identifier_of(dek, book, masks, book.accounts@[n - 1].id) is Some {
        receiving(dek, book, masks, n - 1).push(book.accounts@[n - 1])
    } else {
        receiving(dek, book, masks, n - 1)
    }
}

/// The accounts to choose from show these values.
pub open spec fn are_receiving(
    options: Seq<AccountOption>,
    dek: Seq<u8>,
    book: Book,
    masks: Seq<MaskedDetail>,
    accounts: Seq<account::Model>,
) -> bool {
    &&& options.len() == accounts.len()
    &&& forall|i: int|
        0 <= i < options.len() ==> (#[trigger] options[i]).id == accounts[i].id && options[i].name@
            == display_name(
            dek,
            accounts[i],
            found(book.details@, accounts[i].id),
            found(masks, accounts[i].id),
        )
}

/// The page to make a request.
pub struct RequestForm {
    pub accounts: Vec<AccountOption>,
    pub people: Vec<PersonOption>,
    pub default_expires_at: String,
}

/// The page to make a request. A request ends after seven days unless another time is entered.
pub fn new_form(dek: &Dek, book: &Book, masks: &Vec<MaskedDetail>, now: DateTime) -> (r: RequestForm)
    requires
        later_by_days(now, 7) is Some,
    ensures
        are_receiving(
            r.accounts@,
            dek@,
            *book,
            masks@,
            receiving(dek@, *book, masks@, book.accounts@.len() as int),
        ),
        r.people@.len() == book.people@.len(),
        forall|i: int|
            0 <= i < r.people@.len() ==> (#[trigger] r.people@[i]).id == book.people@[i].id
                && r.people@[i].name@ == plain(dek@, book.people@[i].name@),
        r.default_expires_at@ == time_text(later_by_days(now, 7)->0),
{
    let mut accounts: Vec<AccountOption> = Vec::new();
    let mut i: usize = 0;
    while i < book.accounts.len()
        invariant
            i <= book.accounts.len(),
            are_receiving(
                accounts@,
                dek@,
                *book,
                masks@,
                receiving(dek@, *book, masks@, i as int),
            ),
        decreases book.accounts.len() - i,
    {
        let a = &book.accounts[i];
        if shared_account_identifier(dek, book, masks, a.id).is_some() {
            accounts.push(
                AccountOption {
                    id: a.id,
                    name: account_display_name(
                        dek,
                        a,
                        find(&book.details, a.id),
                        find(masks, a.id),
                    ),
                },
            );
        }
        i = i + 1;
    }
    let ends = match now.add_days(7) {
        Some(ends) => ends,
        None => now,
    };
    RequestForm {
        accounts,
        people: people_options(dek, &book.people),
        default_expires_at: time_to_text(ends),
    }
}

/// The form of a request.
pub struct CreateRequestForm {
    pub kind: String,
    pub person_id: i64,
    pub account_id: i64,
    pub amount: String,
    pub recipient_name: String,
    pub note: String,
    pub expires_at: String,
}

/// The person that a request is sent to, where one is chosen.
pub open spec fn form_person(form: CreateRequestForm) -> Option<i64> {
    if form.person_id == 0 {
        None
    } else {
        Some(form.person_id)
    }
}

/// Why a request cannot be made, where it cannot.
pub open spec fn request_refusal(
    dek: Seq<u8>,
    book: Book,
    masks: Seq<MaskedDetail>,
    form: CreateRequestForm,
    now: DateTime,
) -> Option<ErrorView> {
    if !is_request_kind(form.kind@) {
        Some(bad("请求类型无效"@))
    } else if form.kind@ == "repayment_received"@ && form.person_id == 0 {
        Some(bad("请对方还款时必须选择已有借贷对象"@))
    } else if form.person_id != 0 && found(book.people@, form.person_id) is None {
        Some(bad("借贷对象不存在"@))
    } else {
        match found(book.accounts@, form.account_id) {
            None => Some(bad("收款账户不存在"@)),
            Some(a) => if account_identifier_of(dek, book, masks, a.id) is None {
                Some(bad("该账户没有可分享的卡号或账户用户名"@))
            } else {
                match amount_of_text(form.amount@) {
                    Err(e) => Some(e),
                    Ok(_) => if trimmed(form.recipient_name@).len() == 0 || trimmed(
                        form.recipient_name@,
                    ).len() > 100 {
                        Some(bad("请填写 1 到 100 个字符的收款人姓名或户名"@))
                    } else {
                        match minute_of_text(form.expires_at@) {
                            None => Some(bad("有效期结束时间格式不正确"@)),
                            Some(expires_at) => if expires_at.key() <= now.key() {
                                Some(bad("有效期结束时间必须晚于现在"@))
                            } else {
                                None
                            },
                        }
                    },
                }
            },
        }
    }
}

/// What is asked for by a form.
pub open spec fn asks_for(
    s: RequestSnapshot,
    dek: Seq<u8>,
    book: Book,
    masks: Seq<MaskedDetail>,
    form: CreateRequestForm,
    now: DateTime,
) -> bool {
    let a = found(book.accounts@, form.account_id)->0;
    &&& s.version == 1
    &&& s.kind@ == form.kind@
    &&& s.kind_label@ == request_kind_text(form.kind@)
    &&& amount_of_text(form.amount@) == Ok::<i64, ErrorView>(s.amount_cents)
    &&& s.currency@ == a.currency@
    &&& s.recipient_name@ == trimmed(form.recipient_name@)
    &&& s.account_name@ == plain(dek, a.name@)
    &&& s.account_kind@ == account_kind_text(a.kind@)
    &&& account_identifier_of(dek, book, masks, a.id) == Some(
        (s.identifier_label@, s.identifier_masked@, s.identifier@),
    )
    &&& s.note@ == trimmed(form.note@)
    &&& s.created_at@ == time_text(now)
}

/// Prepares a request: what is asked for by it, and when it ends.
pub fn prepare(
    dek: &Dek,
    book: &Book,
    masks: &Vec<MaskedDetail>,
    form: &CreateRequestForm,
    now: DateTime,
) -> (r: HandlerResult<(RequestSnapshot, DateTime)>)
    ensures
        match (r, request_refusal(dek@, *book, masks@, *form, now)) {
            (Ok((snapshot, expires_at)), None) => asks_for(
                snapshot,
                dek@,
                *book,
                masks@,
                *form,
                now,
            ) && minute_of_text(form.expires_at@) == Some(expires_at),
            (Err(error), Some(wanted)) => error@ == wanted,
            _ => false,
        },
{
    if !valid_kind(&form.kind) {
        return Err(bad_request("请求类型无效"));
    }
    if same(&form.kind, "repayment_received") && form.person_id == 0 {
        return Err(bad_request("请对方还款时必须选择已有借贷对象"));
    }
    if form.person_id != 0 && find(&book.people, form.person_id).is_none() {
        return Err(bad_request("借贷对象不存在"));
    }
    let a = match find(&book.accounts, form.account_id) {
        Some(a) => a,
        None => return Err(bad_request("收款账户不存在")),
    };
    let identifier = match shared_account_identifier(dek, book, masks, a.id) {
        Some(identifier) => identifier,
        None => return Err(bad_request("该账户没有可分享的卡号或账户用户名")),
    };
    let amount_cents: i64 = match parse_amount(&form.amount) {
        Ok(amount) => amount,
        Err(error) => return Err(error),
    };
    let recipient = form.recipient_name.as_str().trim();
    if recipient.is_empty() || recipient.unicode_len() > 100 {
        return Err(bad_request("请填写 1 到 100 个字符的收款人姓名或户名"));
    }
    let expires_at = match parse_minute(&form.expires_at) {
        Some(time) => time,
        None => return Err(bad_request("有效期结束时间格式不正确")),
    };
    if expires_at.sort_key() <= now.sort_key() {
        return Err(bad_request("有效期结束时间必须晚于现在"));
    }
    Ok(
        (
            RequestSnapshot {
                version: 1,
                kind: form.kind.clone(),
                kind_label: kind_label(&form.kind).to_owned(),
                amount_cents,
                currency: a.currency.clone(),
                recipient_name: recipient.to_owned(),
                account_name: decrypt_string(dek, &a.name),
                account_kind: account_kind_label(&a.kind).to_owned(),
                identifier_label: identifier.label,
                identifier_masked: identifier.masked,
                identifier: identifier.value,
                note: form.note.as_str().trim().to_owned(),
                created_at: time_to_text(now),
            },
            expires_at,
        ),
    )
}

/// The label of a request.
pub open spec fn request_label(s: RequestSnapshot) -> Seq<char> {
    s.kind_label@ + " · "@ + amount_text(s.amount_cents as int, s.currency@)
}

/// A request that was just made.
pub open spec fn is_new_request(
    row: debt_request::Model,
    dek: Seq<u8>,
    form: CreateRequestForm,
    s: RequestSnapshot,
    encoded: Seq<u8>,
    expires_at: DateTime,
    now: DateTime,
) -> bool {
    let token = token_of(plain(dek, row.token@));
    &&& row.person_id == form_person(form)
    &&& row.account_id == form.account_id
    &&& row.kind@ == form.kind@
    &&& token is Some
    &&& row.token_hash@ == sha256(token->0)
    &&& row.salt@.len() == SALT_LEN
    &&& snapshot_bytes(row, token->0) == Some(encoded)
    &&& plain(dek, row.label@) == request_label(s)
    &&& row.submission@.len() == 0
    &&& row.submission_digest@.len() == 0
    &&& row.confirmation_digest@.len() == 0
    &&& row.status@ == "open"@
    &&& row.expires_at == expires_at
    &&& row.submitted_at is None
    &&& row.confirmed_at is None
    &&& row.confirmed_debt_record_id is None
    &&& row.created_at == now
    &&& chain_holds(row)
}

/// What is asked for by a request, in the notation in which it is stored, where a token opens it.
pub open spec fn snapshot_bytes(request: debt_request::Model, token: Seq<u8>) -> Option<Seq<u8>> {
    decrypted(request_key_of(token, request.salt@), request.snapshot@)
}

/// What who pays told, in the notation in which it is stored, where a token opens it.
pub open spec fn submission_bytes(request: debt_request::Model, token: Seq<u8>) -> Option<Seq<u8>> {
    if request.submission@.len() == 0 {
        None
    } else {
        decrypted(request_key_of(token, request.salt@), request.submission@)
    }
}

/// Makes a request: the row to store. `encoded` is what is asked for in the notation in which it is
/// stored.
pub fn create(
    dek: &Dek,
    form: &CreateRequestForm,
    snapshot: &RequestSnapshot,
    encoded: &[u8],
    expires_at: DateTime,
    now: DateTime,
) -> (r: HandlerResult<debt_request::Model>)
    requires
        encoded@.len() < PLAINTEXT_END,
        now.wf(),
    ensures
        match r {
            Ok(row) => sealable(request_label(*snapshot)) && is_new_request(
                row,
                dek@,
                *form,
                *snapshot,
                encoded@,
                expires_at,
                now,
            ),
            Err(error) => !sealable(request_label(*snapshot)) && error@ == too_long(),
        },
{
    let label = join3(
        &snapshot.kind_label,
        " · ",
        &crate::currency::format(snapshot.amount_cents, &snapshot.currency),
    );
    if !is_sealable(&label) {
        return Err(text_too_long());
    }
    let (token, text) = new_token();
    let hash = token_hash(token.as_slice());
    let salt: [u8; 16] = random_bytes::<16>();
    let key = request_key(token.as_slice(), salt.as_slice());
    let cipher = encrypt(key.as_slice(), encoded);
    let person_id = if form.person_id == 0 {
        None
    } else {
        Some(form.person_id)
    };
    let request_digest = created_digest(
        &hash,
        form.account_id,
        person_id,
        &form.kind,
        &cipher,
        expires_at,
        now,
    );
    let row = debt_request::Model {
        id: 0,
        person_id,
        account_id: form.account_id,
        kind: form.kind.clone(),
        token_hash: hash,
        token: encrypt_string(dek, &text),
        label: encrypt_string(dek, &label),
        salt: vstd::slice::slice_to_vec(salt.as_slice()),
        snapshot: cipher,
        submission: String::new(),
        request_digest,
        submission_digest: Vec::new(),
        confirmation_digest: Vec::new(),
        status: "open".to_owned(),
        expires_at,
        submitted_at: None,
        confirmed_at: None,
        confirmed_debt_record_id: None,
        created_at: now,
    };
    proof {
        reveal_strlit("open");
        reveal_strlit("confirmed");
        assert("open"@.len() != "confirmed"@.len());
    }
    Ok(row)
}

/// The first place, from a place on, of a request with the digest of a token; the length of the
/// list where there is none.
pub open spec fn request_place(requests: Seq<debt_request::Model>, hash: Seq<u8>, from: int) -> int
    decreases requests.len() - from,
{
    if from >= requests.len() {
        requests.len() as int
    } else if requests[from].token_hash@ == hash {
        from
    } else {
        request_place(requests, hash, from + 1)
    }
}

/// The place of the request that a token opens, where there is one which has not ended and was not
/// revoked.
pub open spec fn public_request(
    requests: Seq<debt_request::Model>,
    token: Seq<char>,
    now: DateTime,
) -> Option<(int, Seq<u8>)> {
    match token_of(token) {
        None => None,
        Some(bytes) => {
            let at = request_place(requests, sha256(bytes), 0);
            if at < requests.len() && requests[at].status@ != "revoked"@
                && requests[at].expires_at.key() > now.key() {
                Some((at, bytes))
            } else {
                None
            }
        },
    }
}

/// Finds the request that a token opens.
pub fn find_public_request(requests: &Vec<debt_request::Model>, token: &str, now: DateTime) -> (r:
    Option<(usize, Vec<u8>)>)
    ensures
        match r {
            Some((at, bytes)) => public_request(requests@, token@, now) == Some(
                (at as int, bytes@),
            ) && at < requests@.len() && bytes@.len() == 32,
            None => public_request(requests@, token@, now) is None,
        },
{
    let bytes = match decode_token(token) {
        Some(bytes) => bytes,
        None => return None,
    };
    let hash = token_hash(bytes.as_slice());
    let mut i: usize = 0;
    while i < requests.len() && !same_bytes(&requests[i].token_hash, &hash)
        invariant
            i <= requests.len(),
            request_place(requests@, hash@, 0) == request_place(requests@, hash@, i as int),
        decreases requests.len() - i,
    {
        i = i + 1;
    }
    if i < requests.len() && !same(&requests[i].status, "revoked")
        && requests[i].expires_at.sort_key() > now.sort_key() {
        Some((i, bytes))
    } else {
        None
    }
}

/// Decrypts what is asked for by a request.
pub fn decrypt_snapshot(request: &debt_request::Model, token: &[u8]) -> (r: Option<Vec<u8>>)
    requires
        token@.len() == 32,
        8 <= request.salt@.len() <= 0xffff_ffff,
    ensures
        match r {
            Some(bytes) => snapshot_bytes(*request, token@) == Some(bytes@),
            None => snapshot_bytes(*request, token@) is None,
        },
{
    let key = request_key(token, request.salt.as_slice());
    decrypt(key.as_slice(), &request.snapshot)
}

/// Decrypts what who pays told.
pub fn decrypt_submission(request: &debt_request::Model, token: &[u8]) -> (r: Option<Vec<u8>>)
    requires
        token@.len() == 32,
        8 <= request.salt@.len() <= 0xffff_ffff,
    ensures
        match r {
            Some(bytes) => submission_bytes(*request, token@) == Some(bytes@),
            None => submission_bytes(*request, token@) is None,
        },
{
    if request.submission.as_str().is_empty() {
        return None;
    }
    let key = request_key(token, request.salt.as_slice());
    decrypt(key.as_slice(), &request.submission)
}

/// What is stored of a request can be read: it could be, and its notation is the known one.
pub open spec fn readable(snapshot: Option<RequestSnapshot>) -> bool {
    snapshot matches Some(s) && s.version == 1
}

/// What who pays told can be read.
pub open spec fn told(submission: Option<PayerSubmission>) -> bool {
    submission matches Some(s) && s.version == 1
}

/// What a visitor with a link is shown.
pub enum PublicPage {
    /// There is no request.
    Unavailable,
    /// The request was answered: what was told.
    Receipt {
        paid_amount: String,
        expires_at: String,
        confirmed: bool,
        verification_code: String,
    },
    /// The request can be answered.
    Form { requested_amount: String, amount_input: String, expires_at: String },
}

/// What a visitor with a link is shown, as a value.
pub enum PublicView {
    Unavailable,
    Receipt {
        paid_amount: Seq<char>,
        expires_at: Seq<char>,
        confirmed: bool,
        verification_code: Seq<char>,
    },
    Form { requested_amount: Seq<char>, amount_input: Seq<char>, expires_at: Seq<char> },
}

impl View for PublicPage {
    type V = PublicView;

    open spec fn view(&self) -> PublicView {
        match *self {
            PublicPage::Unavailable => PublicView::Unavailable,
            PublicPage::Receipt { paid_amount, expires_at, confirmed, verification_code } => {
                PublicView::Receipt {
                    paid_amount: paid_amount@,
                    expires_at: expires_at@,
                    confirmed,
                    verification_code: verification_code@,
                }
            },
            PublicPage::Form { requested_amount, amount_input, expires_at } => PublicView::Form {
                requested_amount: requested_amount@,
                amount_input: amount_input@,
                expires_at: expires_at@,
            },
        }
    }
}

/// What a visitor with a link is shown, with what was read of the request.
pub open spec fn public_page(
    request: debt_request::Model,
    snapshot: Option<RequestSnapshot>,
    submission: Option<PayerSubmission>,
) -> PublicView {
    if !chain_holds(request) || !readable(snapshot) {
        PublicView::Unavailable
    } else {
        let asked = snapshot->0;
        let expires_at = time_text(request.expires_at);
        if request.status@ == "submitted"@ || request.status@ == "confirmed"@ {
            if !told(submission) {
                PublicView::Unavailable
            } else {
                PublicView::Receipt {
                    paid_amount: amount_text(
                        submission->0.amount_cents as int,
                        asked.currency@,
                    ),
                    expires_at,
                    confirmed: request.status@ == "confirmed"@,
                    verification_code: code_text(head_of(request)),
                }
            }
        } else {
            PublicView::Form {
                requested_amount: amount_text(asked.amount_cents as int, asked.currency@),
                amount_input: cents_text(asked.amount_cents as int),
                expires_at,
            }
        }
    }
}

/// Shows a request that a token opens, with what was read of it.
pub fn open(
    request: &debt_request::Model,
    snapshot: &Option<RequestSnapshot>,
    submission: &Option<PayerSubmission>,
) -> (r: PublicPage)
    requires
        times_ok(*request),
    ensures
        r@ == public_page(*request, *snapshot, *submission),
{
    if !verify_chain(request) {
        return PublicPage::Unavailable;
    }
    let asked = match snapshot {
        Some(asked) => asked,
        None => return PublicPage::Unavailable,
    };
    if asked.version != 1 {
        return PublicPage::Unavailable;
    }
    let expires_at = time_to_text(request.expires_at);
    let confirmed: bool = same(&request.status, "confirmed");
    if same(&request.status, "submitted") || confirmed {
        let answer = match submission {
            Some(answer) => answer,
            None => return PublicPage::Unavailable,
        };
        if answer.version != 1 {
            return PublicPage::Unavailable;
        }
        return PublicPage::Receipt {
            paid_amount: crate::currency::format(answer.amount_cents, &asked.currency),
            expires_at,
            confirmed,
            verification_code: digest_code(chain_head(request)),
        };
    }
    PublicPage::Form {
        requested_amount: crate::currency::format(asked.amount_cents, &asked.currency),
        amount_input: fmt_cents(asked.amount_cents),
        expires_at,
    }
}

/// What identifies an account in full, for who pays.
pub struct AccountIdentifierResponse {
    pub ok: bool,
    pub label: String,
    pub value: String,
}

/// Tells who pays what identifies the account in full; nothing where the request is not in order.
pub fn account_identifier(request: &debt_request::Model, snapshot: &Option<RequestSnapshot>) -> (r:
    Option<AccountIdentifierResponse>)
    requires
        times_ok(*request),
    ensures
        match r {
            Some(response) => chain_holds(*request) && readable(*snapshot) && response.ok
                && response.label@ == (*snapshot)->0.identifier_label@ && response.value@ == (
            *snapshot)->0.identifier@,
            None => !chain_holds(*request) || !readable(*snapshot),
        },
{
    if !verify_chain(request) {
        return None;
    }
    match snapshot {
        Some(asked) => if asked.version == 1 {
            Some(
                AccountIdentifierResponse {
                    ok: true,
                    label: asked.identifier_label.clone(),
                    value: asked.identifier.clone(),
                },
            )
        } else {
            None
        },
        None => None,
    }
}

/// The form that answers a request.
pub struct SubmitRequestForm {
    pub payer_name: String,
    pub payer_contact: String,
    pub payer_account: String,
    pub amount: String,
    pub note: String,
    pub paid_at: String,
}

/// A request can be answered: nobody did, its digests are right, and it can be read.
pub open spec fn can_submit(request: debt_request::Model, snapshot: Option<RequestSnapshot>) -> bool {
    request.status@ == "open"@ && chain_holds(request) && readable(snapshot)
}

/// Why an answer is refused, where it is.
pub open spec fn answer_refusal(form: SubmitRequestForm) -> Option<ErrorView> {
    let name = trimmed(form.payer_name@);
    if name.len() == 0 || name.len() > 100 {
        Some(bad("请填写 1 到 100 个字符的打款人姓名"@))
    } else if form.payer_contact@.len() > 200 || form.payer_account@.len() > 200 || form.note@.len()
        > 1000 {
        Some(bad("提交的信息过长"@))
    } else {
        match amount_of_text(form.amount@) {
            Err(e) => Some(e),
            Ok(_) => if minute_of_text(form.paid_at@) is None {
                Some(bad("打款时间格式不正确"@))
            } else {
                None
            },
        }
    }
}

/// What who pays tells by a form.
pub open spec fn tells(s: PayerSubmission, form: SubmitRequestForm) -> bool {
    &&& s.version == 1
    &&& s.payer_name@ == trimmed(form.payer_name@)
    &&& s.payer_contact@ == trimmed(form.payer_contact@)
    &&& s.payer_account@ == trimmed(form.payer_account@)
    &&& amount_of_text(form.amount@) == Ok::<i64, ErrorView>(s.amount_cents)
    &&& s.note@ == trimmed(form.note@)
    &&& s.paid_at@ == time_text(minute_of_text(form.paid_at@)->0)
}

/// Reads the answer to a request; nothing where the request cannot be answered.
pub fn read_answer(
    request: &debt_request::Model,
    snapshot: &Option<RequestSnapshot>,
    form: &SubmitRequestForm,
) -> (r: Option<HandlerResult<PayerSubmission>>)
    requires
        times_ok(*request),
    ensures
        match r {
            None => !can_submit(*request, *snapshot),
            Some(answer) => can_submit(*request, *snapshot) && (match (
                answer,
                answer_refusal(*form),
            ) {
                (Ok(s), None) => tells(s, *form),
                (Err(error), Some(wanted)) => error@ == wanted,
                _ => false,
            }),
        },
{
    if !same(&request.status, "open") || !verify_chain(request) {
        return None;
    }
    match snapshot {
        None => return None,
        Some(asked) => {
            if asked.version != 1 {
                return None;
            }
        },
    }
    let name = form.payer_name.as_str().trim();
    if name.is_empty() || name.unicode_len() > 100 {
        return Some(Err(bad_request("请填写 1 到 100 个字符的打款人姓名")));
    }
    if form.payer_contact.as_str().unicode_len() > 200 || form.payer_account.as_str().unicode_len()
        > 200 || form.note.as_str().unicode_len() > 1000 {
        return Some(Err(bad_request("提交的信息过长")));
    }
    let amount_cents: i64 = match parse_amount(&form.amount) {
        Ok(amount) => amount,
        Err(error) => return Some(Err(error)),
    };
    let paid_at = match parse_minute(&form.paid_at) {
        Some(time) => time,
        None => return Some(Err(bad_request("打款时间格式不正确"))),
    };
    Some(
        Ok(
            PayerSubmission {
                version: 1,
                payer_name: name.to_owned(),
                payer_contact: form.payer_contact.as_str().trim().to_owned(),
                payer_account: form.payer_account.as_str().trim().to_owned(),
                amount_cents,
                note: form.note.as_str().trim().to_owned(),
                paid_at: time_to_text(paid_at),
            },
        ),
    )
}

/// Two requests ask for the same: they differ in what came later alone.
pub open spec fn same_question(before: debt_request::Model, after: debt_request::Model) -> bool {
    &&& after.id == before.id
    &&& after.person_id == before.person_id
    &&& after.account_id == before.account_id
    &&& after.kind == before.kind
    &&& after.token_hash == before.token_hash
    &&& after.token == before.token
    &&& after.label == before.label
    &&& after.salt == before.salt
    &&& after.snapshot == before.snapshot
    &&& after.request_digest == before.request_digest
    &&& after.expires_at == before.expires_at
    &&& after.created_at == before.created_at
}

/// Answers a request: the row to store in its place. `encoded` is what who pays told, in the
/// notation in which it is stored.
pub fn submit(request: debt_request::Model, token: &[u8], encoded: &[u8], now: DateTime) -> (r:
    debt_request::Model)
    requires
        request.status@ == "open"@,
        chain_holds(request),
        token@.len() == 32,
        8 <= request.salt@.len() <= 0xffff_ffff,
        encoded@.len() < PLAINTEXT_END,
        now.wf(),
    ensures
        same_question(request, r),
        submission_bytes(r, token@) == Some(encoded@),
        r.status@ == "submitted"@,
        r.submitted_at == Some(now),
        r.confirmation_digest == request.confirmation_digest,
        r.confirmed_at == request.confirmed_at,
        r.confirmed_debt_record_id == request.confirmed_debt_record_id,
        r.submission_digest@.len() == 32,
        chain_holds(r),
{
    let key = request_key(token, request.salt.as_slice());
    let cipher = encrypt(key.as_slice(), encoded);
    let submission_digest = submitted_digest(&request.request_digest, &cipher, now);
    proof {
        reveal_strlit("submitted");
        reveal_strlit("confirmed");
        assert("submitted"@[0] == 's' && "confirmed"@[0] == 'c');
    }
    let mut row = request;
    row.submission = cipher;
    row.submission_digest = submission_digest;
    row.status = "submitted".to_owned();
    row.submitted_at = Some(now);
    proof {
        assert(created_parts(row) == created_parts(request));
    }
    row
}

/// What is shown to who pays right after the answer.
pub fn submitted_page(
    request: &debt_request::Model,
    snapshot: &RequestSnapshot,
    submission: &PayerSubmission,
) -> (r: PublicPage)
    ensures
        r@ == (PublicView::Receipt {
            paid_amount: amount_text(submission.amount_cents as int, snapshot.currency@),
            expires_at: time_text(request.expires_at),
            confirmed: false,
            verification_code: code_text(request.submission_digest@),
        }),
{
    PublicPage::Receipt {
        paid_amount: crate::currency::format(submission.amount_cents, &snapshot.currency),
        expires_at: time_to_text(request.expires_at),
        confirmed: false,
        verification_code: digest_code(&request.submission_digest),
    }
}

impl Row for debt_request::Model {
    open spec fn key(&self) -> i64 {
        self.id
    }

    fn row_key(&self) -> i64 {
        self.id
    }
}

/// The bytes of the token of a request that is to be confirmed, or why it cannot be.
pub open spec fn token_to_confirm(dek: Seq<u8>, requests: Seq<debt_request::Model>, id: i64) -> Result<
    Seq<u8>,
    ErrorView,
> {
    match found(requests, id) {
        None => Err(missing("借还请求不存在"@)),
        Some(request) => if request.status@ != "submitted"@ || !chain_holds(request) {
            Err(bad("请求尚未提交、已经处理或验证链不完整"@))
        } else {
            match token_of(plain(dek, request.token@)) {
                Some(token) => Ok(token),
                None => Err(internal("请求令牌无法解密"@)),
            }
        },
    }
}

/// The times of all requests that are written in their digests.
pub open spec fn all_times_ok(requests: Seq<debt_request::Model>) -> bool {
    forall|i: int| 0 <= i < requests.len() ==> times_ok(#[trigger] requests[i])
}

/// Finds the request that is to be confirmed, and the bytes of its token.
pub fn find_to_confirm<'a>(dek: &Dek, requests: &'a Vec<debt_request::Model>, id: i64) -> (r:
    HandlerResult<(&'a debt_request::Model, Vec<u8>)>)
    requires
        all_times_ok(requests@),
    ensures
        match (r, token_to_confirm(dek@, requests@, id)) {
            (Ok((request, token)), Ok(wanted)) => token@ == wanted && found(requests@, id) == Some(
                *request,
            ),
            (Err(error), Err(wanted)) => error@ == wanted,
            _ => false,
        },
{
    let request = match find(requests, id) {
        Some(request) => request,
        None => return Err(not_found("借还请求不存在")),
    };
    proof {
        crate::book::found_is_row(requests@, id);
    }
    if !same(&request.status, "submitted") || !verify_chain(request) {
        return Err(bad_request("请求尚未提交、已经处理或验证链不完整"));
    }
    match decode_token(&decrypt_string(dek, &request.token)) {
        Some(token) => Ok((request, token)),
        None => Err(err500("请求令牌无法解密")),
    }
}

/// What the note of a new person says: how to reach who paid, and from which account, one below the
/// other.
pub open spec fn person_note(s: PayerSubmission) -> Seq<char> {
    let contact = "联系方式："@ + s.payer_contact@;
    let account = "打款账户："@ + s.payer_account@;
    if s.payer_contact@.len() > 0 && s.payer_account@.len() > 0 {
        contact + "\n"@ + account
    } else if s.payer_contact@.len() > 0 {
        contact
    } else if s.payer_account@.len() > 0 {
        account
    } else {
        Seq::empty()
    }
}

fn write_person_note(s: &PayerSubmission) -> (r: String)
    ensures
        r@ == person_note(*s),
{
    let contact = join2("联系方式：", &s.payer_contact);
    let account = join2("打款账户：", &s.payer_account);
    let has_contact: bool = !s.payer_contact.as_str().is_empty();
    let has_account: bool = !s.payer_account.as_str().is_empty();
    if has_contact && has_account {
        join3(&contact, "\n", &account)
    } else if has_contact {
        contact
    } else if has_account {
        account
    } else {
        let none = String::new();
        proof {
            assert(none@ =~= Seq::empty());
        }
        none
    }
}

/// The note of the debt record: what the request and the answer say.
pub open spec fn joined_note(a: Seq<char>, b: Seq<char>) -> Seq<char> {
    if a.len() > 0 && b.len() > 0 {
        a + " · "@ + b
    } else if a.len() > 0 {
        a
    } else {
        b
    }
}

fn join_notes(a: &str, b: &str) -> (r: String)
    ensures
        r@ == joined_note(a@, b@),
{
    if !a.is_empty() && !b.is_empty() {
        join3(a, " · ", b)
    } else if !a.is_empty() {
        a.to_owned()
    } else {
        b.to_owned()
    }
}

/// What a confirmation is reckoned from.
pub struct ConfirmSource {
    pub dek: Seq<u8>,
    pub book: Book,
    pub rates: RateTable,
    pub default_currency: Seq<char>,
}

/// Why money that was paid back cannot be, where it cannot: it is more than the person owes.
pub open spec fn repayment_refusal(
    s: ConfirmSource,
    request: debt_request::Model,
    a: account::Model,
    amount: int,
) -> Option<ErrorView> {
    let d = DebtSource {
        dek: s.dek,
        records: s.book.debts@,
        accounts: s.book.accounts@,
        rates: s.rates,
        default_currency: s.default_currency,
    };
    let n = s.book.debts@.len() as int;
    match request.person_id {
        None => Some(bad("还款请求没有关联借贷对象"@)),
        Some(person) => match records_refusal(d, Some(person), n) {
            Some(e) => Some(e),
            None => match in_default(s.rates, amount, a.currency@) {
                Err(e) => Some(e),
                Ok(worth) => if worth > owed(d, person, n).0 {
                    Some(bad("打款金额超过对方当前尚欠金额"@))
                } else {
                    None
                },
            },
        },
    }
}

/// Why an answer cannot be confirmed, where it cannot.
pub open spec fn confirm_refusal(
    s: ConfirmSource,
    request: debt_request::Model,
    snapshot: Option<RequestSnapshot>,
    submission: Option<PayerSubmission>,
) -> Option<ErrorView> {
    if !readable(snapshot) {
        Some(internal("请求快照无法解密"@))
    } else if !told(submission) {
        Some(internal("打款信息无法解密"@))
    } else {
        let amount = submission->0.amount_cents as int;
        match found(s.book.accounts@, request.account_id) {
            None => Some(bad("收款账户已不存在"@)),
            Some(a) => if a.currency@ != snapshot->0.currency@ {
                Some(bad("收款账户货币已经变化，不能确认"@))
            } else if request.kind@ == "repayment_received"@ && repayment_refusal(
                s,
                request,
                a,
                amount,
            ) is Some {
                repayment_refusal(s, request, a, amount)
            } else {
                match change_allowed(s.dek, s.book, request.account_id, amount) {
                    Err(e) => Some(e),
                    Ok(_) => confirm_rest(s, request, snapshot->0, submission->0),
                }
            },
        }
    }
}

/// The last reasons why an answer cannot be confirmed: the person is gone, the texts are too long,
/// or the time of the payment cannot be read.
pub open spec fn confirm_rest(
    s: ConfirmSource,
    request: debt_request::Model,
    snapshot: RequestSnapshot,
    submission: PayerSubmission,
) -> Option<ErrorView> {
    if request.person_id is Some && found(s.book.people@, request.person_id->0) is None {
        Some(bad("关联的借贷对象已不存在"@))
    } else if request.person_id is None && !(sealable(submission.payer_name@) && sealable(
        person_note(submission),
    )) {
        Some(too_long())
    } else if !sealable(joined_note(snapshot.note@, submission.note@)) {
        Some(too_long())
    } else if time_of_text(submission.paid_at@, "%Y-%m-%dT%H:%M"@) is None {
        Some(internal("打款时间无法解析"@))
    } else {
        None
    }
}

/// What a confirmation adds: a debt record, and who paid where no person was chosen. The record
/// then belongs to the new person.
pub struct ConfirmRows {
    pub person: Option<debt_person::Model>,
    pub record: debt_record::Model,
}

/// A confirmation adds these rows.
pub open spec fn adds(
    rows: ConfirmRows,
    dek: Seq<u8>,
    request: debt_request::Model,
    snapshot: RequestSnapshot,
    submission: PayerSubmission,
    now: DateTime,
) -> bool {
    &&& match (rows.person, request.person_id) {
        (Some(p), None) => {
            &&& plain(dek, p.name@) == submission.payer_name@
            &&& plain(dek, p.note@) == person_note(submission)
            &&& p.created_at == now
        },
        (None, Some(id)) => rows.record.person_id == id,
        _ => false,
    }
    &&& rows.record.account_id == request.account_id
    &&& rows.record.kind@ == request.kind@
    &&& cents(dek, rows.record.amount@) == submission.amount_cents
    &&& plain(dek, rows.record.note@) == joined_note(snapshot.note@, submission.note@)
    &&& time_of_text(submission.paid_at@, "%Y-%m-%dT%H:%M"@) == Some(
        (
            rows.record.happened_at.date.days as int,
            rows.record.happened_at.second as int,
            rows.record.happened_at.nano as int,
        ),
    )
    &&& rows.record.created_at == now
}

fn check_repayment(
    dek: &Dek,
    book: &Book,
    rates: &RateTable,
    default_currency: &str,
    request: &debt_request::Model,
    a: &account::Model,
    amount: i64,
) -> (r: HandlerResult<()>)
    requires
        rates.wf(),
    ensures
        match (
            r,
            repayment_refusal(
                ConfirmSource {
                    dek: dek@,
                    book: *book,
                    rates: *rates,
                    default_currency: default_currency@,
                },
                *request,
                *a,
                amount as int,
            ),
        ) {
            (Ok(_), None) => true,
            (Err(error), Some(wanted)) => error@ == wanted,
            _ => false,
        },
{
    let person: i64 = match request.person_id {
        Some(person) => person,
        None => return Err(bad_request("还款请求没有关联借贷对象")),
    };
    let (receivable, _payable) = match person_outstanding(
        dek,
        book,
        rates,
        default_currency,
        person,
    ) {
        Ok(sums) => sums,
        Err(error) => return Err(error),
    };
    match to_default(rates, amount, &a.currency) {
        Err(error) => Err(error),
        Ok(worth) => if worth > receivable {
            Err(bad_request("打款金额超过对方当前尚欠金额"))
        } else {
            Ok(())
        },
    }
}

/// Confirms an answer to a request: the rows to add. The money enters the account only now.
pub fn confirm(
    dek: &Dek,
    book: &Book,
    rates: &RateTable,
    default_currency: &str,
    request: &debt_request::Model,
    snapshot: &Option<RequestSnapshot>,
    submission: &Option<PayerSubmission>,
    now: DateTime,
) -> (r: HandlerResult<ConfirmRows>)
    requires
        rates.wf(),
    ensures
        match (
            r,
            confirm_refusal(
                ConfirmSource {
                    dek: dek@,
                    book: *book,
                    rates: *rates,
                    default_currency: default_currency@,
                },
                *request,
                *snapshot,
                *submission,
            ),
        ) {
            (Ok(rows), None) => adds(
                rows,
                dek@,
                *request,
                (*snapshot)->0,
                (*submission)->0,
                now,
            ),
            (Err(error), Some(wanted)) => error@ == wanted,
            _ => false,
        },
{
    let asked = match snapshot {
        Some(asked) => asked,
        None => return Err(err500("请求快照无法解密")),
    };
    if asked.version != 1 {
        return Err(err500("请求快照无法解密"));
    }
    let answer = match submission {
        Some(answer) => answer,
        None => return Err(err500("打款信息无法解密")),
    };
    if answer.version != 1 {
        return Err(err500("打款信息无法解密"));
    }
    let a = match find(&book.accounts, request.account_id) {
        Some(a) => a,
        None => return Err(bad_request("收款账户已不存在")),
    };
    if !same(&a.currency, &asked.currency) {
        return Err(bad_request("收款账户货币已经变化，不能确认"));
    }
    if same(&request.kind, "repayment_received") {
        match check_repayment(
            dek,
            book,
            rates,
            default_currency,
            request,
            a,
            answer.amount_cents,
        ) {
            Ok(_) => {},
            Err(error) => return Err(error),
        }
    }
    match ensure_balance_delta(dek, book, request.account_id, answer.amount_cents) {
        Ok(_) => {},
        Err(error) => return Err(error),
    }
    let mut person: Option<debt_person::Model> = None;
    let mut person_id: i64 = 0;
    match request.person_id {
        Some(id) => {
            if find(&book.people, id).is_none() {
                return Err(bad_request("关联的借贷对象已不存在"));
            }
            person_id = id;
        },
        None => {
            let note = write_person_note(answer);
            if !is_sealable(&answer.payer_name) || !is_sealable(&note) {
                return Err(text_too_long());
            }
            person = Some(
                debt_person::Model {
                    id: 0,
                    name: encrypt_string(dek, &answer.payer_name),
                    note: encrypt_string(dek, &note),
                    created_at: now,
                },
            );
        },
    }
    let note = join_notes(&asked.note, &answer.note);
    if !is_sealable(&note) {
        return Err(text_too_long());
    }
    let happened_at = match parse_time(&answer.paid_at, "%Y-%m-%dT%H:%M") {
        Some(time) => time,
        None => return Err(err500("打款时间无法解析")),
    };
    Ok(
        ConfirmRows {
            person,
            record: debt_record::Model {
                id: 0,
                person_id,
                account_id: request.account_id,
                kind: request.kind.clone(),
                amount: encrypt_cents(dek, answer.amount_cents),
                note: encrypt_string(dek, &note),
                happened_at,
                created_at: now,
            },
        },
    )
}

/// A request after it was confirmed with a debt record: nothing but what tells of the confirmation
/// differs, and its digests hold.
pub open spec fn marks(
    before: debt_request::Model,
    after: debt_request::Model,
    record_id: i64,
    now: DateTime,
) -> bool {
    &&& same_question(before, after)
    &&& after.submission == before.submission
    &&& after.submission_digest == before.submission_digest
    &&& after.submitted_at == before.submitted_at
    &&& after.status@ == "confirmed"@
    &&& after.confirmed_at == Some(now)
    &&& after.confirmed_debt_record_id == Some(record_id)
    &&& after.confirmation_digest@.len() == 32
    &&& chain_holds(after)
}

/// Marks a request as confirmed once its debt record is stored under a number: the row to store in
/// its place.
pub fn mark_confirmed(request: debt_request::Model, record_id: i64, now: DateTime) -> (r:
    debt_request::Model)
    requires
        request.status@ == "submitted"@,
        chain_holds(request),
        now.wf(),
    ensures
        marks(request, r, record_id, now),
{
    let confirmation_digest = confirmed_digest(&request.submission_digest, record_id, now);
    let mut row = request;
    row.status = "confirmed".to_owned();
    row.confirmed_at = Some(now);
    row.confirmed_debt_record_id = Some(record_id);
    row.confirmation_digest = confirmation_digest;
    proof {
        assert(created_parts(row) == created_parts(request));
    }
    row
}

/// Revokes a request: the status to store.
pub fn revoke(requests: &Vec<debt_request::Model>, id: i64) -> (r: HandlerResult<&'static str>)
    ensures
        match found(requests@, id) {
            None => r matches Err(error) && error@ == missing("借还请求不存在"@),
            Some(request) => if request.status@ == "open"@ || request.status@ == "submitted"@ {
                r matches Ok(status) && status@ == "revoked"@
            } else {
                r matches Err(error) && error@ == bad("该请求不能再撤销"@)
            },
        },
{
    let request = match find(requests, id) {
        Some(request) => request,
        None => return Err(not_found("借还请求不存在")),
    };
    if same(&request.status, "open") || same(&request.status, "submitted") {
        Ok("revoked")
    } else {
        Err(bad_request("该请求不能再撤销"))
    }
}

/// A request in the list.
pub struct RequestView {
    pub id: i64,
    pub path: String,
    pub label: String,
    pub account_name: String,
    pub identifier_label: String,
    pub identifier_masked: String,
    pub note: String,
    pub status: String,
    pub status_label: String,
    pub expired: bool,
    pub expires_at: String,
    pub created_at: String,
    pub payer_name: String,
    pub payer_contact: String,
    pub payer_account: String,
    pub paid_amount: String,
    pub payer_note: String,
    pub paid_at: String,
    pub has_submission: bool,
    pub can_confirm: bool,
    pub can_revoke: bool,
    pub confirmed_debt_record_id: i64,
    pub verification_ok: bool,
    pub verification_code: String,
}

/// What was read of a request.
pub struct ReadRequest {
    pub snapshot: Option<RequestSnapshot>,
    pub submission: Option<PayerSubmission>,
}

/// The status of a request in words.
pub open spec fn status_text(status: Seq<char>, expired: bool) -> Seq<char> {
    if status == "submitted"@ {
        "等待确认"@
    } else if status == "confirmed"@ {
        "已确认到账"@
    } else if status == "revoked"@ {
        "已撤销"@
    } else if expired {
        "已过期"@
    } else {
        "等待打款人填写"@
    }
}

/// A text of what is asked for; empty where it cannot be read.
pub open spec fn asked_text(read: ReadRequest, f: spec_fn(RequestSnapshot) -> Seq<char>) -> Seq<char> {
    if readable(read.snapshot) {
        f(read.snapshot->0)
    } else {
        Seq::empty()
    }
}

/// A text of what was told; empty where it cannot be read.
pub open spec fn told_text(read: ReadRequest, f: spec_fn(PayerSubmission) -> Seq<char>) -> Seq<char> {
    if told(read.submission) {
        f(read.submission->0)
    } else {
        Seq::empty()
    }
}

/// A request in the list shows these values.
pub open spec fn is_request_view(
    view: RequestView,
    dek: Seq<u8>,
    request: debt_request::Model,
    read: ReadRequest,
    now: DateTime,
) -> bool {
    let expired = request.expires_at.key() <= now.key();
    &&& view.id == request.id
    &&& view.path@ == "/r/"@ + plain(dek, request.token@)
    &&& view.label@ == plain(dek, request.label@)
    &&& view.account_name@ == asked_text(read, |s: RequestSnapshot| s.account_name@)
    &&& view.identifier_label@ == asked_text(read, |s: RequestSnapshot| s.identifier_label@)
    &&& view.identifier_masked@ == asked_text(read, |s: RequestSnapshot| s.identifier_masked@)
    &&& view.note@ == asked_text(read, |s: RequestSnapshot| s.note@)
    &&& view.status@ == request.status@
    &&& view.status_label@ == status_text(request.status@, expired)
    &&& view.expired == expired
    &&& view.expires_at@ == time_text(request.expires_at)
    &&& view.created_at@ == time_text(request.created_at)
    &&& view.payer_name@ == told_text(read, |s: PayerSubmission| s.payer_name@)
    &&& view.payer_contact@ == told_text(read, |s: PayerSubmission| s.payer_contact@)
    &&& view.payer_account@ == told_text(read, |s: PayerSubmission| s.payer_account@)
    &&& view.paid_amount@ == told_text(
        read,
        |s: PayerSubmission|
            amount_text(
                s.amount_cents as int,
                asked_text(read, |a: RequestSnapshot| a.currency@),
            ),
    )
    &&& view.payer_note@ == told_text(read, |s: PayerSubmission| s.note@)
    &&& view.paid_at@ == told_text(read, |s: PayerSubmission| s.paid_at@)
    &&& view.has_submission == told(read.submission)
    &&& view.can_confirm == (request.status@ == "submitted"@ && chain_holds(request))
    &&& view.can_revoke == (request.status@ == "open"@ || request.status@ == "submitted"@)
    &&& view.confirmed_debt_record_id == (match request.confirmed_debt_record_id {
        Some(id) => id,
        None => 0,
    })
    &&& view.verification_ok == chain_holds(request)
    &&& view.verification_code@ == code_text(head_of(request))
}

fn empty_text() -> (r: String)
    ensures
        r@ == Seq::<char>::empty(),
{
    let s = String::new();
    proof {
        assert(s@ =~= Seq::empty());
    }
    s
}

fn request_view(dek: &Dek, request: &debt_request::Model, read: &ReadRequest, token: &str, now: DateTime) -> (r:
    RequestView)
    requires
        times_ok(*request),
        token@ == plain(dek@, request.token@),
    ensures
        is_request_view(r, dek@, *request, *read, now),
{
    let expired: bool = request.expires_at.sort_key() <= now.sort_key();
    let submitted: bool = same(&request.status, "submitted");
    let status_label = if submitted {
        "等待确认"
    } else if same(&request.status, "confirmed") {
        "已确认到账"
    } else if same(&request.status, "revoked") {
        "已撤销"
    } else if expired {
        "已过期"
    } else {
        "等待打款人填写"
    };
    let verified: bool = verify_chain(request);
    let mut account_name = empty_text();
    let mut identifier_label = empty_text();
    let mut identifier_masked = empty_text();
    let mut note = empty_text();
    let mut currency = empty_text();
    if let Some(asked) = &read.snapshot {
        if asked.version == 1 {
            account_name = asked.account_name.clone();
            identifier_label = asked.identifier_label.clone();
            identifier_masked = asked.identifier_masked.clone();
            note = asked.note.clone();
            currency = asked.currency.clone();
        }
    }
    let mut payer_name = empty_text();
    let mut payer_contact = empty_text();
    let mut payer_account = empty_text();
    let mut paid_amount = empty_text();
    let mut payer_note = empty_text();
    let mut paid_at = empty_text();
    let mut has_submission: bool = false;
    if let Some(answer) = &read.submission {
        if answer.version == 1 {
            payer_name = answer.payer_name.clone();
            payer_contact = answer.payer_contact.clone();
            payer_account = answer.payer_account.clone();
            paid_amount = crate::currency::format(answer.amount_cents, &currency);
            payer_note = answer.note.clone();
            paid_at = answer.paid_at.clone();
            has_submission = true;
        }
    }
    RequestView {
        id: request.id,
        path: join2("/r/", token),
        label: decrypt_string(dek, &request.label),
        account_name,
        identifier_label,
        identifier_masked,
        note,
        status: request.status.clone(),
        status_label: status_label.to_owned(),
        expired,
        expires_at: time_to_text(request.expires_at),
        created_at: time_to_text(request.created_at),
        payer_name,
        payer_contact,
        payer_account,
        paid_amount,
        payer_note,
        paid_at,
        has_submission,
        can_confirm: submitted && verified,
        can_revoke: same(&request.status, "open") || submitted,
        confirmed_debt_record_id: match request.confirmed_debt_record_id {
            Some(id) => id,
            None => 0,
        },
        verification_ok: verified,
        verification_code: digest_code(chain_head(request)),
    }
}

/// The positions among the first `n` requests of those that are listed: those whose token can be
/// read.
pub open spec fn listed(dek: Seq<u8>, requests: Seq<debt_request::Model>, n: int) -> Seq<int>
    decreases n,
{
    if n <= 0 {
        Seq::empty()
    } else if token_of(plain(dek, requests[n - 1].token@)) is Some {
        listed(dek, requests, n - 1).push(n - 1)
    } else {
        listed(dek, requests, n - 1)
    }
}

/// The list shows these requests.
pub open spec fn are_request_views(
    views: Seq<RequestView>,
    dek: Seq<u8>,
    requests: Seq<debt_request::Model>,
    reads: Seq<ReadRequest>,
    places: Seq<int>,
    now: DateTime,
) -> bool {
    &&& views.len() == places.len()
    &&& forall|i: int|
        0 <= i < views.len() ==> is_request_view(
            #[trigger] views[i],
            dek,
            requests[places[i]],
            reads[places[i]],
            now,
        )
}

/// Lists the requests. `reads` holds what was read of each.
pub fn list(
    dek: &Dek,
    requests: &Vec<debt_request::Model>,
    reads: &Vec<ReadRequest>,
    now: DateTime,
) -> (r: Vec<RequestView>)
    requires
        all_times_ok(requests@),
        reads@.len() == requests@.len(),
    ensures
        are_request_views(
            r@,
            dek@,
            requests@,
            reads@,
            listed(dek@, requests@, requests@.len() as int),
            now,
        ),
{
    let mut views: Vec<RequestView> = Vec::new();
    let mut i: usize = 0;
    while i < requests.len()
        invariant
            i <= requests.len(),
            all_times_ok(requests@),
            reads@.len() == requests@.len(),
            are_request_views(
                views@,
                dek@,
                requests@,
                reads@,
                listed(dek@, requests@, i as int),
                now,
            ),
        decreases requests.len() - i,
    {
        let token = decrypt_string(dek, &requests[i].token);
        if decode_token(&token).is_some() {
            views.push(request_view(dek, &requests[i], &reads[i], &token, now));
        }
        i = i + 1;
    }
    views
}

/// A link gives back what is asked for: until it ends or is revoked, the token of a request finds
/// it and opens it.
pub proof fn link_gives_back_the_request(
    requests: Seq<debt_request::Model>,
    at: int,
    token: Seq<char>,
    encoded: Seq<u8>,
    now: DateTime,
)
    requires
        0 <= at < requests.len(),
        token_of(token) is Some,
        requests[at].token_hash@ == sha256(token_of(token)->0),
        snapshot_bytes(requests[at], token_of(token)->0) == Some(encoded),
        forall|i: int|
            0 <= i < at ==> (#[trigger] requests[i]).token_hash@ != requests[at].token_hash@,
        requests[at].status@ != "revoked"@,
        now.key() < requests[at].expires_at.key(),
    ensures
        public_request(requests, token, now) == Some((at, token_of(token)->0)),
        ({
            let (place, bytes) = public_request(requests, token, now)->0;
            snapshot_bytes(requests[place], bytes) == Some(encoded)
        }),
{
    place_is_first(requests, requests[at].token_hash@, 0, at);
}

proof fn place_is_first(requests: Seq<debt_request::Model>, hash: Seq<u8>, from: int, at: int)
    requires
        0 <= from <= at < requests.len(),
        requests[at].token_hash@ == hash,
        forall|i: int| from <= i < at ==> (#[trigger] requests[i]).token_hash@ != hash,
    ensures
        request_place(requests, hash, from) == at,
    decreases at - from,
{
    if from < at {
        place_is_first(requests, hash, from + 1, at);
    }
}

/// The first digest binds what is asked for: two requests with the same first digest ask for the
/// same, unless the digests of two different byte strings agree.
pub proof fn creation_binds(a: debt_request::Model, b: debt_request::Model)
    requires
        creation_holds(a),
        creation_holds(b),
        short_parts(created_parts(a)),
        short_parts(created_parts(b)),
        a.request_digest@ == b.request_digest@,
    ensures
        digests_collide() || {
            &&& a.token_hash@ == b.token_hash@
            &&& a.account_id == b.account_id
            &&& person_number(a.person_id) == person_number(b.person_id)
            &&& a.kind@ == b.kind@
            &&& a.snapshot@ == b.snapshot@
            &&& time_text(a.expires_at) == time_text(b.expires_at)
            &&& a.created_at.rfc3339() == b.created_at.rfc3339()
        },
{
    let x = created_parts(a);
    let y = created_parts(b);
    digest_binds(chain_purpose(), x, y);
    if x == y {
        assert(x[1] == y[1] && x[2] == y[2] && x[3] == y[3]);
        assert(x[4] == y[4] && x[5] == y[5] && x[6] == y[6] && x[7] == y[7]);
        signed_bytes_injective(a.account_id, b.account_id);
        signed_bytes_injective(person_number(a.person_id) as i64, person_number(b.person_id) as i64);
        vstd::utf8::encode_utf8_decode_utf8(a.kind@);
        vstd::utf8::encode_utf8_decode_utf8(b.kind@);
        vstd::utf8::encode_utf8_decode_utf8(a.snapshot@);
        vstd::utf8::encode_utf8_decode_utf8(b.snapshot@);
        vstd::utf8::encode_utf8_decode_utf8(time_text(a.expires_at));
        vstd::utf8::encode_utf8_decode_utf8(time_text(b.expires_at));
        vstd::utf8::encode_utf8_decode_utf8(a.created_at.rfc3339());
        vstd::utf8::encode_utf8_decode_utf8(b.created_at.rfc3339());
    }
}

/// The last digest binds the whole request: two confirmed requests whose digests are all right and
/// whose last digests agree were confirmed with the same debt record, answered and asked in the
/// same way, unless the digests of two different byte strings agree.
pub proof fn confirmation_binds(a: debt_request::Model, b: debt_request::Model)
    requires
        chain_holds(a),
        chain_holds(b),
        a.status@ == "confirmed"@,
        b.status@ == "confirmed"@,
        a.submission@.len() > 0,
        b.submission@.len() > 0,
        short_parts(created_parts(a)),
        short_parts(created_parts(b)),
        short_parts(submitted_parts(a, a.submitted_at->0)),
        short_parts(submitted_parts(b, b.submitted_at->0)),
        short_parts(confirmed_parts(a, a.confirmed_debt_record_id->0, a.confirmed_at->0)),
        short_parts(confirmed_parts(b, b.confirmed_debt_record_id->0, b.confirmed_at->0)),
        a.confirmation_digest@ == b.confirmation_digest@,
    ensures
        digests_collide() || {
            &&& a.confirmed_debt_record_id == b.confirmed_debt_record_id
            &&& a.submission@ == b.submission@
            &&& a.snapshot@ == b.snapshot@
            &&& a.account_id == b.account_id
            &&& a.kind@ == b.kind@
        },
{
    let i = a.confirmed_debt_record_id->0;
    let j = b.confirmed_debt_record_id->0;
    let x = confirmed_parts(a, i, a.confirmed_at->0);
    let y = confirmed_parts(b, j, b.confirmed_at->0);
    digest_binds(chain_purpose(), x, y);
    if x == y {
        assert(x[1] == y[1] && x[2] == y[2]);
        signed_bytes_injective(i, j);
        let v = submitted_parts(a, a.submitted_at->0);
        let w = submitted_parts(b, b.submitted_at->0);
        digest_binds(chain_purpose(), v, w);
        if v == w {
            assert(v[1] == w[1] && v[2] == w[2]);
            vstd::utf8::encode_utf8_decode_utf8(a.submission@);
            vstd::utf8::encode_utf8_decode_utf8(b.submission@);
            creation_binds(a, b);
        }
    }
}

/// The tables that a confirmation reaches.
pub struct RequestTables {
    pub requests: Seq<debt_request::Model>,
    pub people: Seq<debt_person::Model>,
    pub records: Seq<debt_record::Model>,
}

/// What is stored when a request is confirmed: the rows that are added, the numbers that they are
/// stored under, and the row that takes the place of the request.
pub struct Confirmation {
    pub rows: ConfirmRows,
    pub person_id: i64,
    pub record_id: i64,
    pub marked: debt_request::Model,
}

impl Confirmation {
    /// The debt record as it is stored: it belongs to the new person where one is added.
    pub open spec fn record(self) -> debt_record::Model {
        debt_record::Model {
            id: self.record_id,
            person_id: if self.rows.person is Some {
                self.person_id
            } else {
                self.rows.record.person_id
            },
            ..self.rows.record
        }
    }
}

/// The tables once a confirmation is stored.
pub open spec fn tables_with(before: RequestTables, c: Confirmation) -> RequestTables {
    RequestTables {
        requests: before.requests.map_values(
            |row: debt_request::Model|
                if row.id == c.marked.id {
                    c.marked
                } else {
                    row
                },
        ),
        people: match c.rows.person {
            Some(p) => before.people.push(debt_person::Model { id: c.person_id, ..p }),
            None => before.people,
        },
        records: before.records.push(c.record()),
    }
}

/// Why the request with a number is not confirmed, where it is not.
pub open spec fn settle_refusal(
    s: ConfirmSource,
    requests: Seq<debt_request::Model>,
    id: i64,
    snapshot: Option<RequestSnapshot>,
    submission: Option<PayerSubmission>,
) -> Option<ErrorView> {
    match token_to_confirm(s.dek, requests, id) {
        Err(e) => Some(e),
        Ok(_) => confirm_refusal(s, found(requests, id)->0, snapshot, submission),
    }
}

/// What becomes of the tables when the request with a number is confirmed: the request is found,
/// the rows of `confirm` are stored, and the row of `mark_confirmed` takes its place; where one of
/// these steps refuses, nothing is stored.
pub open spec fn settled(
    before: RequestTables,
    after: RequestTables,
    s: ConfirmSource,
    id: i64,
    snapshot: Option<RequestSnapshot>,
    submission: Option<PayerSubmission>,
    now: DateTime,
) -> bool {
    if settle_refusal(s, before.requests, id, snapshot, submission) is Some {
        after == before
    } else {
        let request = found(before.requests, id)->0;
        exists|c: Confirmation|
            after == #[trigger] tables_with(before, c) && adds(
                c.rows,
                s.dek,
                request,
                snapshot->0,
                submission->0,
                now,
            ) && marks(request, c.marked, c.record_id, now)
    }
}

/// Confirming a request changes all of these or none: one debt record is added, of the kind and on
/// the account that the request names and with the amount that was paid, and one person where the
/// request names none; the request is confirmed with that record and its digests hold. A second
/// confirmation of the same request is refused.
pub proof fn request_is_confirmed_once(
    before: RequestTables,
    after: RequestTables,
    s: ConfirmSource,
    id: i64,
    snapshot: Option<RequestSnapshot>,
    submission: Option<PayerSubmission>,
    now: DateTime,
)
    requires
        settled(before, after, s, id, snapshot, submission, now),
    ensures
        match settle_refusal(s, before.requests, id, snapshot, submission) {
            Some(_) => after == before,
            None => {
                let request = found(before.requests, id)->0;
                let record = after.records.last();
                &&& after.records == before.records.push(record)
                &&& record.kind@ == request.kind@
                &&& record.account_id == request.account_id
                &&& cents(s.dek, record.amount@) == submission->0.amount_cents
                &&& match request.person_id {
                    Some(person) => after.people == before.people && record.person_id == person,
                    None => {
                        &&& after.people == before.people.push(after.people.last())
                        &&& record.person_id == after.people.last().id
                        &&& plain(s.dek, after.people.last().name@) == submission->0.payer_name@
                    },
                }
                &&& after.requests.len() == before.requests.len()
                &&& forall|i: int|
                    0 <= i < before.requests.len() && before.requests[i].id != id
                        ==> #[trigger] after.requests[i] == before.requests[i]
                &&& (found(after.requests, id) matches Some(row) && row.status@ == "confirmed"@
                    && chain_holds(row) && same_question(request, row)
                    && row.confirmed_debt_record_id == Some(record.id))
                &&& token_to_confirm(s.dek, after.requests, id) == Err::<Seq<u8>, ErrorView>(
                    bad("请求尚未提交、已经处理或验证链不完整"@),
                )
            },
        },
{
    if settle_refusal(s, before.requests, id, snapshot, submission) is None {
        let request = found(before.requests, id)->0;
        let c = choose|c: Confirmation|
            after == #[trigger] tables_with(before, c) && adds(
                c.rows,
                s.dek,
                request,
                snapshot->0,
                submission->0,
                now,
            ) && marks(request, c.marked, c.record_id, now);
        crate::book::found_is_row(before.requests, id);
        replaced_is_found(before.requests, c.marked);
        reveal_strlit("submitted");
        reveal_strlit("confirmed");
        assert("submitted"@[0] == 's' && "confirmed"@[0] == 'c');
    }
}

proof fn replaced_is_found(requests: Seq<debt_request::Model>, marked: debt_request::Model)
    requires
        found(requests, marked.id) is Some,
    ensures
        found(
            requests.map_values(
                |row: debt_request::Model|
                    if row.id == marked.id {
                        marked
                    } else {
                        row
                    },
            ),
            marked.id,
        ) == Some(marked),
    decreases requests.len(),
{
    let f = |row: debt_request::Model|
        if row.id == marked.id {
            marked
        } else {
            row
        };
    let after = requests.map_values(f);
    if requests.last().id != marked.id {
        assert(after.drop_last() =~= requests.drop_last().map_values(f));
        replaced_is_found(requests.drop_last(), marked);
    }
}

/// A request that was revoked or has ended shows nothing.
pub proof fn ended_request_shows_nothing(
    requests: Seq<debt_request::Model>,
    token: Seq<char>,
    now: DateTime,
)
    requires
        forall|i: int|
            0 <= i < requests.len() ==> (#[trigger] requests[i]).status@ == "revoked"@
                || requests[i].expires_at.key() <= now.key(),
    ensures
        public_request(requests, token, now) is None,
{
    if token_of(token) is Some {
        place_in_list(requests, sha256(token_of(token)->0), 0);
    }
}

proof fn place_in_list(requests: Seq<debt_request::Model>, hash: Seq<u8>, from: int)
    requires
        0 <= from <= requests.len(),
    ensures
        from <= request_place(requests, hash, from) <= requests.len(),
    decreases requests.len() - from,
{
    if from < requests.len() && requests[from].token_hash@ != hash {
        place_in_list(requests, hash, from + 1);
    }
}

} // verus!
