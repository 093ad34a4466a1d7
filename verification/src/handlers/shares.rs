//! Bills that are shown to others by a link, for a time and perhaps behind a password.
use vstd::prelude::*;
use vstd::string::*;
use vstd::utf8::encode_utf8;

use crate::book::{find, found, Book, Row};
use crate::calendar::{
    later_by_days, minute_of_text, parse_minute, time_text, time_to_text, DateTime,
};
use crate::crypto::{
    argon2_key, cents, decrypt, decrypt_cents, decrypt_string, decrypted, derive_key, encrypt,
    encrypt_string, is_sealable, plain, random_bytes, sealable, sha256, Dek, PLAINTEXT_END,
    SALT_LEN,
};
use crate::currency::amount_text;
use crate::entity::{bill, bill_share};
use crate::error::{
    bad, bad_request, missing, not_found, text_too_long, too_long, ErrorView, HandlerResult,
};
use crate::handlers::bills::{account_display_name, display_name};
use crate::handlers::MaskedDetail;
use crate::text::{int_text, int_to_text, join2, join3, join5, same};
use crate::token::{decode_token, new_token, same_bytes, token_hash, token_of};

verus! {

/// What a key for a shared bill is made for.
pub open spec fn share_purpose() -> Seq<char> {
    "haruka bill share key v1\0"@
}

/// The most bytes that the password of a shared bill may have.
pub const LONGEST_PASSWORD: usize = 256;

/// The key of a shared bill, from its token and its password.
pub open spec fn share_key_of(token: Seq<u8>, password: Seq<char>, salt: Seq<u8>) -> Seq<u8> {
    argon2_key(encode_utf8(share_purpose()) + token + encode_utf8(password), salt)
}

/// The key of a shared bill.
pub fn share_key(token: &[u8], password: &str, salt: &[u8]) -> (r: Dek)
    requires
        token@.len() == 32,
        encode_utf8(password@).len() <= LONGEST_PASSWORD,
        8 <= salt@.len() <= 0xffff_ffff,
    ensures
        r@ == share_key_of(token@, password@, salt@),
{
    let mut material: Vec<u8> = Vec::new();
    material.extend_from_slice("haruka bill share key v1\0".as_bytes());
    material.extend_from_slice(token);
    material.extend_from_slice(password.as_bytes());
    proof {
        crate::crypto::utf8_length(share_purpose());
        reveal_strlit("haruka bill share key v1\0");
        assert(material@ =~= encode_utf8(share_purpose()) + token@ + encode_utf8(password@));
    }
    derive_key(material.as_slice(), salt)
}

/// A bill as it is shown to others.
pub struct BillSummaryView {
    pub kind: String,
    pub amount: String,
    pub account: String,
    pub category: String,
    pub note: String,
    pub happened_at: String,
}

/// What is kept of a bill that is shared.
pub struct SharedBillSnapshot {
    pub version: u8,
    pub kind: String,
    pub amount: String,
    pub account: String,
    pub category: String,
    pub note: String,
    pub happened_at: String,
}

/// Why a bill cannot be summed up, where it cannot.
pub open spec fn summary_refusal(book: Book, bill_id: i64) -> Option<ErrorView> {
    match found(book.bills@, bill_id) {
        None => Some(missing("账单不存在"@)),
        Some(b) => if found(book.accounts@, b.account_id) is None {
            Some(missing("账单账户不存在"@))
        } else {
            None
        },
    }
}

/// The kind of a bill in words.
pub open spec fn bill_kind_text(kind: Seq<char>) -> Seq<char> {
    if kind == "income"@ {
        "收入"@
    } else {
        "支出"@
    }
}

/// The amount of a bill with its currency.
pub open spec fn bill_amount_text(dek: Seq<u8>, book: Book, b: bill::Model) -> Seq<char> {
    amount_text(cents(dek, b.amount@), found(book.accounts@, b.account_id)->0.currency@)
}

/// A bill as it is shown to others has these values.
pub open spec fn is_summary(
    view: BillSummaryView,
    dek: Seq<u8>,
    book: Book,
    masks: Seq<MaskedDetail>,
    b: bill::Model,
) -> bool {
    let a = found(book.accounts@, b.account_id)->0;
    &&& view.kind@ == bill_kind_text(b.kind@)
    &&& view.amount@ == bill_amount_text(dek, book, b)
    &&& view.account@ == display_name(dek, a, found(book.details@, a.id), found(masks, a.id))
    &&& view.category@ == plain(dek, b.category@)
    &&& view.note@ == plain(dek, b.note@)
    &&& view.happened_at@ == time_text(b.happened_at)
}

/// The label of a shared bill.
pub open spec fn share_label(dek: Seq<u8>, book: Book, b: bill::Model) -> Seq<char> {
    bill_kind_text(b.kind@) + " · "@ + bill_amount_text(dek, book, b) + " · "@ + plain(
        dek,
        b.category@,
    )
}

/// Sums up a bill: as it is shown to others, and its label.
pub fn bill_summary(dek: &Dek, book: &Book, masks: &Vec<MaskedDetail>, bill_id: i64) -> (r:
    HandlerResult<(BillSummaryView, String)>)
    ensures
        match (r, summary_refusal(*book, bill_id)) {
            (Ok((view, label)), None) => {
                let b = found(book.bills@, bill_id)->0;
                is_summary(view, dek@, *book, masks@, b) && label@ == share_label(dek@, *book, b)
            },
            (Err(error), Some(wanted)) => error@ == wanted,
            _ => false,
        },
{
    let b = match find(&book.bills, bill_id) {
        Some(b) => b,
        None => return Err(not_found("账单不存在")),
    };
    let a = match find(&book.accounts, b.account_id) {
        Some(a) => a,
        None => return Err(not_found("账单账户不存在")),
    };
    let kind = if same(&b.kind, "income") {
        "收入"
    } else {
        "支出"
    };
    let amount = crate::currency::format(decrypt_cents(dek, &b.amount), &a.currency);
    let category = decrypt_string(dek, &b.category);
    let label = join5(kind, " · ", &amount, " · ", &category);
    Ok(
        (
            BillSummaryView {
                kind: kind.to_owned(),
                amount,
                account: account_display_name(
                    dek,
                    a,
                    find(&book.details, a.id),
                    find(masks, a.id),
                ),
                category,
                note: decrypt_string(dek, &b.note),
                happened_at: time_to_text(b.happened_at),
            },
            label,
        ),
    )
}

/// What is kept of a bill as it is shown.
pub fn snapshot_from_view(view: &BillSummaryView) -> (r: SharedBillSnapshot)
    ensures
        r.version == 1,
        r.kind@ == view.kind@,
        r.amount@ == view.amount@,
        r.account@ == view.account@,
        r.category@ == view.category@,
        r.note@ == view.note@,
        r.happened_at@ == view.happened_at@,
{
    SharedBillSnapshot {
        version: 1,
        kind: view.kind.clone(),
        amount: view.amount.clone(),
        account: view.account.clone(),
        category: view.category.clone(),
        note: view.note.clone(),
        happened_at: view.happened_at.clone(),
    }
}

/// The form that shares a bill.
pub struct CreateShareForm {
    pub expires_at: String,
    pub password: String,
    pub confirm: String,
}

/// Why a bill cannot be shared, where it cannot.
pub open spec fn share_refusal(
    book: Book,
    bill_id: i64,
    form: CreateShareForm,
    now: DateTime,
) -> Option<ErrorView> {
    match minute_of_text(form.expires_at@) {
        None => Some(bad("有效期结束时间格式不正确"@)),
        Some(expires_at) => if expires_at.key() <= now.key() {
            Some(bad("有效期结束时间必须晚于现在"@))
        } else if form.password@ != form.confirm@ {
            Some(bad("两次输入的分享密码不一致"@))
        } else if encode_utf8(form.password@).len() > LONGEST_PASSWORD {
            Some(bad("分享密码不能超过 256 个字符"@))
        } else {
            summary_refusal(book, bill_id)
        },
    }
}

/// A bill that is about to be shared: what is kept of it, its label and when it ends.
pub struct PreparedShare {
    pub snapshot: SharedBillSnapshot,
    pub label: String,
    pub expires_at: DateTime,
}

/// A bill that is about to be shared has these values.
pub open spec fn is_prepared(
    p: PreparedShare,
    dek: Seq<u8>,
    book: Book,
    masks: Seq<MaskedDetail>,
    b: bill::Model,
    form: CreateShareForm,
) -> bool {
    let a = found(book.accounts@, b.account_id)->0;
    &&& p.snapshot.version == 1
    &&& p.snapshot.kind@ == bill_kind_text(b.kind@)
    &&& p.snapshot.amount@ == bill_amount_text(dek, book, b)
    &&& p.snapshot.account@ == display_name(
        dek,
        a,
        found(book.details@, a.id),
        found(masks, a.id),
    )
    &&& p.snapshot.category@ == plain(dek, b.category@)
    &&& p.snapshot.note@ == plain(dek, b.note@)
    &&& p.snapshot.happened_at@ == time_text(b.happened_at)
    &&& p.label@ == share_label(dek, book, b)
    &&& minute_of_text(form.expires_at@) == Some(p.expires_at)
}

/// Prepares to share a bill.
pub fn prepare(
    dek: &Dek,
    book: &Book,
    masks: &Vec<MaskedDetail>,
    bill_id: i64,
    form: &CreateShareForm,
    now: DateTime,
) -> (r: HandlerResult<PreparedShare>)
    ensures
        match (r, share_refusal(*book, bill_id, *form, now)) {
            (Ok(p), None) => is_prepared(
                p,
                dek@,
                *book,
                masks@,
                found(book.bills@, bill_id)->0,
                *form,
            ) && p.expires_at.key() > now.key() && form.password@ == form.confirm@ && encode_utf8(
                form.password@,
            ).len() <= LONGEST_PASSWORD,
            (Err(error), Some(wanted)) => error@ == wanted,
            _ => false,
        },
{
    let expires_at = match parse_minute(&form.expires_at) {
        Some(time) => time,
        None => return Err(bad_request("有效期结束时间格式不正确")),
    };
    if expires_at.sort_key() <= now.sort_key() {
        return Err(bad_request("有效期结束时间必须晚于现在"));
    }
    if !same(&form.password, &form.confirm) {
        return Err(bad_request("两次输入的分享密码不一致"));
    }
    if form.password.as_str().as_bytes().len() > LONGEST_PASSWORD {
        return Err(bad_request("分享密码不能超过 256 个字符"));
    }
    match bill_summary(dek, book, masks, bill_id) {
        Err(error) => Err(error),
        Ok((view, label)) => Ok(
            PreparedShare { snapshot: snapshot_from_view(&view), label, expires_at },
        ),
    }
}

/// A shared bill is found by a token and opened by it and a password: it then gives these bytes.
pub open spec fn opens_with(
    share: bill_share::Model,
    token: Seq<u8>,
    password: Seq<char>,
    encoded: Seq<u8>,
) -> bool {
    &&& share.token_hash@ == sha256(token)
    &&& share.salt@.len() == SALT_LEN
    &&& decrypted(share_key_of(token, password, share.salt@), share.snapshot@) == Some(encoded)
}

/// Shares a bill: the row to store. `encoded` is what is kept of the bill in the notation in which
/// it is stored.
pub fn create(
    dek: &Dek,
    bill_id: i64,
    password: &str,
    prepared: &PreparedShare,
    encoded: &[u8],
    now: DateTime,
) -> (r: HandlerResult<bill_share::Model>)
    requires
        encode_utf8(password@).len() <= LONGEST_PASSWORD,
        encoded@.len() < PLAINTEXT_END,
    ensures
        match r {
            Ok(row) => {
                &&& sealable(prepared.label@)
                &&& row.source_bill_id == bill_id
                &&& token_of(plain(dek@, row.token@)) is Some
                &&& opens_with(row, token_of(plain(dek@, row.token@))->0, password@, encoded@)
                &&& plain(dek@, row.label@) == prepared.label@
                &&& row.has_password == (password@.len() > 0)
                &&& row.expires_at == prepared.expires_at
                &&& row.created_at == now
            },
            Err(error) => !sealable(prepared.label@) && error@ == too_long(),
        },
{
    if !is_sealable(&prepared.label) {
        return Err(text_too_long());
    }
    let (token, text) = new_token();
    let salt: [u8; 16] = random_bytes::<16>();
    let key = share_key(token.as_slice(), password, salt.as_slice());
    Ok(
        bill_share::Model {
            id: 0,
            source_bill_id: bill_id,
            token_hash: token_hash(token.as_slice()),
            token: encrypt_string(dek, &text),
            label: encrypt_string(dek, &prepared.label),
            salt: vstd::slice::slice_to_vec(salt.as_slice()),
            snapshot: encrypt(key.as_slice(), encoded),
            has_password: !password.is_empty(),
            expires_at: prepared.expires_at,
            created_at: now,
        },
    )
}

/// Where to go when a bill was shared.
pub fn created_target(bill_id: i64, share_id: i64) -> (r: String)
    ensures
        r@ == "/bills/"@ + int_text(bill_id as int) + "/share?created="@ + int_text(share_id as int),
{
    join2(
        &join3("/bills/", &int_to_text(bill_id), "/share?created="),
        &int_to_text(share_id),
    )
}

/// A shared bill in a list.
pub struct ShareView {
    pub id: i64,
    pub source_bill_id: i64,
    pub source_exists: bool,
    pub label: String,
    pub path: String,
    pub has_password: bool,
    pub expires_at: String,
    pub created_at: String,
    pub expired: bool,
}

/// A shared bill in a list shows these values.
pub open spec fn is_share_view(
    view: ShareView,
    dek: Seq<u8>,
    bills: Seq<bill::Model>,
    share: bill_share::Model,
    now: DateTime,
) -> bool {
    &&& view.id == share.id
    &&& view.source_bill_id == share.source_bill_id
    &&& view.source_exists == (found(bills, share.source_bill_id) is Some)
    &&& view.label@ == plain(dek, share.label@)
    &&& view.path@ == "/s/"@ + plain(dek, share.token@)
    &&& view.has_password == share.has_password
    &&& view.expires_at@ == time_text(share.expires_at)
    &&& view.created_at@ == time_text(share.created_at)
    &&& view.expired == (share.expires_at.key() <= now.key())
}

/// The shared bills among the first `n` that are listed: those whose token can be read, of one bill
/// or of all.
pub open spec fn listed(
    dek: Seq<u8>,
    shares: Seq<bill_share::Model>,
    bill_id: Option<i64>,
    n: int,
) -> Seq<bill_share::Model>
    decreases n,
{
    if n <= 0 {
        Seq::empty()
    } else if plain(dek, shares[n - 1].token@).len() > 0 && (bill_id is None || bill_id == Some(
        shares[n - 1].source_bill_id,
    )) {
        listed(dek, shares, bill_id, n - 1).push(shares[n - 1])
    } else {
        listed(dek, shares, bill_id, n - 1)
    }
}

/// The list shows these shared bills.
pub open spec fn are_share_views(
    views: Seq<ShareView>,
    dek: Seq<u8>,
    bills: Seq<bill::Model>,
    shares: Seq<bill_share::Model>,
    now: DateTime,
) -> bool {
    &&& views.len() == shares.len()
    &&& forall|i: int|
        0 <= i < views.len() ==> is_share_view(#[trigger] views[i], dek, bills, shares[i], now)
}

/// Lists the shared bills, of one bill or of all.
pub fn share_views(
    dek: &Dek,
    bills: &Vec<bill::Model>,
    shares: &Vec<bill_share::Model>,
    bill_id: Option<i64>,
    now: DateTime,
) -> (r: Vec<ShareView>)
    ensures
        are_share_views(
            r@,
            dek@,
            bills@,
            listed(dek@, shares@, bill_id, shares@.len() as int),
            now,
        ),
{
    let mut views: Vec<ShareView> = Vec::new();
    let mut i: usize = 0;
    while i < shares.len()
        invariant
            i <= shares.len(),
            are_share_views(views@, dek@, bills@, listed(dek@, shares@, bill_id, i as int), now),
        decreases shares.len() - i,
    {
        let share = &shares[i];
        let token = decrypt_string(dek, &share.token);
        let wanted: bool = match bill_id {
            Some(id) => id == share.source_bill_id,
            None => true,
        };
        if !token.as_str().is_empty() && wanted {
            views.push(
                ShareView {
                    id: share.id,
                    source_bill_id: share.source_bill_id,
                    source_exists: find(bills, share.source_bill_id).is_some(),
                    label: decrypt_string(dek, &share.label),
                    path: join2("/s/", &token),
                    has_password: share.has_password,
                    expires_at: time_to_text(share.expires_at),
                    created_at: time_to_text(share.created_at),
                    expired: share.expires_at.sort_key() <= now.sort_key(),
                },
            );
        }
        i = i + 1;
    }
    views
}

/// The page that lists all shared bills.
pub fn list(
    dek: &Dek,
    bills: &Vec<bill::Model>,
    shares: &Vec<bill_share::Model>,
    now: DateTime,
) -> (r: Vec<ShareView>)
    ensures
        are_share_views(
            r@,
            dek@,
            bills@,
            listed(dek@, shares@, None, shares@.len() as int),
            now,
        ),
{
    share_views(dek, bills, shares, None, now)
}

/// The shared bill that was just made.
pub struct SharePageQuery {
    pub created: i64,
}

/// The page to share a bill.
pub struct BillSharePage {
    pub bill_id: i64,
    pub bill: BillSummaryView,
    pub default_expires_at: String,
    pub created_path: String,
    pub shares: Vec<ShareView>,
}

/// The path of the first shared bill with a number, from a place on; none where there is none.
pub open spec fn path_of(
    dek: Seq<u8>,
    shares: Seq<bill_share::Model>,
    id: i64,
    from: int,
) -> Seq<char>
    decreases shares.len() - from,
{
    if from >= shares.len() {
        Seq::empty()
    } else if shares[from].id == id {
        "/s/"@ + plain(dek, shares[from].token@)
    } else {
        path_of(dek, shares, id, from + 1)
    }
}

/// The page to share a bill. A link ends after seven days unless another time is entered.
pub fn bill_share_form(
    dek: &Dek,
    book: &Book,
    masks: &Vec<MaskedDetail>,
    shares: &Vec<bill_share::Model>,
    bill_id: i64,
    query: &SharePageQuery,
    now: DateTime,
) -> (r: HandlerResult<BillSharePage>)
    requires
        later_by_days(now, 7) is Some,
    ensures
        match (r, summary_refusal(*book, bill_id)) {
            (Ok(page), None) => {
                let own = listed(dek@, shares@, Some(bill_id), shares@.len() as int);
                &&& page.bill_id == bill_id
                &&& is_summary(page.bill, dek@, *book, masks@, found(book.bills@, bill_id)->0)
                &&& page.default_expires_at@ == time_text(later_by_days(now, 7)->0)
                &&& are_share_views(page.shares@, dek@, book.bills@, own, now)
                &&& page.created_path@ == path_of(dek@, own, query.created, 0)
            },
            (Err(error), Some(wanted)) => error@ == wanted,
            _ => false,
        },
{
    let (bill, _label) = match bill_summary(dek, book, masks, bill_id) {
        Ok(summary) => summary,
        Err(error) => return Err(error),
    };
    let views = share_views(dek, &book.bills, shares, Some(bill_id), now);
    let ghost own = listed(dek@, shares@, Some(bill_id), shares@.len() as int);
    let mut created_path = String::new();
    let mut i: usize = 0;
    proof {
        assert(created_path@ =~= Seq::empty());
    }
    while i < views.len() && views[i].id != query.created
        invariant
            i <= views.len(),
            are_share_views(views@, dek@, book.bills@, own, now),
            path_of(dek@, own, query.created, 0) == path_of(dek@, own, query.created, i as int),
        decreases views.len() - i,
    {
        i = i + 1;
    }
    if i < views.len() {
        created_path = views[i].path.clone();
    }
    let ends = match now.add_days(7) {
        Some(ends) => ends,
        None => now,
    };
    Ok(
        BillSharePage {
            bill_id,
            bill,
            default_expires_at: time_to_text(ends),
            created_path,
            shares: views,
        },
    )
}

/// Where to go when the sharing of a bill ends.
pub struct DeleteShareForm {
    pub return_to: String,
}

impl Row for bill_share::Model {
    open spec fn key(&self) -> i64 {
        self.id
    }

    fn row_key(&self) -> i64 {
        self.id
    }
}

/// Ends the sharing of a bill: where to go then.
pub fn delete(shares: &Vec<bill_share::Model>, id: i64, form: &DeleteShareForm) -> (r: HandlerResult<
    String,
>)
    ensures
        match (r, found(shares@, id)) {
            (Ok(target), Some(share)) => target@ == (if form.return_to@ == "bill"@ {
                "/bills/"@ + int_text(share.source_bill_id as int) + "/share"@
            } else {
                "/shares"@
            }),
            (Err(error), None) => error@ == missing("分享记录不存在"@),
            _ => false,
        },
{
    let share = match find(shares, id) {
        Some(share) => share,
        None => return Err(not_found("分享记录不存在")),
    };
    if same(&form.return_to, "bill") {
        Ok(join3("/bills/", &int_to_text(share.source_bill_id), "/share"))
    } else {
        Ok("/shares".to_owned())
    }
}

/// The first place, from a place on, of a shared bill with the digest of a token; the length of the
/// list where there is none.
pub open spec fn share_place(shares: Seq<bill_share::Model>, hash: Seq<u8>, from: int) -> int
    decreases shares.len() - from,
{
    if from >= shares.len() {
        shares.len() as int
    } else if shares[from].token_hash@ == hash {
        from
    } else {
        share_place(shares, hash, from + 1)
    }
}

/// The place of the shared bill that a token opens, where there is one and it has not ended.
pub open spec fn valid_share(shares: Seq<bill_share::Model>, token: Seq<char>, now: DateTime) -> Option<
    (int, Seq<u8>),
> {
    match token_of(token) {
        None => None,
        Some(bytes) => {
            let at = share_place(shares, sha256(bytes), 0);
            if at < shares.len() && shares[at].expires_at.key() > now.key() {
                Some((at, bytes))
            } else {
                None
            }
        },
    }
}

/// Finds the shared bill that a token opens.
pub fn find_valid_share(shares: &Vec<bill_share::Model>, token: &str, now: DateTime) -> (r: Option<
    (usize, Vec<u8>),
>)
    ensures
        match r {
            Some((at, bytes)) => valid_share(shares@, token@, now) == Some((at as int, bytes@))
                && at < shares@.len() && bytes@.len() == 32,
            None => valid_share(shares@, token@, now) is None,
        },
{
    let bytes = match decode_token(token) {
        Some(bytes) => bytes,
        None => return None,
    };
    let hash = token_hash(bytes.as_slice());
    let mut i: usize = 0;
    while i < shares.len() && !same_bytes(&shares[i].token_hash, &hash)
        invariant
            i <= shares.len(),
            share_place(shares@, hash@, 0) == share_place(shares@, hash@, i as int),
        decreases shares.len() - i,
    {
        i = i + 1;
    }
    if i < shares.len() && shares[i].expires_at.sort_key() > now.sort_key() {
        Some((i, bytes))
    } else {
        None
    }
}

/// The bytes that are kept of a shared bill, where a token and a password open it.
pub fn decrypted_share(share: &bill_share::Model, token: &[u8], password: &str) -> (r: Option<
    Vec<u8>,
>)
    requires
        token@.len() == 32,
        encode_utf8(password@).len() <= LONGEST_PASSWORD,
        8 <= share.salt@.len() <= 0xffff_ffff,
    ensures
        match r {
            Some(bytes) => decrypted(
                share_key_of(token@, password@, share.salt@),
                share.snapshot@,
            ) == Some(bytes@),
            None => decrypted(
                share_key_of(token@, password@, share.salt@),
                share.snapshot@,
            ) is None,
        },
{
    let key = share_key(token, password, share.salt.as_slice());
    decrypt(key.as_slice(), &share.snapshot)
}

/// What a visitor with a link is shown.
pub enum SharedPage {
    /// Nothing is shared there.
    Unavailable,
    /// The password is asked for.
    Prompt { error: String, expires_at: String },
    /// What is kept of the bill, in the notation in which it is stored.
    Bill { encoded: Vec<u8>, expires_at: String },
}

/// What a visitor with a link is shown, as a value.
pub enum SharedView {
    Unavailable,
    Prompt { error: Seq<char>, expires_at: Seq<char> },
    Bill { encoded: Seq<u8>, expires_at: Seq<char> },
}

impl View for SharedPage {
    type V = SharedView;

    open spec fn view(&self) -> SharedView {
        match *self {
            SharedPage::Unavailable => SharedView::Unavailable,
            SharedPage::Prompt { error, expires_at } => SharedView::Prompt {
                error: error@,
                expires_at: expires_at@,
            },
            SharedPage::Bill { encoded, expires_at } => SharedView::Bill {
                encoded: encoded@,
                expires_at: expires_at@,
            },
        }
    }
}

/// The salts that are stored can be used.
pub open spec fn salts_ok(shares: Seq<bill_share::Model>) -> bool {
    forall|i: int| 0 <= i < shares.len() ==> 8 <= (#[trigger] shares[i]).salt@.len() <= 0xffff_ffff
}

/// What a visitor with a link is shown first: the bill, or where it has a password that this is
/// asked for.
pub open spec fn opened_page(shares: Seq<bill_share::Model>, token: Seq<char>, now: DateTime) -> SharedView {
    match valid_share(shares, token, now) {
        None => SharedView::Unavailable,
        Some((at, bytes)) => {
            let share = shares[at];
            let expires_at = time_text(share.expires_at);
            if share.has_password {
                SharedView::Prompt { error: Seq::empty(), expires_at }
            } else {
                match decrypted(share_key_of(bytes, Seq::empty(), share.salt@), share.snapshot@) {
                    None => SharedView::Unavailable,
                    Some(encoded) => SharedView::Bill { encoded, expires_at },
                }
            }
        },
    }
}

/// What a visitor with a link is shown first.
pub fn open(shares: &Vec<bill_share::Model>, token: &str, now: DateTime) -> (r: SharedPage)
    requires
        forall|i: int|
            0 <= i < shares@.len() && !(#[trigger] shares@[i]).has_password ==> 8
                <= shares@[i].salt@.len() <= 0xffff_ffff,
    ensures
        r@ == opened_page(shares@, token@, now),
{
    let (at, bytes) = match find_valid_share(shares, token, now) {
        Some(share) => share,
        None => return SharedPage::Unavailable,
    };
    let share = &shares[at];
    let expires_at = time_to_text(share.expires_at);
    if share.has_password {
        let error = String::new();
        proof {
            assert(error@ =~= Seq::empty());
        }
        return SharedPage::Prompt { error, expires_at };
    }
    proof {
        reveal_strlit("");
        assert(""@ =~= Seq::<char>::empty());
        assert(encode_utf8(""@).len() == 0);
    }
    match decrypted_share(share, bytes.as_slice(), "") {
        Some(encoded) => SharedPage::Bill { encoded, expires_at },
        None => SharedPage::Unavailable,
    }
}

/// The password of a shared bill.
pub struct UnlockShareForm {
    pub password: String,
}

/// What a visitor with a link is shown who entered a password: the bill, or where the password is
/// wrong that it is asked for again.
pub open spec fn unlocked_page(
    shares: Seq<bill_share::Model>,
    token: Seq<char>,
    password: Seq<char>,
    now: DateTime,
) -> SharedView {
    match valid_share(shares, token, now) {
        None => SharedView::Unavailable,
        Some((at, bytes)) => {
            let share = shares[at];
            let expires_at = time_text(share.expires_at);
            let wrong = SharedView::Prompt { error: "分享密码不正确"@, expires_at };
            let given = if share.has_password {
                password
            } else {
                Seq::empty()
            };
            if encode_utf8(password).len() > LONGEST_PASSWORD {
                wrong
            } else {
                match decrypted(share_key_of(bytes, given, share.salt@), share.snapshot@) {
                    None => wrong,
                    Some(encoded) => SharedView::Bill { encoded, expires_at },
                }
            }
        },
    }
}

/// What a visitor with a link is shown who entered a password.
pub fn unlock(
    shares: &Vec<bill_share::Model>,
    token: &str,
    form: &UnlockShareForm,
    now: DateTime,
) -> (r: SharedPage)
    requires
        salts_ok(shares@),
    ensures
        r@ == unlocked_page(shares@, token@, form.password@, now),
{
    let (at, bytes) = match find_valid_share(shares, token, now) {
        Some(share) => share,
        None => return SharedPage::Unavailable,
    };
    let share = &shares[at];
    let expires_at = time_to_text(share.expires_at);
    if form.password.as_str().as_bytes().len() > LONGEST_PASSWORD {
        return SharedPage::Prompt { error: "分享密码不正确".to_owned(), expires_at };
    }
    proof {
        reveal_strlit("");
        assert(""@ =~= Seq::<char>::empty());
        assert(encode_utf8(""@).len() == 0);
    }
    let given = if share.has_password {
        form.password.as_str()
    } else {
        ""
    };
    match decrypted_share(share, bytes.as_slice(), given) {
        Some(encoded) => SharedPage::Bill { encoded, expires_at },
        None => SharedPage::Prompt { error: "分享密码不正确".to_owned(), expires_at },
    }
}

/// What was kept of a shared bill is shown only where it could be read and its notation is the
/// known one.
pub fn shown_share(parsed: Option<SharedBillSnapshot>) -> (r: Option<SharedBillSnapshot>)
    ensures
        match parsed {
            Some(snapshot) => r == (if snapshot.version == 1 {
                Some(snapshot)
            } else {
                None
            }),
            None => r is None,
        },
{
    match parsed {
        Some(snapshot) => if snapshot.version == 1 {
            Some(snapshot)
        } else {
            None
        },
        None => None,
    }
}

/// A link gives back what was shared: until it ends, the token of a shared bill shows what was kept
/// of the bill, at once where there is no password, and to who enters the password where there is
/// one.
pub proof fn link_gives_back_the_bill(
    shares: Seq<bill_share::Model>,
    at: int,
    token: Seq<char>,
    password: Seq<char>,
    encoded: Seq<u8>,
    now: DateTime,
)
    requires
        0 <= at < shares.len(),
        token_of(token) is Some,
        opens_with(shares[at], token_of(token)->0, password, encoded),
        shares[at].has_password == (password.len() > 0),
        encode_utf8(password).len() <= LONGEST_PASSWORD,
        forall|i: int|
            0 <= i < at ==> (#[trigger] shares[i]).token_hash@ != shares[at].token_hash@,
        now.key() < shares[at].expires_at.key(),
    ensures
        unlocked_page(shares, token, password, now) == (SharedView::Bill {
            encoded,
            expires_at: time_text(shares[at].expires_at),
        }),
        password.len() == 0 ==> opened_page(shares, token, now) == (SharedView::Bill {
            encoded,
            expires_at: time_text(shares[at].expires_at),
        }),
{
    place_is_first(shares, shares[at].token_hash@, 0, at);
    if password.len() == 0 {
        assert(password =~= Seq::empty());
    }
}

proof fn place_is_first(shares: Seq<bill_share::Model>, hash: Seq<u8>, from: int, at: int)
    requires
        0 <= from <= at < shares.len(),
        shares[at].token_hash@ == hash,
        forall|i: int| from <= i < at ==> (#[trigger] shares[i]).token_hash@ != hash,
    ensures
        share_place(shares, hash, from) == at,
    decreases at - from,
{
    if from < at {
        place_is_first(shares, hash, from + 1, at);
    }
}

/// A link that has ended shows nothing, whatever is entered.
pub proof fn ended_link_shows_nothing(
    shares: Seq<bill_share::Model>,
    token: Seq<char>,
    password: Seq<char>,
    now: DateTime,
)
    requires
        forall|i: int| 0 <= i < shares.len() ==> (#[trigger] shares[i]).expires_at.key() <= now.key(),
    ensures
        opened_page(shares, token, now) == SharedView::Unavailable,
        unlocked_page(shares, token, password, now) == SharedView::Unavailable,
{
    if token_of(token) is Some {
        place_in_list(shares, sha256(token_of(token)->0), 0);
    }
}

proof fn place_in_list(shares: Seq<bill_share::Model>, hash: Seq<u8>, from: int)
    requires
        0 <= from <= shares.len(),
    ensures
        from <= share_place(shares, hash, from) <= shares.len(),
    decreases shares.len() - from,
{
    if from < shares.len() && shares[from].token_hash@ != hash {
        place_in_list(shares, hash, from + 1);
    }
}

} // verus!
