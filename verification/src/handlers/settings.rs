//! The categories of bills.
use vstd::prelude::*;
use vstd::string::*;

use crate::book::{find, found, Row};
use crate::calendar::DateTime;
use crate::crypto::{decrypt_string, encrypt_string, plain, sealable, Dek};
use crate::entity::category;
use crate::error::{bad, bad_request, missing, not_found, ErrorView, HandlerResult};
use crate::text::{int_text, int_to_text, join3, same, trimmed, trimmed_bytes};

verus! {

/// The form of a category.
pub struct CategoryFormData {
    pub name: String,
    pub kind: String,
}

impl Row for category::Model {
    open spec fn key(&self) -> i64 {
        self.id
    }

    fn row_key(&self) -> i64 {
        self.id
    }
}

/// The kinds of bills and of their categories.
pub open spec fn is_kind(kind: Seq<char>) -> bool {
    kind == "income"@ || kind == "expense"@
}

pub fn valid_kind(kind: &str) -> (r: bool)
    ensures
        r == is_kind(kind@),
{
    same(kind, "income") || same(kind, "expense")
}

/// Another category of the kind has the name.
pub open spec fn is_taken(
    dek: Seq<u8>,
    categories: Seq<category::Model>,
    kind: Seq<char>,
    name: Seq<char>,
    except_id: Option<i64>,
) -> bool {
    exists|i: int|
        0 <= i < categories.len() && (#[trigger] categories[i]).kind@ == kind && Some(
            categories[i].id,
        ) != except_id && plain(dek, categories[i].name@) == name
}

/// Refuses a name that another category of the kind has.
pub fn ensure_unique_name(
    dek: &Dek,
    categories: &Vec<category::Model>,
    kind: &str,
    name: &str,
    except_id: Option<i64>,
) -> (r: HandlerResult<()>)
    ensures
        match r {
            Ok(_) => !is_taken(dek@, categories@, kind@, name@, except_id),
            Err(error) => is_taken(dek@, categories@, kind@, name@, except_id) && error@ == bad(
                "同类型下已存在同名分类"@,
            ),
        },
{
    let mut i: usize = 0;
    while i < categories.len()
        invariant
            i <= categories.len(),
            forall|j: int|
                0 <= j < i ==> !((#[trigger] categories@[j]).kind@ == kind@ && Some(
                    categories@[j].id,
                ) != except_id && plain(dek@, categories@[j].name@) == name@),
        decreases categories.len() - i,
    {
        let c = &categories[i];
        let excepted = match except_id {
            Some(id) => id == c.id,
            None => false,
        };
        if same(&c.kind, kind) && !excepted && same(&decrypt_string(dek, &c.name), name) {
            return Err(bad_request("同类型下已存在同名分类"));
        }
        i = i + 1;
    }
    Ok(())
}

/// A category in a list.
pub struct CategoryRow {
    pub id: i64,
    pub name: String,
}

/// The categories among the first `n` that are of income, or that are not.
pub open spec fn categories_of(categories: Seq<category::Model>, income: bool, n: int) -> Seq<
    category::Model,
>
    decreases n,
{
    if n <= 0 {
        Seq::empty()
    } else if (categories[n - 1].kind@ == "income"@) == income {
        categories_of(categories, income, n - 1).push(categories[n - 1])
    } else {
        categories_of(categories, income, n - 1)
    }
}

/// The rows show these categories.
pub open spec fn shows(rows: Seq<CategoryRow>, dek: Seq<u8>, categories: Seq<category::Model>) -> bool {
    &&& rows.len() == categories.len()
    &&& forall|i: int|
        0 <= i < rows.len() ==> (#[trigger] rows[i]).id == categories[i].id && rows[i].name@
            == plain(dek, categories[i].name@)
}

/// The categories of income and those of expense.
pub fn show(dek: &Dek, categories: &Vec<category::Model>) -> (r: (
    Vec<CategoryRow>,
    Vec<CategoryRow>,
))
    ensures
        shows(r.0@, dek@, categories_of(categories@, true, categories@.len() as int)),
        shows(r.1@, dek@, categories_of(categories@, false, categories@.len() as int)),
{
    let mut income: Vec<CategoryRow> = Vec::new();
    let mut expense: Vec<CategoryRow> = Vec::new();
    let mut i: usize = 0;
    while i < categories.len()
        invariant
            i <= categories.len(),
            shows(income@, dek@, categories_of(categories@, true, i as int)),
            shows(expense@, dek@, categories_of(categories@, false, i as int)),
        decreases categories.len() - i,
    {
        let c = &categories[i];
        let row = CategoryRow { id: c.id, name: decrypt_string(dek, &c.name) };
        if same(&c.kind, "income") {
            income.push(row);
        } else {
            expense.push(row);
        }
        i = i + 1;
    }
    (income, expense)
}

/// Why a category form is refused, where it is.
pub open spec fn form_refusal(
    dek: Seq<u8>,
    categories: Seq<category::Model>,
    form: CategoryFormData,
    except_id: Option<i64>,
) -> Option<ErrorView> {
    if trimmed(form.name@).len() == 0 {
        Some(bad("分类名称不能为空"@))
    } else if !is_kind(form.kind@) {
        Some(bad("分类类型无效"@))
    } else if is_taken(dek, categories, form.kind@, trimmed(form.name@), except_id) {
        Some(bad("同类型下已存在同名分类"@))
    } else {
        None
    }
}

fn check_form(
    dek: &Dek,
    categories: &Vec<category::Model>,
    form: &CategoryFormData,
    except_id: Option<i64>,
) -> (r: HandlerResult<()>)
    ensures
        match r {
            Ok(_) => form_refusal(dek@, categories@, *form, except_id) is None,
            Err(error) => form_refusal(dek@, categories@, *form, except_id) == Some(error@),
        },
{
    let name = form.name.as_str().trim();
    if name.is_empty() {
        return Err(bad_request("分类名称不能为空"));
    }
    if !valid_kind(&form.kind) {
        return Err(bad_request("分类类型无效"));
    }
    ensure_unique_name(dek, categories, &form.kind, name, except_id)
}

/// Makes a category: the row to store.
pub fn create_category(
    dek: &Dek,
    categories: &Vec<category::Model>,
    form: &CategoryFormData,
    now: DateTime,
) -> (r: HandlerResult<category::Model>)
    requires
        sealable(form.name@),
    ensures
        match (r, form_refusal(dek@, categories@, *form, None)) {
            (Ok(row), None) => row.kind@ == form.kind@ && plain(dek@, row.name@) == trimmed(
                form.name@,
            ) && !row.is_food && row.created_at == now,
            (Err(error), Some(wanted)) => error@ == wanted,
            _ => false,
        },
{
    match check_form(dek, categories, form, None) {
        Err(error) => Err(error),
        Ok(_) => {
            proof {
                trimmed_bytes(form.name@);
            }
            Ok(
                category::Model {
                    id: 0,
                    kind: form.kind.clone(),
                    name: encrypt_string(dek, form.name.as_str().trim()),
                    is_food: false,
                    created_at: now,
                },
            )
        },
    }
}

/// The form that changes a category.
pub struct CategoryForm {
    pub action: String,
    pub name: String,
    pub kind: String,
}

pub fn edit_category_form(dek: &Dek, categories: &Vec<category::Model>, id: i64) -> (r:
    HandlerResult<CategoryForm>)
    ensures
        match (r, found(categories@, id)) {
            (Ok(form), Some(c)) => form.action@ == "/settings/categories/"@ + int_text(id as int)
                + "/edit"@ && form.name@ == plain(dek@, c.name@) && form.kind@ == c.kind@,
            (Err(error), None) => error@ == missing("分类不存在"@),
            _ => false,
        },
{
    match find(categories, id) {
        None => Err(not_found("分类不存在")),
        Some(c) => Ok(
            CategoryForm {
                action: join3("/settings/categories/", &int_to_text(id), "/edit"),
                name: decrypt_string(dek, &c.name),
                kind: c.kind.clone(),
            },
        ),
    }
}

/// Changes the name and the kind of a category: the row to store in its place.
pub fn update_category(
    dek: &Dek,
    categories: &Vec<category::Model>,
    id: i64,
    form: &CategoryFormData,
) -> (r: HandlerResult<category::Model>)
    requires
        sealable(form.name@),
    ensures
        match form_refusal(dek@, categories@, *form, Some(id)) {
            Some(wanted) => r matches Err(error) && error@ == wanted,
            None => match (r, found(categories@, id)) {
                (Ok(row), Some(c)) => row.id == id && row.kind@ == form.kind@ && plain(
                    dek@,
                    row.name@,
                ) == trimmed(form.name@) && row.is_food == c.is_food && row.created_at
                    == c.created_at,
                (Err(error), None) => error@ == missing("分类不存在"@),
                _ => false,
            },
        },
{
    match check_form(dek, categories, form, Some(id)) {
        Err(error) => return Err(error),
        Ok(_) => {},
    }
    proof {
        trimmed_bytes(form.name@);
    }
    match find(categories, id) {
        None => Err(not_found("分类不存在")),
        Some(c) => Ok(
            category::Model {
                id,
                kind: form.kind.clone(),
                name: encrypt_string(dek, form.name.as_str().trim()),
                is_food: c.is_food,
                created_at: c.created_at,
            },
        ),
    }
}

/// No two categories of a kind have the same name.
pub open spec fn names_unique(dek: Seq<u8>, categories: Seq<category::Model>) -> bool {
    forall|i: int, j: int|
        0 <= i < j < categories.len() && (#[trigger] categories[i]).kind@ == (
        #[trigger] categories[j]).kind@ ==> plain(dek, categories[i].name@) != plain(
            dek,
            categories[j].name@,
        )
}

/// A category that was accepted keeps the names of categories unique.
pub proof fn accepted_category_keeps_names_unique(
    dek: Seq<u8>,
    categories: Seq<category::Model>,
    form: CategoryFormData,
    row: category::Model,
)
    requires
        names_unique(dek, categories),
        form_refusal(dek, categories, form, None) is None,
        row.kind@ == form.kind@,
        plain(dek, row.name@) == trimmed(form.name@),
    ensures
        names_unique(dek, categories.push(row)),
{
    let all = categories.push(row);
    assert forall|i: int, j: int|
        0 <= i < j < all.len() && (#[trigger] all[i]).kind@ == (#[trigger] all[j]).kind@ implies plain(
        dek,
        all[i].name@,
    ) != plain(dek, all[j].name@) by {
        assert(all[i] == categories[i]);
        if j < categories.len() {
            assert(all[j] == categories[j]);
        }
    }
}

/// Where to go when a category was deleted.
pub fn delete_category() -> (r: &'static str)
    ensures
        r@ == "/settings"@,
{
    "/settings"
}

} // verus!
