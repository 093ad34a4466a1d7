//! How the database is set up and brought up to date.
use vstd::prelude::*;
use vstd::string::*;

use crate::text::{join2, join5, same};

verus! {

/// A step in setting up the database.
#[derive(Clone, Copy)]
pub enum Step {
    /// The table of an entity is made where it is not there.
    CreateTable(&'static str),
    /// A column of a table is added where it is not there: the table, the column, its definition.
    EnsureColumn(&'static str, &'static str, &'static str),
    /// A statement is carried out.
    Execute(&'static str),
    /// The days on which the market is closed are entered.
    SeedClosedDays,
}

/// A step in setting up the database, as a value.
pub enum StepView {
    CreateTable(Seq<char>),
    EnsureColumn(Seq<char>, Seq<char>, Seq<char>),
    Execute(Seq<char>),
    SeedClosedDays,
}

impl View for Step {
    type V = StepView;

    open spec fn view(&self) -> StepView {
        match *self {
            Step::CreateTable(entity) => StepView::CreateTable(entity@),
            Step::EnsureColumn(table, column, definition) => StepView::EnsureColumn(
                table@,
                column@,
                definition@,
            ),
            Step::Execute(statement) => StepView::Execute(statement@),
            Step::SeedClosedDays => StepView::SeedClosedDays,
        }
    }
}

/// The steps in setting up the database, in their order. Each can be taken again without harm.
pub open spec fn steps() -> Seq<StepView> {
    seq![
        StepView::CreateTable("meta"@),
        StepView::CreateTable("recovery"@),
        StepView::CreateTable("passkey"@),
        StepView::EnsureColumn("passkeys"@, "dek_wrappers"@, "TEXT NOT NULL DEFAULT '[]'"@),
        StepView::CreateTable("preference"@),
        StepView::Execute("INSERT OR IGNORE INTO preferences (id, default_currency) VALUES (1, 'CNY')"@),
        StepView::CreateTable("exchange_rate"@),
        StepView::CreateTable("account"@),
        StepView::EnsureColumn("accounts"@, "kind"@, "TEXT NOT NULL DEFAULT 'other'"@),
        StepView::EnsureColumn("accounts"@, "currency"@, "TEXT NOT NULL DEFAULT 'CNY'"@),
        StepView::EnsureColumn("accounts"@, "balance_offset"@, "TEXT NOT NULL DEFAULT ''"@),
        StepView::CreateTable("account_detail"@),
        StepView::EnsureColumn("account_details"@, "credit_limit"@, "TEXT NOT NULL DEFAULT ''"@),
        StepView::EnsureColumn("account_details"@, "billing_day"@, "INTEGER NOT NULL DEFAULT 0"@),
        StepView::CreateTable("balance_adjustment"@),
        StepView::CreateTable("bill"@),
        StepView::EnsureColumn("bills"@, "is_food"@, "BOOLEAN NOT NULL DEFAULT 0"@),
        StepView::CreateTable("installment_plan"@),
        StepView::CreateTable("installment_item"@),
        StepView::EnsureColumn("installment_items"@, "repayment_account_id"@, "INTEGER"@),
        StepView::EnsureColumn("installment_items"@, "principal_transfer_id"@, "INTEGER"@),
        StepView::EnsureColumn("installment_items"@, "charge_bill_id"@, "INTEGER"@),
        StepView::CreateTable("transfer"@),
        StepView::EnsureColumn("transfers"@, "to_amount"@, "TEXT NOT NULL DEFAULT ''"@),
        StepView::CreateTable("recurring_investment"@),
        StepView::EnsureColumn("recurring_investments"@, "fee_rate_bps"@, "TEXT NOT NULL DEFAULT ''"@),
        StepView::CreateTable("investment_execution"@),
        StepView::EnsureColumn("investment_executions"@, "fee_bill_id"@, "INTEGER"@),
        StepView::Execute("CREATE UNIQUE INDEX IF NOT EXISTS idx_investment_execution_plan_date ON investment_executions (plan_id, trade_date)"@),
        StepView::CreateTable("market_closed_day"@),
        StepView::SeedClosedDays,
        StepView::CreateTable("debt_person"@),
        StepView::CreateTable("debt_record"@),
        StepView::CreateTable("category"@),
        StepView::EnsureColumn("categories"@, "is_food"@, "BOOLEAN NOT NULL DEFAULT 0"@),
        StepView::CreateTable("subscription"@),
        StepView::EnsureColumn("subscriptions"@, "period"@, "TEXT NOT NULL DEFAULT 'month'"@),
        StepView::EnsureColumn("subscriptions"@, "currency"@, "TEXT NOT NULL DEFAULT 'CNY'"@),
    ]
}

/// The steps in setting up the database, in their order.
pub fn init_steps() -> (r: Vec<Step>)
    ensures
        r@.len() == steps().len(),
        forall|i: int| 0 <= i < r@.len() ==> (#[trigger] r@[i])@ == steps()[i],
{
    vec![
        Step::CreateTable("meta"),
        Step::CreateTable("recovery"),
        Step::CreateTable("passkey"),
        Step::EnsureColumn("passkeys", "dek_wrappers", "TEXT NOT NULL DEFAULT '[]'"),
        Step::CreateTable("preference"),
        Step::Execute("INSERT OR IGNORE INTO preferences (id, default_currency) VALUES (1, 'CNY')"),
        Step::CreateTable("exchange_rate"),
        Step::CreateTable("account"),
        Step::EnsureColumn("accounts", "kind", "TEXT NOT NULL DEFAULT 'other'"),
        Step::EnsureColumn("accounts", "currency", "TEXT NOT NULL DEFAULT 'CNY'"),
        Step::EnsureColumn("accounts", "balance_offset", "TEXT NOT NULL DEFAULT ''"),
        Step::CreateTable("account_detail"),
        Step::EnsureColumn("account_details", "credit_limit", "TEXT NOT NULL DEFAULT ''"),
        Step::EnsureColumn("account_details", "billing_day", "INTEGER NOT NULL DEFAULT 0"),
        Step::CreateTable("balance_adjustment"),
        Step::CreateTable("bill"),
        Step::EnsureColumn("bills", "is_food", "BOOLEAN NOT NULL DEFAULT 0"),
        Step::CreateTable("installment_plan"),
        Step::CreateTable("installment_item"),
        Step::EnsureColumn("installment_items", "repayment_account_id", "INTEGER"),
        Step::EnsureColumn("installment_items", "principal_transfer_id", "INTEGER"),
        Step::EnsureColumn("installment_items", "charge_bill_id", "INTEGER"),
        Step::CreateTable("transfer"),
        Step::EnsureColumn("transfers", "to_amount", "TEXT NOT NULL DEFAULT ''"),
        Step::CreateTable("recurring_investment"),
        Step::EnsureColumn("recurring_investments", "fee_rate_bps", "TEXT NOT NULL DEFAULT ''"),
        Step::CreateTable("investment_execution"),
        Step::EnsureColumn("investment_executions", "fee_bill_id", "INTEGER"),
        Step::Execute("CREATE UNIQUE INDEX IF NOT EXISTS idx_investment_execution_plan_date ON investment_executions (plan_id, trade_date)"),
        Step::CreateTable("market_closed_day"),
        Step::SeedClosedDays,
        Step::CreateTable("debt_person"),
        Step::CreateTable("debt_record"),
        Step::CreateTable("category"),
        Step::EnsureColumn("categories", "is_food", "BOOLEAN NOT NULL DEFAULT 0"),
        Step::CreateTable("subscription"),
        Step::EnsureColumn("subscriptions", "period", "TEXT NOT NULL DEFAULT 'month'"),
        Step::EnsureColumn("subscriptions", "currency", "TEXT NOT NULL DEFAULT 'CNY'"),
    ]
}

/// The statement that tells the columns of a table.
pub fn columns_statement(table: &str) -> (r: String)
    ensures
        r@ == "PRAGMA table_info("@ + table@ + ")"@,
{
    crate::text::join3("PRAGMA table_info(", table, ")")
}

/// A table has a column.
pub open spec fn has_column(columns: Seq<String>, column: Seq<char>) -> bool {
    exists|i: int| 0 <= i < columns.len() && (#[trigger] columns[i])@ == column
}

/// The statement that adds a column to a table which has these columns; none where the table has
/// it already.
pub fn ensure_column(columns: &Vec<String>, table: &str, column: &str, definition: &str) -> (r:
    Option<String>)
    ensures
        match r {
            Some(statement) => !has_column(columns@, column@) && statement@ == "ALTER TABLE "@
                + table@ + " ADD COLUMN "@ + column@ + (" "@ + definition@),
            None => has_column(columns@, column@),
        },
{
    let mut i: usize = 0;
    while i < columns.len()
        invariant
            i <= columns.len(),
            forall|j: int| 0 <= j < i ==> (#[trigger] columns@[j])@ != column@,
        decreases columns.len() - i,
    {
        if same(&columns[i], column) {
            return None;
        }
        i = i + 1;
    }
    Some(join5("ALTER TABLE ", table, " ADD COLUMN ", column, &join2(" ", definition)))
}

/// The days on which the exchange in Shanghai announced to be closed, with their reasons.
pub open spec fn announced() -> Seq<(Seq<char>, Seq<char>)> {
    seq![
        ("2025-01-01"@, "元旦"@),
        ("2025-01-28"@, "春节"@),
        ("2025-01-29"@, "春节"@),
        ("2025-01-30"@, "春节"@),
        ("2025-01-31"@, "春节"@),
        ("2025-02-03"@, "春节"@),
        ("2025-02-04"@, "春节"@),
        ("2025-04-04"@, "清明节"@),
        ("2025-05-01"@, "劳动节"@),
        ("2025-05-02"@, "劳动节"@),
        ("2025-05-05"@, "劳动节"@),
        ("2025-06-02"@, "端午节"@),
        ("2025-10-01"@, "国庆节、中秋节"@),
        ("2025-10-02"@, "国庆节、中秋节"@),
        ("2025-10-03"@, "国庆节、中秋节"@),
        ("2025-10-06"@, "国庆节、中秋节"@),
        ("2025-10-07"@, "国庆节、中秋节"@),
        ("2025-10-08"@, "国庆节、中秋节"@),
        ("2026-01-01"@, "元旦"@),
        ("2026-01-02"@, "元旦"@),
        ("2026-02-16"@, "春节"@),
        ("2026-02-17"@, "春节"@),
        ("2026-02-18"@, "春节"@),
        ("2026-02-19"@, "春节"@),
        ("2026-02-20"@, "春节"@),
        ("2026-02-23"@, "春节"@),
        ("2026-04-06"@, "清明节"@),
        ("2026-05-01"@, "劳动节"@),
        ("2026-05-04"@, "劳动节"@),
        ("2026-05-05"@, "劳动节"@),
        ("2026-06-19"@, "端午节"@),
        ("2026-09-25"@, "中秋节"@),
        ("2026-10-01"@, "国庆节"@),
        ("2026-10-02"@, "国庆节"@),
        ("2026-10-05"@, "国庆节"@),
        ("2026-10-06"@, "国庆节"@),
        ("2026-10-07"@, "国庆节"@),
    ]
}

/// A day on which the market is closed, and why.
#[derive(Clone, Copy)]
pub struct ClosedDay {
    pub date: &'static str,
    pub name: &'static str,
}

fn closed_day(date: &'static str, name: &'static str) -> (r: ClosedDay)
    ensures
        r.date == date,
        r.name == name,
{
    ClosedDay { date, name }
}

/// The days on which the exchange in Shanghai announced to be closed.
pub fn closed_days() -> (r: Vec<ClosedDay>)
    ensures
        r@.len() == announced().len(),
        forall|i: int|
            0 <= i < r@.len() ==> ((#[trigger] r@[i]).date@, r@[i].name@) == announced()[i],
{
    vec![
        closed_day("2025-01-01", "元旦"),
        closed_day("2025-01-28", "春节"),
        closed_day("2025-01-29", "春节"),
        closed_day("2025-01-30", "春节"),
        closed_day("2025-01-31", "春节"),
        closed_day("2025-02-03", "春节"),
        closed_day("2025-02-04", "春节"),
        closed_day("2025-04-04", "清明节"),
        closed_day("2025-05-01", "劳动节"),
        closed_day("2025-05-02", "劳动节"),
        closed_day("2025-05-05", "劳动节"),
        closed_day("2025-06-02", "端午节"),
        closed_day("2025-10-01", "国庆节、中秋节"),
        closed_day("2025-10-02", "国庆节、中秋节"),
        closed_day("2025-10-03", "国庆节、中秋节"),
        closed_day("2025-10-06", "国庆节、中秋节"),
        closed_day("2025-10-07", "国庆节、中秋节"),
        closed_day("2025-10-08", "国庆节、中秋节"),
        closed_day("2026-01-01", "元旦"),
        closed_day("2026-01-02", "元旦"),
        closed_day("2026-02-16", "春节"),
        closed_day("2026-02-17", "春节"),
        closed_day("2026-02-18", "春节"),
        closed_day("2026-02-19", "春节"),
        closed_day("2026-02-20", "春节"),
        closed_day("2026-02-23", "春节"),
        closed_day("2026-04-06", "清明节"),
        closed_day("2026-05-01", "劳动节"),
        closed_day("2026-05-04", "劳动节"),
        closed_day("2026-05-05", "劳动节"),
        closed_day("2026-06-19", "端午节"),
        closed_day("2026-09-25", "中秋节"),
        closed_day("2026-10-01", "国庆节"),
        closed_day("2026-10-02", "国庆节"),
        closed_day("2026-10-05", "国庆节"),
        closed_day("2026-10-06", "国庆节"),
        closed_day("2026-10-07", "国庆节"),
    ]
}

/// The statement that enters a closed day, unless it is there.
pub open spec fn seed_text(date: Seq<char>, name: Seq<char>) -> Seq<char> {
    "INSERT OR IGNORE INTO market_closed_days (date, name, source, created_at) VALUES ('"@ + date
        + "', '"@ + name + "', 'builtin', CURRENT_TIMESTAMP)"@
}

/// The statements that enter the closed days.
pub fn seed_market_closed_days() -> (r: Vec<String>)
    ensures
        r@.len() == announced().len(),
        forall|i: int|
            0 <= i < r@.len() ==> (#[trigger] r@[i])@ == seed_text(
                announced()[i].0,
                announced()[i].1,
            ),
{
    let days = closed_days();
    let mut statements: Vec<String> = Vec::new();
    let mut i: usize = 0;
    while i < days.len()
        invariant
            i <= days.len(),
            days@.len() == announced().len(),
            forall|j: int|
                0 <= j < days@.len() ==> ((#[trigger] days@[j]).date@, days@[j].name@)
                    == announced()[j],
            statements@.len() == i,
            forall|j: int|
                0 <= j < i ==> (#[trigger] statements@[j])@ == seed_text(
                    announced()[j].0,
                    announced()[j].1,
                ),
        decreases days.len() - i,
    {
        proof {
            assert((days@[i as int].date@, days@[i as int].name@) == announced()[i as int]);
        }
        statements.push(
            join5(
                "INSERT OR IGNORE INTO market_closed_days (date, name, source, created_at) VALUES ('",
                days[i].date,
                "', '",
                days[i].name,
                "', 'builtin', CURRENT_TIMESTAMP)",
            ),
        );
        i = i + 1;
    }
    statements
}

/// A column is added once: a table that has it, or that was given it, needs no statement.
pub proof fn column_is_added_once(columns: Seq<String>, added: String)
    ensures
        has_column(columns.push(added), added@),
        forall|column: Seq<char>|
            has_column(columns, column) ==> #[trigger] has_column(columns.push(added), column),
{
    let longer = columns.push(added);
    assert(longer[columns.len() as int]@ == added@);
    assert forall|column: Seq<char>| has_column(columns, column) implies #[trigger] has_column(
        longer,
        column,
    ) by {
        let i = choose|i: int| 0 <= i < columns.len() && (#[trigger] columns[i])@ == column;
        assert(longer[i]@ == column);
    }
}

} // verus!
