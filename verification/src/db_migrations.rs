//! The versions of the database's schema: which steps are still to be taken,
//! and the statements of each.

use crate::module::{
    FieldDef, ModuleDef, business_index_text, column_defs, first_unknown_type, sql_type_of, types_known,
    unique_constraints,
};
use crate::money::{decimal_places_for, places_of};
use crate::text::{
    ascii_lowered, double_char, doubled, i64_text, join, joined, list_has, push_all, push_decimal, push_text, same,
    same_ignoring_case, signed_decimal, ten_to, views,
};
use crate::value::{Value, ValueView};
use vstd::prelude::*;

verus! {

// ---------------------------------------------------------------------------
// Versions
// ---------------------------------------------------------------------------

/// The version of the schema after every step.
pub const CURRENT_VERSION: i32 = 13;

/// The steps that a database of that version still has to take, in order.
pub open spec fn pending_of(current: int) -> Seq<int> {
    let from = if current < 0 {
        0
    } else {
        current
    };
    if from >= CURRENT_VERSION {
        Seq::empty()
    } else {
        Seq::new((CURRENT_VERSION - from) as nat, |i: int| from + 1 + i)
    }
}

/// The version of a database with these steps on record: the highest.
pub open spec fn version_of(steps: Seq<int>) -> int
    decreases steps.len(),
{
    if steps.len() == 0 {
        0
    } else {
        let before = version_of(steps.drop_last());
        if steps.last() > before {
            steps.last()
        } else {
            before
        }
    }
}

/// The steps that a database of that version still has to take, in order.
pub fn run(current: i32) -> (steps: Vec<i32>)
    ensures
        steps@.len() == pending_of(current as int).len(),
        forall|i: int| 0 <= i < steps@.len() ==> #[trigger] steps@[i] == pending_of(current as int)[i],
{
    let mut steps: Vec<i32> = Vec::new();
    let mut next: i32 = if current < 0 {
        0
    } else {
        current
    };
    let ghost from = next;
    while next < CURRENT_VERSION
        invariant
            from == if current < 0 {
                0
            } else {
                current
            },
            from <= next,
            next <= CURRENT_VERSION || next == from,
            steps@.len() == next - from,
            forall|i: int| 0 <= i < steps@.len() ==> #[trigger] steps@[i] == from + 1 + i,
        decreases CURRENT_VERSION - next,
    {
        next = next + 1;
        steps.push(next);
    }
    steps
}

proof fn lemma_version_after(steps: Seq<int>, current: int, n: int)
    requires
        version_of(steps) == current,
        0 <= current,
        0 <= n <= pending_of(current).len(),
    ensures
        version_of(steps + pending_of(current).take(n)) == current + n,
    decreases n,
{
    let all = steps + pending_of(current).take(n);
    if n == 0 {
        assert(all =~= steps);
    } else {
        lemma_version_after(steps, current, n - 1);
        assert(all.drop_last() =~= steps + pending_of(current).take(n - 1));
        assert(all.last() == pending_of(current)[n - 1]);
    }
}

/// After its pending steps a database that is not ahead is at the current
/// version and has nothing left to do: running again changes nothing.
pub proof fn law_migrating_twice_is_once(steps: Seq<int>)
    requires
        0 <= version_of(steps) <= CURRENT_VERSION,
    ensures
        version_of(steps + pending_of(version_of(steps))) == CURRENT_VERSION,
        pending_of(version_of(steps + pending_of(version_of(steps)))) == Seq::<int>::empty(),
{
    let current = version_of(steps);
    let n = pending_of(current).len() as int;
    lemma_version_after(steps, current, n);
    assert(pending_of(current).take(n) =~= pending_of(current));
}

/// A run that stopped after some of its steps goes on with the next one:
/// nothing is skipped and nothing is taken twice.
pub proof fn law_migration_resumes(steps: Seq<int>, done: int)
    requires
        0 <= version_of(steps) <= CURRENT_VERSION,
        0 <= done <= pending_of(version_of(steps)).len(),
    ensures
        ({
            let pending = pending_of(version_of(steps));
            pending.take(done) + pending_of(version_of(steps + pending.take(done))) == pending
        }),
{
    let current = version_of(steps);
    let pending = pending_of(current);
    lemma_version_after(steps, current, done);
    assert(pending.take(done) + pending_of(current + done) =~= pending);
}

/// The statement that puts a step on record.
pub open spec fn record_text(version: int) -> Seq<char> {
    "INSERT INTO _schema_version (version) VALUES ("@ + signed_decimal(version) + ")"@
}

/// The statement that puts a step on record.
pub fn record_statement(version: i32) -> (s: String)
    ensures
        s@ == record_text(version as int),
{
    let mut s = "INSERT INTO _schema_version (version) VALUES (".to_owned();
    s.append(i64_text(version as i64).as_str());
    s.append(")");
    s
}

/// The statements of the steps that are the same for every database, but for
/// the one that puts the step on record.
pub open spec fn fixed_texts(version: int) -> Seq<Seq<char>> {
    if version == 2 {
        seq!["ALTER TABLE businesses ADD COLUMN slogan TEXT"@]
    } else if version == 4 {
        seq![
            "ALTER TABLE users ADD COLUMN totp_secret TEXT"@,
            "ALTER TABLE users ADD COLUMN totp_recovery_codes TEXT"@,
            "ALTER TABLE users ADD COLUMN totp_enabled INTEGER NOT NULL DEFAULT 0"@,
        ]
    } else if version == 5 {
        seq![
            "CREATE TABLE IF NOT EXISTS tax_rates (id TEXT PRIMARY KEY, business_id TEXT NOT NULL REFERENCES businesses(id) ON DELETE CASCADE, category TEXT NOT NULL, rate REAL NOT NULL DEFAULT 0.0, created_at TEXT NOT NULL, updated_at TEXT, UNIQUE(business_id, category))"@,
        ]
    } else if version == 6 {
        seq![
            "CREATE TABLE IF NOT EXISTS exchange_rates (id TEXT PRIMARY KEY, from_currency TEXT NOT NULL, to_currency TEXT NOT NULL, rate REAL NOT NULL, fetched_at INTEGER NOT NULL, UNIQUE(from_currency, to_currency))"@,
        ]
    } else if version == 7 {
        seq!["ALTER TABLE sessions ADD COLUMN last_activity TEXT NOT NULL DEFAULT (datetime('now'))"@]
    } else if version == 9 {
        seq![
            "CREATE TABLE IF NOT EXISTS ai_chat_sessions (id TEXT PRIMARY KEY, business_id TEXT NOT NULL, user_id TEXT NOT NULL, title TEXT NOT NULL DEFAULT 'New chat', created_at TEXT NOT NULL DEFAULT (datetime('now')), updated_at TEXT NOT NULL DEFAULT (datetime('now')))"@,
            "CREATE INDEX IF NOT EXISTS idx_ai_chat_sessions_user ON ai_chat_sessions(business_id, user_id, updated_at)"@,
            "CREATE TABLE IF NOT EXISTS ai_chat_messages (id TEXT PRIMARY KEY, session_id TEXT NOT NULL REFERENCES ai_chat_sessions(id) ON DELETE CASCADE, role TEXT NOT NULL CHECK (role IN ('user','ai')), content TEXT NOT NULL, created_at TEXT NOT NULL DEFAULT (datetime('now')))"@,
            "CREATE INDEX IF NOT EXISTS idx_ai_chat_messages_session ON ai_chat_messages(session_id, created_at)"@,
        ]
    } else if version == 11 {
        seq![
            "CREATE TABLE IF NOT EXISTS stock_takes (id TEXT PRIMARY KEY, business_id TEXT NOT NULL REFERENCES businesses(id) ON DELETE CASCADE, status TEXT NOT NULL DEFAULT 'in_progress' CHECK (status IN ('in_progress','closed')), created_by_user_id TEXT NOT NULL, created_at TEXT NOT NULL DEFAULT (datetime('now')), closed_at TEXT, closed_by_user_id TEXT)"@,
            "CREATE UNIQUE INDEX IF NOT EXISTS idx_stock_takes_one_open_per_business ON stock_takes(business_id) WHERE status = 'in_progress'"@,
            "CREATE INDEX IF NOT EXISTS idx_stock_takes_business ON stock_takes(business_id, created_at)"@,
            "CREATE TABLE IF NOT EXISTS stock_take_items (id TEXT PRIMARY KEY, stock_take_id TEXT NOT NULL REFERENCES stock_takes(id) ON DELETE CASCADE, inventory_record_id TEXT NOT NULL, item_name TEXT NOT NULL, expected_qty INTEGER NOT NULL, counted_qty INTEGER, counted_at TEXT)"@,
            "CREATE INDEX IF NOT EXISTS idx_stock_take_items_stock_take ON stock_take_items(stock_take_id)"@,
        ]
    } else {
        Seq::empty()
    }
}

/// The statements of a step that are the same for every database.
pub fn fixed_statements(version: i32) -> (list: Vec<String>)
    ensures
        views(list@) == fixed_texts(version as int),
{
    let mut list: Vec<String> = Vec::new();
    assert(views(list@) =~= Seq::<Seq<char>>::empty());
    if version == 2 {
        push_text(&mut list, "ALTER TABLE businesses ADD COLUMN slogan TEXT");
    } else if version == 4 {
        push_text(&mut list, "ALTER TABLE users ADD COLUMN totp_secret TEXT");
        push_text(&mut list, "ALTER TABLE users ADD COLUMN totp_recovery_codes TEXT");
        push_text(&mut list, "ALTER TABLE users ADD COLUMN totp_enabled INTEGER NOT NULL DEFAULT 0");
    } else if version == 5 {
        push_text(
            &mut list,
            "CREATE TABLE IF NOT EXISTS tax_rates (id TEXT PRIMARY KEY, business_id TEXT NOT NULL REFERENCES businesses(id) ON DELETE CASCADE, category TEXT NOT NULL, rate REAL NOT NULL DEFAULT 0.0, created_at TEXT NOT NULL, updated_at TEXT, UNIQUE(business_id, category))",
        );
    } else if version == 6 {
        push_text(
            &mut list,
            "CREATE TABLE IF NOT EXISTS exchange_rates (id TEXT PRIMARY KEY, from_currency TEXT NOT NULL, to_currency TEXT NOT NULL, rate REAL NOT NULL, fetched_at INTEGER NOT NULL, UNIQUE(from_currency, to_currency))",
        );
    } else if version == 7 {
        push_text(
            &mut list,
            "ALTER TABLE sessions ADD COLUMN last_activity TEXT NOT NULL DEFAULT (datetime('now'))",
        );
    } else if version == 9 {
        push_text(
            &mut list,
            "CREATE TABLE IF NOT EXISTS ai_chat_sessions (id TEXT PRIMARY KEY, business_id TEXT NOT NULL, user_id TEXT NOT NULL, title TEXT NOT NULL DEFAULT 'New chat', created_at TEXT NOT NULL DEFAULT (datetime('now')), updated_at TEXT NOT NULL DEFAULT (datetime('now')))",
        );
        push_text(
            &mut list,
            "CREATE INDEX IF NOT EXISTS idx_ai_chat_sessions_user ON ai_chat_sessions(business_id, user_id, updated_at)",
        );
        push_text(
            &mut list,
            "CREATE TABLE IF NOT EXISTS ai_chat_messages (id TEXT PRIMARY KEY, session_id TEXT NOT NULL REFERENCES ai_chat_sessions(id) ON DELETE CASCADE, role TEXT NOT NULL CHECK (role IN ('user','ai')), content TEXT NOT NULL, created_at TEXT NOT NULL DEFAULT (datetime('now')))",
        );
        push_text(
            &mut list,
            "CREATE INDEX IF NOT EXISTS idx_ai_chat_messages_session ON ai_chat_messages(session_id, created_at)",
        );
    } else if version == 11 {
        push_text(
            &mut list,
            "CREATE TABLE IF NOT EXISTS stock_takes (id TEXT PRIMARY KEY, business_id TEXT NOT NULL REFERENCES businesses(id) ON DELETE CASCADE, status TEXT NOT NULL DEFAULT 'in_progress' CHECK (status IN ('in_progress','closed')), created_by_user_id TEXT NOT NULL, created_at TEXT NOT NULL DEFAULT (datetime('now')), closed_at TEXT, closed_by_user_id TEXT)",
        );
        push_text(
            &mut list,
            "CREATE UNIQUE INDEX IF NOT EXISTS idx_stock_takes_one_open_per_business ON stock_takes(business_id) WHERE status = 'in_progress'",
        );
        push_text(
            &mut list,
            "CREATE INDEX IF NOT EXISTS idx_stock_takes_business ON stock_takes(business_id, created_at)",
        );
        push_text(
            &mut list,
            "CREATE TABLE IF NOT EXISTS stock_take_items (id TEXT PRIMARY KEY, stock_take_id TEXT NOT NULL REFERENCES stock_takes(id) ON DELETE CASCADE, inventory_record_id TEXT NOT NULL, item_name TEXT NOT NULL, expected_qty INTEGER NOT NULL, counted_qty INTEGER, counted_at TEXT)",
        );
        push_text(
            &mut list,
            "CREATE INDEX IF NOT EXISTS idx_stock_take_items_stock_take ON stock_take_items(stock_take_id)",
        );
    }
    assert(views(list@) =~= fixed_texts(version as int));
    list
}

/// The statements that let a customer have no phone: a rebuild where the
/// column must not be empty, and the index on names in any case.
pub open spec fn customers_texts(phone_is_not_null: bool) -> Seq<Seq<char>> {
    (if phone_is_not_null {
        seq![
            "CREATE TABLE customers_new (id TEXT PRIMARY KEY, business_id TEXT NOT NULL REFERENCES businesses(id) ON DELETE CASCADE, name TEXT, phone TEXT, created_at TEXT NOT NULL, updated_at TEXT NOT NULL, UNIQUE(business_id, phone))"@,
            "INSERT INTO customers_new (id, business_id, name, phone, created_at, updated_at) SELECT id, business_id, name, phone, created_at, updated_at FROM customers"@,
            "DROP TABLE customers"@,
            "ALTER TABLE customers_new RENAME TO customers"@,
        ]
    } else {
        Seq::empty()
    }).push(
        "CREATE UNIQUE INDEX IF NOT EXISTS idx_customers_name_only ON customers(business_id, name) WHERE phone IS NULL"@,
    )
}

/// The statements that let a customer have no phone.
pub fn customers_statements(phone_is_not_null: bool) -> (list: Vec<String>)
    ensures
        views(list@) == customers_texts(phone_is_not_null),
{
    let mut list: Vec<String> = Vec::new();
    assert(views(list@) =~= Seq::<Seq<char>>::empty());
    if phone_is_not_null {
        push_text(
            &mut list,
            "CREATE TABLE customers_new (id TEXT PRIMARY KEY, business_id TEXT NOT NULL REFERENCES businesses(id) ON DELETE CASCADE, name TEXT, phone TEXT, created_at TEXT NOT NULL, updated_at TEXT NOT NULL, UNIQUE(business_id, phone))",
        );
        push_text(
            &mut list,
            "INSERT INTO customers_new (id, business_id, name, phone, created_at, updated_at) SELECT id, business_id, name, phone, created_at, updated_at FROM customers",
        );
        push_text(&mut list, "DROP TABLE customers");
        push_text(&mut list, "ALTER TABLE customers_new RENAME TO customers");
    }
    push_text(
        &mut list,
        "CREATE UNIQUE INDEX IF NOT EXISTS idx_customers_name_only ON customers(business_id, name) WHERE phone IS NULL",
    );
    assert(views(list@) =~= customers_texts(phone_is_not_null));
    list
}

// ---------------------------------------------------------------------------
// Additions to what a business already has
// ---------------------------------------------------------------------------

/// A list with a text in it: as it is where it has it, else with the text at
/// the end.
pub open spec fn having(list: Seq<Seq<char>>, text: Seq<char>) -> Seq<Seq<char>> {
    if list.contains(text) {
        list
    } else {
        list.push(text)
    }
}

/// The statement that lets the Owner and the Manager of a business do stock
/// takes, where they may not yet.
pub open spec fn stock_take_grant_text() -> Seq<char> {
    "INSERT INTO permissions (id, role_id, module_id, action) SELECT lower(hex(randomblob(16))), id, 'inventory', 'stocktake' FROM roles WHERE business_id = ?1 AND name IN ('Owner', 'Manager') ON CONFLICT(role_id, module_id, action) DO NOTHING"@
}

/// The statement that lets the Owner and the Manager of a business do stock
/// takes. The parameter is the business.
pub fn stock_take_grant() -> (s: &'static str)
    ensures
        s@ == stock_take_grant_text(),
{
    "INSERT INTO permissions (id, role_id, module_id, action) SELECT lower(hex(randomblob(16))), id, 'inventory', 'stocktake' FROM roles WHERE business_id = ?1 AND name IN ('Owner', 'Manager') ON CONFLICT(role_id, module_id, action) DO NOTHING"
}

/// The actions of a stored definition with the stock take among them; `None`
/// where they need no change.
pub fn with_stock_take(actions: &Vec<String>) -> (r: Option<Vec<String>>)
    ensures
        match r {
            Some(list) => {
                &&& !views(actions@).contains("stocktake"@)
                &&& views(list@) == having(views(actions@), "stocktake"@)
            },
            None => views(actions@).contains("stocktake"@),
        },
{
    if list_has(actions, "stocktake") {
        return None;
    }
    let mut list: Vec<String> = Vec::new();
    let mut i: usize = 0;
    assert(views(list@) =~= views(actions@).take(0));
    while i < actions.len()
        invariant
            i <= actions@.len(),
            views(list@) == views(actions@).take(i as int),
        decreases actions@.len() - i,
    {
        push_text(&mut list, actions[i].as_str());
        assert(views(actions@).take(i + 1) =~= views(actions@).take(i as int).push(actions@[i as int]@));
        i = i + 1;
    }
    push_text(&mut list, "stocktake");
    assert(views(actions@).take(actions@.len() as int) =~= views(actions@));
    Some(list)
}

/// A definition that has the stock take keeps its actions as they are.
pub proof fn law_stock_take_is_added_once(actions: Seq<Seq<char>>)
    ensures
        having(actions, "stocktake"@).contains("stocktake"@),
        having(having(actions, "stocktake"@), "stocktake"@) == having(actions, "stocktake"@),
        actions.is_prefix_of(having(actions, "stocktake"@)),
{
    let list = having(actions, "stocktake"@);
    if !actions.contains("stocktake"@) {
        assert(list[actions.len() as int] == "stocktake"@);
    }
}

/// The statement that adds a text column, where the table is there without it.
pub open spec fn add_column(table: Seq<char>, columns: Option<Seq<Seq<char>>>, column: Seq<char>) -> Seq<Seq<char>> {
    match columns {
        Some(have) => if have.contains(column) {
            Seq::empty()
        } else {
            seq!["ALTER TABLE "@ + table + " ADD COLUMN "@ + column + " TEXT"@]
        },
        None => Seq::empty(),
    }
}

/// The columns of a table, where there is such a table.
pub open spec fn opt_views(columns: Option<Vec<String>>) -> Option<Seq<Seq<char>>> {
    match columns {
        Some(list) => Some(views(list@)),
        None => None,
    }
}

fn push_add_column(list: &mut Vec<String>, table: &str, columns: &Option<Vec<String>>, column: &str)
    ensures
        views(final(list)@) == views(old(list)@) + add_column(table@, opt_views(*columns), column@),
{
    match columns {
        Some(have) => {
            if !list_has(have, column) {
                let mut s = "ALTER TABLE ".to_owned();
                s.append(table);
                s.append(" ADD COLUMN ");
                s.append(column);
                s.append(" TEXT");
                push_text(list, s.as_str());
            }
        },
        None => {},
    }
    assert(views(list@) =~= views(old(list)@) + add_column(table@, opt_views(*columns), column@));
}

/// The statements that add the columns that settling a debt needs, given the
/// columns that the two tables have.
pub fn settlement_statements(debts: &Option<Vec<String>>, accounting: &Option<Vec<String>>) -> (list: Vec<String>)
    ensures
        views(list@) == add_column("module_debt_credit"@, opt_views(*debts), "payment_method"@) + add_column(
            "module_debt_credit"@,
            opt_views(*debts),
            "source_order_id"@,
        ) + add_column("module_accounting"@, opt_views(*accounting), "payment_method"@),
{
    let mut list: Vec<String> = Vec::new();
    assert(views(list@) =~= Seq::<Seq<char>>::empty());
    push_add_column(&mut list, "module_debt_credit", debts, "payment_method");
    push_add_column(&mut list, "module_debt_credit", debts, "source_order_id");
    push_add_column(&mut list, "module_accounting", accounting, "payment_method");
    list
}

/// The text fields that a stored definition of that module must have.
pub open spec fn settlement_fields(module_id: Seq<char>) -> Seq<Seq<char>> {
    if module_id == "debt_credit"@ {
        seq!["payment_method"@, "source_order_id"@]
    } else if module_id == "accounting"@ {
        seq!["payment_method"@]
    } else {
        Seq::empty()
    }
}

/// Those of the wanted names that a list lacks, in order.
pub open spec fn lacking(wanted: Seq<Seq<char>>, have: Seq<Seq<char>>) -> Seq<Seq<char>>
    decreases wanted.len(),
{
    if wanted.len() == 0 {
        wanted
    } else if have.contains(wanted.last()) {
        lacking(wanted.drop_last(), have)
    } else {
        lacking(wanted.drop_last(), have).push(wanted.last())
    }
}

/// The names of the text fields, neither required nor unique nor with a
/// default, that are to be added to a stored definition.
pub fn missing_settlement_fields(module_id: &str, have: &Vec<String>) -> (r: Vec<String>)
    ensures
        views(r@) == lacking(settlement_fields(module_id@), views(have@)),
{
    let mut wanted: Vec<String> = Vec::new();
    assert(views(wanted@) =~= Seq::<Seq<char>>::empty());
    if same(module_id, "debt_credit") {
        push_text(&mut wanted, "payment_method");
        push_text(&mut wanted, "source_order_id");
    } else if same(module_id, "accounting") {
        push_text(&mut wanted, "payment_method");
    }
    assert(views(wanted@) =~= settlement_fields(module_id@));
    let mut r: Vec<String> = Vec::new();
    let mut i: usize = 0;
    assert(views(r@) =~= views(wanted@).take(0));
    while i < wanted.len()
        invariant
            i <= wanted@.len(),
            views(r@) == lacking(views(wanted@).take(i as int), views(have@)),
        decreases wanted@.len() - i,
    {
        proof {
            let l = views(wanted@).take(i + 1);
            assert(l.drop_last() =~= views(wanted@).take(i as int));
            assert(l.last() == wanted@[i as int]@);
        }
        if !list_has(have, wanted[i].as_str()) {
            push_text(&mut r, wanted[i].as_str());
        }
        i = i + 1;
    }
    assert(views(wanted@).take(wanted@.len() as int) =~= views(wanted@));
    r
}

/// A definition with what it lacked lacks nothing.
pub proof fn law_fields_are_added_once(wanted: Seq<Seq<char>>, have: Seq<Seq<char>>)
    ensures
        lacking(wanted, have + lacking(wanted, have)) == Seq::<Seq<char>>::empty(),
{
    let all = have + lacking(wanted, have);
    assert forall|i: int| 0 <= i < wanted.len() implies all.contains(#[trigger] wanted[i]) by {
        lemma_lacking_has(wanted, have, i);
        if have.contains(wanted[i]) {
            let k = choose|k: int| 0 <= k < have.len() && have[k] == wanted[i];
            assert(all[k] == wanted[i]);
        } else {
            let l = lacking(wanted, have);
            let k = choose|k: int| 0 <= k < l.len() && l[k] == wanted[i];
            assert(all[have.len() + k] == wanted[i]);
        }
    }
    lemma_lacking_none(wanted, all);
}

proof fn lemma_lacking_has(wanted: Seq<Seq<char>>, have: Seq<Seq<char>>, i: int)
    requires
        0 <= i < wanted.len(),
    ensures
        have.contains(wanted[i]) || lacking(wanted, have).contains(wanted[i]),
    decreases wanted.len(),
{
    let before = lacking(wanted.drop_last(), have);
    let all = lacking(wanted, have);
    if i == wanted.len() - 1 {
        if !have.contains(wanted[i]) {
            assert(all[before.len() as int] == wanted[i]);
        }
    } else {
        lemma_lacking_has(wanted.drop_last(), have, i);
        assert(wanted.drop_last()[i] == wanted[i]);
        if before.contains(wanted[i]) {
            let k = choose|k: int| 0 <= k < before.len() && before[k] == wanted[i];
            assert(all[k] == wanted[i]);
        }
    }
}

proof fn lemma_lacking_none(wanted: Seq<Seq<char>>, have: Seq<Seq<char>>)
    requires
        forall|i: int| 0 <= i < wanted.len() ==> have.contains(#[trigger] wanted[i]),
    ensures
        lacking(wanted, have) == Seq::<Seq<char>>::empty(),
    decreases wanted.len(),
{
    if wanted.len() > 0 {
        assert(have.contains(wanted[wanted.len() - 1]));
        assert forall|i: int| 0 <= i < wanted.drop_last().len() implies have.contains(
            #[trigger] wanted.drop_last()[i],
        ) by {
            assert(wanted.drop_last()[i] == wanted[i]);
        }
        lemma_lacking_none(wanted.drop_last(), have);
    }
}

// ---------------------------------------------------------------------------
// Rebuilding a module's table
// ---------------------------------------------------------------------------

/// A column of a table as the database has it.
#[derive(Debug)]
pub struct ColumnInfo {
    pub name: String,
    pub type_text: String,
}

/// The type of a column, where the table has the column.
pub open spec fn type_of(existing: Seq<ColumnInfo>, name: Seq<char>) -> Option<Seq<char>>
    decreases existing.len(),
{
    if existing.len() == 0 {
        None
    } else if existing[0].name@ == name {
        Some(existing[0].type_text@)
    } else {
        type_of(existing.skip(1), name)
    }
}

/// Whether the field is money that the table still keeps with a fraction.
pub open spec fn legacy_money(f: FieldDef, existing: Seq<ColumnInfo>) -> bool {
    &&& f.field_type@ == "money"@
    &&& type_of(existing, f.name@) is Some
    &&& ascii_lowered(type_of(existing, f.name@)->0) == ascii_lowered("REAL"@)
}

/// How a default is written in a statement. A number that is no integer is
/// written as `real_text`.
pub open spec fn default_sql(default: Option<ValueView>, real_text: Seq<char>) -> Seq<char> {
    match default {
        Some(v) => match v {
            ValueView::Text(s) => "'"@ + doubled(s, '\'') + "'"@,
            ValueView::Int(n) => signed_decimal(n as int),
            ValueView::UInt(n) => signed_decimal(n as int),
            ValueView::Real(bits) => real_text,
            ValueView::Bool(b) => if b {
                "1"@
            } else {
                "0"@
            },
            ValueView::Null => "NULL"@,
            ValueView::Nested(s) => "NULL"@,
        },
        None => "NULL"@,
    }
}

/// The default of a field.
pub open spec fn default_of(f: FieldDef) -> Option<ValueView> {
    match f.default {
        Some(v) => Some(v@),
        None => None,
    }
}

/// What the copy into the rebuilt table selects for a field: its column, its
/// default where the old table has none, and whole minor units where the old
/// column is money with a fraction. `scale` is the number of minor units in
/// one unit.
pub open spec fn money_column(f: FieldDef, existing: Seq<ColumnInfo>, scale: nat, real_text: Seq<char>) -> Seq<char> {
    if type_of(existing, f.name@) is None {
        default_sql(default_of(f), real_text) + " AS "@ + f.name@
    } else if legacy_money(f, existing) {
        "CAST(ROUND(t."@ + f.name@ + " * "@ + signed_decimal(scale as int) + ") AS INTEGER) AS "@ + f.name@
    } else {
        "t."@ + f.name@
    }
}

/// What the copy into a table with rescoped constraints selects for a field.
pub open spec fn plain_column(f: FieldDef, existing: Seq<ColumnInfo>, real_text: Seq<char>) -> Seq<char> {
    if type_of(existing, f.name@) is Some {
        "t."@ + f.name@
    } else {
        default_sql(default_of(f), real_text)
    }
}

/// What a copy selects, in the order of the columns of the rebuilt table.
pub open spec fn select_list(own: Seq<Seq<char>>) -> Seq<Seq<char>> {
    seq!["t.id"@, "t.business_id"@] + own + seq!["t.created_at"@, "t.updated_at"@, "t.deleted_at"@]
}

/// The columns of a rebuilt table, without its constraints.
pub open spec fn rebuilt_columns(fields: Seq<FieldDef>) -> Seq<Seq<char>> {
    seq!["id TEXT PRIMARY KEY"@, "business_id TEXT NOT NULL"@] + column_defs(fields) + seq![
        "created_at TEXT NOT NULL"@,
        "updated_at TEXT NOT NULL"@,
        "deleted_at TEXT"@,
    ]
}

/// The statement that creates the rebuilt table.
pub open spec fn rebuilt_table(table: Seq<char>, fields: Seq<FieldDef>) -> Seq<char> {
    "CREATE TABLE "@ + table + " ("@ + joined(rebuilt_columns(fields) + unique_constraints(fields), ", "@) + ")"@
}

/// What is selected for each field when money becomes whole.
pub open spec fn money_columns(
    fields: Seq<FieldDef>,
    existing: Seq<ColumnInfo>,
    scale: nat,
    real_texts: Seq<Seq<char>>,
) -> Seq<Seq<char>> {
    Seq::new(fields.len(), |i: int| money_column(fields[i], existing, scale, real_texts[i]))
}

/// What is selected for each field when constraints are rescoped.
pub open spec fn plain_columns(
    fields: Seq<FieldDef>,
    existing: Seq<ColumnInfo>,
    real_texts: Seq<Seq<char>>,
) -> Seq<Seq<char>> {
    Seq::new(fields.len(), |i: int| plain_column(fields[i], existing, real_texts[i]))
}

/// The statement that copies the rows of the businesses of one currency.
pub open spec fn money_copy(table: Seq<char>, old_table: Seq<char>, own: Seq<Seq<char>>) -> Seq<char> {
    "INSERT INTO "@ + table + " SELECT "@ + joined(select_list(own), ", "@) + " FROM "@ + old_table
        + " t LEFT JOIN businesses b ON b.id = t.business_id WHERE COALESCE(b.currency, 'USD') = ?1"@
}

/// The statement that copies every row.
pub open spec fn plain_copy(table: Seq<char>, old_table: Seq<char>, own: Seq<Seq<char>>) -> Seq<char> {
    "INSERT INTO "@ + table + " SELECT "@ + joined(select_list(own), ", "@) + " FROM "@ + old_table + " t"@
}

/// The statements of a rebuild, to be run in order as one unit: the old table
/// is set aside, the new one made, the rows copied, the old one dropped, and
/// the index made again.
#[derive(Debug)]
pub struct Rebuild {
    /// The name of the table while it is set aside.
    pub old_table: String,
    pub rename: String,
    pub create: String,
    /// For money, one for each currency, with the currency as its parameter;
    /// else a single one.
    pub copies: Vec<String>,
    pub drop_old: String,
    pub index: String,
}

/// Whether some field is money that the table still keeps with a fraction.
pub open spec fn has_legacy_money(fields: Seq<FieldDef>, existing: Seq<ColumnInfo>) -> bool {
    exists|i: int| 0 <= i < fields.len() && legacy_money(#[trigger] fields[i], existing)
}

/// Everything of a rebuild but the copies.
pub open spec fn rebuilds(r: Rebuild, def: ModuleDef, suffix: Seq<char>) -> bool {
    let table = "module_"@ + def.id@;
    &&& r.old_table@ == table + suffix
    &&& r.rename@ == "ALTER TABLE "@ + table + " RENAME TO "@ + table + suffix
    &&& r.create@ == rebuilt_table(table, def.fields@)
    &&& r.drop_old@ == "DROP TABLE "@ + table + suffix
    &&& r.index@ == business_index_text(table)
}

fn get_type<'a>(existing: &'a Vec<ColumnInfo>, name: &str) -> (r: Option<&'a String>)
    ensures
        match r {
            Some(t) => type_of(existing@, name@) == Some(t@),
            None => type_of(existing@, name@) is None,
        },
{
    let mut i: usize = 0;
    assert(existing@.skip(0) =~= existing@);
    while i < existing.len()
        invariant
            i <= existing@.len(),
            type_of(existing@.skip(i as int), name@) == type_of(existing@, name@),
        decreases existing@.len() - i,
    {
        assert(existing@.skip(i as int)[0] == existing@[i as int]);
        assert(existing@.skip(i as int).skip(1) =~= existing@.skip(i + 1));
        if same(existing[i].name.as_str(), name) {
            return Some(&existing[i].type_text);
        }
        i = i + 1;
    }
    None
}

fn is_legacy_money(f: &FieldDef, existing: &Vec<ColumnInfo>) -> (b: bool)
    ensures
        b == legacy_money(*f, existing@),
{
    if !same(f.field_type.as_str(), "money") {
        return false;
    }
    match get_type(existing, f.name.as_str()) {
        Some(t) => same_ignoring_case(t.as_str(), "REAL"),
        None => false,
    }
}

fn default_text(default: &Option<Value>, real_text: &str) -> (s: String)
    ensures
        s@ == default_sql(
            match *default {
                Some(v) => Some(v@),
                None => None,
            },
            real_text@,
        ),
{
    match default {
        None => "NULL".to_owned(),
        Some(v) => match v {
            Value::Text(t) => {
                let mut s = "'".to_owned();
                s.append(double_char(t.as_str(), '\'').as_str());
                s.append("'");
                s
            },
            Value::Int(n) => i64_text(*n),
            Value::UInt(n) => crate::text::u64_text(*n),
            Value::Real(_) => real_text.to_owned(),
            Value::Bool(b) => if *b {
                "1".to_owned()
            } else {
                "0".to_owned()
            },
            Value::Null => "NULL".to_owned(),
            Value::Nested(_) => "NULL".to_owned(),
        },
    }
}

/// The minor units in one unit of a currency.
pub fn minor_units_per_unit(currency: &str) -> (scale: u64)
    ensures
        scale == ten_to(places_of(currency@)),
{
    let places: u32 = decimal_places_for(currency);
    proof {
        reveal_with_fuel(ten_to, 4);
    }
    if places == 0 {
        1
    } else if places == 2 {
        100
    } else {
        1000
    }
}

fn select_texts(own: Vec<String>) -> (list: Vec<String>)
    ensures
        views(list@) == select_list(views(own@)),
{
    let mut list: Vec<String> = Vec::new();
    assert(views(list@) =~= Seq::<Seq<char>>::empty());
    push_text(&mut list, "t.id");
    push_text(&mut list, "t.business_id");
    push_all(&mut list, own);
    push_text(&mut list, "t.created_at");
    push_text(&mut list, "t.updated_at");
    push_text(&mut list, "t.deleted_at");
    assert(views(list@) =~= select_list(views(own@)));
    list
}

fn money_column_texts(
    def: &ModuleDef,
    existing: &Vec<ColumnInfo>,
    scale: u64,
    real_texts: &Vec<String>,
) -> (own: Vec<String>)
    requires
        real_texts@.len() == def.fields@.len(),
    ensures
        views(own@) == money_columns(def.fields@, existing@, scale as nat, views(real_texts@)),
{
    let mut own: Vec<String> = Vec::new();
    let ghost all = money_columns(def.fields@, existing@, scale as nat, views(real_texts@));
    let mut i: usize = 0;
    assert(views(own@) =~= all.take(0));
    while i < def.fields.len()
        invariant
            i <= def.fields@.len(),
            real_texts@.len() == def.fields@.len(),
            all == money_columns(def.fields@, existing@, scale as nat, views(real_texts@)),
            views(own@) == all.take(i as int),
        decreases def.fields@.len() - i,
    {
        let f = &def.fields[i];
        let mut s = String::new();
        if get_type(existing, f.name.as_str()).is_none() {
            s.append(default_text(&f.default, real_texts[i].as_str()).as_str());
            s.append(" AS ");
            s.append(f.name.as_str());
        } else if is_legacy_money(f, existing) {
            s.append("CAST(ROUND(t.");
            s.append(f.name.as_str());
            s.append(" * ");
            push_decimal(&mut s, scale);
            s.append(") AS INTEGER) AS ");
            s.append(f.name.as_str());
        } else {
            s.append("t.");
            s.append(f.name.as_str());
        }
        assert(s@ =~= money_column(*f, existing@, scale as nat, real_texts@[i as int]@));
        push_text(&mut own, s.as_str());
        assert(all.take(i + 1) =~= all.take(i as int).push(all[i as int]));
        i = i + 1;
    }
    assert(all.take(all.len() as int) =~= all);
    own
}

fn plain_column_texts(def: &ModuleDef, existing: &Vec<ColumnInfo>, real_texts: &Vec<String>) -> (own: Vec<String>)
    requires
        real_texts@.len() == def.fields@.len(),
    ensures
        views(own@) == plain_columns(def.fields@, existing@, views(real_texts@)),
{
    let mut own: Vec<String> = Vec::new();
    let ghost all = plain_columns(def.fields@, existing@, views(real_texts@));
    let mut i: usize = 0;
    assert(views(own@) =~= all.take(0));
    while i < def.fields.len()
        invariant
            i <= def.fields@.len(),
            real_texts@.len() == def.fields@.len(),
            all == plain_columns(def.fields@, existing@, views(real_texts@)),
            views(own@) == all.take(i as int),
        decreases def.fields@.len() - i,
    {
        let f = &def.fields[i];
        let mut s = String::new();
        if get_type(existing, f.name.as_str()).is_some() {
            s.append("t.");
            s.append(f.name.as_str());
        } else {
            s.append(default_text(&f.default, real_texts[i].as_str()).as_str());
        }
        assert(s@ =~= plain_column(*f, existing@, real_texts@[i as int]@));
        push_text(&mut own, s.as_str());
        assert(all.take(i + 1) =~= all.take(i as int).push(all[i as int]));
        i = i + 1;
    }
    assert(all.take(all.len() as int) =~= all);
    own
}

/// A rebuild without its copies. An error gives the place of the first field
/// whose type no column has.
fn start_rebuild(def: &ModuleDef, suffix: &str) -> (r: Result<Rebuild, usize>)
    ensures
        match r {
            Ok(p) => types_known(def.fields@) && rebuilds(p, *def, suffix@) && p.copies@.len() == 0,
            Err(k) => first_unknown_type(def.fields@, k as int),
        },
{
    let own = match def.field_column_defs() {
        Err(k) => {
            return Err(k);
        },
        Ok(own) => own,
    };
    let mut cols: Vec<String> = Vec::new();
    assert(views(cols@) =~= Seq::<Seq<char>>::empty());
    push_text(&mut cols, "id TEXT PRIMARY KEY");
    push_text(&mut cols, "business_id TEXT NOT NULL");
    push_all(&mut cols, own);
    push_text(&mut cols, "created_at TEXT NOT NULL");
    push_text(&mut cols, "updated_at TEXT NOT NULL");
    push_text(&mut cols, "deleted_at TEXT");
    push_all(&mut cols, def.business_scoped_unique_constraints());
    assert(views(cols@) =~= rebuilt_columns(def.fields@) + unique_constraints(def.fields@));

    let table = def.table_name();
    let mut old_table = table.clone();
    old_table.append(suffix);
    let mut rename = "ALTER TABLE ".to_owned();
    rename.append(table.as_str());
    rename.append(" RENAME TO ");
    rename.append(table.as_str());
    rename.append(suffix);
    let mut create = "CREATE TABLE ".to_owned();
    create.append(table.as_str());
    create.append(" (");
    create.append(join(&cols, ", ").as_str());
    create.append(")");
    let mut drop_old = "DROP TABLE ".to_owned();
    drop_old.append(table.as_str());
    drop_old.append(suffix);
    let mut index = "CREATE INDEX IF NOT EXISTS idx_".to_owned();
    index.append(table.as_str());
    index.append("_business ON ");
    index.append(table.as_str());
    index.append("(business_id, deleted_at);");
    Ok(Rebuild { old_table, rename, create, copies: Vec::new(), drop_old, index })
}

/// The rebuild that makes the money of a module whole, where its table still
/// keeps money with a fraction. `existing` is empty where there is no table.
/// `currencies` are those of the businesses with rows in it; `real_texts` is
/// how the default of each field is written where it is no integer.
pub fn money_rebuild(
    def: &ModuleDef,
    existing: &Vec<ColumnInfo>,
    currencies: &Vec<String>,
    real_texts: &Vec<String>,
) -> (r: Result<Option<Rebuild>, usize>)
    requires
        real_texts@.len() == def.fields@.len(),
    ensures
        match r {
            Ok(None) => !has_legacy_money(def.fields@, existing@),
            Ok(Some(p)) => {
                let table = "module_"@ + def.id@;
                &&& has_legacy_money(def.fields@, existing@) && types_known(def.fields@)
                &&& rebuilds(p, *def, "__pre_money_v8"@)
                &&& p.copies@.len() == currencies@.len()
                &&& forall|i: int|
                    0 <= i < currencies@.len() ==> (#[trigger] p.copies@[i])@ == money_copy(
                        table,
                        p.old_table@,
                        money_columns(
                            def.fields@,
                            existing@,
                            ten_to(places_of(currencies@[i]@)),
                            views(real_texts@),
                        ),
                    )
            },
            Err(k) => has_legacy_money(def.fields@, existing@) && first_unknown_type(def.fields@, k as int),
        },
{
    let mut found: bool = false;
    let mut i: usize = 0;
    while i < def.fields.len()
        invariant
            i <= def.fields@.len(),
            found == exists|k: int| 0 <= k < i && legacy_money(#[trigger] def.fields@[k], existing@),
        decreases def.fields@.len() - i,
    {
        if is_legacy_money(&def.fields[i], existing) {
            assert(legacy_money(def.fields@[i as int], existing@));
            found = true;
        }
        i = i + 1;
    }
    if !found {
        return Ok(None);
    }
    let mut p = match start_rebuild(def, "__pre_money_v8") {
        Err(k) => {
            return Err(k);
        },
        Ok(p) => p,
    };
    let table = def.table_name();
    let mut copies: Vec<String> = Vec::new();
    let mut c: usize = 0;
    while c < currencies.len()
        invariant
            c <= currencies@.len(),
            real_texts@.len() == def.fields@.len(),
            table@ == "module_"@ + def.id@,
            copies@.len() == c,
            forall|i: int|
                0 <= i < c ==> (#[trigger] copies@[i])@ == money_copy(
                    table@,
                    p.old_table@,
                    money_columns(def.fields@, existing@, ten_to(places_of(currencies@[i]@)), views(real_texts@)),
                ),
        decreases currencies@.len() - c,
    {
        let scale: u64 = minor_units_per_unit(currencies[c].as_str());
        let own = money_column_texts(def, existing, scale, real_texts);
        let mut s = "INSERT INTO ".to_owned();
        s.append(table.as_str());
        s.append(" SELECT ");
        s.append(join(&select_texts(own), ", ").as_str());
        s.append(" FROM ");
        s.append(p.old_table.as_str());
        s.append(" t LEFT JOIN businesses b ON b.id = t.business_id WHERE COALESCE(b.currency, 'USD') = ?1");
        copies.push(s);
        c = c + 1;
    }
    p.copies = copies;
    Ok(Some(p))
}

/// An index of a table as the database has it.
#[derive(Debug)]
pub struct IndexInfo {
    pub unique: bool,
    /// Made by the database for a constraint of the table.
    pub of_constraint: bool,
    pub columns: Vec<String>,
}

/// Whether the index keeps a unique field unique across all businesses: it is
/// that of a constraint and covers that field alone.
pub open spec fn global_index(ix: IndexInfo, fields: Seq<FieldDef>) -> bool {
    &&& ix.unique && ix.of_constraint
    &&& ix.columns@.len() == 1
    &&& exists|i: int| 0 <= i < fields.len() && (#[trigger] fields[i]).unique && fields[i].name@ == ix.columns@[0]@
}

/// Whether some index keeps a unique field unique across all businesses.
pub open spec fn has_global_index(indexes: Seq<IndexInfo>, fields: Seq<FieldDef>) -> bool {
    exists|k: int| 0 <= k < indexes.len() && global_index(#[trigger] indexes[k], fields)
}

fn is_global_index(ix: &IndexInfo, fields: &Vec<FieldDef>) -> (b: bool)
    ensures
        b == global_index(*ix, fields@),
{
    if !ix.unique || !ix.of_constraint || ix.columns.len() != 1 {
        return false;
    }
    let mut i: usize = 0;
    while i < fields.len()
        invariant
            i <= fields@.len(),
            ix.unique && ix.of_constraint,
            ix.columns@.len() == 1,
            forall|k: int|
                0 <= k < i ==> !((#[trigger] fields@[k]).unique && fields@[k].name@ == ix.columns@[0]@),
        decreases fields@.len() - i,
    {
        if fields[i].unique && same(fields[i].name.as_str(), ix.columns[0].as_str()) {
            return true;
        }
        i = i + 1;
    }
    false
}

/// The rebuild that makes unique fields unique within a business, where the
/// table still keeps one unique across all of them.
pub fn scope_rebuild(
    def: &ModuleDef,
    existing: &Vec<ColumnInfo>,
    indexes: &Vec<IndexInfo>,
    real_texts: &Vec<String>,
) -> (r: Result<Option<Rebuild>, usize>)
    requires
        real_texts@.len() == def.fields@.len(),
    ensures
        match r {
            Ok(None) => !has_global_index(indexes@, def.fields@),
            Ok(Some(p)) => {
                &&& has_global_index(indexes@, def.fields@) && types_known(def.fields@)
                &&& rebuilds(p, *def, "__pre_unique_scope_v13"@)
                &&& views(p.copies@) == seq![
                    plain_copy(
                        "module_"@ + def.id@,
                        p.old_table@,
                        plain_columns(def.fields@, existing@, views(real_texts@)),
                    ),
                ]
            },
            Err(k) => has_global_index(indexes@, def.fields@) && first_unknown_type(def.fields@, k as int),
        },
{
    let mut found: bool = false;
    let mut i: usize = 0;
    while i < indexes.len()
        invariant
            i <= indexes@.len(),
            found == exists|k: int| 0 <= k < i && global_index(#[trigger] indexes@[k], def.fields@),
        decreases indexes@.len() - i,
    {
        if is_global_index(&indexes[i], &def.fields) {
            assert(global_index(indexes@[i as int], def.fields@));
            found = true;
        }
        i = i + 1;
    }
    if !found {
        return Ok(None);
    }
    let mut p = match start_rebuild(def, "__pre_unique_scope_v13") {
        Err(k) => {
            return Err(k);
        },
        Ok(p) => p,
    };
    let table = def.table_name();
    let own = plain_column_texts(def, existing, real_texts);
    let mut s = "INSERT INTO ".to_owned();
    s.append(table.as_str());
    s.append(" SELECT ");
    s.append(join(&select_texts(own), ", ").as_str());
    s.append(" FROM ");
    s.append(p.old_table.as_str());
    s.append(" t");
    let mut copies: Vec<String> = Vec::new();
    assert(views(copies@) =~= Seq::<Seq<char>>::empty());
    push_text(&mut copies, s.as_str());
    p.copies = copies;
    assert(views(p.copies@) =~= seq![s@]);
    Ok(Some(p))
}

// ---------------------------------------------------------------------------
// Laws of the rebuilds
// ---------------------------------------------------------------------------

/// A copy selects one value for each column of the rebuilt table, each in the
/// place of its column.
pub proof fn law_copies_fit_the_table(
    fields: Seq<FieldDef>,
    existing: Seq<ColumnInfo>,
    scale: nat,
    real_texts: Seq<Seq<char>>,
    i: int,
)
    requires
        0 <= i < fields.len(),
    ensures
        ({
            let money = select_list(money_columns(fields, existing, scale, real_texts));
            let plain = select_list(plain_columns(fields, existing, real_texts));
            let columns = rebuilt_columns(fields);
            &&& money.len() == columns.len() && plain.len() == columns.len()
            &&& columns[2 + i] == crate::module::column_def(fields[i])
            &&& money[2 + i] == money_column(fields[i], existing, scale, real_texts[i])
            &&& plain[2 + i] == plain_column(fields[i], existing, real_texts[i])
        }),
{
}

/// Money is made whole once: in a table whose columns have the types that the
/// definition gives them there is nothing left to convert.
pub proof fn law_money_is_converted_once(fields: Seq<FieldDef>, existing: Seq<ColumnInfo>)
    requires
        forall|i: int|
            0 <= i < fields.len() ==> type_of(existing, (#[trigger] fields[i]).name@) == sql_type_of(
                fields[i].field_type@,
            ),
    ensures
        !has_legacy_money(fields, existing),
{
    assert forall|i: int| 0 <= i < fields.len() implies !legacy_money(#[trigger] fields[i], existing) by {
        if fields[i].field_type@ == "money"@ {
            reveal_strlit("money");
            reveal_strlit("INTEGER");
            reveal_strlit("REAL");
            reveal_strlit("text");
            reveal_strlit("date");
            reveal_strlit("unit");
            reveal_strlit("currency");
            assert(ascii_lowered("INTEGER"@).len() == 7);
            assert(ascii_lowered("REAL"@).len() == 4);
            assert("money"@.len() == 5 && "text"@.len() == 4 && "date"@.len() == 4 && "unit"@.len() == 4);
            assert("currency"@.len() == 8);
            assert(sql_type_of("money"@) == Some("INTEGER"@));
        }
    }
}

/// Rows whose values all differ also differ as pairs of business and value:
/// no row that the old constraint allowed is refused by the new one.
pub proof fn law_scoped_constraint_is_weaker(rows: Seq<(Seq<char>, Seq<char>)>)
    requires
        forall|i: int, j: int| 0 <= i < j < rows.len() ==> (#[trigger] rows[i]).1 != (#[trigger] rows[j]).1,
    ensures
        forall|i: int, j: int| 0 <= i < j < rows.len() ==> #[trigger] rows[i] != #[trigger] rows[j],
{
}

/// A database takes every step behind its version up to the last, each once and in
/// order, and none that it has taken.
pub proof fn law_the_steps_that_are_left(current: int, i: int)
    requires
        0 <= current,
        0 <= i,
    ensures
        pending_of(current).len() == if current < 13 {
            13 - current
        } else {
            0
        },
        i < pending_of(current).len() ==> pending_of(current)[i] == current + 1 + i,
{
}

/// What a rebuild copies into the column of a field is what the old table has for
/// that field, or the default where it has nothing. Money that was kept with a
/// fraction becomes minor units: it is multiplied by as many of them as make one
/// unit, rounded, and whole. Money that is whole already is not touched.
pub proof fn law_rebuilds_keep_what_is_stored(
    f: FieldDef,
    existing: Seq<ColumnInfo>,
    scale: nat,
    real_text: Seq<char>,
    k: int,
)
    requires
        0 <= k < existing.len(),
        existing[k].name@ == f.name@,
        forall|j: int| 0 <= j < k ==> (#[trigger] existing[j]).name@ != f.name@,
    ensures
        ({
            let fraction = ascii_lowered(existing[k].type_text@) == ascii_lowered("REAL"@);
            &&& f.field_type@ == "money"@ && fraction ==> money_column(f, existing, scale, real_text)
                == "CAST(ROUND(t."@ + f.name@ + " * "@ + signed_decimal(scale as int) + ") AS INTEGER) AS "@ + f.name@
            &&& f.field_type@ != "money"@ || !fraction ==> money_column(f, existing, scale, real_text) == "t."@ + f.name@
            &&& plain_column(f, existing, real_text) == "t."@ + f.name@
        }),
{
    lemma_type_of(existing, f.name@, k);
}

proof fn lemma_type_of(existing: Seq<ColumnInfo>, name: Seq<char>, k: int)
    requires
        0 <= k < existing.len(),
        existing[k].name@ == name,
        forall|j: int| 0 <= j < k ==> (#[trigger] existing[j]).name@ != name,
    ensures
        type_of(existing, name) == Some(existing[k].type_text@),
    decreases existing.len(),
{
    if k > 0 {
        assert(existing[0].name@ != name);
        let rest = existing.skip(1);
        assert forall|j: int| 0 <= j < k - 1 implies (#[trigger] rest[j]).name@ != name by {
            assert(rest[j] == existing[j + 1]);
        }
        lemma_type_of(rest, name, k - 1);
    }
}

/// What a statement gives a row for a field that its table did not have is the
/// default of the field as it is: a text in quotes, a number in digits, a flag as
/// one or zero; and nothing where the field has no default.
pub proof fn law_defaults_are_written_as_they_are(n: i64, b: bool, s: Seq<char>, real_text: Seq<char>)
    requires
        forall|i: int| 0 <= i < s.len() ==> s[i] != '\'',
    ensures
        default_sql(None, real_text) == "NULL"@,
        default_sql(Some(ValueView::Null), real_text) == "NULL"@,
        default_sql(Some(ValueView::Int(n)), real_text) == signed_decimal(n as int),
        default_sql(Some(ValueView::Bool(true)), real_text) == "1"@,
        default_sql(Some(ValueView::Bool(false)), real_text) == "0"@,
        default_sql(Some(ValueView::Text(s)), real_text) == "'"@ + s + "'"@,
{
    lemma_nothing_is_doubled(s, '\'');
}

proof fn lemma_nothing_is_doubled(s: Seq<char>, c: char)
    requires
        forall|i: int| 0 <= i < s.len() ==> s[i] != c,
    ensures
        doubled(s, c) == s,
    decreases s.len(),
{
    if s.len() > 0 {
        assert forall|i: int| 0 <= i < s.drop_last().len() implies s.drop_last()[i] != c by {
            assert(s.drop_last()[i] == s[i]);
        }
        lemma_nothing_is_doubled(s.drop_last(), c);
        assert(s.last() == s[s.len() - 1]);
        assert(s.drop_last().push(s.last()) =~= s);
    }
}

/// A column is added where its table is there without it, and nowhere else; of the
/// fields that are wanted those are missing that are not there.
pub proof fn law_only_what_is_missing_is_added(
    table: Seq<char>,
    have: Seq<Seq<char>>,
    column: Seq<char>,
    wanted: Seq<Seq<char>>,
    name: Seq<char>,
)
    ensures
        add_column(table, None, column).len() == 0,
        have.contains(column) ==> add_column(table, Some(have), column).len() == 0,
        !have.contains(column) ==> add_column(table, Some(have), column) == seq![
            "ALTER TABLE "@ + table + " ADD COLUMN "@ + column + " TEXT"@,
        ],
        lacking(wanted, have).contains(name) <==> wanted.contains(name) && !have.contains(name),
{
    lemma_lacking(wanted, have, name);
}

proof fn lemma_lacking(wanted: Seq<Seq<char>>, have: Seq<Seq<char>>, name: Seq<char>)
    ensures
        lacking(wanted, have).contains(name) <==> wanted.contains(name) && !have.contains(name),
    decreases wanted.len(),
{
    let all = lacking(wanted, have);
    if wanted.len() > 0 {
        let rest = wanted.drop_last();
        let before = lacking(rest, have);
        lemma_lacking(rest, have, name);
        if before.contains(name) {
            let k = choose|k: int| 0 <= k < before.len() && before[k] == name;
            assert(all[k] == name);
            let j = choose|j: int| 0 <= j < rest.len() && rest[j] == name;
            assert(wanted[j] == name);
        }
        if wanted.contains(name) {
            let j = choose|j: int| 0 <= j < wanted.len() && wanted[j] == name;
            if j < rest.len() {
                assert(rest[j] == name);
            } else if !have.contains(name) {
                assert(all[all.len() - 1] == name);
            }
        }
        if all.contains(name) {
            let k = choose|k: int| 0 <= k < all.len() && all[k] == name;
            if k < before.len() {
                assert(before[k] == name);
            } else {
                assert(wanted[wanted.len() - 1] == name);
            }
        }
    }
}

/// A field that is unique across all businesses is found by the index that keeps it
/// so: one of a constraint, on that field alone.
pub proof fn law_which_indexes_span_businesses(ix: IndexInfo, fields: Seq<FieldDef>, i: int)
    requires
        0 <= i < fields.len(),
        ix.columns@.len() == 1,
        ix.columns@[0]@ == fields[i].name@,
    ensures
        ix.unique && ix.of_constraint && fields[i].unique ==> global_index(ix, fields),
        !ix.unique || !ix.of_constraint ==> !global_index(ix, fields),
{
}

/// What every table has is copied to its own place: the id, the business and the
/// times of a row. Money is copied currency by currency, each row once.
pub proof fn law_own_columns_are_copied_in_place(fields: Seq<FieldDef>, own: Seq<Seq<char>>, table: Seq<char>, old: Seq<char>)
    requires
        own.len() == fields.len(),
    ensures
        ({
            let n = fields.len() as int;
            let from = select_list(own);
            let to = rebuilt_columns(fields);
            &&& from[0] == "t.id"@ && to[0] == "id TEXT PRIMARY KEY"@
            &&& from[1] == "t.business_id"@ && to[1] == "business_id TEXT NOT NULL"@
            &&& from[n + 2] == "t.created_at"@ && to[n + 2] == "created_at TEXT NOT NULL"@
            &&& from[n + 3] == "t.updated_at"@ && to[n + 3] == "updated_at TEXT NOT NULL"@
            &&& from[n + 4] == "t.deleted_at"@ && to[n + 4] == "deleted_at TEXT"@
            &&& from.len() == n + 5 && to.len() == n + 5
        }),
        money_copy(table, old, own) == "INSERT INTO "@ + table + " SELECT "@ + joined(select_list(own), ", "@)
            + " FROM "@ + old + " t LEFT JOIN businesses b ON b.id = t.business_id WHERE COALESCE(b.currency, 'USD') = ?1"@,
{
}

} // verus!
