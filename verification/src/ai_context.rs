//! What the assistant is shown of a business: which modules, and what of each.

use crate::conditions::{all_single, asks, lemma_asks, lemma_joined_few};
use crate::module::{FieldDef, ModuleDef, find_field, has_field, is_numeric_type, numeric_type};
use crate::rbac::{granted, is_allowed, may_see_reports, sees_reports, Access};
use crate::text::{cat3, joined, same};
use vstd::prelude::*;

verus! {

/// The most items of a module that are low and shown.
pub const LOW_STOCK_SHOWN: u64 = 10;

/// The most records of a module that are shown one by one.
pub const DETAILS_SHOWN: u64 = 100;

/// Which records of a module are shown one by one.
#[derive(Clone, Copy, PartialEq, Eq, Structural, Debug)]
pub enum Details {
    Inventory,
    Debts,
    Purchases,
    Nothing,
}

/// Which records of a module are shown one by one.
pub open spec fn details_of(module_id: Seq<char>) -> Details {
    if module_id == "inventory"@ {
        Details::Inventory
    } else if module_id == "debt_credit"@ {
        Details::Debts
    } else if module_id == "purchasing"@ {
        Details::Purchases
    } else {
        Details::Nothing
    }
}

/// A total that is shown.
#[derive(Clone, Copy, PartialEq, Eq, Structural, Debug)]
pub struct TotalField {
    /// The place of the field.
    pub field: usize,
    /// Whether it is an amount of money, shown in whole units.
    pub is_money: bool,
}

/// What is shown of a module.
#[derive(Debug)]
pub struct ModulePlan {
    pub totals: Vec<TotalField>,
    /// Whether what is low is looked for.
    pub low_stock: bool,
    /// Whether what is low can be named.
    pub low_stock_named: bool,
    pub details: Details,
}

/// The totals that are shown: all numeric fields, in order.
pub open spec fn totals_of(fields: Seq<FieldDef>) -> Seq<TotalField>
    decreases fields.len(),
{
    if fields.len() == 0 {
        Seq::empty()
    } else if numeric_type(fields.last().field_type@) {
        totals_of(fields.drop_last()).push(
            TotalField { field: (fields.len() - 1) as usize, is_money: fields.last().field_type@ == "money"@ },
        )
    } else {
        totals_of(fields.drop_last())
    }
}

/// Whether a module keeps a stock that can run low.
pub open spec fn keeps_stock(fields: Seq<FieldDef>) -> bool {
    has_field(fields, "quantity"@) && has_field(fields, "reorder_level"@)
}

/// What is shown of a module: all of its totals to who may see reports and
/// none to anyone else; what is low and its records to all who may read it.
pub open spec fn plan_is(p: ModulePlan, module: ModuleDef, reports: bool) -> bool {
    &&& p.totals@ == if reports {
        totals_of(module.fields@)
    } else {
        Seq::empty()
    }
    &&& p.low_stock == keeps_stock(module.fields@)
    &&& p.low_stock_named == (keeps_stock(module.fields@) && has_field(module.fields@, "name"@))
    &&& p.details == details_of(module.id@)
}

fn get_totals(fields: &Vec<FieldDef>) -> (r: Vec<TotalField>)
    ensures
        r@ == totals_of(fields@),
{
    let mut r: Vec<TotalField> = Vec::new();
    let mut i: usize = 0;
    assert(fields@.take(0) =~= Seq::<FieldDef>::empty());
    while i < fields.len()
        invariant
            i <= fields@.len(),
            r@ == totals_of(fields@.take(i as int)),
        decreases fields@.len() - i,
    {
        assert(fields@.take(i + 1).drop_last() =~= fields@.take(i as int));
        if is_numeric_type(fields[i].field_type.as_str()) {
            r.push(TotalField { field: i, is_money: same(fields[i].field_type.as_str(), "money") });
        }
        i = i + 1;
    }
    assert(fields@.take(fields@.len() as int) =~= fields@);
    r
}

fn has(fields: &Vec<FieldDef>, name: &str) -> (b: bool)
    ensures
        b == has_field(fields@, name@),
{
    find_field(fields, name) < fields.len()
}

/// Decides what is shown of a module; `None` where the user may not read it:
/// such a module does not exist for them.
pub fn module_plan(access: &Access, module: &ModuleDef, reports: bool) -> (r: Option<ModulePlan>)
    ensures
        match r {
            Some(p) => granted(access.permissions@, module.id@, "read"@) && plan_is(p, *module, reports),
            None => !granted(access.permissions@, module.id@, "read"@),
        },
{
    if !is_allowed(access, module.id.as_str(), "read") {
        return None;
    }
    let totals: Vec<TotalField> = if reports {
        get_totals(&module.fields)
    } else {
        Vec::new()
    };
    let low_stock: bool = has(&module.fields, "quantity") && has(&module.fields, "reorder_level");
    let id = module.id.as_str();
    let details = if same(id, "inventory") {
        Details::Inventory
    } else if same(id, "debt_credit") {
        Details::Debts
    } else if same(id, "purchasing") {
        Details::Purchases
    } else {
        Details::Nothing
    };
    assert(totals@ =~= if reports {
        totals_of(module.fields@)
    } else {
        Seq::empty()
    });
    Some(
        ModulePlan {
            totals,
            low_stock,
            low_stock_named: low_stock && has(&module.fields, "name"),
            details,
        },
    )
}

/// A module that is shown: its place among the enabled ones, and what of it.
#[derive(Debug)]
pub struct ShownModule {
    pub module: usize,
    pub plan: ModulePlan,
}

/// The places of the modules that the user may read, in order.
pub open spec fn readable(access: &Access, modules: Seq<ModuleDef>) -> Seq<int>
    decreases modules.len(),
{
    if modules.len() == 0 {
        Seq::empty()
    } else if granted(access.permissions@, modules.last().id@, "read"@) {
        readable(access, modules.drop_last()).push(modules.len() - 1)
    } else {
        readable(access, modules.drop_last())
    }
}

/// What the sales of a business say of its future, each row as a JSON text: how
/// long the stock of an item lasts, and how the sales spread over the week.
#[derive(Debug)]
pub struct Insights {
    pub stock_runway: Vec<String>,
    pub day_of_week_sales_pattern: Vec<String>,
}

/// What the assistant is shown of a business.
#[derive(Debug)]
pub struct Snapshot {
    pub modules: Vec<ShownModule>,
    pub insights: Insights,
}

/// Decides what is shown of a business: every enabled module that the user may
/// read, and no other; totals and insights to who may see reports, and to no
/// one else.
pub fn build_snapshot(access: &Access, modules: &Vec<ModuleDef>, insights: Insights) -> (s: Snapshot)
    ensures
        s.modules@.len() == readable(access, modules@).len(),
        forall|i: int|
            0 <= i < s.modules@.len() ==> (#[trigger] s.modules@[i]).module == readable(access, modules@)[i]
                && s.modules@[i].module < modules@.len() && plan_is(
                s.modules@[i].plan,
                modules@[s.modules@[i].module as int],
                sees_reports(*access),
            ),
        sees_reports(*access) ==> s.insights == insights,
        !sees_reports(*access) ==> s.insights.stock_runway@.len() == 0
            && s.insights.day_of_week_sales_pattern@.len() == 0,
{
    let reports: bool = may_see_reports(access);
    let mut list: Vec<ShownModule> = Vec::new();
    let mut k: usize = 0;
    assert(modules@.take(0) =~= Seq::<ModuleDef>::empty());
    while k < modules.len()
        invariant
            k <= modules@.len(),
            reports == sees_reports(*access),
            list@.len() == readable(access, modules@.take(k as int)).len(),
            forall|i: int|
                0 <= i < list@.len() ==> (#[trigger] list@[i]).module == readable(access, modules@.take(k as int))[i]
                    && list@[i].module < k && plan_is(list@[i].plan, modules@[list@[i].module as int], reports),
        decreases modules@.len() - k,
    {
        assert(modules@.take(k + 1).drop_last() =~= modules@.take(k as int));
        assert(modules@.take(k + 1).last() == modules@[k as int]);
        match module_plan(access, &modules[k], reports) {
            Some(plan) => {
                list.push(ShownModule { module: k, plan });
            },
            None => {},
        }
        k = k + 1;
    }
    assert(modules@.take(modules@.len() as int) =~= modules@);
    let insights = if reports {
        insights
    } else {
        Insights { stock_runway: Vec::new(), day_of_week_sales_pattern: Vec::new() }
    };
    Snapshot { modules: list, insights }
}

proof fn lemma_readable_is_readable(access: &Access, modules: Seq<ModuleDef>, i: int)
    requires
        0 <= i < readable(access, modules).len(),
    ensures
        0 <= readable(access, modules)[i] < modules.len(),
        granted(access.permissions@, modules[readable(access, modules)[i]].id@, "read"@),
    decreases modules.len(),
{
    if modules.len() > 0 {
        let before = readable(access, modules.drop_last());
        if i < before.len() {
            lemma_readable_is_readable(access, modules.drop_last(), i);
        }
    }
}

/// The assistant is shown nothing of a module that the user may not read.
pub proof fn law_unreadable_modules_stay_hidden(access: &Access, modules: Seq<ModuleDef>, i: int)
    requires
        0 <= i < readable(access, modules).len(),
    ensures
        granted(access.permissions@, modules[readable(access, modules)[i]].id@, "read"@),
{
    lemma_readable_is_readable(access, modules, i);
}

/// The query for the number of records.
pub fn count_sql(table: &str) -> (s: String)
    ensures
        s@ == count_text(table@),
        s@ == "SELECT COUNT(*) FROM "@ + table@ + " WHERE business_id = ?1 AND deleted_at IS NULL"@,
{
    cat3("SELECT COUNT(*) FROM ", table, " WHERE business_id = ?1 AND deleted_at IS NULL")
}

/// The query for what is low, the lowest first.
pub fn low_stock_sql(table: &str) -> (s: String)
    ensures
        s@ == low_stock_text(table@),
        s@ == "SELECT name, quantity, reorder_level FROM "@ + table@
            + " WHERE business_id = ?1 AND deleted_at IS NULL AND quantity <= reorder_level ORDER BY quantity ASC LIMIT 10"@,
{
    cat3(
        "SELECT name, quantity, reorder_level FROM ",
        table,
        " WHERE business_id = ?1 AND deleted_at IS NULL AND quantity <= reorder_level ORDER BY quantity ASC LIMIT 10",
    )
}

/// The query for the records that are shown one by one; empty where none are.
pub open spec fn details_query(d: Details, table: Seq<char>) -> Seq<char> {
    match d {
        Details::Inventory => "SELECT sku, name, quantity, unit_cost, unit_price, reorder_level FROM "@ + table
            + " WHERE business_id = ?1 AND deleted_at IS NULL ORDER BY name LIMIT 100"@,
        Details::Debts => "SELECT party_name, direction, amount, settled, due_date FROM "@ + table
            + " WHERE business_id = ?1 AND deleted_at IS NULL ORDER BY settled ASC, due_date ASC LIMIT 100"@,
        Details::Purchases => "SELECT supplier, item_name, inventory_record_id, quantity, unit_cost, received FROM "@
            + table
            + " WHERE business_id = ?1 AND deleted_at IS NULL ORDER BY order_date DESC, created_at DESC LIMIT 100"@,
        Details::Nothing => Seq::empty(),
    }
}

/// The query for the records that are shown one by one.
pub fn details_sql(d: Details, table: &str) -> (s: String)
    ensures
        s@ == details_query(d, table@),
{
    match d {
        Details::Inventory => cat3(
            "SELECT sku, name, quantity, unit_cost, unit_price, reorder_level FROM ",
            table,
            " WHERE business_id = ?1 AND deleted_at IS NULL ORDER BY name LIMIT 100",
        ),
        Details::Debts => cat3(
            "SELECT party_name, direction, amount, settled, due_date FROM ",
            table,
            " WHERE business_id = ?1 AND deleted_at IS NULL ORDER BY settled ASC, due_date ASC LIMIT 100",
        ),
        Details::Purchases => cat3(
            "SELECT supplier, item_name, inventory_record_id, quantity, unit_cost, received FROM ",
            table,
            " WHERE business_id = ?1 AND deleted_at IS NULL ORDER BY order_date DESC, created_at DESC LIMIT 100",
        ),
        Details::Nothing => String::new(),
    }
}

/// The text of the query for the number of records.
pub open spec fn count_text(table: Seq<char>) -> Seq<char> {
    "SELECT COUNT(*) FROM "@ + table + " WHERE business_id = ?1 AND deleted_at IS NULL"@
}

/// The text of the query for what is low.
pub open spec fn low_stock_text(table: Seq<char>) -> Seq<char> {
    "SELECT name, quantity, reorder_level FROM "@ + table
        + " WHERE business_id = ?1 AND deleted_at IS NULL AND quantity <= reorder_level ORDER BY quantity ASC LIMIT 10"@
}

/// The assistant is shown and counts the records of one business alone, and none
/// that is deleted. What is low is what is at its reorder level or below.
pub proof fn law_only_own_live_records_are_shown(table: Seq<char>)
    ensures
        asks(
            count_text(table),
            "SELECT COUNT(*) FROM "@ + table,
            seq!["business_id = ?1"@, "deleted_at IS NULL"@],
            Seq::empty(),
        ),
        asks(
            low_stock_text(table),
            "SELECT name, quantity, reorder_level FROM "@ + table,
            seq!["business_id = ?1"@, "deleted_at IS NULL"@, "quantity <= reorder_level"@],
            " ORDER BY quantity ASC LIMIT 10"@,
        ),
        asks(
            details_query(Details::Inventory, table),
            "SELECT sku, name, quantity, unit_cost, unit_price, reorder_level FROM "@ + table,
            seq!["business_id = ?1"@, "deleted_at IS NULL"@],
            " ORDER BY name LIMIT 100"@,
        ),
        asks(
            details_query(Details::Debts, table),
            "SELECT party_name, direction, amount, settled, due_date FROM "@ + table,
            seq!["business_id = ?1"@, "deleted_at IS NULL"@],
            " ORDER BY settled ASC, due_date ASC LIMIT 100"@,
        ),
        asks(
            details_query(Details::Purchases, table),
            "SELECT supplier, item_name, inventory_record_id, quantity, unit_cost, received FROM "@ + table,
            seq!["business_id = ?1"@, "deleted_at IS NULL"@],
            " ORDER BY order_date DESC, created_at DESC LIMIT 100"@,
        ),
{
    reveal_strlit(" WHERE business_id = ?1 AND deleted_at IS NULL");
    reveal_strlit("business_id = ?1");
    reveal_strlit("deleted_at IS NULL");
    reveal_strlit(" AND ");
    reveal_strlit(" WHERE ");
    let parts0 = seq!["business_id = ?1"@, "deleted_at IS NULL"@];
    let head0 = "SELECT COUNT(*) FROM "@ + table;
    lemma_joined_few(parts0[0], parts0[1], parts0[1], parts0[1], " AND "@);
    assert(count_text(table) =~= head0 + " WHERE "@ + joined(parts0, " AND "@) + Seq::<char>::empty());
    assert(all_single(parts0));
    lemma_asks(count_text(table), head0, parts0, Seq::<char>::empty());

    reveal_strlit(" WHERE business_id = ?1 AND deleted_at IS NULL AND quantity <= reorder_level ORDER BY quantity ASC LIMIT 10");
    reveal_strlit("business_id = ?1");
    reveal_strlit("deleted_at IS NULL");
    reveal_strlit("quantity <= reorder_level");
    reveal_strlit(" AND ");
    reveal_strlit(" WHERE ");
    reveal_strlit(" ORDER BY quantity ASC LIMIT 10");
    let parts1 = seq!["business_id = ?1"@, "deleted_at IS NULL"@, "quantity <= reorder_level"@];
    let head1 = "SELECT name, quantity, reorder_level FROM "@ + table;
    lemma_joined_few(parts1[0], parts1[1], parts1[2], parts1[2], " AND "@);
    assert(low_stock_text(table) =~= head1 + " WHERE "@ + joined(parts1, " AND "@) + " ORDER BY quantity ASC LIMIT 10"@);
    assert(all_single(parts1));
    lemma_asks(low_stock_text(table), head1, parts1, " ORDER BY quantity ASC LIMIT 10"@);

    reveal_strlit(" WHERE business_id = ?1 AND deleted_at IS NULL ORDER BY name LIMIT 100");
    reveal_strlit("business_id = ?1");
    reveal_strlit("deleted_at IS NULL");
    reveal_strlit(" AND ");
    reveal_strlit(" WHERE ");
    reveal_strlit(" ORDER BY name LIMIT 100");
    let parts2 = seq!["business_id = ?1"@, "deleted_at IS NULL"@];
    let head2 = "SELECT sku, name, quantity, unit_cost, unit_price, reorder_level FROM "@ + table;
    lemma_joined_few(parts2[0], parts2[1], parts2[1], parts2[1], " AND "@);
    assert(details_query(Details::Inventory, table) =~= head2 + " WHERE "@ + joined(parts2, " AND "@) + " ORDER BY name LIMIT 100"@);
    assert(all_single(parts2));
    lemma_asks(details_query(Details::Inventory, table), head2, parts2, " ORDER BY name LIMIT 100"@);

    reveal_strlit(" WHERE business_id = ?1 AND deleted_at IS NULL ORDER BY settled ASC, due_date ASC LIMIT 100");
    reveal_strlit("business_id = ?1");
    reveal_strlit("deleted_at IS NULL");
    reveal_strlit(" AND ");
    reveal_strlit(" WHERE ");
    reveal_strlit(" ORDER BY settled ASC, due_date ASC LIMIT 100");
    let parts3 = seq!["business_id = ?1"@, "deleted_at IS NULL"@];
    let head3 = "SELECT party_name, direction, amount, settled, due_date FROM "@ + table;
    lemma_joined_few(parts3[0], parts3[1], parts3[1], parts3[1], " AND "@);
    assert(details_query(Details::Debts, table) =~= head3 + " WHERE "@ + joined(parts3, " AND "@) + " ORDER BY settled ASC, due_date ASC LIMIT 100"@);
    assert(all_single(parts3));
    lemma_asks(details_query(Details::Debts, table), head3, parts3, " ORDER BY settled ASC, due_date ASC LIMIT 100"@);

    reveal_strlit(" WHERE business_id = ?1 AND deleted_at IS NULL ORDER BY order_date DESC, created_at DESC LIMIT 100");
    reveal_strlit("business_id = ?1");
    reveal_strlit("deleted_at IS NULL");
    reveal_strlit(" AND ");
    reveal_strlit(" WHERE ");
    reveal_strlit(" ORDER BY order_date DESC, created_at DESC LIMIT 100");
    let parts4 = seq!["business_id = ?1"@, "deleted_at IS NULL"@];
    let head4 = "SELECT supplier, item_name, inventory_record_id, quantity, unit_cost, received FROM "@ + table;
    lemma_joined_few(parts4[0], parts4[1], parts4[1], parts4[1], " AND "@);
    assert(details_query(Details::Purchases, table) =~= head4 + " WHERE "@ + joined(parts4, " AND "@) + " ORDER BY order_date DESC, created_at DESC LIMIT 100"@);
    assert(all_single(parts4));
    lemma_asks(details_query(Details::Purchases, table), head4, parts4, " ORDER BY order_date DESC, created_at DESC LIMIT 100"@);
}

/// Every module that the user may read is shown, in the order of the modules.
pub proof fn law_every_readable_module_is_shown(access: &Access, modules: Seq<ModuleDef>, i: int)
    requires
        0 <= i < modules.len(),
        granted(access.permissions@, modules[i].id@, "read"@),
    ensures
        readable(access, modules).contains(i),
    decreases modules.len(),
{
    if i < modules.len() - 1 {
        law_every_readable_module_is_shown(access, modules.drop_last(), i);
        let before = readable(access, modules.drop_last());
        let k = choose|k: int| 0 <= k < before.len() && before[k] == i;
        assert(readable(access, modules)[k] == i);
    } else {
        let all = readable(access, modules);
        assert(all[all.len() - 1] == i);
    }
}

/// Every numeric field is summed.
pub proof fn law_every_number_is_summed(fields: Seq<FieldDef>, i: int)
    requires
        0 <= i < fields.len() <= usize::MAX,
        numeric_type(fields[i].field_type@),
    ensures
        exists|k: int| 0 <= k < totals_of(fields).len() && (#[trigger] totals_of(fields)[k]).field == i,
    decreases fields.len(),
{
    let all = totals_of(fields);
    if i < fields.len() - 1 {
        law_every_number_is_summed(fields.drop_last(), i);
        let before = totals_of(fields.drop_last());
        let k = choose|k: int| 0 <= k < before.len() && (#[trigger] before[k]).field == i;
        assert(all[k].field == i);
    } else {
        assert(all[all.len() - 1].field == i);
    }
}

proof fn lemma_totals_are_numeric(fields: Seq<FieldDef>, k: int)
    requires
        0 <= k < totals_of(fields).len(),
        fields.len() <= usize::MAX,
    ensures
        totals_of(fields)[k].field < fields.len(),
        numeric_type(fields[totals_of(fields)[k].field as int].field_type@),
        totals_of(fields)[k].is_money == (fields[totals_of(fields)[k].field as int].field_type@ == "money"@),
    decreases fields.len(),
{
    if fields.len() > 0 {
        let before = totals_of(fields.drop_last());
        if k < before.len() {
            lemma_totals_are_numeric(fields.drop_last(), k);
            assert(fields.drop_last()[before[k].field as int] == fields[before[k].field as int]);
        }
    }
}

/// Only numbers are summed, and only amounts of money are shown in units.
pub proof fn law_totals_are_of_numbers(fields: Seq<FieldDef>, k: int)
    requires
        0 <= k < totals_of(fields).len(),
        fields.len() <= usize::MAX,
    ensures
        totals_of(fields)[k].field < fields.len(),
        numeric_type(fields[totals_of(fields)[k].field as int].field_type@),
        totals_of(fields)[k].is_money == (fields[totals_of(fields)[k].field as int].field_type@ == "money"@),
{
    lemma_totals_are_numeric(fields, k);
}

/// The records of stock, debts and orders are shown one by one, each as what they are,
/// and those of no other module. What runs low is looked for where there is a
/// quantity and a level to hold it against, and named where there are names.
pub proof fn law_what_is_shown_of_a_module(p: ModulePlan, module: ModuleDef, reports: bool)
    requires
        plan_is(p, module, reports),
    ensures
        p.details == Details::Inventory <==> module.id@ == "inventory"@,
        p.details == Details::Debts <==> module.id@ == "debt_credit"@,
        p.details == Details::Purchases <==> module.id@ == "purchasing"@,
        p.low_stock <==> has_field(module.fields@, "quantity"@) && has_field(module.fields@, "reorder_level"@),
        p.low_stock_named <==> p.low_stock && has_field(module.fields@, "name"@),
        !reports ==> p.totals@.len() == 0,
{
    reveal_strlit("inventory");
    reveal_strlit("debt_credit");
    reveal_strlit("purchasing");
    assert("inventory"@.len() == 9 && "debt_credit"@.len() == 11 && "purchasing"@.len() == 10);
}

} // verus!
