//! Generic records of any module: which of their fields may change and how,
//! and the statements that store, list and change them.

use crate::conditions::{
    condition_holds, lemma_and_is_read, lemma_and_without_or, lemma_or_is_read, single,
};
use crate::lists::{first_some, lemma_first_some_at, lemma_first_some_none};
use crate::module::{
    change_error, find_field, has_field, identifier_problem, law_defaults_keep_values, law_identifiers_are_plain,
    record_error, with_defaults, word_char, FieldDef, ModuleDef, ValidationError,
};
use crate::rbac::{granted, refusal, require, Access, AccessError, AccessErrorView};
use crate::text::{
    cat3, decimal, i64_text, is_digit, is_empty, join, joined, lemma_decimal, opt_str_view, opt_view, push_decimal, same, signed_decimal, trim,
    trimmed, views,
};
use crate::value::{get_of, int_or, text_or_empty, Record, Value, ValueView};
use vstd::prelude::*;

verus! {

// ---------------------------------------------------------------------------
// Fields that only an action may change
// ---------------------------------------------------------------------------

/// The stock of an item: sold, received, refunded and repacked, never edited.
pub open spec fn stock_field(module_id: Seq<char>, field: Seq<char>) -> bool {
    module_id == "inventory"@ && field == "quantity"@
}

/// Fields that change only as a part of some action, whoever asks.
pub open spec fn action_field(module_id: Seq<char>, field: Seq<char>) -> bool {
    ||| module_id == "purchasing"@ && (field == "received"@ || field == "po_number"@)
    ||| module_id == "debt_credit"@ && (field == "settled"@ || field == "payment_method"@ || field
        == "source_order_id"@ || field == "entry_number"@)
}

/// Fields that an update may not change. A bulk import may change the stock:
/// that is how a stock take is entered.
pub open spec fn blocked_field(module_id: Seq<char>, field: Seq<char>, bulk_import: bool) -> bool {
    action_field(module_id, field) || (!bulk_import && stock_field(module_id, field))
}

/// Whether no edit of a single record may change a field: it is the stock of an
/// item, or changes only as a part of some action.
pub fn is_single_record_edit_blocked_field(module_id: &str, field_name: &str) -> (b: bool)
    ensures
        b == blocked_field(module_id@, field_name@, false),
{
    is_update_blocked_field(module_id, field_name, false)
}

/// Whether an update may not change a field.
pub fn is_update_blocked_field(module_id: &str, field_name: &str, bulk_import: bool) -> (b: bool)
    ensures
        b == blocked_field(module_id@, field_name@, bulk_import),
{
    if same(module_id, "purchasing") && (same(field_name, "received") || same(field_name, "po_number")) {
        return true;
    }
    if same(module_id, "debt_credit") && (same(field_name, "settled") || same(field_name, "payment_method") || same(
        field_name,
        "source_order_id",
    ) || same(field_name, "entry_number")) {
        return true;
    }
    !bulk_import && same(module_id, "inventory") && same(field_name, "quantity")
}

/// Whatever a bulk import may not change, an edit may not change either.
pub proof fn law_import_is_the_wider_right(module_id: Seq<char>, field: Seq<char>)
    ensures
        blocked_field(module_id, field, true) ==> blocked_field(module_id, field, false),
        blocked_field(module_id, field, false) && !blocked_field(module_id, field, true) ==> stock_field(
            module_id,
            field,
        ),
{
}

// ---------------------------------------------------------------------------
// New records
// ---------------------------------------------------------------------------

/// A new record with the values that no caller may choose: a new item has no
/// stock, a new debt is not settled, a new order is not received.
pub open spec fn with_forced(module_id: Seq<char>, record: Map<Seq<char>, ValueView>) -> Map<Seq<char>, ValueView> {
    if module_id == "inventory"@ {
        record.insert("quantity"@, ValueView::Int(0))
    } else if module_id == "debt_credit"@ {
        record.insert("settled"@, ValueView::Bool(false)).remove("payment_method"@).remove("source_order_id"@)
    } else if module_id == "purchasing"@ {
        record.insert("received"@, ValueView::Bool(false))
    } else {
        record
    }
}

/// Sets the values of a new record that no caller may choose.
pub fn apply_forced(module_id: &str, record: &mut Record)
    ensures
        final(record)@ == with_forced(module_id@, old(record)@),
{
    if same(module_id, "inventory") {
        record.insert_int("quantity", 0);
    } else if same(module_id, "debt_credit") {
        record.insert("settled", Value::Bool(false));
        record.remove("payment_method");
        record.remove("source_order_id");
    } else if same(module_id, "purchasing") {
        record.insert("received", Value::Bool(false));
    }
}

/// Whether an item would sell below its cost.
pub open spec fn priced_below_cost(module_id: Seq<char>, record: Map<Seq<char>, ValueView>) -> bool {
    module_id == "inventory"@ && int_or(record, "unit_price"@, 0) < int_or(record, "unit_cost"@, 0)
}

/// Whether an item would sell below its cost.
pub fn is_priced_below_cost(module_id: &str, record: &Record) -> (b: bool)
    ensures
        b == priced_below_cost(module_id@, record@),
{
    same(module_id, "inventory") && record.get_int_or("unit_price", 0) < record.get_int_or("unit_cost", 0)
}

/// The field that holds a module's generated number.
pub open spec fn number_field(module_id: Seq<char>) -> Option<Seq<char>> {
    if module_id == "purchasing"@ {
        Some("po_number"@)
    } else if module_id == "debt_credit"@ {
        Some("entry_number"@)
    } else {
        None
    }
}

/// A new record with its generated number, for the modules that have one.
pub open spec fn with_number(
    module_id: Seq<char>,
    record: Map<Seq<char>, ValueView>,
    number: Seq<char>,
) -> Map<Seq<char>, ValueView> {
    match number_field(module_id) {
        Some(f) => record.insert(f, ValueView::Text(number)),
        None => record,
    }
}

/// Sets the generated number of a new record.
pub fn apply_number(module_id: &str, record: &mut Record, number: &str)
    ensures
        final(record)@ == with_number(module_id@, old(record)@, number@),
{
    if same(module_id, "purchasing") {
        record.insert_text("po_number", number);
    } else if same(module_id, "debt_credit") {
        record.insert_text("entry_number", number);
    }
}

/// Why a record is refused.
#[derive(Debug)]
pub enum CreateError {
    Access(AccessError),
    BelowCost,
    Invalid(ValidationError),
}

/// Why a record is refused.
pub enum CreateErrorView {
    Access(AccessErrorView),
    BelowCost,
    Invalid(ValidationError),
}

impl View for CreateError {
    type V = CreateErrorView;

    open spec fn view(&self) -> CreateErrorView {
        match *self {
            CreateError::Access(e) => CreateErrorView::Access(e@),
            CreateError::BelowCost => CreateErrorView::BelowCost,
            CreateError::Invalid(e) => CreateErrorView::Invalid(e),
        }
    }
}

/// The item that an order is for, by the name that the order gives it.
pub open spec fn ordered_item(module_id: Seq<char>, body: Map<Seq<char>, ValueView>) -> Option<Seq<char>> {
    let name = trimmed(text_or_empty(body, "item_name"@));
    if module_id == "purchasing"@ && name.len() > 0 {
        Some(name)
    } else {
        None
    }
}

/// The item that an order is for, to be found in Inventory by its name without
/// regard to letter case.
pub fn item_to_find(module: &ModuleDef, body: &Record) -> (r: Option<String>)
    ensures
        opt_view(r) == ordered_item(module.id@, body@),
{
    if !same(module.id.as_str(), "purchasing") {
        return None;
    }
    let name = trim(body.get_text("item_name").as_str());
    if is_empty(name.as_str()) {
        None
    } else {
        Some(name)
    }
}

/// An order with the item that was found for it.
pub open spec fn with_item(
    module_id: Seq<char>,
    record: Map<Seq<char>, ValueView>,
    item_id: Option<Seq<char>>,
) -> Map<Seq<char>, ValueView> {
    match item_id {
        Some(id) if module_id == "purchasing"@ => record.insert("inventory_record_id"@, ValueView::Text(id)),
        _ => record,
    }
}

/// Links an order to the item that was found for it.
pub fn apply_item(module_id: &str, record: &mut Record, item_id: Option<&str>)
    ensures
        final(record)@ == with_item(module_id@, old(record)@, opt_str_view(item_id)),
{
    match item_id {
        Some(id) => if same(module_id, "purchasing") {
            record.insert_text("inventory_record_id", id);
        },
        None => {},
    }
}

/// The record that a request makes.
pub open spec fn created(
    module: ModuleDef,
    body: Map<Seq<char>, ValueView>,
    number: Seq<char>,
    item_id: Option<Seq<char>>,
) -> Map<Seq<char>, ValueView> {
    with_number(
        module.id@,
        with_item(module.id@, with_forced(module.id@, with_defaults(module.fields@, body)), item_id),
        number,
    )
}

/// Why a request makes no record; `None` where it does.
pub open spec fn create_problem(
    access: Option<&Access>,
    module: ModuleDef,
    body: Map<Seq<char>, ValueView>,
    number: Seq<char>,
    item_id: Option<Seq<char>>,
) -> Option<CreateErrorView> {
    let full = created(module, body, number, item_id);
    match refusal(access, module.id@, "create"@) {
        Some(e) => Some(CreateErrorView::Access(e)),
        None => if priced_below_cost(module.id@, full) {
            Some(CreateErrorView::BelowCost)
        } else {
            match record_error(module.fields@, full) {
                Some(e) => Some(CreateErrorView::Invalid(e)),
                None => None,
            }
        },
    }
}

/// Makes a record out of a request: fills in the defaults, sets what no caller
/// may choose, and checks the price and every field. `number` is the next
/// number of the modules that number their records, `item_id` the item that was
/// found for an order by its name.
pub fn create(
    access: Option<&Access>,
    module: &ModuleDef,
    body: Record,
    number: &str,
    item_id: Option<&str>,
) -> (r: Result<Record, CreateError>)
    ensures
        ({
            let problem = create_problem(access, *module, body@, number@, opt_str_view(item_id));
            match r {
                Ok(record) => problem is None && record@ == created(
                    *module,
                    body@,
                    number@,
                    opt_str_view(item_id),
                ),
                Err(e) => problem == Some(e@),
            }
        }),
{
    match require(access, module.id.as_str(), "create") {
        Err(e) => {
            return Err(CreateError::Access(e));
        },
        Ok(()) => {},
    }
    let mut record = body;
    crate::module::apply_defaults(&module.fields, &mut record);
    apply_forced(module.id.as_str(), &mut record);
    apply_item(module.id.as_str(), &mut record, item_id);
    apply_number(module.id.as_str(), &mut record, number);
    if is_priced_below_cost(module.id.as_str(), &record) {
        return Err(CreateError::BelowCost);
    }
    match module.validate(&record) {
        Err(e) => Err(CreateError::Invalid(e)),
        Ok(()) => Ok(record),
    }
}

/// No new item brings stock of its own: whatever a request says, the stock of
/// the record that it makes is zero.
pub proof fn law_new_items_have_no_stock(
    module: ModuleDef,
    body: Map<Seq<char>, ValueView>,
    number: Seq<char>,
    item_id: Option<Seq<char>>,
)
    requires
        module.id@ == "inventory"@,
    ensures
        created(module, body, number, item_id)["quantity"@] == ValueView::Int(0),
{
    lemma_module_names_differ();
}

/// No new debt is settled from the start, and no new order is received.
pub proof fn law_new_records_start_open(
    module: ModuleDef,
    body: Map<Seq<char>, ValueView>,
    number: Seq<char>,
    item_id: Option<Seq<char>>,
)
    ensures
        module.id@ == "debt_credit"@ ==> created(module, body, number, item_id)["settled"@] == ValueView::Bool(false),
        module.id@ == "purchasing"@ ==> created(module, body, number, item_id)["received"@] == ValueView::Bool(false),
{
    reveal_strlit("inventory_record_id");
    assert("inventory_record_id"@.len() == 19);
    lemma_module_names_differ();
    reveal_strlit("settled");
    reveal_strlit("payment_method");
    reveal_strlit("source_order_id");
    reveal_strlit("entry_number");
    reveal_strlit("received");
    reveal_strlit("po_number");
    assert("settled"@.len() == 7 && "payment_method"@.len() == 14 && "source_order_id"@.len() == 15
        && "entry_number"@.len() == 12 && "received"@.len() == 8 && "po_number"@.len() == 9);
}

/// An order is never made apart from its item: where Inventory has the item
/// that it names, the order is linked to that item.
pub proof fn law_orders_are_linked(
    module: ModuleDef,
    body: Map<Seq<char>, ValueView>,
    number: Seq<char>,
    item_id: Seq<char>,
)
    requires
        module.id@ == "purchasing"@,
    ensures
        created(module, body, number, Some(item_id))["inventory_record_id"@] == ValueView::Text(item_id),
{
    lemma_module_names_differ();
    reveal_strlit("inventory_record_id");
    reveal_strlit("po_number");
    assert("inventory_record_id"@.len() == 19 && "po_number"@.len() == 9);
}

/// Whether a value of a new record is not the caller's to choose.
pub open spec fn chosen_for_the_caller(module_id: Seq<char>, name: Seq<char>) -> bool {
    ||| module_id == "inventory"@ && name == "quantity"@
    ||| module_id == "debt_credit"@ && (name == "settled"@ || name == "payment_method"@ || name == "source_order_id"@
        || name == "entry_number"@)
    ||| module_id == "purchasing"@ && (name == "received"@ || name == "po_number"@ || name == "inventory_record_id"@)
}

/// A new record has every value that was asked for, apart from those that are
/// not the caller's to choose; where nothing was asked for, it has the default
/// of the field if there is one.
pub proof fn law_new_records_are_as_asked(
    module: ModuleDef,
    body: Map<Seq<char>, ValueView>,
    number: Seq<char>,
    item_id: Option<Seq<char>>,
    name: Seq<char>,
)
    requires
        !chosen_for_the_caller(module.id@, name),
    ensures
        ({
            let r = created(module, body, number, item_id);
            &&& body.contains_key(name) ==> r.contains_pair(name, body[name])
            &&& r.contains_key(name) == with_defaults(module.fields@, body).contains_key(name)
        }),
{
    lemma_module_names_differ();
    if body.contains_key(name) {
        law_defaults_keep_values(module.fields@, module.fields@.len(), body, name);
    }
}

/// A new debt says nothing of how or for which sale it was paid, whatever the
/// request says; a new debt and a new order have the number that was generated
/// for them.
pub proof fn law_new_records_have_their_own_number(
    module: ModuleDef,
    body: Map<Seq<char>, ValueView>,
    number: Seq<char>,
    item_id: Option<Seq<char>>,
)
    ensures
        ({
            let r = created(module, body, number, item_id);
            &&& module.id@ == "debt_credit"@ ==> {
                &&& r.contains_pair("entry_number"@, ValueView::Text(number))
                &&& !r.contains_key("payment_method"@) && !r.contains_key("source_order_id"@)
            }
            &&& module.id@ == "purchasing"@ ==> r.contains_pair("po_number"@, ValueView::Text(number))
        }),
{
    lemma_module_names_differ();
    reveal_strlit("payment_method");
    reveal_strlit("source_order_id");
    reveal_strlit("entry_number");
    assert("payment_method"@.len() == 14 && "source_order_id"@.len() == 15 && "entry_number"@.len() == 12);
}

/// A record is made for who may create records of the module, where no item
/// would sell below its cost and every field is valid, and for no one else.
pub proof fn law_who_may_make_a_record(
    access: Option<&Access>,
    module: ModuleDef,
    body: Map<Seq<char>, ValueView>,
    number: Seq<char>,
    item_id: Option<Seq<char>>,
)
    ensures
        ({
            let r = created(module, body, number, item_id);
            create_problem(access, module, body, number, item_id) is None <==> {
                &&& access is Some && granted(access->0.permissions@, module.id@, "create"@)
                &&& module.id@ == "inventory"@ ==> int_or(r, "unit_price"@, 0) >= int_or(r, "unit_cost"@, 0)
                &&& record_error(module.fields@, r) is None
            }
        }),
{
}

/// Fields that only an action may change are those of a received order, of a
/// settled debt, of their numbers, and of stock, which a bulk import may count
/// anew; every other field may be edited.
pub proof fn law_other_fields_may_be_edited(module_id: Seq<char>, field: Seq<char>, bulk_import: bool)
    ensures
        blocked_field(module_id, field, bulk_import) ==> module_id == "inventory"@ || module_id == "purchasing"@
            || module_id == "debt_credit"@,
        blocked_field("purchasing"@, field, bulk_import) <==> field == "received"@ || field == "po_number"@,
        blocked_field("debt_credit"@, field, bulk_import) <==> field == "settled"@ || field == "payment_method"@
            || field == "source_order_id"@ || field == "entry_number"@,
        blocked_field("inventory"@, field, bulk_import) <==> field == "quantity"@ && !bulk_import,
{
    lemma_module_names_differ();
}

proof fn lemma_module_names_differ()
    ensures
        "inventory"@ != "debt_credit"@,
        "inventory"@ != "purchasing"@,
        "debt_credit"@ != "purchasing"@,
{
    reveal_strlit("inventory");
    reveal_strlit("debt_credit");
    reveal_strlit("purchasing");
    assert("inventory"@.len() == 9 && "debt_credit"@.len() == 11 && "purchasing"@.len() == 10);
}

/// The sentence for an item that would sell below its cost.
pub fn below_cost_text() -> (s: String)
    ensures
        s@ == "selling price cannot be lower than the cost price — this would sell at a loss"@,
{
    "selling price cannot be lower than the cost price — this would sell at a loss".to_owned()
}

// ---------------------------------------------------------------------------
// Storing
// ---------------------------------------------------------------------------

/// The names of the fields that a record has a value for, in the order of the
/// module.
pub open spec fn present_fields(fields: Seq<FieldDef>, record: Map<Seq<char>, ValueView>) -> Seq<Seq<char>>
    decreases fields.len(),
{
    if fields.len() == 0 {
        Seq::empty()
    } else if record.dom().contains(fields.last().name@) {
        present_fields(fields.drop_last(), record).push(fields.last().name@)
    } else {
        present_fields(fields.drop_last(), record)
    }
}

/// The parameters `?1` up to `?n`.
pub open spec fn parameters(n: nat) -> Seq<Seq<char>> {
    Seq::new(n, |i: int| "?"@ + decimal((i + 1) as nat))
}

/// The statement that stores a record with these fields.
pub open spec fn insert_text(table: Seq<char>, names: Seq<Seq<char>>) -> Seq<char> {
    let columns = seq!["id"@, "business_id"@] + names + seq!["created_at"@, "updated_at"@];
    let values = parameters(names.len() + 2) + seq!["datetime('now')"@, "datetime('now')"@];
    "INSERT INTO "@ + table + " ("@ + joined(columns, ", "@) + ") VALUES ("@ + joined(values, ", "@) + ")"@
}

/// The statement that stores a record, and the fields whose values follow the
/// id and the business as its parameters.
#[derive(Debug)]
pub struct Statement {
    pub sql: String,
    pub fields: Vec<String>,
}

fn push_view(list: &mut Vec<String>, s: String)
    ensures
        views(final(list)@) == views(old(list)@).push(s@),
        final(list)@.len() == old(list)@.len() + 1,
{
    list.push(s);
    assert(views(list@) =~= views(old(list)@).push(s@));
}

/// `?n`.
fn parameter(n: u64) -> (s: String)
    ensures
        s@ == "?"@ + decimal(n as nat),
{
    let mut s = "?".to_owned();
    push_decimal(&mut s, n);
    s
}

/// The names of the fields that a record has a value for.
pub fn fields_present(fields: &Vec<FieldDef>, record: &Record) -> (r: Vec<String>)
    ensures
        views(r@) == present_fields(fields@, record@),
        r@.len() <= fields@.len(),
{
    let mut r: Vec<String> = Vec::new();
    let mut i: usize = 0;
    assert(views(r@) =~= Seq::<Seq<char>>::empty());
    while i < fields.len()
        invariant
            i <= fields@.len(),
            r@.len() <= i,
            views(r@) == present_fields(fields@.take(i as int), record@),
        decreases fields@.len() - i,
    {
        assert(fields@.take(i + 1).drop_last() =~= fields@.take(i as int));
        if record.has(fields[i].name.as_str()) {
            push_view(&mut r, fields[i].name.clone());
        }
        i = i + 1;
    }
    assert(fields@.take(fields@.len() as int) =~= fields@);
    r
}

/// The statement that stores a validated record.
pub fn insert_validated_record(module: &ModuleDef, record: &Record) -> (r: Statement)
    requires
        module.fields@.len() < usize::MAX - 2,
    ensures
        views(r.fields@) == present_fields(module.fields@, record@),
        r.sql@ == insert_text("module_"@ + module.id@, present_fields(module.fields@, record@)),
{
    let fields = fields_present(&module.fields, record);
    let mut columns: Vec<String> = Vec::new();
    let mut values: Vec<String> = Vec::new();
    push_view(&mut columns, "id".to_owned());
    push_view(&mut columns, "business_id".to_owned());
    push_view(&mut values, parameter(1));
    push_view(&mut values, parameter(2));
    let ghost names = views(fields@);
    proof {
        assert(views(columns@) =~= seq!["id"@, "business_id"@] + names.take(0));
        assert(views(values@) =~= parameters(2));
    }
    let mut i: usize = 0;
    while i < fields.len()
        invariant
            i <= fields@.len(),
            fields@.len() < usize::MAX - 2,
            names == views(fields@),
            views(columns@) == seq!["id"@, "business_id"@] + names.take(i as int),
            views(values@) == parameters((i + 2) as nat),
        decreases fields@.len() - i,
    {
        push_view(&mut columns, fields[i].clone());
        push_view(&mut values, parameter((i + 3) as u64));
        proof {
            assert(names.take(i + 1) =~= names.take(i as int).push(names[i as int]));
            assert(views(columns@) =~= seq!["id"@, "business_id"@] + names.take(i + 1));
            assert(views(values@) =~= parameters((i + 3) as nat));
        }
        i = i + 1;
    }
    push_view(&mut columns, "created_at".to_owned());
    push_view(&mut columns, "updated_at".to_owned());
    push_view(&mut values, "datetime('now')".to_owned());
    push_view(&mut values, "datetime('now')".to_owned());
    proof {
        assert(names.take(names.len() as int) =~= names);
        assert(views(columns@) =~= seq!["id"@, "business_id"@] + names + seq!["created_at"@, "updated_at"@]);
        assert(views(values@) =~= parameters(names.len() + 2) + seq!["datetime('now')"@, "datetime('now')"@]);
    }
    let mut sql = "INSERT INTO ".to_owned();
    sql.append(module.table_name().as_str());
    sql.append(" (");
    sql.append(join(&columns, ", ").as_str());
    sql.append(") VALUES (");
    sql.append(join(&values, ", ").as_str());
    sql.append(")");
    Statement { sql, fields }
}

/// What a value is in the database.
#[derive(Debug)]
pub enum SqlValue {
    Null,
    Int(i64),
    /// A number with a fraction, by its bits.
    Real(u64),
    /// An integer above the largest `i64`, stored as a number with a fraction.
    Large(u64),
    Text(String),
}

/// What a value is in the database.
pub enum SqlView {
    Null,
    Int(i64),
    Real(u64),
    Large(u64),
    Text(Seq<char>),
}

impl View for SqlValue {
    type V = SqlView;

    open spec fn view(&self) -> SqlView {
        match *self {
            SqlValue::Null => SqlView::Null,
            SqlValue::Int(n) => SqlView::Int(n),
            SqlValue::Real(b) => SqlView::Real(b),
            SqlValue::Large(n) => SqlView::Large(n),
            SqlValue::Text(s) => SqlView::Text(s@),
        }
    }
}

/// What a value becomes in the database: texts stay, booleans are 0 and 1, and
/// lists and objects are stored by their JSON text.
pub open spec fn stored_as(v: ValueView) -> SqlView {
    match v {
        ValueView::Null => SqlView::Null,
        ValueView::Bool(b) => SqlView::Int(
            if b {
                1
            } else {
                0
            },
        ),
        ValueView::Int(n) => SqlView::Int(n),
        ValueView::UInt(n) => if n <= i64::MAX {
            SqlView::Int(n as i64)
        } else {
            SqlView::Large(n)
        },
        ValueView::Real(b) => SqlView::Real(b),
        ValueView::Text(s) => SqlView::Text(s),
        ValueView::Nested(s) => SqlView::Text(s),
    }
}

/// What a value becomes in the database.
pub fn value_to_sql(v: &Value) -> (r: SqlValue)
    ensures
        r@ == stored_as(v@),
{
    match v {
        Value::Null => SqlValue::Null,
        Value::Bool(b) => SqlValue::Int(
            if *b {
                1
            } else {
                0
            },
        ),
        Value::Int(n) => SqlValue::Int(*n),
        Value::UInt(n) => if *n <= i64::MAX as u64 {
            SqlValue::Int(*n as i64)
        } else {
            SqlValue::Large(*n)
        },
        Value::Real(b) => SqlValue::Real(*b),
        Value::Text(s) => SqlValue::Text(s.clone()),
        Value::Nested(s) => SqlValue::Text(s.clone()),
    }
}

// ---------------------------------------------------------------------------
// Listing
// ---------------------------------------------------------------------------

/// The names of all fields.
pub open spec fn field_names(fields: Seq<FieldDef>) -> Seq<Seq<char>> {
    Seq::new(fields.len(), |i: int| fields[i].name@)
}

/// The search conditions on the text fields among the first fields, the
/// parameters counting on from the second.
pub open spec fn search_clauses(fields: Seq<FieldDef>) -> Seq<Seq<char>>
    decreases fields.len(),
{
    if fields.len() == 0 {
        Seq::empty()
    } else {
        let before = search_clauses(fields.drop_last());
        if fields.last().field_type@ == "text"@ {
            before.push(fields.last().name@ + " LIKE ?"@ + decimal(before.len() + 2))
        } else {
            before
        }
    }
}

/// The statement that lists the records of a module.
pub open spec fn list_text(module: ModuleDef, searching: bool, limit: int, offset: int) -> Seq<char> {
    let clauses = search_clauses(module.fields@);
    "SELECT id, "@ + joined(field_names(module.fields@), ", "@) + " FROM "@ + ("module_"@ + module.id@)
        + " WHERE business_id = ?1 AND deleted_at IS NULL"@ + (if searching && clauses.len() > 0 {
        " AND ("@ + joined(clauses, " OR "@) + ")"@
    } else {
        Seq::empty()
    }) + " ORDER BY created_at DESC LIMIT "@ + signed_decimal(limit) + " OFFSET "@ + signed_decimal(offset)
}

/// A list statement, the pattern that it searches for and how often the
/// pattern follows the business as a parameter.
#[derive(Debug)]
pub struct ListQuery {
    pub sql: String,
    pub pattern: Option<String>,
    pub pattern_count: usize,
}

/// The statement that lists a module's records, with an optional search over
/// all its text fields.
pub fn list(module: &ModuleDef, search: Option<&str>, limit: i64, offset: i64) -> (q: ListQuery)
    requires
        module.fields@.len() < usize::MAX - 2,
    ensures
        q.sql@ == list_text(*module, search is Some, limit as int, offset as int),
        q.pattern_count == if search is Some {
            search_clauses(module.fields@).len()
        } else {
            0
        },
        crate::text::opt_view(q.pattern) == match search {
            Some(term) => Some("%"@ + term@ + "%"@),
            None => None,
        },
{
    let mut names: Vec<String> = Vec::new();
    let mut clauses: Vec<String> = Vec::new();
    let mut i: usize = 0;
    proof {
        assert(views(names@) =~= field_names(module.fields@).take(0));
        assert(views(clauses@) =~= Seq::<Seq<char>>::empty());
    }
    while i < module.fields.len()
        invariant
            i <= module.fields@.len() < usize::MAX - 2,
            views(names@) == field_names(module.fields@).take(i as int),
            clauses@.len() <= i,
            views(clauses@) == search_clauses(module.fields@.take(i as int)),
        decreases module.fields@.len() - i,
    {
        let f = &module.fields[i];
        push_view(&mut names, f.name.clone());
        proof {
            assert(module.fields@.take(i + 1).drop_last() =~= module.fields@.take(i as int));
            assert(field_names(module.fields@).take(i + 1) =~= field_names(module.fields@).take(i as int).push(
                module.fields@[i as int].name@,
            ));
        }
        if same(f.field_type.as_str(), "text") {
            let mut clause = f.name.clone();
            clause.append(" LIKE ?");
            push_decimal(&mut clause, (clauses.len() + 2) as u64);
            push_view(&mut clauses, clause);
        }
        i = i + 1;
    }
    proof {
        assert(module.fields@.take(module.fields@.len() as int) =~= module.fields@);
        assert(field_names(module.fields@).take(module.fields@.len() as int) =~= field_names(module.fields@));
        assert(views(clauses@).len() == clauses@.len());
    }
    let mut sql = "SELECT id, ".to_owned();
    sql.append(join(&names, ", ").as_str());
    sql.append(" FROM ");
    sql.append(module.table_name().as_str());
    sql.append(" WHERE business_id = ?1 AND deleted_at IS NULL");
    if search.is_some() && clauses.len() > 0 {
        let condition = cat3(" AND (", join(&clauses, " OR ").as_str(), ")");
        sql.append(condition.as_str());
    }
    let ghost so_far = sql@;
    sql.append(" ORDER BY created_at DESC LIMIT ");
    sql.append(i64_text(limit).as_str());
    sql.append(" OFFSET ");
    sql.append(i64_text(offset).as_str());
    assert(sql@ =~= list_text(*module, search is Some, limit as int, offset as int));
    match search {
        Some(term) => ListQuery { sql, pattern: Some(cat3("%", term, "%")), pattern_count: clauses.len() },
        None => ListQuery { sql, pattern: None, pattern_count: 0 },
    }
}

/// The requirement that a column is like a parameter.
pub open spec fn like_text(name: Seq<char>, parameter: nat) -> Seq<char> {
    name + " LIKE ?"@ + decimal(parameter)
}

/// Whether the fields have names that can stand in a statement.
pub open spec fn names_are_identifiers(fields: Seq<FieldDef>) -> bool {
    forall|i: int| 0 <= i < fields.len() ==> identifier_problem((#[trigger] fields[i]).name@) is None
}

proof fn lemma_like_is_single(name: Seq<char>, parameter: nat)
    requires
        identifier_problem(name) is None,
    ensures
        single(like_text(name, parameter)),
{
    reveal_strlit(" LIKE ?");
    law_identifiers_are_plain(name);
    lemma_decimal(parameter);
    let s = like_text(name, parameter);
    assert forall|i: int| 0 <= i < s.len() && #[trigger] s[i] == ' ' implies i + 1 < s.len() && s[i + 1] != 'A' && s[i
        + 1] != 'O' by {
        if i < name.len() {
            assert(word_char(name[i]));
        } else if i >= name.len() + 7 {
            assert(is_digit(decimal(parameter)[i - name.len() - 7]));
        } else {
            assert(s[i] == " LIKE ?"@[i - name.len()]);
            assert(s[i + 1] == " LIKE ?"@[i + 1 - name.len()]);
        }
    }
}

/// Whether a field is searched.
pub open spec fn is_text_field(f: FieldDef) -> bool {
    f.field_type@ == "text"@
}

/// The clauses of a search are one for each text field, and each is about a
/// parameter of its own, from the second on.
proof fn lemma_clauses_are_of_text_fields(fields: Seq<FieldDef>) -> (at: Seq<int>)
    ensures
        at.len() == search_clauses(fields).len(),
        forall|j: int|
            0 <= j < at.len() ==> 0 <= #[trigger] at[j] < fields.len() && is_text_field(fields[at[j]])
                && search_clauses(fields)[j] == like_text(fields[at[j]].name@, (j + 2) as nat),
        forall|i: int| 0 <= i < fields.len() && #[trigger] is_text_field(fields[i]) ==> at.contains(i),
    decreases fields.len(),
{
    if fields.len() == 0 {
        Seq::empty()
    } else {
        let rest = fields.drop_last();
        let n = fields.len() - 1;
        let before = lemma_clauses_are_of_text_fields(rest);
        let at = if is_text_field(fields[n]) {
            before.push(n)
        } else {
            before
        };
        assert forall|j: int| 0 <= j < at.len() implies 0 <= #[trigger] at[j] < fields.len() && is_text_field(
            fields[at[j]],
        ) && search_clauses(fields)[j] == like_text(fields[at[j]].name@, (j + 2) as nat) by {
            if j < before.len() {
                assert(at[j] == before[j]);
                assert(fields[before[j]] == rest[before[j]]);
                assert(search_clauses(fields)[j] == search_clauses(rest)[j]);
            }
        }
        assert forall|i: int| 0 <= i < fields.len() && #[trigger] is_text_field(fields[i]) implies at.contains(i) by {
            if i < n {
                assert(is_text_field(rest[i]));
                let j = choose|j: int| 0 <= j < before.len() && before[j] == i;
                assert(at[j] == i);
            } else {
                assert(at[before.len() as int] == n);
            }
        }
        at
    }
}

/// A record is found by a search just when at least one of its text fields has
/// the term in it, whatever its other fields hold. `found` says of a field of a
/// record whether it has the term in it, `truth` of a requirement whether the
/// record meets it: that a column is like a parameter which holds the pattern
/// means that the field has the term in it. The condition stands in the
/// statement behind those that every record of a list meets.
pub proof fn law_a_search_finds_any_text_field(
    module: ModuleDef,
    limit: int,
    offset: int,
    found: spec_fn(Seq<char>) -> bool,
    truth: spec_fn(Seq<char>) -> bool,
)
    requires
        names_are_identifiers(module.fields@),
        exists|i: int| 0 <= i < module.fields@.len() && #[trigger] is_text_field(module.fields@[i]),
        forall|name: Seq<char>, n: nat|
            2 <= n < 2 + search_clauses(module.fields@).len() ==> truth(#[trigger] like_text(name, n)) == found(name),
    ensures
        forall|f: FieldDef| #[trigger] is_text_field(f) <==> f.field_type@ == "text"@,
        exists|head: Seq<char>, condition: Seq<char>, tail: Seq<char>|
            {
                &&& list_text(module, true, limit, offset) == #[trigger] (head + " AND ("@ + condition + ")"@ + tail)
                &&& list_text(module, false, limit, offset) == head + tail
                &&& condition_holds(condition, truth) <==> exists|i: int|
                    0 <= i < module.fields@.len() && #[trigger] is_text_field(module.fields@[i]) && found(
                        module.fields@[i].name@,
                    )
            },
{
    let fields = module.fields@;
    let clauses = search_clauses(fields);
    let at = lemma_clauses_are_of_text_fields(fields);
    let some = choose|i: int| 0 <= i < fields.len() && #[trigger] is_text_field(fields[i]);
    assert(at.contains(some));
    assert forall|j: int| 0 <= j < clauses.len() implies single(#[trigger] clauses[j]) && truth(clauses[j]) == found(
        fields[at[j]].name@,
    ) by {
        lemma_like_is_single(fields[at[j]].name@, (j + 2) as nat);
        assert(truth(like_text(fields[at[j]].name@, (j + 2) as nat)) == found(fields[at[j]].name@));
    }
    lemma_or_is_read(clauses, truth);
    let condition = joined(clauses, " OR "@);
    if condition_holds(condition, truth) {
        let j = choose|j: int| 0 <= j < clauses.len() && truth(#[trigger] clauses[j]);
        assert(is_text_field(fields[at[j]]) && found(fields[at[j]].name@));
    }
    if exists|i: int| 0 <= i < fields.len() && #[trigger] is_text_field(fields[i]) && found(fields[i].name@) {
        let i = choose|i: int| 0 <= i < fields.len() && #[trigger] is_text_field(fields[i]) && found(fields[i].name@);
        assert(at.contains(i));
        let j = choose|j: int| 0 <= j < at.len() && at[j] == i;
        assert(truth(clauses[j]));
    }
    let head = "SELECT id, "@ + joined(field_names(fields), ", "@) + " FROM "@ + ("module_"@ + module.id@)
        + " WHERE business_id = ?1 AND deleted_at IS NULL"@;
    let tail = " ORDER BY created_at DESC LIMIT "@ + signed_decimal(limit) + " OFFSET "@ + signed_decimal(offset);
    lemma_list_text_with_search(module, limit, offset, head, tail);
    assert(list_text(module, true, limit, offset) == head + " AND ("@ + condition + ")"@ + tail);
}

proof fn lemma_list_text_with_search(module: ModuleDef, limit: int, offset: int, head: Seq<char>, tail: Seq<char>)
    requires
        search_clauses(module.fields@).len() > 0,
        head == "SELECT id, "@ + joined(field_names(module.fields@), ", "@) + " FROM "@ + ("module_"@ + module.id@)
            + " WHERE business_id = ?1 AND deleted_at IS NULL"@,
        tail == " ORDER BY created_at DESC LIMIT "@ + signed_decimal(limit) + " OFFSET "@ + signed_decimal(offset),
    ensures
        list_text(module, true, limit, offset) == head + " AND ("@ + joined(search_clauses(module.fields@), " OR "@)
            + ")"@ + tail,
        list_text(module, false, limit, offset) == head + tail,
{
    assert(list_text(module, true, limit, offset) =~= head + " AND ("@ + joined(
        search_clauses(module.fields@),
        " OR "@,
    ) + ")"@ + tail);
    assert(list_text(module, false, limit, offset) =~= head + tail);
}

/// Whether a condition asks for just the records of one business that are not
/// deleted: it holds where the business is the first parameter and nothing marks
/// the record as deleted, and nowhere else.
pub open spec fn asks_for_own_live_records(condition: Seq<char>) -> bool {
    forall|truth: spec_fn(Seq<char>) -> bool| #[trigger]
        condition_holds(condition, truth) == (truth("business_id = ?1"@) && truth("deleted_at IS NULL"@))
}

/// The condition for the records of one business that are not deleted is read
/// as that.
pub proof fn lemma_own_live_records()
    ensures
        asks_for_own_live_records("business_id = ?1 AND deleted_at IS NULL"@),
{
    reveal_strlit("business_id = ?1 AND deleted_at IS NULL");
    reveal_strlit("business_id = ?1");
    reveal_strlit("deleted_at IS NULL");
    reveal_strlit(" AND ");
    let parts = seq!["business_id = ?1"@, "deleted_at IS NULL"@];
    assert(parts.drop_last() =~= seq!["business_id = ?1"@]);
    reveal_with_fuel(joined, 3);
    assert(joined(parts, " AND "@) =~= "business_id = ?1 AND deleted_at IS NULL"@);
    assert(single(parts[0]) && single(parts[1]));
    assert forall|truth: spec_fn(Seq<char>) -> bool| #[trigger]
        condition_holds("business_id = ?1 AND deleted_at IS NULL"@, truth) == (truth("business_id = ?1"@) && truth(
            "deleted_at IS NULL"@,
        )) by {
        lemma_and_is_read(parts, truth);
        lemma_and_without_or(parts, truth);
        assert(parts[0] == "business_id = ?1"@ && parts[1] == "deleted_at IS NULL"@);
        if truth(parts[0]) && truth(parts[1]) {
            assert forall|i: int| 0 <= i < parts.len() implies truth(#[trigger] parts[i]) by {}
        }
    }
}

/// A list shows the records of one business that are not deleted, the newest
/// first, as many as asked for from where it was asked, and of each its id and
/// every field.
pub proof fn law_lists_show_own_live_records(module: ModuleDef, limit: int, offset: int)
    ensures
        exists|condition: Seq<char>|
            {
                &&& list_text(module, false, limit, offset) == "SELECT id, "@ + joined(
                    field_names(module.fields@),
                    ", "@,
                ) + " FROM "@ + ("module_"@ + module.id@) + " WHERE "@ + condition + " ORDER BY created_at DESC"@
                    + " LIMIT "@ + signed_decimal(limit) + " OFFSET "@ + signed_decimal(offset)
                &&& #[trigger] asks_for_own_live_records(condition)
            },
{
    lemma_own_live_records();
    reveal_strlit(" WHERE business_id = ?1 AND deleted_at IS NULL");
    reveal_strlit(" WHERE ");
    reveal_strlit("business_id = ?1 AND deleted_at IS NULL");
    reveal_strlit(" ORDER BY created_at DESC LIMIT ");
    reveal_strlit(" ORDER BY created_at DESC");
    reveal_strlit(" LIMIT ");
    assert(" WHERE business_id = ?1 AND deleted_at IS NULL"@ =~= " WHERE "@ + "business_id = ?1 AND deleted_at IS NULL"@);
    assert(" ORDER BY created_at DESC LIMIT "@ =~= " ORDER BY created_at DESC"@ + " LIMIT "@);
    assert(list_text(module, false, limit, offset) =~= "SELECT id, "@ + joined(field_names(module.fields@), ", "@)
        + " FROM "@ + ("module_"@ + module.id@) + " WHERE "@ + "business_id = ?1 AND deleted_at IS NULL"@
        + " ORDER BY created_at DESC"@ + " LIMIT "@ + signed_decimal(limit) + " OFFSET "@ + signed_decimal(offset));
}

// ---------------------------------------------------------------------------
// Changing
// ---------------------------------------------------------------------------

/// Why a change is refused, in the order in which it is checked.
#[derive(Debug)]
pub enum UpdateError {
    Access(AccessError),
    UnknownField { field: String },
    /// Only an action may change the field.
    Blocked { blocked: String },
    NoFields,
    Invalid(ValidationError),
    NotFound,
    BelowCost,
}

/// Why a change is refused.
pub enum UpdateErrorView {
    Access(AccessErrorView),
    UnknownField(Seq<char>),
    Blocked(Seq<char>),
    NoFields,
    Invalid(ValidationError),
    NotFound,
    BelowCost,
}

impl View for UpdateError {
    type V = UpdateErrorView;

    open spec fn view(&self) -> UpdateErrorView {
        match *self {
            UpdateError::Access(e) => UpdateErrorView::Access(e@),
            UpdateError::UnknownField { field } => UpdateErrorView::UnknownField(field@),
            UpdateError::Blocked { blocked } => UpdateErrorView::Blocked(blocked@),
            UpdateError::NoFields => UpdateErrorView::NoFields,
            UpdateError::Invalid(e) => UpdateErrorView::Invalid(e),
            UpdateError::NotFound => UpdateErrorView::NotFound,
            UpdateError::BelowCost => UpdateErrorView::BelowCost,
        }
    }
}

/// What is wrong with changing a field of that name.
pub open spec fn name_problem(module: ModuleDef, name: Seq<char>, bulk_import: bool) -> Option<UpdateErrorView> {
    if !has_field(module.fields@, name) {
        Some(UpdateErrorView::UnknownField(name))
    } else if blocked_field(module.id@, name, bulk_import) {
        Some(UpdateErrorView::Blocked(name))
    } else {
        None
    }
}

/// Whether a change touches the cost or the price of an item.
pub open spec fn touches_price(module_id: Seq<char>, body: Map<Seq<char>, ValueView>) -> bool {
    module_id == "inventory"@ && (body.dom().contains("unit_cost"@) || body.dom().contains("unit_price"@))
}

/// The cost and price that an item has in the database.
#[derive(Clone, Copy, PartialEq, Eq, Structural, Debug)]
pub struct StoredPrices {
    pub unit_cost: i64,
    pub unit_price: i64,
}

/// Why a change is refused; `None` where it goes through. What the change
/// leaves out is taken from what is stored.
pub open spec fn update_problem(
    access: Option<&Access>,
    module: ModuleDef,
    names: Seq<Seq<char>>,
    body: Map<Seq<char>, ValueView>,
    stored: Option<StoredPrices>,
    bulk_import: bool,
) -> Option<UpdateErrorView> {
    let denied = refusal(access, module.id@, "update"@);
    let bad_name = first_some(names.len(), |i: int| name_problem(module, names[i], bulk_import));
    let invalid = change_error(module.fields@, body);
    if denied is Some {
        Some(UpdateErrorView::Access(denied->0))
    } else if bad_name is Some {
        bad_name
    } else if names.len() == 0 {
        Some(UpdateErrorView::NoFields)
    } else if invalid is Some {
        Some(UpdateErrorView::Invalid(invalid->0))
    } else if touches_price(module.id@, body) {
        match stored {
            None => Some(UpdateErrorView::NotFound),
            Some(s) => if int_or(body, "unit_price"@, s.unit_price) < int_or(body, "unit_cost"@, s.unit_cost) {
                Some(UpdateErrorView::BelowCost)
            } else {
                None
            },
        }
    } else {
        None
    }
}

/// `name = ?n` for every name, `n` counting from one.
pub open spec fn set_clauses(names: Seq<Seq<char>>) -> Seq<Seq<char>> {
    Seq::new(names.len(), |i: int| names[i] + " = ?"@ + decimal((i + 1) as nat))
}

/// The statement that changes these fields of a record; the record and the
/// business follow the values as parameters.
pub open spec fn update_text(table: Seq<char>, names: Seq<Seq<char>>) -> Seq<char> {
    "UPDATE "@ + table + " SET "@ + joined(set_clauses(names).push("updated_at = datetime('now')"@), ", "@)
        + " WHERE id = ?"@ + decimal(names.len() + 1) + " AND business_id = ?"@ + decimal(names.len() + 2)
        + " AND deleted_at IS NULL"@
}

/// Decides a change of some fields of a record, and gives the statement that
/// makes it. `stored` is the cost and price of the item, where the record is
/// one and exists.
pub fn update(
    access: Option<&Access>,
    module: &ModuleDef,
    body: &Record,
    stored: Option<StoredPrices>,
    bulk_import: bool,
) -> (r: Result<Statement, UpdateError>)
    requires
        body.name_list().len() < usize::MAX - 2,
    ensures
        match r {
            Ok(s) => {
                &&& update_problem(access, *module, body.name_list(), body@, stored, bulk_import) is None
                &&& views(s.fields@) == body.name_list()
                &&& s.sql@ == update_text("module_"@ + module.id@, body.name_list())
            },
            Err(e) => update_problem(access, *module, body.name_list(), body@, stored, bulk_import) == Some(e@),
        },
{
    match require(access, module.id.as_str(), "update") {
        Err(e) => {
            return Err(UpdateError::Access(e));
        },
        Ok(()) => {},
    }
    let fields = body.names();
    let ghost names = body.name_list();
    let ghost problems = |i: int| name_problem(*module, names[i], bulk_import);
    let mut sets: Vec<String> = Vec::new();
    assert(views(sets@) =~= set_clauses(names).take(0));
    let mut i: usize = 0;
    while i < fields.len()
        invariant
            refusal(access, module.id@, "update"@) is None,
            names == body.name_list(),
            names == views(fields@),
            names.len() < usize::MAX - 2,
            problems == (|i: int| name_problem(*module, names[i], bulk_import)),
            i <= names.len(),
            first_some(i as nat, problems) is None,
            views(sets@) == set_clauses(names).take(i as int),
        decreases names.len() - i,
    {
        let name = fields[i].as_str();
        assert(name@ == names[i as int]);
        if find_field(&module.fields, name) >= module.fields.len() {
            proof {
                lemma_first_some_at(names.len(), i as nat, problems);
            }
            return Err(UpdateError::UnknownField { field: fields[i].clone() });
        }
        if is_update_blocked_field(module.id.as_str(), name, bulk_import) {
            proof {
                lemma_first_some_at(names.len(), i as nat, problems);
            }
            return Err(UpdateError::Blocked { blocked: fields[i].clone() });
        }
        let mut set = fields[i].clone();
        set.append(" = ?");
        push_decimal(&mut set, (i + 1) as u64);
        push_view(&mut sets, set);
        assert(set_clauses(names).take(i + 1) =~= set_clauses(names).take(i as int).push(set_clauses(names)[i as int]));
        i = i + 1;
    }
    assert(set_clauses(names).take(names.len() as int) =~= set_clauses(names));
    if fields.len() == 0 {
        return Err(UpdateError::NoFields);
    }
    match module.validate_partial(body) {
        Err(e) => {
            return Err(UpdateError::Invalid(e));
        },
        Ok(()) => {},
    }
    if same(module.id.as_str(), "inventory") && (body.has("unit_cost") || body.has("unit_price")) {
        match stored {
            None => {
                return Err(UpdateError::NotFound);
            },
            Some(s) => {
                if body.get_int_or("unit_price", s.unit_price) < body.get_int_or("unit_cost", s.unit_cost) {
                    return Err(UpdateError::BelowCost);
                }
            },
        }
    }
    push_view(&mut sets, "updated_at = datetime('now')".to_owned());
    let n: u64 = fields.len() as u64;
    let mut sql = "UPDATE ".to_owned();
    sql.append(module.table_name().as_str());
    sql.append(" SET ");
    sql.append(join(&sets, ", ").as_str());
    sql.append(" WHERE id = ?");
    push_decimal(&mut sql, n + 1);
    sql.append(" AND business_id = ?");
    push_decimal(&mut sql, n + 2);
    sql.append(" AND deleted_at IS NULL");
    Ok(Statement { sql, fields })
}

/// No edit of a single record ever changes the stock of an item: it is refused
/// whatever else it says.
pub proof fn law_stock_is_never_edited(
    access: Option<&Access>,
    module: ModuleDef,
    names: Seq<Seq<char>>,
    body: Map<Seq<char>, ValueView>,
    stored: Option<StoredPrices>,
    i: int,
)
    requires
        module.id@ == "inventory"@,
        0 <= i < names.len(),
        names[i] == "quantity"@,
    ensures
        update_problem(access, module, names, body, stored, false) is Some,
{
    let problems = |i: int| name_problem(module, names[i], false);
    crate::lists::lemma_first_some_none(names.len(), problems);
    assert(problems(i) is Some);
}

/// A change that goes through never leaves an item priced below its cost.
pub proof fn law_update_never_below_cost(
    access: Option<&Access>,
    module: ModuleDef,
    names: Seq<Seq<char>>,
    body: Map<Seq<char>, ValueView>,
    stored: StoredPrices,
    bulk_import: bool,
)
    requires
        update_problem(access, module, names, body, Some(stored), bulk_import) is None,
        touches_price(module.id@, body),
    ensures
        int_or(body, "unit_price"@, stored.unit_price) >= int_or(body, "unit_cost"@, stored.unit_cost),
{
}

/// A change goes through for who may update records of the module, where it
/// names at least one field, only fields that the module has and that may be
/// edited, only valid values, and leaves no item priced below its cost; and it
/// is refused otherwise.
pub proof fn law_which_changes_go_through(
    access: Option<&Access>,
    module: ModuleDef,
    names: Seq<Seq<char>>,
    body: Map<Seq<char>, ValueView>,
    stored: Option<StoredPrices>,
    bulk_import: bool,
)
    ensures
        update_problem(access, module, names, body, stored, bulk_import) is None <==> {
            &&& access is Some && granted(access->0.permissions@, module.id@, "update"@)
            &&& names.len() > 0
            &&& forall|i: int|
                0 <= i < names.len() ==> has_field(module.fields@, #[trigger] names[i]) && !blocked_field(
                    module.id@,
                    names[i],
                    bulk_import,
                )
            &&& change_error(module.fields@, body) is None
            &&& module.id@ == "inventory"@ && (body.contains_key("unit_cost"@) || body.contains_key("unit_price"@)) ==> {
                &&& stored is Some
                &&& int_or(body, "unit_price"@, stored->0.unit_price) >= int_or(
                    body,
                    "unit_cost"@,
                    stored->0.unit_cost,
                )
            }
        },
{
    let problems = |i: int| name_problem(module, names[i], bulk_import);
    lemma_first_some_none(names.len(), problems);
    if forall|i: int| 0 <= i < names.len() ==> (#[trigger] problems(i)) is None {
        assert forall|i: int| 0 <= i < names.len() implies has_field(module.fields@, #[trigger] names[i])
            && !blocked_field(module.id@, names[i], bulk_import) by {
            assert(problems(i) is None);
        }
    } else {
        let i = choose|i: int| 0 <= i < names.len() && (#[trigger] problems(i)) is Some;
        assert(!has_field(module.fields@, names[i]) || blocked_field(module.id@, names[i], bulk_import));
    }
}

/// The sentence for a refused change. `invalid` is the sentence for a value that
/// is not valid.
pub open spec fn update_message(e: UpdateErrorView, module_id: Seq<char>, invalid: Seq<char>) -> Seq<char> {
    match e {
        UpdateErrorView::Access(a) => a.message(),
        UpdateErrorView::UnknownField(name) => "'"@ + name + "' is not a field on module '"@ + module_id + "'"@,
        UpdateErrorView::Blocked(name) => "'"@ + name + "' cannot be edited directly on '"@ + module_id
            + "' — use the sell, receive, refund, or repack action instead"@,
        UpdateErrorView::NoFields => "no fields provided to update"@,
        UpdateErrorView::Invalid(v) => invalid,
        UpdateErrorView::NotFound => "record not found"@,
        UpdateErrorView::BelowCost => "selling price cannot be lower than the cost price — this would sell at a loss"@,
    }
}

/// The sentence for a refused change.
pub fn update_error_text(e: &UpdateError, module_id: &str, invalid: &str) -> (s: String)
    ensures
        s@ == update_message(e@, module_id@, invalid@),
{
    match e {
        UpdateError::Access(a) => a.message(),
        UpdateError::UnknownField { field } => {
            let mut s = "'".to_owned();
            s.append(field.as_str());
            s.append("' is not a field on module '");
            s.append(module_id);
            s.append("'");
            s
        },
        UpdateError::Blocked { blocked } => {
            let mut s = "'".to_owned();
            s.append(blocked.as_str());
            s.append("' cannot be edited directly on '");
            s.append(module_id);
            s.append("' — use the sell, receive, refund, or repack action instead");
            s
        },
        UpdateError::NoFields => "no fields provided to update".to_owned(),
        UpdateError::Invalid(_) => invalid.to_owned(),
        UpdateError::NotFound => "record not found".to_owned(),
        UpdateError::BelowCost => below_cost_text(),
    }
}

/// The statement that deletes a record of a table.
pub open spec fn delete_text(table: Seq<char>) -> Seq<char> {
    "UPDATE "@ + table
        + " SET deleted_at = datetime('now') WHERE id = ?1 AND business_id = ?2 AND deleted_at IS NULL"@
}

/// The statement that deletes a record: it stays, marked as deleted. The
/// parameters are the record and the business.
pub fn delete(module: &ModuleDef) -> (s: String)
    ensures
        s@ == delete_text("module_"@ + module.id@),
        s@ == "UPDATE "@ + ("module_"@ + module.id@)
            + " SET deleted_at = datetime('now') WHERE id = ?1 AND business_id = ?2 AND deleted_at IS NULL"@,
{
    cat3(
        "UPDATE ",
        module.table_name().as_str(),
        " SET deleted_at = datetime('now') WHERE id = ?1 AND business_id = ?2 AND deleted_at IS NULL",
    )
}

/// Whether a condition is met by one record alone: the one whose id and business
/// are those two parameters, and only while it is not deleted.
pub open spec fn asks_for_one_record(condition: Seq<char>, id: nat, business: nat) -> bool {
    forall|truth: spec_fn(Seq<char>) -> bool| #[trigger]
        condition_holds(condition, truth) == (truth("id = ?"@ + decimal(id)) && truth("business_id = ?"@ + decimal(business))
            && truth("deleted_at IS NULL"@))
}

proof fn lemma_parameter_is_single(name: Seq<char>, n: nat)
    requires
        single(name + "x"@),
    ensures
        single(name + decimal(n)),
{
    reveal_strlit("x");
    lemma_decimal(n);
    let s = name + decimal(n);
    let t = name + "x"@;
    assert forall|i: int| 0 <= i < s.len() && #[trigger] s[i] == ' ' implies i + 1 < s.len() && s[i + 1] != 'A' && s[i
        + 1] != 'O' by {
        if i < name.len() {
            assert(t[i] == ' ');
            if i + 1 == name.len() {
                assert(is_digit(decimal(n)[0]));
            } else {
                assert(t[i + 1] == s[i + 1]);
            }
        } else {
            assert(is_digit(decimal(n)[i - name.len()]));
        }
    }
}

proof fn lemma_one_record(id: nat, business: nat)
    ensures
        asks_for_one_record(
            "id = ?"@ + decimal(id) + " AND business_id = ?"@ + decimal(business) + " AND deleted_at IS NULL"@,
            id,
            business,
        ),
{
    reveal_strlit("x");
    reveal_strlit("id = ?");
    reveal_strlit("business_id = ?");
    reveal_strlit("deleted_at IS NULL");
    reveal_strlit(" AND ");
    reveal_strlit(" AND business_id = ?");
    reveal_strlit(" AND deleted_at IS NULL");
    let parts = seq!["id = ?"@ + decimal(id), "business_id = ?"@ + decimal(business), "deleted_at IS NULL"@];
    let whole = "id = ?"@ + decimal(id) + " AND business_id = ?"@ + decimal(business) + " AND deleted_at IS NULL"@;
    assert(parts.drop_last() =~= seq![parts[0], parts[1]]);
    assert(parts.drop_last().drop_last() =~= seq![parts[0]]);
    reveal_with_fuel(joined, 4);
    assert(joined(parts.drop_last(), " AND "@) == parts[0] + " AND "@ + parts[1]);
    assert(joined(parts, " AND "@) =~= whole);
    assert(single("id = ?"@ + "x"@) && single("business_id = ?"@ + "x"@) && single("deleted_at IS NULL"@));
    lemma_parameter_is_single("id = ?"@, id);
    lemma_parameter_is_single("business_id = ?"@, business);
    assert(parts[0][0] == 'i' && parts[1][0] == 'b' && parts[2][0] == 'd');
    assert forall|truth: spec_fn(Seq<char>) -> bool| #[trigger]
        condition_holds(whole, truth) == (truth("id = ?"@ + decimal(id)) && truth("business_id = ?"@ + decimal(business))
            && truth("deleted_at IS NULL"@)) by {
        lemma_and_is_read(parts, truth);
        lemma_and_without_or(parts, truth);
        if truth(parts[0]) && truth(parts[1]) && truth(parts[2]) {
            assert forall|i: int| 0 <= i < parts.len() implies truth(#[trigger] parts[i]) by {}
        } else {
            assert(!truth(parts[0]) || !truth(parts[1]) || !truth(parts[2]));
        }
    }
}

/// A change sets each field to its own value, the first to the first parameter
/// and so on, notes when it was made, and reaches one record alone: that of the
/// id and the business which follow the values, while it is not deleted.
pub proof fn law_a_change_reaches_one_record(table: Seq<char>, names: Seq<Seq<char>>)
    ensures
        exists|sets: Seq<Seq<char>>, condition: Seq<char>|
            {
                &&& update_text(table, names) == "UPDATE "@ + table + " SET "@ + joined(
                    #[trigger] sets.push("updated_at = datetime('now')"@),
                    ", "@,
                ) + " WHERE "@ + condition
                &&& sets.len() == names.len()
                &&& forall|i: int|
                    0 <= i < names.len() ==> #[trigger] sets[i] == names[i] + " = ?"@ + decimal((i + 1) as nat)
                &&& #[trigger] asks_for_one_record(condition, names.len() + 1, names.len() + 2)
            },
{
    let sets = set_clauses(names);
    let id = names.len() + 1;
    let business = names.len() + 2;
    let condition = "id = ?"@ + decimal(id) + " AND business_id = ?"@ + decimal(business) + " AND deleted_at IS NULL"@;
    lemma_one_record(id, business);
    reveal_strlit(" WHERE id = ?");
    reveal_strlit(" WHERE ");
    reveal_strlit("id = ?");
    assert(" WHERE id = ?"@ =~= " WHERE "@ + "id = ?"@);
    assert(update_text(table, names) =~= "UPDATE "@ + table + " SET "@ + joined(
        sets.push("updated_at = datetime('now')"@),
        ", "@,
    ) + " WHERE "@ + condition);
}

/// A deletion marks one record alone as deleted, that of the id and the business
/// which are its parameters, and takes nothing out of the table.
pub proof fn law_a_deletion_marks_one_record(table: Seq<char>)
    ensures
        exists|condition: Seq<char>|
            {
                &&& delete_text(table) == "UPDATE "@ + table + " SET deleted_at = datetime('now')"@ + " WHERE "@
                    + condition
                &&& #[trigger] asks_for_one_record(condition, 1, 2)
            },
{
    let condition = "id = ?"@ + decimal(1) + " AND business_id = ?"@ + decimal(2) + " AND deleted_at IS NULL"@;
    lemma_one_record(1, 2);
    reveal_strlit(" SET deleted_at = datetime('now') WHERE id = ?1 AND business_id = ?2 AND deleted_at IS NULL");
    reveal_strlit(" SET deleted_at = datetime('now')");
    reveal_strlit(" WHERE ");
    reveal_strlit("id = ?");
    reveal_strlit(" AND business_id = ?");
    reveal_strlit(" AND deleted_at IS NULL");
    assert(decimal(1) =~= seq!['1'] && decimal(2) =~= seq!['2']);
    assert(" SET deleted_at = datetime('now') WHERE id = ?1 AND business_id = ?2 AND deleted_at IS NULL"@
        =~= " SET deleted_at = datetime('now')"@ + " WHERE "@ + condition);
    assert(delete_text(table) =~= "UPDATE "@ + table + " SET deleted_at = datetime('now')"@ + " WHERE "@ + condition);
}

/// A record is stored under its id and its business, which are the first two
/// parameters, and with every value in the column of its own field: the first
/// field of the statement gets the third parameter and so on.
pub proof fn law_values_go_to_their_own_columns(table: Seq<char>, names: Seq<Seq<char>>)
    ensures
        exists|columns: Seq<Seq<char>>, values: Seq<Seq<char>>|
            {
                &&& insert_text(table, names) == "INSERT INTO "@ + table + " ("@ + #[trigger] joined(columns, ", "@)
                    + ") VALUES ("@ + #[trigger] joined(values, ", "@) + ")"@
                &&& columns.len() == names.len() + 4 && values.len() == columns.len()
                &&& columns[0] == "id"@ && values[0] == "?"@ + decimal(1)
                &&& columns[1] == "business_id"@ && values[1] == "?"@ + decimal(2)
                &&& forall|i: int|
                    0 <= i < names.len() ==> #[trigger] columns[i + 2] == names[i] && values[i + 2] == "?"@ + decimal(
                        (i + 3) as nat,
                    )
                &&& columns[names.len() as int + 2] == "created_at"@ && columns[names.len() as int + 3] == "updated_at"@
                &&& values[names.len() as int + 2] == "datetime('now')"@ && values[names.len() as int + 3]
                    == "datetime('now')"@
            },
{
    let columns = seq!["id"@, "business_id"@] + names + seq!["created_at"@, "updated_at"@];
    let values = parameters(names.len() + 2) + seq!["datetime('now')"@, "datetime('now')"@];
    assert(insert_text(table, names) == "INSERT INTO "@ + table + " ("@ + joined(columns, ", "@) + ") VALUES ("@
        + joined(values, ", "@) + ")"@);
}

/// A record is stored with all of its values and with nothing else: every field
/// of the module that it has a value for is among the columns, once for each
/// field of that name.
pub proof fn law_every_value_is_stored(fields: Seq<FieldDef>, record: Map<Seq<char>, ValueView>, name: Seq<char>)
    ensures
        present_fields(fields, record).contains(name) <==> record.contains_key(name) && exists|i: int|
            0 <= i < fields.len() && (#[trigger] fields[i]).name@ == name,
    decreases fields.len(),
{
    let all = present_fields(fields, record);
    if fields.len() > 0 {
        let rest = fields.drop_last();
        let before = present_fields(rest, record);
        law_every_value_is_stored(rest, record, name);
        if before.contains(name) {
            let k = choose|k: int| 0 <= k < before.len() && before[k] == name;
            assert(all[k] == name);
            let i = choose|i: int| 0 <= i < rest.len() && (#[trigger] rest[i]).name@ == name;
            assert(fields[i].name@ == name);
        }
        if all.contains(name) && !before.contains(name) {
            let k = choose|k: int| 0 <= k < all.len() && all[k] == name;
            assert(k == before.len() || before[k] == name);
            assert(fields[fields.len() - 1].name@ == name);
        }
        if record.contains_key(name) && exists|i: int| 0 <= i < fields.len() && (#[trigger] fields[i]).name@ == name {
            let i = choose|i: int| 0 <= i < fields.len() && (#[trigger] fields[i]).name@ == name;
            if i < rest.len() {
                assert(rest[i].name@ == name);
            } else {
                assert(all[before.len() as int] == name);
            }
        }
    }
}

/// What is stored of a value is the value: numbers and texts as they are, yes
/// and no as one and zero, and a whole number alike whichever way it came in. No
/// two texts, and no two whole numbers, are stored alike.
pub proof fn law_values_are_stored_as_they_are(n: i64, m: i64, s: Seq<char>, t: Seq<char>, b: bool, bits: u64)
    ensures
        stored_as(ValueView::Int(n)) == SqlView::Int(n),
        n >= 0 ==> stored_as(ValueView::UInt(n as u64)) == stored_as(ValueView::Int(n)),
        stored_as(ValueView::Bool(b)) == stored_as(ValueView::Int(if b {
            1
        } else {
            0
        })),
        stored_as(ValueView::Text(s)) == SqlView::Text(s),
        stored_as(ValueView::Nested(s)) == SqlView::Text(s),
        stored_as(ValueView::Real(bits)) == SqlView::Real(bits),
        bits > i64::MAX ==> stored_as(ValueView::UInt(bits)) == SqlView::Large(bits),
        stored_as(ValueView::Null) == SqlView::Null,
        stored_as(ValueView::Int(n)) == stored_as(ValueView::Int(m)) ==> n == m,
        stored_as(ValueView::Text(s)) == stored_as(ValueView::Text(t)) ==> s == t,
{
}

// ---------------------------------------------------------------------------
// What a change changed
// ---------------------------------------------------------------------------

/// One field that a change gave another value.
#[derive(Debug)]
pub struct FieldChange {
    pub field: String,
    pub old: Value,
    pub new: Value,
}

/// The field, the value before and the value after.
pub open spec fn change_view(c: FieldChange) -> (Seq<char>, ValueView, ValueView) {
    (c.field@, c.old@, c.new@)
}

/// What is stored for a field; a field without a value holds null.
pub open spec fn stored_value(stored: Map<Seq<char>, ValueView>, name: Seq<char>) -> ValueView {
    match get_of(stored, name) {
        Some(v) => v,
        None => ValueView::Null,
    }
}

/// The fields of a change that get another value than they had, each with both
/// values, in the order of the change.
pub open spec fn differences(
    names: Seq<Seq<char>>,
    body: Map<Seq<char>, ValueView>,
    stored: Map<Seq<char>, ValueView>,
) -> Seq<(Seq<char>, ValueView, ValueView)>
    decreases names.len(),
{
    if names.len() == 0 {
        Seq::empty()
    } else {
        let before = differences(names.drop_last(), body, stored);
        let name = names.last();
        if body[name].equals(stored_value(stored, name)) {
            before
        } else {
            before.push((name, stored_value(stored, name), body[name]))
        }
    }
}

/// What the audit log says of a change: the old and the new value of every
/// field that is not what it was.
pub fn changes(body: &Record, stored: &Record) -> (list: Vec<FieldChange>)
    ensures
        list@.map_values(|c: FieldChange| change_view(c)) == differences(body.name_list(), body@, stored@),
{
    let names = body.names();
    let ghost all = body.name_list();
    let mut list: Vec<FieldChange> = Vec::new();
    let mut i: usize = 0;
    assert(list@.map_values(|c: FieldChange| change_view(c)) =~= differences(all.take(0), body@, stored@));
    while i < names.len()
        invariant
            i <= names@.len(),
            all == body.name_list(),
            all == views(names@),
            forall|n: Seq<char>| #[trigger] all.contains(n) <==> body@.dom().contains(n),
            list@.map_values(|c: FieldChange| change_view(c)) == differences(all.take(i as int), body@, stored@),
        decreases names@.len() - i,
    {
        proof {
            assert(all.take(i + 1).drop_last() =~= all.take(i as int));
            assert(all.take(i + 1).last() == names@[i as int]@);
            assert(all.contains(all[i as int]));
            assert(body@.dom().contains(all[i as int]));
        }
        let old = match stored.get(names[i].as_str()) {
            Some(v) => v.copy(),
            None => Value::Null,
        };
        match body.get(names[i].as_str()) {
            Some(new) => {
                if !new.equals(&old) {
                    let c = FieldChange { field: names[i].clone(), old, new: new.copy() };
                    let ghost before = list@;
                    list.push(c);
                    assert(list@.map_values(|c: FieldChange| change_view(c)) =~= before.map_values(
                        |c: FieldChange| change_view(c),
                    ).push(change_view(c)));
                }
            },
            None => {
                assert(false);
            },
        }
        i = i + 1;
    }
    assert(all.take(all.len() as int) =~= all);
    list
}

/// A change that gives every field the value it had is logged as none.
pub proof fn law_unchanged_is_no_change(names: Seq<Seq<char>>, body: Map<Seq<char>, ValueView>)
    requires
        forall|i: int| 0 <= i < names.len() ==> body.dom().contains(#[trigger] names[i]),
    ensures
        differences(names, body, body) == Seq::<(Seq<char>, ValueView, ValueView)>::empty(),
    decreases names.len(),
{
    if names.len() > 0 {
        assert(body.dom().contains(names[names.len() - 1]));
        assert forall|i: int| 0 <= i < names.drop_last().len() implies body.dom().contains(
            #[trigger] names.drop_last()[i],
        ) by {
            assert(names.drop_last()[i] == names[i]);
        }
        law_unchanged_is_no_change(names.drop_last(), body);
    }
}

/// An order is for the item that it names, without outer blanks, and is linked to
/// the item that was found; nothing else of it changes. Records of other modules
/// are for no item and linked to none.
pub proof fn law_orders_are_linked_to_their_item(
    module_id: Seq<char>,
    record: Map<Seq<char>, ValueView>,
    item: Seq<char>,
    id: Seq<char>,
    name: Seq<char>,
)
    requires
        record.contains_pair("item_name"@, ValueView::Text(item)),
        name != "inventory_record_id"@,
    ensures
        ordered_item("purchasing"@, record) == if crate::text::blank(item) {
            None
        } else {
            Some(trimmed(item))
        },
        with_item("purchasing"@, record, Some(id)).contains_pair("inventory_record_id"@, ValueView::Text(id)),
        with_item("purchasing"@, record, Some(id)).contains_key(name) == record.contains_key(name),
        with_item("purchasing"@, record, Some(id))[name] == record[name],
        with_item(module_id, record, None) == record,
        module_id != "purchasing"@ ==> ordered_item(module_id, record) is None && with_item(module_id, record, Some(id))
            == record,
{
}

/// Which fields only an action may change: the receipt and number of an order, how
/// and whether a debt was settled, where it came from and its number, whoever asks;
/// and the stock of an item, but for a count that is imported.
pub proof fn law_which_fields_only_actions_change(module_id: Seq<char>, field: Seq<char>)
    ensures
        ({
            let order = module_id == "purchasing"@ && (field == "received"@ || field == "po_number"@);
            let debt = module_id == "debt_credit"@ && (field == "settled"@ || field == "payment_method"@ || field
                == "source_order_id"@ || field == "entry_number"@);
            let stock = module_id == "inventory"@ && field == "quantity"@;
            &&& blocked_field(module_id, field, false) <==> order || debt || stock
            &&& blocked_field(module_id, field, true) <==> order || debt
        }),
{
    reveal_strlit("purchasing");
    reveal_strlit("debt_credit");
    reveal_strlit("inventory");
    assert("purchasing"@.len() == 10 && "debt_credit"@.len() == 11 && "inventory"@.len() == 9);
}

/// The sentences for a change that is refused name the field and the module, each in
/// its own place.
pub proof fn law_sentences_name_field_and_module(name: Seq<char>, module_id: Seq<char>, invalid: Seq<char>)
    ensures
        update_message(UpdateErrorView::UnknownField(name), module_id, invalid) == "'"@ + name
            + "' is not a field on module '"@ + module_id + "'"@,
        crate::text::begins(
            update_message(UpdateErrorView::Blocked(name), module_id, invalid),
            "'"@ + name + "' cannot be edited directly on '"@ + module_id,
        ),
{
    crate::text::lemma_begins(
        "'"@ + name + "' cannot be edited directly on '"@ + module_id,
        "' — use the sell, receive, refund, or repack action instead"@,
    );
}

} // verus!
