use sme_pro::bookkeeping::ledger_entry;
use sme_pro::module::{
    identifier_error_text, problem_text, sql_type, validate_field_value, validate_identifier, DashboardMetric,
    DefinitionError, FieldDef, FieldProblem, IdentifierError, ModuleDef, RoleActions,
};
use sme_pro::rbac::seed_default_roles;
use sme_pro::value::{Record, Value};

fn field(name: &str, ty: &str) -> FieldDef {
    FieldDef {
        name: name.to_string(),
        field_type: ty.to_string(),
        required: false,
        unique: false,
        default: None,
        min: None,
        min_field: None,
        min_field_message: None,
    }
}

fn required(name: &str, ty: &str) -> FieldDef {
    FieldDef { required: true, ..field(name, ty) }
}

fn inventory() -> ModuleDef {
    ModuleDef {
        id: "inventory".to_string(),
        display_name: "Inventory".to_string(),
        fields: vec![
            FieldDef { unique: true, ..required("sku", "text") },
            required("name", "text"),
            FieldDef { default: Some(Value::Int(0)), min: Some(0), ..field("quantity", "integer") },
            field("unit_cost", "money"),
            FieldDef { min_field: Some("unit_cost".to_string()), ..field("unit_price", "money") },
            field("expires", "date"),
            field("active", "boolean"),
        ],
        actions: vec!["create".to_string(), "read".to_string()],
        default_roles: vec![RoleActions { role: "Manager".to_string(), actions: vec!["read".to_string()] }],
        dashboard_metric: Some(DashboardMetric {
            measure: Some("quantity".to_string()),
            aggregation: "sum".to_string(),
            label: "Items".to_string(),
        }),
        date_field: None,
    }
}

fn record(pairs: &[(&str, Value)]) -> Record {
    let mut r = Record::new();
    for (name, value) in pairs {
        r.insert(name, value.copy());
    }
    r
}

fn text(s: &str) -> Value {
    Value::Text(s.to_string())
}

#[test]
fn identifiers_must_be_plain() {
    assert_eq!(validate_identifier("unit_price2"), Ok(()));
    assert_eq!(validate_identifier("_x"), Ok(()));
    assert_eq!(validate_identifier(""), Err(IdentifierError::Empty));
    assert_eq!(validate_identifier("2x"), Err(IdentifierError::BadStart));
    assert_eq!(validate_identifier("a b"), Err(IdentifierError::BadCharacter));
    assert_eq!(validate_identifier("a;DROP"), Err(IdentifierError::BadCharacter));
    assert_eq!(validate_identifier("business_id"), Err(IdentifierError::Reserved));
    assert_eq!(validate_identifier(&"a".repeat(64)), Ok(()));
    assert_eq!(validate_identifier(&"a".repeat(65)), Err(IdentifierError::TooLong));
    for e in [
        IdentifierError::Empty,
        IdentifierError::TooLong,
        IdentifierError::BadStart,
        IdentifierError::BadCharacter,
        IdentifierError::Reserved,
    ] {
        assert!(!identifier_error_text(e, "field name", "x").is_empty());
    }
}

#[test]
fn definitions_are_checked() {
    assert_eq!(inventory().check(), Ok(()));
    assert_eq!(inventory().definition_error_text(), None);
    let mut m = inventory();
    m.id = "in ventory".to_string();
    assert_eq!(m.check(), Err(DefinitionError::BadId(IdentifierError::BadCharacter)));
    let mut m = inventory();
    m.fields[3].name = "id".to_string();
    assert_eq!(m.check(), Err(DefinitionError::BadFieldName(3, IdentifierError::Reserved)));
    assert_eq!(m.definition_error_text().as_deref(), Some("field name 'id' is reserved by the engine and can't be reused"));
    let mut m = inventory();
    m.fields[4].name = "name".to_string();
    assert_eq!(m.check(), Err(DefinitionError::DuplicateField(4)));
    assert_eq!(m.definition_error_text().as_deref(), Some("duplicate field name 'name' in module 'inventory'"));
    let mut m = inventory();
    m.dashboard_metric = Some(DashboardMetric {
        measure: None,
        aggregation: "sum".to_string(),
        label: "x".to_string(),
    });
    assert_eq!(m.check(), Err(DefinitionError::MetricWithoutMeasure));
    assert_eq!(m.definition_error_text().as_deref(), Some("module 'inventory': dashboard_metric aggregation 'sum' requires a measure field"));
    let mut m = inventory();
    m.dashboard_metric = Some(DashboardMetric {
        measure: Some("nothing".to_string()),
        aggregation: "avg".to_string(),
        label: "x".to_string(),
    });
    assert_eq!(m.check(), Err(DefinitionError::MetricUnknownMeasure));
    assert_eq!(m.definition_error_text().as_deref(), Some("module 'inventory': dashboard_metric measure 'nothing' is not a field on this module"));
    let mut m = inventory();
    m.dashboard_metric = Some(DashboardMetric {
        measure: Some("name".to_string()),
        aggregation: "sum".to_string(),
        label: "x".to_string(),
    });
    assert_eq!(m.check(), Err(DefinitionError::MetricNotNumeric(1)));
    assert_eq!(m.definition_error_text().as_deref(), Some("module 'inventory': dashboard_metric measure 'name' must be numeric (integer/real/money), got 'text'"));
    let mut m = inventory();
    m.dashboard_metric = Some(DashboardMetric {
        measure: None,
        aggregation: "median".to_string(),
        label: "x".to_string(),
    });
    assert_eq!(m.check(), Err(DefinitionError::MetricAggregation));
    assert_eq!(m.definition_error_text().as_deref(), Some("module 'inventory': dashboard_metric aggregation must be sum/avg/count, got 'median'"));
    let mut m = inventory();
    m.dashboard_metric = Some(DashboardMetric {
        measure: None,
        aggregation: "count".to_string(),
        label: "x".to_string(),
    });
    assert_eq!(m.check(), Ok(()));
}

#[test]
fn tables_follow_definitions() {
    let m = inventory();
    assert_eq!(m.table_name(), "module_inventory");
    assert_eq!(m.time_field(), "created_at");
    let list = m.create_table().unwrap();
    assert_eq!(
        list[0],
        "CREATE TABLE IF NOT EXISTS module_inventory (id TEXT PRIMARY KEY, business_id TEXT NOT NULL, \
         sku TEXT NOT NULL, name TEXT NOT NULL, quantity INTEGER, unit_cost INTEGER, unit_price INTEGER, \
         expires TEXT, active INTEGER, created_at TEXT NOT NULL, updated_at TEXT NOT NULL, created_by TEXT, \
         deleted_at TEXT, UNIQUE(business_id, sku));"
    );
    assert_eq!(list.len(), 3);
    assert_eq!(sql_type("real"), Some("REAL"));
    assert_eq!(sql_type("blob"), None);
    let mut m = inventory();
    m.fields[5].field_type = "blob".to_string();
    assert_eq!(m.field_column_defs(), Err(5));
    assert_eq!(m.create_table(), Err(5));
}

#[test]
fn field_values_are_checked() {
    let money = field("price", "money");
    assert_eq!(validate_field_value(&money, &Value::Int(5)), None);
    assert_eq!(validate_field_value(&money, &Value::Real(1.5f64.to_bits())), Some(FieldProblem::WrongType));
    assert_eq!(validate_field_value(&money, &text("5")), Some(FieldProblem::WrongType));
    let floor = FieldDef { min: Some(0), ..field("quantity", "integer") };
    assert_eq!(
        validate_field_value(&floor, &Value::Int(-1)),
        Some(FieldProblem::BelowMin { min: 0, got: -1 })
    );
    assert_eq!(validate_field_value(&required("name", "text"), &text("  ")), Some(FieldProblem::RequiredBlank));
    assert_eq!(validate_field_value(&field("due", "date"), &text("2026-02-30")), Some(FieldProblem::BadDate));
    assert_eq!(validate_field_value(&field("due", "date"), &text("2026-02-28")), None);
    for loose in ["2026-2-28", "2026-02-8", "+2026-02-28", " 2026-02-28", "2026-02-28 ", "26-02-28", "2026/02/28"] {
        assert_eq!(validate_field_value(&field("due", "date"), &text(loose)), Some(FieldProblem::BadDate), "{loose}");
    }
    assert_eq!(validate_field_value(&field("due", "date"), &text("")), None);
    assert_eq!(validate_field_value(&required("due", "date"), &text("")), Some(FieldProblem::BadDate));
    let long = "é".repeat(20_001);
    assert_eq!(validate_field_value(&field("note", "text"), &text(&long)), Some(FieldProblem::TooLong { len: 20_001 }));
    let fits = "é".repeat(20_000);
    assert_eq!(validate_field_value(&field("note", "text"), &text(&fits)), None);
    for p in [
        FieldProblem::Missing,
        FieldProblem::WrongType,
        FieldProblem::BelowMin { min: 0, got: -1 },
        FieldProblem::RequiredBlank,
        FieldProblem::BadDate,
        FieldProblem::TooLong { len: 9 },
    ] {
        assert!(!problem_text(&money, p, "x").is_empty());
    }
}

#[test]
fn records_are_validated_whole_and_in_part() {
    let m = inventory();
    let full = record(&[("sku", text("A")), ("name", text("Soap")), ("unit_cost", Value::Int(10))]);
    assert!(m.validate(&full).is_ok());
    let part = record(&[("name", text("Soap"))]);
    let e = m.validate(&part).unwrap_err();
    assert_eq!(e.field, 0);
    assert_eq!(e.problem, FieldProblem::Missing);
    assert!(m.validate_partial(&part).is_ok());
    assert!(m.validate_partial(&full).is_ok());
}

#[test]
fn floors_between_fields() {
    let m = inventory();
    let stored = record(&[("unit_cost", Value::Int(100)), ("unit_price", Value::Int(150))]);
    let low = record(&[("unit_price", Value::Int(99))]);
    assert!(m.validate_cross_field_floors(&low, &stored).is_err());
    let fair = record(&[("unit_price", Value::Int(100))]);
    assert!(m.validate_cross_field_floors(&fair, &stored).is_ok());
    let other = record(&[("name", text("x"))]);
    assert!(m.validate_cross_field_floors(&other, &stored).is_ok());
}

#[test]
fn defaults_fill_gaps_and_keep_values() {
    let m = inventory();
    let r = m.complete(record(&[("sku", text("A")), ("name", text("Soap"))])).unwrap();
    assert_eq!(r.get_int_or("quantity", -1), 0);
    let r = m.complete(record(&[("sku", text("A")), ("name", text("Soap")), ("quantity", Value::Int(7))])).unwrap();
    assert_eq!(r.get_int_or("quantity", -1), 7);
}

#[test]
fn seeded_roles_carry_their_actions() {
    let list = seed_default_roles(&inventory());
    assert_eq!(list.len(), 1);
    assert_eq!(list[0].name, "Manager");
    assert!(list[0].can_administer);
    assert_eq!(list[0].permissions[0].module_id, "inventory");
    assert_eq!(list[0].permissions[0].action, "read");
}

#[test]
fn ledger_entries_fit_their_module() {
    let accounting = ModuleDef {
        id: "accounting".to_string(),
        display_name: "Accounting".to_string(),
        fields: vec![
            required("description", "text"),
            required("entry_type", "text"),
            field("category", "text"),
            required("amount", "money"),
            field("payment_method", "text"),
        ],
        actions: Vec::new(),
        default_roles: Vec::new(),
        dashboard_metric: None,
        date_field: None,
    };
    let r = ledger_entry(&accounting, "Sale", "income", "sales", 500, &Some("cash".to_string())).unwrap();
    assert_eq!(r.get_int_or("amount", 0), 500);
    assert_eq!(r.get_text("payment_method"), "cash");
    assert!(ledger_entry(&accounting, " ", "income", "sales", 500, &None).is_err());
}
