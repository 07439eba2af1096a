use sme_pro::compound::{is_ole_like, is_ole_sound, END_OF_CHAIN};
use sme_pro::crud::{
    apply_forced, apply_number, below_cost_text, changes, create, delete, insert_validated_record,
    is_single_record_edit_blocked_field, is_update_blocked_field, item_to_find, list, update, update_error_text, value_to_sql,
    CreateError, SqlValue, StoredPrices, UpdateError,
};
use sme_pro::excel_import::{
    cell_to_json, cell_to_string, default_key_field, fault_text, generate_template, import_error_text, is_in_template,
    key_row, next_number, number_row, open_import, plan_correction, plan_new_row, plan_sheet, read_header, require_import,
    row_error_text, row_number, start_row, template, unstar, ImportAction, ImportError, ImportRun, OpenedImport, RowError,
    RowFault, WriteOutcome,
};
use sme_pro::module::{FieldDef, ModuleDef};
use sme_pro::ocr_import::{parse_into_candidates, propose, read_tokens, tokenize, Token};
use sme_pro::rbac::{Access, Permission};
use sme_pro::spreadsheet::{get_counted_date, is_row_writable, read_sheet, Cell, SheetProblem};
use sme_pro::value::{Record, Value};

fn field(name: &str, ty: &str) -> FieldDef {
    FieldDef {
        name: name.to_string(),
        field_type: ty.to_string(),
        required: false,
        unique: false,
        default: None,
        min: None,
        min_field: None,
        min_field_message: None,
    }
}

fn module(id: &str, fields: Vec<FieldDef>) -> ModuleDef {
    ModuleDef {
        id: id.to_string(),
        display_name: id.to_string(),
        fields,
        actions: Vec::new(),
        default_roles: Vec::new(),
        dashboard_metric: None,
        date_field: None,
    }
}

fn inventory() -> ModuleDef {
    module(
        "inventory",
        vec![
            FieldDef { required: true, unique: true, ..field("sku", "text") },
            FieldDef { required: true, ..field("name", "text") },
            FieldDef { default: Some(Value::Int(0)), ..field("quantity", "integer") },
            field("unit_cost", "money"),
            field("unit_price", "money"),
        ],
    )
}

fn contacts() -> ModuleDef {
    module(
        "contacts",
        vec![
            FieldDef { required: true, ..field("name", "text") },
            field("email", "text"),
            field("score", "integer"),
            field("credit", "money"),
            field("ratio", "real"),
        ],
    )
}

fn user(permissions: &[(&str, &str)]) -> Access {
    Access {
        user_id: "u".to_string(),
        role: "Clerk".to_string(),
        is_system: false,
        can_administer: false,
        can_view_reports: false,
        permissions: permissions
            .iter()
            .map(|(m, a)| Permission { module_id: m.to_string(), action: a.to_string() })
            .collect(),
    }
}

fn text(s: &str) -> Value {
    Value::Text(s.to_string())
}

fn cell(s: &str) -> Cell {
    Cell::Text(s.to_string())
}

fn record(pairs: &[(&str, Value)]) -> Record {
    let mut r = Record::new();
    for (name, value) in pairs {
        r.insert(name, value.copy());
    }
    r
}

#[test]
fn new_items_have_no_stock() {
    let a = user(&[("inventory", "create")]);
    let body = record(&[
        ("sku", text("A")),
        ("name", text("Soap")),
        ("quantity", Value::Int(50)),
        ("unit_cost", Value::Int(10)),
        ("unit_price", Value::Int(15)),
    ]);
    let r = create(Some(&a), &inventory(), body, "", None).unwrap();
    assert_eq!(r.get_int_or("quantity", -1), 0);
    assert_eq!(r.get_int_or("unit_price", -1), 15);
    let cheap = record(&[
        ("sku", text("A")),
        ("name", text("Soap")),
        ("unit_cost", Value::Int(10)),
        ("unit_price", Value::Int(9)),
    ]);
    assert!(matches!(create(Some(&a), &inventory(), cheap, "", None), Err(CreateError::BelowCost)));
    assert!(!below_cost_text().is_empty());
    assert!(matches!(create(Some(&a), &inventory(), Record::new(), "", None), Err(CreateError::Invalid(_))));
    assert!(matches!(create(Some(&user(&[])), &inventory(), Record::new(), "", None), Err(CreateError::Access(_))));
}

#[test]
fn records_with_numbers_get_theirs() {
    let mut r = record(&[("entry_number", text("forged")), ("settled", Value::Bool(true))]);
    apply_forced("debt_credit", &mut r);
    apply_number("debt_credit", &mut r, "DC-7");
    assert_eq!(r.get_text("entry_number"), "DC-7");
    assert!(r.get("settled").unwrap().equals(&Value::Bool(false)));
    let mut r = record(&[("name", text("x"))]);
    apply_forced("contacts", &mut r);
    apply_number("contacts", &mut r, "7");
    assert_eq!(r.names().len(), 1);
}

#[test]
fn statements_name_the_fields() {
    let m = contacts();
    let r = record(&[("email", text("a@b")), ("name", text("Ann"))]);
    let s = insert_validated_record(&m, &r);
    assert_eq!(s.fields, vec!["name".to_string(), "email".to_string()]);
    assert!(s.sql.starts_with("INSERT INTO module_contacts (id, business_id, name, email"));
    assert!(delete(&m).contains("module_contacts"));
    let q = list(&m, Some("ann"), 20, 40);
    assert_eq!(q.pattern, Some("%ann%".to_string()));
    assert_eq!(q.pattern_count, 2);
    assert!(q.sql.contains("LIMIT"));
    let q = list(&m, None, 20, 0);
    assert_eq!(q.pattern, None);
    assert_eq!(q.pattern_count, 0);
}

#[test]
fn values_become_columns() {
    assert!(matches!(value_to_sql(&Value::Bool(true)), SqlValue::Int(1)));
    assert!(matches!(value_to_sql(&Value::Int(-4)), SqlValue::Int(-4)));
    assert!(matches!(value_to_sql(&Value::Null), SqlValue::Null));
    assert!(matches!(value_to_sql(&text("x")), SqlValue::Text(s) if s == "x"));
    assert!(matches!(value_to_sql(&Value::Real(7)), SqlValue::Real(7)));
}

#[test]
fn stock_is_never_edited() {
    assert!(is_single_record_edit_blocked_field("inventory", "quantity"));
    assert!(is_single_record_edit_blocked_field("purchasing", "received"));
    assert!(is_single_record_edit_blocked_field("debt_credit", "settled"));
    assert!(!is_single_record_edit_blocked_field("inventory", "name"));
    assert!(is_update_blocked_field("inventory", "quantity", false));
    assert!(!is_update_blocked_field("contacts", "email", false));
    let a = user(&[("inventory", "update"), ("contacts", "update")]);
    let stored = Some(StoredPrices { unit_cost: 10, unit_price: 15 });
    let quantity = record(&[("quantity", Value::Int(5))]);
    assert!(matches!(update(Some(&a), &inventory(), &quantity, stored, false), Err(UpdateError::Blocked { .. })));
    let s = update(Some(&a), &contacts(), &record(&[("email", text("c@d"))]), stored, false).unwrap();
    assert_eq!(s.fields, vec!["email".to_string()]);
    assert!(s.sql.starts_with("UPDATE module_contacts SET"));
    let refused = vec![
        update(Some(&a), &contacts(), &Record::new(), stored, false).err().unwrap(),
        update(Some(&a), &contacts(), &record(&[("shoe", text("x"))]), stored, false).err().unwrap(),
        update(Some(&a), &contacts(), &record(&[("score", text("x"))]), stored, false).err().unwrap(),
        update(Some(&a), &inventory(), &record(&[("unit_price", Value::Int(9))]), None, true).err().unwrap(),
        update(Some(&user(&[])), &contacts(), &record(&[("email", text("x"))]), stored, false).err().unwrap(),
    ];
    assert!(matches!(refused[0], UpdateError::NoFields));
    assert!(matches!(&refused[1], UpdateError::UnknownField { field } if field == "shoe"));
    assert!(matches!(refused[2], UpdateError::Invalid(_)));
    assert!(matches!(refused[3], UpdateError::NotFound));
    assert!(matches!(refused[4], UpdateError::Access(_)));
    assert_eq!(update_error_text(&refused[2], "contacts", "wrong score"), "wrong score");
    for e in refused {
        assert!(!update_error_text(&e, "contacts", "wrong score").is_empty());
    }
}

#[test]
fn an_import_may_correct_prices_but_not_below_cost() {
    let a = user(&[("inventory", "update")]);
    let stored = Some(StoredPrices { unit_cost: 10, unit_price: 15 });
    let low = record(&[("unit_price", Value::Int(9))]);
    assert!(matches!(update(Some(&a), &inventory(), &low, stored, true), Err(UpdateError::BelowCost)));
    let fair = record(&[("unit_price", Value::Int(20))]);
    assert!(update(Some(&a), &inventory(), &fair, stored, true).is_ok());
}

#[test]
fn a_change_is_logged_with_both_values() {
    let stored = record(&[("name", text("Ann")), ("score", Value::Int(3))]);
    let body = record(&[("name", text("Anne")), ("score", Value::Int(3)), ("email", text("a@b"))]);
    let list = changes(&body, &stored);
    assert_eq!(list.len(), 2);
    assert_eq!(list[0].field, "name");
    assert!(list[0].old.equals(&text("Ann")) && list[0].new.equals(&text("Anne")));
    assert_eq!(list[1].field, "email");
    assert!(list[1].old.equals(&Value::Null));
    assert!(changes(&stored, &stored).is_empty());
}

#[test]
fn a_template_reads_back_as_it_was_written() {
    let m = contacts();
    let t = template(&m);
    assert_eq!(t.labels[0], "name *");
    assert_eq!(t.labels.len(), m.fields.len());
    let rows = read_sheet(generate_template(&m).unwrap()).unwrap();
    assert_eq!(read_header(&rows[0]), vec!["name", "email", "score", "credit", "ratio"]);
    assert_eq!(cell_to_string(&rows[0][0]), "name *");
    assert!(!is_in_template("inventory", "deleted_at") || is_in_template("inventory", "name"));
}

#[test]
fn a_template_needs_a_column_for_every_field() {
    let wide = |n: usize| module("wide", (0..n).map(|i| field(&format!("f{i}"), "integer")).collect());
    let m = wide(16_384);
    assert!(m.check().is_ok());
    let t = template(&m);
    assert!(is_row_writable(&t.labels) && is_row_writable(&t.examples));
    assert_eq!(read_sheet(generate_template(&m).unwrap()).unwrap()[1].len(), 16_384);
    assert!(generate_template(&wide(16_385)).is_none());
}

#[test]
fn an_order_is_linked_to_its_item() {
    let a = user(&[("purchasing", "create")]);
    let orders = module(
        "purchasing",
        vec![field("item_name", "text"), field("inventory_record_id", "text"), field("po_number", "text")],
    );
    let body = || record(&[("item_name", text("  Tea "))]);
    assert_eq!(item_to_find(&orders, &body()), Some("Tea".to_string()));
    assert_eq!(item_to_find(&orders, &Record::new()), None);
    assert_eq!(item_to_find(&contacts(), &body()), None);
    let r = create(Some(&a), &orders, body(), "PO-1", Some("item-7")).unwrap();
    assert_eq!(r.get_text("inventory_record_id"), "item-7");
    assert_eq!(r.get_text("po_number"), "PO-1");
    let r = create(Some(&a), &orders, body(), "PO-2", None).unwrap();
    assert_eq!(r.get_text("inventory_record_id"), "");
}

#[test]
fn dates_come_out_of_day_counts() {
    let day = rust_xlsxwriter::Format::new().set_num_format("yyyy-mm-dd");
    let mut book = rust_xlsxwriter::Workbook::new();
    let sheet = book.add_worksheet();
    sheet.write_number_with_format(0, 0, 46_053.0, &day).unwrap();
    sheet.write_number_with_format(0, 1, -2e11, &day).unwrap();
    let rows = read_sheet(book.save_to_buffer().unwrap()).unwrap();
    assert!(cell_to_json(&rows[0][0], "date", "USD").equals(&text("2026-01-31")));
    assert!(cell_to_json(&rows[0][0], "text", "USD").equals(&Value::Null));
    assert!(cell_to_json(&rows[0][1], "date", "USD").equals(&Value::Null));
    assert_eq!(get_counted_date("46053", false), Some("2026-01-31".to_string()));
    assert_eq!(get_counted_date("44591", true), Some("2026-01-31".to_string()));
    assert_eq!(get_counted_date("99999999999", false), None);
    assert_eq!(get_counted_date("-99999999999", false), None);
    assert_eq!(get_counted_date("-100000000000", false), None);
    assert_eq!(get_counted_date("-inf", false), None);
    assert!(cell_to_json(&Cell::Text("2026-1-31".to_string()), "date", "USD").equals(&Value::Null));
    assert!(cell_to_json(&Cell::Text(" 2026-01-31 ".to_string()), "date", "USD").equals(&text("2026-01-31")));
}

#[test]
fn bytes_that_are_no_spreadsheet_are_refused() {
    let e = read_sheet(b"hello".to_vec()).unwrap_err();
    assert_eq!(e.problem, SheetProblem::NotASpreadsheet);
    let a = user(&[("contacts", "create")]);
    let e = open_import(Some(&a), &contacts(), b"hello".to_vec(), "name").err().unwrap();
    assert!(matches!(e, ImportError::Sheet(_)));
    assert!(!import_error_text(&e, "name").is_empty());
    let e = open_import(None, &contacts(), b"hello".to_vec(), "name").err().unwrap();
    assert!(matches!(e, ImportError::Access(_)));
}

/// A compound file with one sector of table, one of directory, and that entry
/// for the second.
fn compound(after_directory: u32) -> Vec<u8> {
    let mut bytes = vec![0u8; 3 * 512];
    bytes[..8].copy_from_slice(&[0xd0, 0xcf, 0x11, 0xe0, 0xa1, 0xb1, 0x1a, 0xe1]);
    bytes[26] = 3;
    bytes[30] = 9;
    bytes[32] = 6;
    bytes[48] = 1;
    for i in 76..512 {
        bytes[i] = 0xff;
    }
    bytes[68..72].copy_from_slice(&0xffff_fffeu32.to_le_bytes());
    bytes[76..80].copy_from_slice(&0u32.to_le_bytes());
    bytes[512..516].copy_from_slice(&0xffff_fffdu32.to_le_bytes());
    bytes[516..520].copy_from_slice(&after_directory.to_le_bytes());
    for (i, c) in "EncryptedPackage".encode_utf16().enumerate() {
        bytes[1024 + 128 + 2 * i..][..2].copy_from_slice(&c.to_le_bytes());
    }
    bytes
}

#[test]
fn compound_files_are_followed_or_refused() {
    let said = |bytes: Vec<u8>| {
        let e = read_sheet(bytes).unwrap_err();
        assert_eq!(e.problem, SheetProblem::NotASpreadsheet);
        e.detail
    };
    let refused = "the file is protected, damaged or in an older format";
    let sound = compound(END_OF_CHAIN);
    assert!(is_ole_like(&sound) && is_ole_sound(&sound));
    assert_eq!(said(sound.clone()), "Workbook is password protected");
    // The directory runs in a circle, and out of the table and the file.
    for next in [1, 0, 2, 128, 0xffff_ffff] {
        assert!(!is_ole_sound(&compound(next)), "{next}");
        assert_eq!(said(compound(next)), refused);
    }
    // No table, and a directory all the same.
    let mut bare = sound[..512].to_vec();
    bare[48] = 0;
    bare[76..80].copy_from_slice(&[0xff; 4]);
    assert_eq!(said(bare), refused);
    // Small streams that cannot be followed.
    let mut small = sound.clone();
    small[64] = 1;
    small[60..64].copy_from_slice(&7u32.to_le_bytes());
    small[1024 + 116..1024 + 120].copy_from_slice(&END_OF_CHAIN.to_le_bytes());
    assert_eq!(said(small.clone()), refused);
    small[60..64].copy_from_slice(&END_OF_CHAIN.to_le_bytes());
    assert_eq!(said(small), "Workbook is password protected");
    assert_eq!(said(sound[..100].to_vec()), refused);
    assert!(!is_ole_like(&b"PK".to_vec()));
    let a = user(&[("contacts", "create")]);
    let e = open_import(Some(&a), &contacts(), compound(1), "name").err().unwrap();
    assert_eq!(
        import_error_text(&e, "name"),
        "could not read this file as an Excel spreadsheet: the file is protected, damaged or in an older format"
    );
}

#[test]
fn templates_come_back_with_the_names_of_their_fields() {
    let m = module(
        "contacts",
        vec![FieldDef { required: true, ..field("a_x0041_b", "text") }, field("_xyz", "integer")],
    );
    let rows = read_sheet(generate_template(&m).unwrap()).unwrap();
    assert_eq!(rows.len(), 2);
    assert_eq!(read_header(&rows[0]), vec!["a_x0041_b".to_string(), "_xyz".to_string()]);
    assert_eq!(cell_to_string(&rows[1][0]), "# example a_x0041_b");
}

#[test]
fn importing_orders_needs_both_rights() {
    assert!(require_import(Some(&user(&[("purchasing", "create")])), "purchasing").is_err());
    assert!(
        require_import(Some(&user(&[("purchasing", "create"), ("inventory", "receive")])), "purchasing").is_ok()
    );
    assert!(require_import(Some(&user(&[("contacts", "create")])), "contacts").is_ok());
}

#[test]
fn cells_become_values() {
    assert!(cell_to_json(&cell("12.50"), "money", "USD").equals(&Value::Int(1250)));
    assert!(cell_to_json(&cell("1,200"), "money", "JPY").equals(&Value::Int(1200)));
    assert!(cell_to_json(&Cell::Int(7), "integer", "USD").equals(&Value::Int(7)));
    assert!(cell_to_json(&cell("7"), "integer", "USD").equals(&Value::Int(7)));
    assert!(cell_to_json(&cell("Ann"), "text", "USD").equals(&text("Ann")));
    assert_eq!(cell_to_string(&Cell::Bool(true)), "true");
    assert_eq!(cell_to_string(&Cell::Empty), "");
    assert_eq!(unstar("name *"), "name");
    assert_eq!(row_number(0), 2);
}

#[test]
fn rows_are_matched_on_unique_fields() {
    let m = inventory();
    assert_eq!(default_key_field(&m.fields), "sku");
    let header = vec![cell("sku *"), cell("name *"), cell("quantity"), cell("unit_cost"), cell("unit_price")];
    let plan = plan_sheet(&m, &vec![header], "sku").unwrap();
    assert!(plan.matches_existing);
    assert!(plan.has_quantity);
    let row = vec![cell("A"), cell("Soap"), Cell::Int(5), cell("1.00"), cell("2.00")];
    let ready = start_row(&m, &plan, &row, "USD").unwrap().unwrap();
    let mut last: i64 = 0;
    let keyed = key_row(&m, &plan, "sku", ready, None, &mut last).unwrap();
    assert_eq!(keyed.key, Some("A".to_string()));
    let new = plan_new_row("inventory", keyed.record).unwrap();
    assert_eq!(new.receive, None);
    assert_eq!(new.record.get_int_or("quantity", -1), 0);
    assert_eq!(new.record.get_int_or("unit_price", 0), 200);
    assert!(matches!(plan_sheet(&m, &vec![], "sku"), Err(ImportError::EmptySheet)));
    assert!(matches!(plan_sheet(&m, &vec![vec![cell("name")]], "sku"), Err(ImportError::NoKeyColumn)));
    let blank = vec![Cell::Empty, Cell::Empty, Cell::Empty, Cell::Empty, Cell::Empty];
    assert!(start_row(&m, &plan, &blank, "USD").unwrap().is_none());
    let bad = vec![cell("A"), cell("Soap"), cell("many"), cell("1.00"), cell("2.00")];
    let e = start_row(&m, &plan, &bad, "USD").err().unwrap();
    assert!(matches!(e, RowError::Invalid(_)));
    assert_eq!(row_error_text(&e, "inventory", "sku", "wrong stock"), "wrong stock");
}

#[test]
fn a_stock_take_corrects_counts() {
    let stored = record(&[
        ("sku", text("A")),
        ("name", text("Soap")),
        ("quantity", Value::Int(5)),
        ("unit_cost", Value::Int(100)),
        ("unit_price", Value::Int(200)),
    ]);
    let mut counted = stored.copy();
    counted.insert_int("quantity", 9);
    let c = plan_correction("inventory", true, &counted, &stored).unwrap();
    assert_eq!(c.get_int_or("quantity", 0), 9);
    let e = plan_correction("inventory", false, &counted, &stored).err().unwrap();
    assert!(matches!(e, RowError::NoQuantityColumn));
    assert!(!row_error_text(&e, "inventory", "sku", "").is_empty());
}

#[test]
fn corrections_leave_action_fields_alone() {
    let stored = record(&[
        ("party_name", text("Ann")),
        ("amount", Value::Int(5)),
        ("settled", Value::Bool(false)),
    ]);
    let mut renamed = stored.copy();
    renamed.insert_text("party_name", "Anne");
    let c = plan_correction("debt_credit", false, &renamed, &stored).unwrap();
    assert!(!c.has("settled"));
    assert_eq!(c.get_text("party_name"), "Anne");
    let mut forged = stored.copy();
    forged.insert("settled", Value::Bool(true));
    let e = plan_correction("debt_credit", false, &forged, &stored).err().unwrap();
    assert!(matches!(&e, RowError::Blocked { field } if field == "settled"));
    assert!(!row_error_text(&e, "debt_credit", "entry_number", "").is_empty());
}

#[test]
fn received_orders_keep_what_was_received() {
    let stored = record(&[("quantity", Value::Int(5)), ("unit_cost", Value::Int(7)), ("received", Value::Bool(true))]);
    let mut more = stored.copy();
    more.insert_int("quantity", 6);
    let e = plan_correction("purchasing", false, &more, &stored).err().unwrap();
    assert!(matches!(&e, RowError::Received { changed } if changed == "quantity"));
    assert!(!row_error_text(&e, "purchasing", "po_number", "").is_empty());
    assert!(plan_correction("purchasing", false, &stored, &stored).is_ok());
}

#[test]
fn generated_numbers_count_on() {
    let mut last: i64 = 4;
    let mut a = Record::new();
    let mut b = Record::new();
    assert_eq!(next_number("debt_credit", last), format!("DC-{}", last + 1));
    assert_eq!(next_number("purchasing", 9), "PO-10");
    assert_eq!(next_number("sales", 9), "");
    number_row("debt_credit", &mut a, &mut last);
    number_row("debt_credit", &mut b, &mut last);
    assert_ne!(a.get_text("entry_number"), b.get_text("entry_number"));
}

#[test]
fn an_import_runs_row_by_row() {
    let m = inventory();
    let rows = vec![
        vec![cell("sku *"), cell("name *"), cell("quantity"), cell("unit_cost"), cell("unit_price")],
        vec![cell("A"), cell("Soap"), Cell::Int(5), cell("1.00"), cell("2.00")],
        vec![Cell::Empty, Cell::Empty, Cell::Empty, Cell::Empty, Cell::Empty],
        vec![cell("B"), cell("Salt"), cell("many"), cell("1.00"), cell("2.00")],
        vec![cell("C"), cell("Rice"), Cell::Int(7), cell("1.00"), cell("2.00")],
        vec![cell("D"), cell("Tea"), Cell::Int(7), cell("3.00"), cell("2.00")],
        vec![cell("E"), cell("Oil"), Cell::Int(7), cell("1.00"), cell("2.00")],
    ];
    let plan = plan_sheet(&m, &rows, "sku").unwrap();
    let mut run = ImportRun::start(OpenedImport { rows, plan }, "sku", 0).unwrap();
    assert!(matches!(run.next_row(&m, "USD"), ImportAction::FindExisting { key } if key == "A"));
    match run.existing_found("inventory", None) {
        ImportAction::Insert { row } => assert_eq!(row.record.get_int_or("quantity", -1), 0),
        other => panic!("{other:?}"),
    }
    run.written(WriteOutcome::Written);
    assert!(matches!(run.next_row(&m, "USD"), ImportAction::Skip));
    assert!(matches!(run.next_row(&m, "USD"), ImportAction::Skip));
    assert!(matches!(run.next_row(&m, "USD"), ImportAction::FindExisting { key } if key == "C"));
    let stored = record(&[("sku", text("C")), ("name", text("Rice")), ("quantity", Value::Int(1))]);
    match run.existing_found("inventory", Some(&stored)) {
        ImportAction::Update { body } => assert_eq!(body.get_int_or("quantity", -1), 7),
        other => panic!("{other:?}"),
    }
    run.written(WriteOutcome::Written);
    assert!(matches!(run.next_row(&m, "USD"), ImportAction::FindExisting { .. }));
    assert!(matches!(run.existing_found("inventory", None), ImportAction::Skip));
    assert!(matches!(run.next_row(&m, "USD"), ImportAction::FindExisting { .. }));
    assert!(matches!(run.existing_found("inventory", None), ImportAction::Insert { .. }));
    run.written(WriteOutcome::NotWritten { text: "disk full".to_string() });
    assert!(matches!(run.next_row(&m, "USD"), ImportAction::Done));
    let result = run.finish();
    assert_eq!((result.created, result.updated), (1, 1));
    assert_eq!(result.errors.iter().map(|e| e.row).collect::<Vec<usize>>(), vec![4, 6, 7]);
    assert!(matches!(&result.errors[0].fault, RowFault::Refused { error: RowError::Invalid(_), .. }));
    assert_eq!(fault_text(&result.errors[0].fault, "inventory", "sku", "no number"), "no number");
    assert_eq!(
        fault_text(&result.errors[1].fault, "inventory", "sku", ""),
        "selling price cannot be lower than the cost price — this would sell at a loss"
    );
    assert_eq!(fault_text(&result.errors[2].fault, "inventory", "sku", ""), "disk full");
}

#[test]
fn an_imported_order_is_linked_numbered_and_received() {
    let m = module(
        "purchasing",
        vec![
            FieldDef { unique: true, ..field("po_number", "text") },
            field("supplier", "text"),
            FieldDef { required: true, ..field("item_name", "text") },
            field("inventory_record_id", "text"),
            field("quantity", "integer"),
            field("unit_cost", "money"),
            field("received", "boolean"),
        ],
    );
    let rows = vec![
        vec![cell("supplier"), cell("item_name"), cell("quantity"), cell("unit_cost")],
        vec![cell("Ann"), cell(" Soap "), Cell::Int(5), cell("1.00")],
        vec![cell("Ann"), cell("Nothing"), Cell::Int(5), cell("1.00")],
        vec![cell("Ann"), cell("  "), Cell::Int(5), cell("1.00")],
    ];
    let plan = plan_sheet(&m, &rows, "po_number").unwrap();
    let mut run = ImportRun::start(OpenedImport { rows, plan }, "po_number", 9).unwrap();
    assert!(matches!(run.next_row(&m, "USD"), ImportAction::FindItem { name } if name == "Soap"));
    assert!(matches!(run.item_found(&m, Some("i1")), ImportAction::FindExisting { key } if key == "PO-10"));
    match run.existing_found("purchasing", None) {
        ImportAction::Insert { row } => {
            assert_eq!(row.receive, Some(5));
            assert_eq!(row.record.get_text("inventory_record_id"), "i1");
        },
        other => panic!("{other:?}"),
    }
    run.written(WriteOutcome::NotReceived { reason: "no stock record".to_string() });
    assert!(matches!(run.next_row(&m, "USD"), ImportAction::FindItem { .. }));
    assert!(matches!(run.item_found(&m, None), ImportAction::Skip));
    assert!(matches!(run.next_row(&m, "USD"), ImportAction::Skip));
    assert!(matches!(run.next_row(&m, "USD"), ImportAction::Done));
    let result = run.finish();
    assert_eq!((result.created, result.updated, result.errors.len()), (1, 0, 3));
    assert_eq!(
        fault_text(&result.errors[0].fault, "purchasing", "po_number", ""),
        "created purchase order but could not automatically receive it: no stock record"
    );
    assert!(ImportRun::start(OpenedImport { rows: vec![], plan: plan_sheet(&m, &vec![vec![]], "x").unwrap() }, "x", 0).is_none());
}

#[test]
fn lines_are_cut_into_columns_or_words() {
    assert_eq!(tokenize("Blue soap   3  12.50"), vec!["Blue soap", "3", "12.50"]);
    assert_eq!(tokenize("Soap 3"), vec!["Soap", "3"]);
    assert_eq!(tokenize("   "), Vec::<String>::new());
}

#[test]
fn scanned_lines_become_proposals() {
    let m = module(
        "stock",
        vec![
            FieldDef { required: true, ..field("name", "text") },
            field("quantity", "integer"),
            field("price", "money"),
            FieldDef { required: true, ..field("place", "text") },
        ],
    );
    let list = parse_into_candidates(&m, "Blue soap   3   12\n\n---\n");
    assert!(!list.is_empty());
    let c = &list[0];
    assert_eq!(c.raw_line, "Blue soap   3   12");
    assert_eq!(c.fields.get_text("name"), "Blue soap");
    assert_eq!(c.missing_required_fields, vec!["place".to_string()]);
    assert!(c.fields.get_int_or("quantity", 0) == 3);
    let tokens = read_tokens(&vec!["1,200".to_string(), "x".to_string()]);
    assert_eq!(tokens[0].number, Some(1200.0f64.to_bits()));
    assert_eq!(tokens[1].number, None);
    assert!(propose(&m, "", &Vec::<Token>::new()).is_none());
}
