use sme_pro::customers::CustomerKey;
use sme_pro::debt_settlement::{
    backfill_statement, generate_entry_number, settle, settle_error_text, settled_statement, summary, week_ahead_of, DebtRow, OpenDebt, SettleDebtRequest,
    SettleError,
};
use sme_pro::invoice::{
    check_invoice_request, create_invoice, create_invoice_for_order, free_count, generate_number, get_refund_status,
    invoice_subtotal, invoice_totals_fit, is_valid_transition, mark_cancelled, mark_paid, mark_sent,
    transition_error_text, CreateInvoiceRequest, FrozenTax, InvoiceError, InvoiceItem, TransitionError,
};
use sme_pro::license::{
    activate, check_status, record_payment, require_export_allowed, status_for, status_text, LicenseError, LicenseRow,
    LicenseStatus,
};
use sme_pro::module::{FieldDef, ModuleDef};
use sme_pro::pos::{
    checkout, checkout_gate, clamp, create_service_sale, find_product, finish_checkout, line_problem_text,
    lookup_products, low_stock_items, get_order, original_line_totals, service_error_text, CartItem,
    CheckoutError, CheckoutInput, CheckoutRequest, Finish, Gate, GateError, LineError, LineProblem, Product,
    ServiceError, ServiceInput, ServiceLine, ServiceProblem, ServiceSaleRequest,
};
use sme_pro::rbac::{Access, Permission};

fn field(name: &str, ty: &str, required: bool) -> FieldDef {
    FieldDef {
        name: name.to_string(),
        field_type: ty.to_string(),
        required,
        unique: false,
        default: None,
        min: None,
        min_field: None,
        min_field_message: None,
    }
}

fn module(id: &str, fields: Vec<FieldDef>) -> ModuleDef {
    ModuleDef {
        id: id.to_string(),
        display_name: id.to_string(),
        fields,
        actions: Vec::new(),
        default_roles: Vec::new(),
        dashboard_metric: None,
        date_field: None,
    }
}

fn sales() -> ModuleDef {
    module(
        "sales",
        vec![
            field("item_name", "text", true),
            field("quantity", "integer", true),
            field("revenue", "money", true),
            field("sale_date", "date", false),
        ],
    )
}

fn accounting() -> ModuleDef {
    module(
        "accounting",
        vec![
            field("description", "text", true),
            field("entry_type", "text", true),
            field("category", "text", false),
            field("amount", "money", true),
            field("payment_method", "text", false),
        ],
    )
}

fn debts() -> ModuleDef {
    module(
        "debt_credit",
        vec![field("party_name", "text", true), field("direction", "text", true), field("amount", "money", true)],
    )
}

fn owner() -> Access {
    Access {
        user_id: "o".to_string(),
        role: "Owner".to_string(),
        is_system: true,
        can_administer: true,
        can_view_reports: false,
        permissions: vec![
            Permission { module_id: "sales".to_string(), action: "create".to_string() },
            Permission { module_id: "inventory".to_string(), action: "sell".to_string() },
            Permission { module_id: "debt_credit".to_string(), action: "settle".to_string() },
            Permission { module_id: "invoice".to_string(), action: "create".to_string() },
            Permission { module_id: "invoice".to_string(), action: "update".to_string() },
            Permission { module_id: "invoice".to_string(), action: "pay".to_string() },
            Permission { module_id: "invoice".to_string(), action: "cancel".to_string() },
            Permission { module_id: "invoice".to_string(), action: "delete".to_string() },
        ],
    }
}

fn nobody() -> Access {
    Access {
        user_id: "n".to_string(),
        role: "Viewer".to_string(),
        is_system: false,
        can_administer: false,
        can_view_reports: false,
        permissions: Vec::new(),
    }
}

fn product(id: &str, quantity: i64, price: i64, cost: i64) -> Product {
    Product {
        id: id.to_string(),
        name: format!("Product {id}"),
        sku: format!("SKU-{id}"),
        quantity,
        unit_price: price,
        unit_cost: cost,
    }
}

fn cart(items: &[(&str, i64)]) -> CheckoutRequest {
    CheckoutRequest {
        items: items
            .iter()
            .map(|(id, n)| CartItem { inventory_record_id: id.to_string(), quantity: *n })
            .collect(),
        payment_method: Some("cash".to_string()),
        customer: None,
        allow_oversell: false,
        on_credit: false,
        due_date: None,
        customer_phone: None,
        discount_in_range: true,
        discount_text: "0".to_string(),
        idempotency_key: None,
    }
}

fn run_checkout(
    req: &CheckoutRequest,
    products: &Vec<Product>,
    discounts: &Vec<i64>,
) -> Result<sme_pro::pos::CheckoutPlan, CheckoutError> {
    let sales = sales();
    let debts = debts();
    let accounting = accounting();
    checkout(&CheckoutInput {
        req,
        products,
        discounts,
        sales: &sales,
        debt_credit: Some(&debts),
        accounting: Some(&accounting),
        order_id: "order-1",
        today: "2026-05-01",
        entry_number: "DC-1",
    })
}

#[test]
fn a_checkout_is_admitted_or_refused() {
    let o = owner();
    let mut req = cart(&[("a", 1)]);
    assert_eq!(checkout_gate(Some(&o), &req, false, true, true, true).unwrap(), Gate::Proceed);
    req.idempotency_key = Some("k".to_string());
    assert_eq!(checkout_gate(Some(&o), &req, true, true, true, true).unwrap(), Gate::Replay);
    assert_eq!(checkout_gate(Some(&o), &req, false, true, true, true).unwrap(), Gate::Proceed);
    assert!(matches!(
        checkout_gate(Some(&o), &cart(&[]), false, true, true, true),
        Err(GateError::EmptyCart)
    ));
    assert!(matches!(checkout_gate(Some(&nobody()), &req, false, true, true, true), Err(GateError::Access(_))));
    assert!(matches!(checkout_gate(Some(&o), &req, false, false, true, true), Err(GateError::InventoryDisabled)));
    assert!(matches!(checkout_gate(Some(&o), &req, false, true, false, true), Err(GateError::SalesDisabled)));
    req.on_credit = true;
    assert!(matches!(checkout_gate(Some(&o), &req, false, true, true, false), Err(GateError::DebtCreditDisabled)));
    assert!(matches!(checkout_gate(Some(&o), &req, false, true, true, true), Err(GateError::NoCreditCustomer)));
    req.on_credit = false;
    req.discount_in_range = false;
    let e = checkout_gate(Some(&o), &req, false, true, true, true).unwrap_err();
    assert!(matches!(e, GateError::BadDiscount));
    assert!(!e.message().is_empty());
}

#[test]
fn a_paid_checkout_makes_income_and_no_debt() {
    let req = cart(&[("a", 2), ("b", 1)]);
    let products = vec![product("a", 10, 500, 300), product("b", 1, 250, 250)];
    assert_eq!(original_line_totals(&req.items, &products), vec![1000, 250]);
    let plan = run_checkout(&req, &products, &vec![100, 0]).unwrap();
    assert_eq!(plan.subtotal, 1150);
    assert_eq!(plan.total_discount, 100);
    assert_eq!(plan.subtotal + plan.total_discount, 1250);
    assert!(plan.debt.is_none());
    assert_eq!(plan.income.unwrap().get_int_or("amount", 0), 1150);
    assert_eq!(plan.lines[0].line_total, 900);
    assert_eq!(plan.lines[0].cost_total, 600);
    assert_eq!(plan.lines[0].remaining_stock, 8);
    assert_eq!(plan.lines[1].remaining_stock, 0);
    assert_eq!(plan.lines[0].sale.get_int_or("revenue", 0), 900);
    assert_eq!(invoice_subtotal(&plan.invoice_items), 1150);
}

#[test]
fn a_credit_checkout_makes_debt_and_no_income() {
    let mut req = cart(&[("a", 2)]);
    req.on_credit = true;
    req.customer = Some("Ann".to_string());
    req.customer_phone = Some("0700 1".to_string());
    let plan = run_checkout(&req, &vec![product("a", 10, 500, 300)], &vec![0]).unwrap();
    assert!(plan.income.is_none());
    assert_eq!(plan.debt.unwrap().get_int_or("amount", 0), 1000);
    assert!(matches!(plan.customer, Some(CustomerKey::Phone { .. })));
}

#[test]
fn the_same_product_twice_takes_stock_twice() {
    let req = cart(&[("a", 2), ("a", 3)]);
    let plan = run_checkout(&req, &vec![product("a", 5, 500, 300)], &vec![0, 0]).unwrap();
    assert_eq!(plan.lines[0].remaining_stock, 3);
    assert_eq!(plan.lines[1].remaining_stock, 0);
    let req = cart(&[("a", 2), ("a", 4)]);
    assert_eq!(
        run_checkout(&req, &vec![product("a", 5, 500, 300)], &vec![0, 0]).unwrap_err(),
        CheckoutError::Line(LineError { line: 1, problem: LineProblem::Stock { available: 3, requested: 4 } })
    );
}

#[test]
fn overselling_needs_to_be_asked_for() {
    let mut req = cart(&[("a", 6)]);
    req.allow_oversell = true;
    let plan = run_checkout(&req, &vec![product("a", 5, 500, 300)], &vec![0]).unwrap();
    assert_eq!(plan.lines[0].remaining_stock, -1);
}

#[test]
fn lines_are_refused_for_their_problems() {
    let problem = |req: &CheckoutRequest, p: Product, discount: i64| {
        match run_checkout(req, &vec![p], &vec![discount]).unwrap_err() {
            CheckoutError::Line(e) => e.problem,
            other => panic!("{other:?}"),
        }
    };
    assert_eq!(problem(&cart(&[("a", 0)]), product("a", 5, 5, 3), 0), LineProblem::Quantity);
    assert_eq!(problem(&cart(&[("z", 1)]), product("a", 5, 5, 3), 0), LineProblem::NotFound);
    assert_eq!(
        problem(&cart(&[("a", 1)]), product("a", 5, 2, 3), 0),
        LineProblem::BelowCost { unit_price: 2, unit_cost: 3 }
    );
    assert_eq!(
        problem(&cart(&[("a", 2)]), product("a", 5, 500, 400), 300),
        LineProblem::DiscountBelowCost { line_total: 700, cost_total: 800, quantity: 2 }
    );
    let mut many = cart(&[("a", i64::MAX)]);
    many.allow_oversell = true;
    assert_eq!(problem(&many, product("a", 5, 500, 400), 0), LineProblem::OutOfRange);
    for p in [
        LineProblem::Quantity,
        LineProblem::NotFound,
        LineProblem::BelowCost { unit_price: 2, unit_cost: 3 },
        LineProblem::Stock { available: 3, requested: 4 },
        LineProblem::OutOfRange,
        LineProblem::DiscountBelowCost { line_total: 700, cost_total: 800, quantity: 2 },
    ] {
        assert!(!line_problem_text(p, "a", "Soap", "USD", "30", "").is_empty());
    }
}

#[test]
fn a_customer_must_be_identifiable() {
    let mut req = cart(&[("a", 1)]);
    req.customer_phone = Some("abc".to_string());
    let products = vec![product("a", 5, 5, 3)];
    assert_eq!(run_checkout(&req, &products, &vec![0]).unwrap_err(), CheckoutError::Customer);
    assert_eq!(find_product(&products, "a"), 0);
    assert_eq!(find_product(&products, "q"), 1);
}

#[test]
fn one_key_is_one_order() {
    assert_eq!(finish_checkout(false, false, false), Finish::Commit);
    assert_eq!(finish_checkout(true, false, false), Finish::Commit);
    assert_eq!(finish_checkout(true, true, true), Finish::ReplayOther);
    assert_eq!(finish_checkout(true, true, false), Finish::Conflict);
}

#[test]
fn services_are_sold_without_stock() {
    let o = owner();
    let sales = sales();
    let accounting = accounting();
    let line = |d: &str, p: i64, q: i64| ServiceLine { description: d.to_string(), unit_price: p, quantity: q };
    let ask = |lines: Vec<ServiceLine>, phone: Option<&str>| {
        let req = ServiceSaleRequest {
            lines,
            payment_method: Some("cash".to_string()),
            customer: None,
            customer_phone: phone.map(str::to_string),
        };
        create_service_sale(&ServiceInput {
            access: Some(&o),
            req: &req,
            sales: Some(&sales),
            accounting: Some(&accounting),
            order_id: "s-1",
            today: "2026-05-01",
        })
    };
    let plan = ask(vec![line("Haircut", 700, 2), line("Wash", 100, 1)], None).unwrap();
    assert_eq!(plan.subtotal, 1500);
    assert_eq!(plan.lines[0].line_total, 1400);
    assert_eq!(invoice_subtotal(&plan.invoice_items), 1500);
    assert_eq!(plan.income.unwrap().get_int_or("amount", 0), 1500);
    let problem = |l: ServiceLine| match ask(vec![l], None).unwrap_err() {
        ServiceError::Line(e) => e.problem,
        other => panic!("{}", service_error_text(&other, "")),
    };
    assert_eq!(problem(line("x", 1, 0)), ServiceProblem::Quantity);
    assert_eq!(problem(line("x", -1, 1)), ServiceProblem::NegativePrice);
    assert_eq!(problem(line("  ", 1, 1)), ServiceProblem::NoDescription);
    assert_eq!(problem(line("x", i64::MAX, 2)), ServiceProblem::OutOfRange);
    assert!(matches!(ask(vec![], None), Err(ServiceError::NoLines)));
    assert!(matches!(ask(vec![line("x", 1, 1)], Some("abc")), Err(ServiceError::Customer)));
}

#[test]
fn product_lists_are_bounded() {
    assert_eq!(clamp(500, 1, 100), 100);
    assert_eq!(clamp(-5, 1, 100), 1);
    assert_eq!(clamp(50, 1, 100), 50);
    let q = low_stock_items("module_inventory", i64::MAX);
    assert_eq!(q.limit, 100);
    assert_eq!(
        q.statement,
        "SELECT name, quantity, reorder_level FROM module_inventory WHERE business_id = ?1 AND deleted_at IS NULL AND quantity <= reorder_level ORDER BY quantity ASC LIMIT ?2"
    );
    assert_eq!(low_stock_items("t", i64::MIN).limit, 1);
    let q = lookup_products("module_inventory", &Some("soap".to_string()), 10);
    assert_eq!(q.pattern, Some("%soap%".to_string()));
    assert_eq!(q.limit, 10);
    assert!(q.statement.contains("module_inventory"));
    assert_eq!(get_order(&vec![1, 2, 3]), Some(6));
    assert_eq!(get_order(&vec![]), None);
}

fn debt(settled: bool) -> DebtRow {
    DebtRow {
        party_name: "Ann".to_string(),
        direction: "owed_to_business".to_string(),
        amount: 700,
        settled,
        source_order_id: Some("order-1".to_string()),
    }
}

fn pay(method: &str) -> SettleDebtRequest {
    SettleDebtRequest { debt_record_id: "d".to_string(), payment_method: method.to_string() }
}

#[test]
fn a_debt_is_settled_once_and_says_how() {
    let o = owner();
    let a = accounting();
    let plan = settle(Some(&o), &pay(" mpesa "), true, Some(&debt(false)), Some(&a)).unwrap();
    assert_eq!(plan.payment_method, "mpesa");
    assert_eq!(plan.backfill_order, Some("order-1".to_string()));
    assert!(plan.is_income && plan.posts_money);
    let entry = plan.entry.unwrap();
    assert_eq!(entry.get_int_or("amount", 0), 700);
    assert_eq!(entry.get_text("entry_type"), "income");
    let refused = [
        settle(Some(&o), &pay("cash"), true, Some(&debt(true)), Some(&a)),
        settle(Some(&o), &pay("  "), true, Some(&debt(false)), Some(&a)),
        settle(Some(&o), &pay("cash"), false, Some(&debt(false)), Some(&a)),
        settle(Some(&o), &pay("cash"), true, None, Some(&a)),
        settle(Some(&nobody()), &pay("cash"), true, Some(&debt(false)), Some(&a)),
    ];
    assert!(matches!(refused[0], Err(SettleError::AlreadySettled)));
    assert!(matches!(refused[1], Err(SettleError::NoPaymentMethod)));
    assert!(matches!(refused[2], Err(SettleError::ModuleDisabled)));
    assert!(matches!(refused[3], Err(SettleError::NotFound)));
    assert!(matches!(refused[4], Err(SettleError::Access(_))));
    for r in refused {
        assert!(!settle_error_text(&r.err().unwrap(), "d", "").is_empty());
    }
}

#[test]
fn a_debt_of_the_business_is_an_expense() {
    let row = DebtRow { direction: "owed_by_business".to_string(), ..debt(false) };
    let a = accounting();
    let plan = settle(Some(&owner()), &pay("cash"), true, Some(&row), Some(&a)).unwrap();
    assert!(!plan.is_income);
    assert_eq!(plan.entry.unwrap().get_text("entry_type"), "expense");
}

#[test]
fn debts_are_summed_by_direction_and_due_date() {
    let d = |direction: &str, amount: i64, due: Option<&str>| OpenDebt {
        direction: direction.to_string(),
        amount,
        due_date: due.map(str::to_string),
    };
    let list = vec![
        d("owed_to_business", 100, Some("2026-04-30")),
        d("owed_to_business", 200, Some("2026-05-05")),
        d("owed_by_business", 50, None),
    ];
    let ahead = week_ahead_of("2026-05-01");
    assert_eq!(ahead, Some("2026-05-08".to_string()));
    let s = summary(&list, "2026-05-01", ahead.as_deref());
    assert_eq!((s.owed_to_business_unpaid, s.owed_to_business_unpaid_count), (300, 2));
    assert_eq!((s.owed_by_business_unpaid, s.owed_by_business_unpaid_count), (50, 1));
    assert_eq!((s.overdue_amount, s.overdue_count), (100, 1));
    assert_eq!((s.due_soon_amount, s.due_soon_count), (200, 1));
    assert_ne!(generate_entry_number(1), generate_entry_number(2));
}

fn invoice_request(customer: &str) -> CreateInvoiceRequest {
    CreateInvoiceRequest {
        customer: customer.to_string(),
        customer_email: None,
        customer_phone: None,
        due_date: "2026-06-01".to_string(),
        items: vec![InvoiceItem { description: "Soap".to_string(), quantity: 3, unit_price: 200 }],
        notes: None,
        source_sale_id: None,
    }
}

#[test]
fn invoices_are_numbered_and_totalled() {
    assert_eq!(generate_number(0), "INV-0001");
    assert_eq!(generate_number(11_999), "INV-12000");
    let taken = vec!["INV-0003".to_string(), "INV-0004".to_string()];
    assert_eq!(free_count(1, &taken), Some(1));
    assert_eq!(free_count(2, &taken), Some(4));
    let o = owner();
    let r = create_invoice(
        Some(&o),
        &invoice_request("Ann"),
        false,
        4,
        &taken,
        FrozenTax { rate_bits: 16.0f64.to_bits(), amount: 96 },
        "[]",
        "2026-05-01",
    )
    .unwrap();
    assert_eq!(r.get_text("invoice_number"), "INV-0005");
    assert_eq!(r.get_int_or("subtotal", 0), 600);
    assert_eq!(r.get_int_or("total", 0), 696);
    assert_eq!(r.get_text("status"), "draft");
    assert!(matches!(check_invoice_request(Some(&o), &invoice_request(" "), false), Err(InvoiceError::NoCustomer)));
    let mut empty = invoice_request("Ann");
    empty.items.clear();
    let e = check_invoice_request(Some(&o), &empty, false).unwrap_err();
    assert!(matches!(e, InvoiceError::NoItems));
    assert_eq!(e.status(), 400);
    assert!(!e.message().is_empty());
    let mut of_sale = invoice_request("Ann");
    of_sale.source_sale_id = Some("gone".to_string());
    let e = check_invoice_request(Some(&o), &of_sale, false).unwrap_err();
    assert!(matches!(e, InvoiceError::NoSale));
    assert_eq!((e.status(), e.message().as_str()), (404, "sale not found"));
    assert!(check_invoice_request(Some(&o), &of_sale, true).is_ok());
    assert!(matches!(
        check_invoice_request(Some(&nobody()), &invoice_request("Ann"), false),
        Err(InvoiceError::Access(_))
    ));
    let huge = vec![InvoiceItem { description: "x".to_string(), quantity: 2, unit_price: i64::MAX }];
    assert!(!invoice_totals_fit(&huge));
    assert!(invoice_totals_fit(&invoice_request("Ann").items));
}

#[test]
fn a_settlement_fills_only_what_is_empty() {
    assert!(settled_statement("module_debt_credit").starts_with("UPDATE module_debt_credit SET settled = 1,"));
    let sql = backfill_statement("module_sales");
    assert!(sql.starts_with("UPDATE module_sales SET payment_method = ?3"));
    assert!(sql.ends_with("AND payment_method IS NULL"));
}

#[test]
fn an_order_gets_its_invoice() {
    let taken = vec!["INV-0001".to_string()];
    let tax = FrozenTax { rate_bits: 0, amount: 10 };
    let paid = create_invoice_for_order(0, &taken, "order-1", &None, &None, "[]", 500, tax, false, &None, "2026-05-01");
    assert_eq!(paid.get_text("status"), "paid");
    assert_eq!(paid.get_int_or("total", 0), 510);
    assert_eq!(paid.get_text("invoice_number"), "INV-0002");
    let owed = create_invoice_for_order(
        0,
        &Vec::new(),
        "order-1",
        &Some("Ann".to_string()),
        &None,
        "[]",
        500,
        tax,
        true,
        &Some("2026-06-01".to_string()),
        "2026-05-01",
    );
    assert_eq!(owed.get_text("status"), "sent");
    assert_eq!(owed.get_text("due_date"), "2026-06-01");
}

#[test]
fn invoices_only_move_forward() {
    let all = ["draft", "sent", "paid", "cancelled"];
    for to in all {
        assert!(!is_valid_transition("paid", to));
        assert!(!is_valid_transition("cancelled", to));
        assert!(!is_valid_transition(to, "draft"));
    }
    assert!(is_valid_transition("draft", "sent"));
    assert!(is_valid_transition("sent", "paid"));
    assert!(!is_valid_transition("draft", "paid"));
    let o = owner();
    assert_eq!(mark_sent(Some(&o), Some("draft")).unwrap().new_status, "sent");
    assert_eq!(mark_paid(Some(&o), Some("sent")).unwrap().new_status, "paid");
    assert_eq!(mark_cancelled(Some(&o), Some("draft")).unwrap().new_status, "cancelled");
    assert!(matches!(mark_paid(Some(&o), None), Err(TransitionError::NotFound)));
    let e = mark_paid(Some(&o), Some("draft")).err().unwrap();
    assert!(matches!(e, TransitionError::Invalid));
    assert!(!transition_error_text(&e, "draft", "paid").is_empty());
    assert!(matches!(mark_paid(Some(&nobody()), Some("sent")), Err(TransitionError::Access(_))));
}

#[test]
fn refunds_of_invoices_without_a_sale() {
    let s = get_refund_status(false, Some(5));
    assert_eq!((s.refunded_amount, s.is_refunded), (0, false));
    let s = get_refund_status(true, Some(5));
    assert_eq!((s.refunded_amount, s.is_refunded), (5, true));
    let s = get_refund_status(true, None);
    assert_eq!((s.refunded_amount, s.is_refunded), (0, false));
}

#[test]
fn licenses_run_out_through_grace() {
    assert_eq!(status_for(100, 99), LicenseStatus::Active);
    assert_eq!(status_for(100, 100), LicenseStatus::Active);
    assert_eq!(status_for(100, 101), LicenseStatus::Grace { days_left: 4 });
    assert_eq!(status_for(100, 105), LicenseStatus::Grace { days_left: 0 });
    assert_eq!(status_for(100, 106), LicenseStatus::Locked { days_overdue: 6 });
    assert_eq!(check_status(None, 0).unwrap(), LicenseStatus::Inactive);
    let row = |activated: i64, due: &str| LicenseRow { activated, next_due_date: due.to_string() };
    assert_eq!(check_status(Some(&row(0, "2026-05-01")), 0).unwrap(), LicenseStatus::Inactive);
    assert_eq!(check_status(Some(&row(1, "soon")), 0), Err(LicenseError::BadDate));
    for s in [
        LicenseStatus::Inactive,
        LicenseStatus::Active,
        LicenseStatus::Grace { days_left: 1 },
        LicenseStatus::Locked { days_overdue: 1 },
    ] {
        assert!(!status_text(s).is_empty());
    }
    assert!(require_export_allowed(LicenseStatus::Active).is_ok());
    assert!(require_export_allowed(LicenseStatus::Locked { days_overdue: 1 }).is_err());
    assert!(require_export_allowed(LicenseStatus::Inactive).is_err());
}

#[test]
fn a_payment_pays_for_a_cycle() {
    let today = sme_pro::dates::date_day("2026-05-01").unwrap();
    let d = activate(None, today).unwrap();
    assert_eq!(d.paid_on, "2026-05-01");
    assert_eq!(d.next_due, "2026-05-31");
    assert_eq!(activate(Some(1), today).err(), Some(LicenseError::AlreadyActivated));
    assert_eq!(record_payment(Some("2026-05-10"), today).unwrap().next_due, "2026-06-09");
    assert_eq!(record_payment(Some("2026-01-01"), today).unwrap().next_due, "2026-05-31");
    assert_eq!(record_payment(None, today).err(), Some(LicenseError::NoLicense));
    assert_eq!(record_payment(Some("x"), today).err(), Some(LicenseError::BadDate));
    assert_eq!(activate(None, i32::MAX).err(), Some(LicenseError::DateOutOfRange));
}
