//! Point of sale.
//!
//! A checkout links sales and stock: every line's stock is deducted and its
//! sale recorded, together with the debt or the income, the invoice and the
//! customer, or nothing of it happens. The functions here decide what a
//! checkout writes; whoever calls them writes all of it in one transaction.

use crate::bookkeeping::{entry_map, law_entries_post_what_they_are_made_for, ledger_entry, posts};
use crate::conditions::{all_single, asks, condition_holds, demands, lemma_asks, lemma_joined_few, lemma_or_is_read};
use crate::customers::{clean_phone, customer_key, key_of, normalized_phone, usable_phone, CustomerKey, KeyView};
use crate::debt_settlement::{law_settling_moves_the_money_the_right_way, owed_to_business, settlement, DebtRow};
use crate::invoice::{item_views, lines_total, InvoiceItem, ItemView};
use crate::lists::{first_some, lemma_first_some_at, lemma_first_some_none, sum_upto};
use crate::module::{law_defaults_keep_values, record_error, with_defaults, ModuleDef, ValidationError};
use crate::money::{amount_text, format_money, places_of};
use crate::rbac::{granted, refusal, require, Access, AccessError, AccessErrorView};
use crate::text::{
    blank, cat, cat3, given, i64_text, is_given, joined, opt_view, same, signed_decimal, trim, trimmed,
};
use crate::value::{put_text, Record, Value, ValueView};
use vstd::prelude::*;

verus! {

/// One line of a cart.
#[derive(Debug)]
pub struct CartItem {
    pub inventory_record_id: String,
    pub quantity: i64,
}

/// A request to check out a cart.
#[derive(Debug)]
pub struct CheckoutRequest {
    pub items: Vec<CartItem>,
    pub payment_method: Option<String>,
    pub customer: Option<String>,
    /// Sell more than there is in stock, where that is wanted.
    pub allow_oversell: bool,
    /// The customer pays later and owes the subtotal.
    pub on_credit: bool,
    pub due_date: Option<String>,
    pub customer_phone: Option<String>,
    /// Whether the discount is a number from 0 to 100; no discount is 0.
    pub discount_in_range: bool,
    /// The discount in percent, as it is shown.
    pub discount_text: String,
    /// Makes a repeated checkout give back the first one's result.
    pub idempotency_key: Option<String>,
}

/// What is stored of a product.
#[derive(Debug)]
pub struct Product {
    pub id: String,
    pub name: String,
    pub sku: String,
    pub quantity: i64,
    pub unit_price: i64,
    pub unit_cost: i64,
}

// ---------------------------------------------------------------------------
// Before anything is read for the cart
// ---------------------------------------------------------------------------

/// Why a checkout is refused before its lines are looked at.
#[derive(Debug)]
pub enum GateError {
    EmptyCart,
    Access(AccessError),
    InventoryDisabled,
    SalesDisabled,
    /// A credit sale needs the Debt & Credit module.
    DebtCreditDisabled,
    /// A credit sale needs to know who owes.
    NoCreditCustomer,
    /// The discount is no number from 0 to 100.
    BadDiscount,
}

/// Why a checkout is refused before its lines are looked at.
pub enum GateErrorView {
    EmptyCart,
    Access(AccessErrorView),
    InventoryDisabled,
    SalesDisabled,
    DebtCreditDisabled,
    NoCreditCustomer,
    BadDiscount,
}

impl View for GateError {
    type V = GateErrorView;

    open spec fn view(&self) -> GateErrorView {
        match *self {
            GateError::EmptyCart => GateErrorView::EmptyCart,
            GateError::Access(e) => GateErrorView::Access(e@),
            GateError::InventoryDisabled => GateErrorView::InventoryDisabled,
            GateError::SalesDisabled => GateErrorView::SalesDisabled,
            GateError::DebtCreditDisabled => GateErrorView::DebtCreditDisabled,
            GateError::NoCreditCustomer => GateErrorView::NoCreditCustomer,
            GateError::BadDiscount => GateErrorView::BadDiscount,
        }
    }
}

impl GateErrorView {
    /// The sentence for a refused checkout.
    pub open spec fn message(self) -> Seq<char> {
        match self {
            GateErrorView::EmptyCart => "the cart is empty"@,
            GateErrorView::Access(e) => e.message(),
            GateErrorView::InventoryDisabled =>
                "the Inventory module isn't enabled for this business — checkout needs it"@,
            GateErrorView::SalesDisabled => "the Sales module isn't enabled for this business — checkout needs it"@,
            GateErrorView::DebtCreditDisabled =>
                "selling on credit needs the Debt & Credit module enabled for this business"@,
            GateErrorView::NoCreditCustomer =>
                "a customer name is required for a credit sale — Debt & Credit needs to know who owes it"@,
            GateErrorView::BadDiscount => "discount must be between 0 and 100 percent"@,
        }
    }
}

impl GateError {
    /// The sentence for a refused checkout.
    pub fn message(&self) -> (s: String)
        ensures
            s@ == self@.message(),
    {
        match self {
            GateError::EmptyCart => "the cart is empty".to_owned(),
            GateError::Access(e) => e.message(),
            GateError::InventoryDisabled =>
                "the Inventory module isn't enabled for this business — checkout needs it".to_owned(),
            GateError::SalesDisabled =>
                "the Sales module isn't enabled for this business — checkout needs it".to_owned(),
            GateError::DebtCreditDisabled =>
                "selling on credit needs the Debt & Credit module enabled for this business".to_owned(),
            GateError::NoCreditCustomer =>
                "a customer name is required for a credit sale — Debt & Credit needs to know who owes it".to_owned(),
            GateError::BadDiscount => "discount must be between 0 and 100 percent".to_owned(),
        }
    }
}

/// How a checkout goes on.
#[derive(Clone, Copy, PartialEq, Eq, Structural, Debug)]
pub enum Gate {
    /// This checkout already happened: hand back its result, do nothing else.
    Replay,
    /// Look at the lines.
    Proceed,
}

/// How a checkout goes on. `already_done` says whether a result is on file for
/// the request's idempotency key; it means nothing for a request without one.
pub open spec fn gate_for(
    access: Option<&Access>,
    req: CheckoutRequest,
    already_done: bool,
    inventory_enabled: bool,
    sales_enabled: bool,
    debt_credit_enabled: bool,
) -> Result<Gate, GateErrorView> {
    if req.items@.len() == 0 {
        Err(GateErrorView::EmptyCart)
    } else {
        match refusal(access, "inventory"@, "sell"@) {
            Some(e) => Err(GateErrorView::Access(e)),
            None => if req.idempotency_key is Some && already_done {
                Ok(Gate::Replay)
            } else if !inventory_enabled {
                Err(GateErrorView::InventoryDisabled)
            } else if !sales_enabled {
                Err(GateErrorView::SalesDisabled)
            } else if req.on_credit && !debt_credit_enabled {
                Err(GateErrorView::DebtCreditDisabled)
            } else if req.on_credit && !given(opt_view(req.customer)) {
                Err(GateErrorView::NoCreditCustomer)
            } else if !req.discount_in_range {
                Err(GateErrorView::BadDiscount)
            } else {
                Ok(Gate::Proceed)
            },
        }
    }
}

/// Decides how a checkout goes on before its lines are looked at.
pub fn checkout_gate(
    access: Option<&Access>,
    req: &CheckoutRequest,
    already_done: bool,
    inventory_enabled: bool,
    sales_enabled: bool,
    debt_credit_enabled: bool,
) -> (r: Result<Gate, GateError>)
    ensures
        match r {
            Ok(g) => gate_for(access, *req, already_done, inventory_enabled, sales_enabled, debt_credit_enabled)
                == Ok::<Gate, GateErrorView>(g),
            Err(e) => gate_for(access, *req, already_done, inventory_enabled, sales_enabled, debt_credit_enabled)
                == Err::<Gate, GateErrorView>(e@),
        },
{
    if req.items.len() == 0 {
        return Err(GateError::EmptyCart);
    }
    match require(access, "inventory", "sell") {
        Err(e) => {
            return Err(GateError::Access(e));
        },
        Ok(()) => {},
    }
    if req.idempotency_key.is_some() && already_done {
        return Ok(Gate::Replay);
    }
    if !inventory_enabled {
        return Err(GateError::InventoryDisabled);
    }
    if !sales_enabled {
        return Err(GateError::SalesDisabled);
    }
    if req.on_credit && !debt_credit_enabled {
        return Err(GateError::DebtCreditDisabled);
    }
    if req.on_credit && !is_given(&req.customer) {
        return Err(GateError::NoCreditCustomer);
    }
    if !req.discount_in_range {
        return Err(GateError::BadDiscount);
    }
    Ok(Gate::Proceed)
}

// ---------------------------------------------------------------------------
// Lines
// ---------------------------------------------------------------------------

/// Everything that a checkout is decided from.
pub struct CheckoutInput<'a> {
    pub req: &'a CheckoutRequest,
    /// The products of the cart, as they are stored.
    pub products: &'a Vec<Product>,
    /// The discount on each line, in minor units.
    pub discounts: &'a Vec<i64>,
    pub sales: &'a ModuleDef,
    /// There for a credit sale.
    pub debt_credit: Option<&'a ModuleDef>,
    /// There where the business keeps books.
    pub accounting: Option<&'a ModuleDef>,
    pub order_id: &'a str,
    pub today: &'a str,
    /// The number of the next debt.
    pub entry_number: &'a str,
}

/// The place of the first product with that id, or the number of products.
pub open spec fn product_at(products: Seq<Product>, id: Seq<char>) -> int
    decreases products.len(),
{
    if products.len() == 0 {
        0
    } else if products[0].id@ == id {
        0
    } else {
        1 + product_at(products.drop_first(), id)
    }
}

/// The units of a product on the first `n` lines of a cart.
pub open spec fn sold_before(items: Seq<CartItem>, n: nat, id: Seq<char>) -> int
    decreases n,
{
    if n == 0 {
        0
    } else {
        sold_before(items, (n - 1) as nat, id) + if items[n - 1].inventory_record_id@ == id {
            items[n - 1].quantity as int
        } else {
            0
        }
    }
}

/// The figures of a line.
pub struct Figures {
    /// In stock before the line; earlier lines may have taken some.
    pub stock: int,
    pub remaining: int,
    /// Price times quantity.
    pub original: int,
    pub discount: int,
    /// What the customer pays for the line.
    pub total: int,
    /// Cost times quantity.
    pub cost: int,
}

/// The figures of line `i`, whose product is known.
pub open spec fn figures(c: CheckoutInput, i: int) -> Figures {
    let item = c.req.items@[i];
    let id = item.inventory_record_id@;
    let p = c.products@[product_at(c.products@, id)];
    let stock = p.quantity - sold_before(c.req.items@, i as nat, id);
    let original = p.unit_price * item.quantity;
    let discount = c.discounts@[i] as int;
    Figures {
        stock,
        remaining: stock - item.quantity,
        original,
        discount,
        total: original - discount,
        cost: p.unit_cost * item.quantity,
    }
}

/// What the customer pays for the first `n` lines.
pub open spec fn paid_for(c: CheckoutInput, n: nat) -> int
    decreases n,
{
    if n == 0 {
        0
    } else {
        paid_for(c, (n - 1) as nat) + figures(c, n - 1).total
    }
}

/// The discounts on the first `n` lines.
pub open spec fn discounted(c: CheckoutInput, n: nat) -> int
    decreases n,
{
    if n == 0 {
        0
    } else {
        discounted(c, (n - 1) as nat) + figures(c, n - 1).discount
    }
}

/// Whether a number fits in 64 bits.
pub open spec fn fits(n: int) -> bool {
    i64::MIN <= n <= i64::MAX
}

/// What is wrong with a line, in the order in which it is checked.
#[derive(Clone, Copy, PartialEq, Eq, Structural, Debug)]
pub enum LineProblem {
    /// The quantity is not above zero.
    Quantity,
    /// There is no such product.
    NotFound,
    /// The product is priced below its cost.
    BelowCost { unit_price: i64, unit_cost: i64 },
    /// There is not enough of it.
    Stock { available: i64, requested: i64 },
    /// An amount or a quantity does not fit in 64 bits.
    OutOfRange,
    /// The discount would sell it below its cost.
    DiscountBelowCost { line_total: i64, cost_total: i64, quantity: i64 },
    /// The Sales module refuses the record.
    Invalid(ValidationError),
}

/// The sale of line `i`, before the module's defaults are filled in.
pub open spec fn sale_base(c: CheckoutInput, i: int) -> Map<Seq<char>, ValueView> {
    let item = c.req.items@[i];
    let p = c.products@[product_at(c.products@, item.inventory_record_id@)];
    let f = figures(c, i);
    let m = Map::<Seq<char>, ValueView>::empty().insert("item_name"@, ValueView::Text(p.name@)).insert(
        "quantity"@,
        ValueView::Int(item.quantity),
    ).insert("revenue"@, ValueView::Int(f.total as i64)).insert("unit_price"@, ValueView::Int(p.unit_price)).insert(
        "order_id"@,
        ValueView::Text(c.order_id@),
    ).insert("cost_at_sale"@, ValueView::Int(f.cost as i64)).insert(
        "discount_amount"@,
        ValueView::Int(f.discount as i64),
    ).insert("sale_date"@, ValueView::Text(c.today@));
    put_text(
        put_text(
            put_text(m, "customer"@, opt_view(c.req.customer)),
            "customer_phone"@,
            clean_phone(opt_view(c.req.customer_phone)),
        ),
        "payment_method"@,
        opt_view(c.req.payment_method),
    )
}

/// The sale of line `i` as it is stored.
pub open spec fn sale_of(c: CheckoutInput, i: int) -> Map<Seq<char>, ValueView> {
    with_defaults(c.sales.fields@, sale_base(c, i))
}

/// What is wrong with line `i`, given that the lines before it are in order.
pub open spec fn line_problem(c: CheckoutInput, i: int) -> Option<LineProblem> {
    let item = c.req.items@[i];
    let k = product_at(c.products@, item.inventory_record_id@);
    let p = c.products@[k];
    let f = figures(c, i);
    if item.quantity <= 0 {
        Some(LineProblem::Quantity)
    } else if k >= c.products@.len() {
        Some(LineProblem::NotFound)
    } else if p.unit_price < p.unit_cost {
        Some(LineProblem::BelowCost { unit_price: p.unit_price, unit_cost: p.unit_cost })
    } else if f.stock < item.quantity && !c.req.allow_oversell {
        Some(LineProblem::Stock { available: f.stock as i64, requested: item.quantity })
    } else if !fits(f.remaining) || !fits(f.original) || !fits(f.total) || !fits(f.cost) {
        Some(LineProblem::OutOfRange)
    } else if f.total < f.cost {
        Some(
            LineProblem::DiscountBelowCost {
                line_total: f.total as i64,
                cost_total: f.cost as i64,
                quantity: item.quantity,
            },
        )
    } else if !fits(paid_for(c, (i + 1) as nat)) || !fits(discounted(c, (i + 1) as nat)) {
        Some(LineProblem::OutOfRange)
    } else {
        match record_error(c.sales.fields@, sale_of(c, i)) {
            Some(e) => Some(LineProblem::Invalid(e)),
            None => None,
        }
    }
}

/// A problem and the line that has it.
#[derive(Clone, Copy, PartialEq, Eq, Structural, Debug)]
pub struct LineError {
    pub line: usize,
    pub problem: LineProblem,
}

/// The problem of line `i` with its place.
pub open spec fn line_error(c: CheckoutInput, i: int) -> Option<LineError> {
    match line_problem(c, i) {
        Some(problem) => Some(LineError { line: i as usize, problem }),
        None => None,
    }
}

/// One line of a checkout that goes through.
#[derive(Debug)]
pub struct PlannedLine {
    pub product_id: String,
    pub sku: String,
    pub name: String,
    pub quantity: i64,
    pub unit_price: i64,
    pub line_total: i64,
    pub discount_amount: i64,
    pub unit_cost: i64,
    pub cost_total: i64,
    /// The new stock of the product.
    pub remaining_stock: i64,
    /// The sale to be stored.
    pub sale: Record,
}

/// What a line writes and shows.
pub struct LineView {
    pub product_id: Seq<char>,
    pub sku: Seq<char>,
    pub name: Seq<char>,
    pub quantity: int,
    pub unit_price: int,
    pub line_total: int,
    pub discount_amount: int,
    pub unit_cost: int,
    pub cost_total: int,
    pub remaining_stock: int,
    pub sale: Map<Seq<char>, ValueView>,
}

impl View for PlannedLine {
    type V = LineView;

    open spec fn view(&self) -> LineView {
        LineView {
            product_id: self.product_id@,
            sku: self.sku@,
            name: self.name@,
            quantity: self.quantity as int,
            unit_price: self.unit_price as int,
            line_total: self.line_total as int,
            discount_amount: self.discount_amount as int,
            unit_cost: self.unit_cost as int,
            cost_total: self.cost_total as int,
            remaining_stock: self.remaining_stock as int,
            sale: self.sale@,
        }
    }
}

/// What line `i` writes and shows.
pub open spec fn line_view(c: CheckoutInput, i: int) -> LineView {
    let item = c.req.items@[i];
    let p = c.products@[product_at(c.products@, item.inventory_record_id@)];
    let f = figures(c, i);
    LineView {
        product_id: item.inventory_record_id@,
        sku: p.sku@,
        name: p.name@,
        quantity: item.quantity as int,
        unit_price: p.unit_price as int,
        line_total: f.total,
        discount_amount: f.discount,
        unit_cost: p.unit_cost as int,
        cost_total: f.cost,
        remaining_stock: f.remaining,
        sale: sale_of(c, i),
    }
}

/// The line of the invoice for line `i`: the product at its listed price.
pub open spec fn invoice_line(c: CheckoutInput, i: int) -> ItemView {
    let item = c.req.items@[i];
    let p = c.products@[product_at(c.products@, item.inventory_record_id@)];
    ItemView { description: p.name@, quantity: item.quantity as int, unit_price: p.unit_price as int }
}

proof fn lemma_product_at(products: Seq<Product>, id: Seq<char>, k: int)
    requires
        0 <= k <= products.len(),
        k < products.len() ==> products[k].id@ == id,
        forall|i: int| 0 <= i < k ==> products[i].id@ != id,
    ensures
        product_at(products, id) == k,
    decreases products.len(),
{
    if k > 0 {
        assert(products[0].id@ != id);
        assert forall|i: int| 0 <= i < k - 1 implies products.drop_first()[i].id@ != id by {
            assert(products.drop_first()[i] == products[i + 1]);
        }
        lemma_product_at(products.drop_first(), id, k - 1);
    }
}

/// The place of the first product with that id, or the number of products.
pub fn find_product(products: &Vec<Product>, id: &str) -> (k: usize)
    ensures
        k <= products@.len(),
        k == product_at(products@, id@),
{
    let mut k: usize = 0;
    while k < products.len()
        invariant
            k <= products@.len(),
            forall|i: int| 0 <= i < k ==> (#[trigger] products@[i]).id@ != id@,
        decreases products@.len() - k,
    {
        if same(products[k].id.as_str(), id) {
            proof {
                lemma_product_at(products@, id@, k as int);
            }
            return k;
        }
        k = k + 1;
    }
    proof {
        lemma_product_at(products@, id@, k as int);
    }
    k
}

fn units_before(items: &Vec<CartItem>, n: usize, id: &str) -> (r: i128)
    requires
        n <= items@.len(),
    ensures
        r == sold_before(items@, n as nat, id@),
        -0x8000_0000_0000_0000 * n <= r <= 0x7fff_ffff_ffff_ffff * n,
{
    let mut r: i128 = 0;
    let mut j: usize = 0;
    while j < n
        invariant
            j <= n <= items@.len(),
            r == sold_before(items@, j as nat, id@),
            -0x8000_0000_0000_0000 * j <= r <= 0x7fff_ffff_ffff_ffff * j,
        decreases n - j,
    {
        if same(items[j].inventory_record_id.as_str(), id) {
            r = r + items[j].quantity as i128;
        }
        j = j + 1;
    }
    r
}

/// The exact product of two integers.
fn times(a: i64, b: i64) -> (r: i128)
    ensures
        r == a * b,
        -0x4000_0000_0000_0000_0000_0000_0000_0000 <= r <= 0x4000_0000_0000_0000_0000_0000_0000_0000,
{
    assert(-0x4000_0000_0000_0000_0000_0000_0000_0000 <= a * b <= 0x4000_0000_0000_0000_0000_0000_0000_0000)
        by (nonlinear_arith)
        requires
            -0x8000_0000_0000_0000 <= a <= 0x7fff_ffff_ffff_ffff,
            -0x8000_0000_0000_0000 <= b <= 0x7fff_ffff_ffff_ffff,
    ;
    a as i128 * b as i128
}

fn in_range(n: i128) -> (b: bool)
    ensures
        b == fits(n as int),
{
    i64::MIN as i128 <= n && n <= i64::MAX as i128
}

/// The price times the quantity of every line, in the order of the cart: what
/// a percentage discount is taken of. Zero where there is no such product or
/// the amount does not fit.
pub fn original_line_totals(items: &Vec<CartItem>, products: &Vec<Product>) -> (r: Vec<i64>)
    ensures
        r@.len() == items@.len(),
        forall|i: int|
            0 <= i < items@.len() ==> #[trigger] r@[i] == ({
                let k = product_at(products@, items@[i].inventory_record_id@);
                let t = products@[k].unit_price * items@[i].quantity;
                if k < products@.len() && fits(t) {
                    t
                } else {
                    0
                }
            }),
{
    let mut r: Vec<i64> = Vec::new();
    let mut i: usize = 0;
    while i < items.len()
        invariant
            i <= items@.len(),
            r@.len() == i,
            forall|j: int|
                0 <= j < i ==> #[trigger] r@[j] == ({
                    let k = product_at(products@, items@[j].inventory_record_id@);
                    let t = products@[k].unit_price * items@[j].quantity;
                    if k < products@.len() && fits(t) {
                        t
                    } else {
                        0
                    }
                }),
        decreases items@.len() - i,
    {
        let k: usize = find_product(products, items[i].inventory_record_id.as_str());
        let mut total: i64 = 0;
        if k < products.len() {
            let t: i128 = times(products[k].unit_price, items[i].quantity);
            if in_range(t) {
                total = t as i64;
            }
        }
        r.push(total);
        i = i + 1;
    }
    r
}

/// Builds the sale of a line and validates it.
fn sale_record(c: &CheckoutInput, i: usize, p: &Product, line_total: i64, cost_total: i64) -> (r: Result<
    Record,
    ValidationError,
>)
    requires
        i < c.req.items@.len(),
        c.discounts@.len() == c.req.items@.len(),
        *p == c.products@[product_at(c.products@, c.req.items@[i as int].inventory_record_id@)],
        line_total == figures(*c, i as int).total,
        cost_total == figures(*c, i as int).cost,
    ensures
        match r {
            Ok(sale) => sale@ == sale_of(*c, i as int) && record_error(c.sales.fields@, sale_of(*c, i as int)) is None,
            Err(e) => record_error(c.sales.fields@, sale_of(*c, i as int)) == Some(e),
        },
{
    let mut sale = Record::new();
    sale.insert_text("item_name", p.name.as_str());
    sale.insert_int("quantity", c.req.items[i].quantity);
    sale.insert_int("revenue", line_total);
    sale.insert_int("unit_price", p.unit_price);
    sale.insert_text("order_id", c.order_id);
    sale.insert_int("cost_at_sale", cost_total);
    sale.insert_int("discount_amount", c.discounts[i]);
    sale.insert_text("sale_date", c.today);
    sale.insert_opt_text("customer", &c.req.customer);
    let phone = match &c.req.customer_phone {
        Some(phone) => usable_phone(Some(phone.as_str())),
        None => None,
    };
    sale.insert_opt_text("customer_phone", &phone);
    sale.insert_opt_text("payment_method", &c.req.payment_method);
    assert(sale@ == sale_base(*c, i as int));
    c.sales.complete(sale)
}

/// Decides line `i`, the lines before it being in order and paid for.
fn plan_line(c: &CheckoutInput, i: usize, subtotal: i64, total_discount: i64) -> (r: Result<PlannedLine, LineProblem>)
    requires
        i < c.req.items@.len(),
        c.discounts@.len() == c.req.items@.len(),
        subtotal == paid_for(*c, i as nat),
        total_discount == discounted(*c, i as nat),
        forall|j: int| 0 <= j < i ==> (#[trigger] line_problem(*c, j)) is None,
    ensures
        match r {
            Ok(line) => line_problem(*c, i as int) is None && line@ == line_view(*c, i as int),
            Err(e) => line_problem(*c, i as int) == Some(e),
        },
{
    let item = &c.req.items[i];
    if item.quantity <= 0 {
        return Err(LineProblem::Quantity);
    }
    let k: usize = find_product(c.products, item.inventory_record_id.as_str());
    if k >= c.products.len() {
        return Err(LineProblem::NotFound);
    }
    let p = &c.products[k];
    if p.unit_price < p.unit_cost {
        return Err(LineProblem::BelowCost { unit_price: p.unit_price, unit_cost: p.unit_cost });
    }
    let stock: i128 = p.quantity as i128 - units_before(&c.req.items, i, item.inventory_record_id.as_str());
    proof {
        lemma_stock_fits(*c, i as nat, i as int);
    }
    if stock < item.quantity as i128 && !c.req.allow_oversell {
        return Err(LineProblem::Stock { available: stock as i64, requested: item.quantity });
    }
    let remaining: i128 = stock - item.quantity as i128;
    let original: i128 = times(p.unit_price, item.quantity);
    let total: i128 = original - c.discounts[i] as i128;
    let cost: i128 = times(p.unit_cost, item.quantity);
    if !in_range(remaining) || !in_range(original) || !in_range(total) || !in_range(cost) {
        return Err(LineProblem::OutOfRange);
    }
    if total < cost {
        return Err(
            LineProblem::DiscountBelowCost {
                line_total: total as i64,
                cost_total: cost as i64,
                quantity: item.quantity,
            },
        );
    }
    if !in_range(subtotal as i128 + total) || !in_range(total_discount as i128 + c.discounts[i] as i128) {
        return Err(LineProblem::OutOfRange);
    }
    match sale_record(c, i, p, total as i64, cost as i64) {
        Err(e) => Err(LineProblem::Invalid(e)),
        Ok(sale) => Ok(
            PlannedLine {
                product_id: item.inventory_record_id.clone(),
                sku: p.sku.clone(),
                name: p.name.clone(),
                quantity: item.quantity,
                unit_price: p.unit_price,
                line_total: total as i64,
                discount_amount: c.discounts[i],
                unit_cost: p.unit_cost,
                cost_total: cost as i64,
                remaining_stock: remaining as i64,
                sale,
            },
        ),
    }
}

/// While all lines so far are in order, the stock of every product, less what
/// those lines take of it, fits in 64 bits.
proof fn lemma_stock_fits(c: CheckoutInput, n: nat, i: int)
    requires
        n <= i < c.req.items@.len(),
        forall|j: int| 0 <= j < n ==> (#[trigger] line_problem(c, j)) is None,
        product_at(c.products@, c.req.items@[i].inventory_record_id@) < c.products@.len(),
    ensures
        fits(
            c.products@[product_at(c.products@, c.req.items@[i].inventory_record_id@)].quantity - sold_before(
                c.req.items@,
                n,
                c.req.items@[i].inventory_record_id@,
            ),
        ),
    decreases n,
{
    if n > 0 {
        lemma_stock_fits(c, (n - 1) as nat, i);
        assert(line_problem(c, n - 1) is None);
        let id = c.req.items@[i].inventory_record_id@;
        if c.req.items@[n - 1].inventory_record_id@ == id {
            assert(fits(figures(c, n - 1).remaining));
        }
    }
}

// ---------------------------------------------------------------------------
// The whole checkout
// ---------------------------------------------------------------------------

/// Why a checkout is refused once its lines have been looked at.
#[derive(Clone, Copy, PartialEq, Eq, Structural, Debug)]
pub enum CheckoutError {
    /// A customer was given who cannot be identified: no name, and a phone
    /// number without a digit.
    Customer,
    Line(LineError),
    /// The Debt & Credit module refuses the debt.
    Debt(ValidationError),
    /// The Bookkeeping module refuses the entry.
    Entry(ValidationError),
}

/// Whether the request says anything about the customer.
pub open spec fn names_customer(customer: Option<Seq<char>>, phone: Option<Seq<char>>) -> bool {
    given(customer) || given(phone)
}

/// The debt of a credit sale, before the module's defaults are filled in.
pub open spec fn debt_base(c: CheckoutInput) -> Map<Seq<char>, ValueView> {
    put_text(
        Map::<Seq<char>, ValueView>::empty().insert(
            "party_name"@,
            ValueView::Text(
                match c.req.customer {
                    Some(name) => name@,
                    None => Seq::empty(),
                },
            ),
        ).insert("direction"@, ValueView::Text("owed_to_business"@)).insert(
            "amount"@,
            ValueView::Int(paid_for(c, c.req.items@.len()) as i64),
        ).insert("settled"@, ValueView::Bool(false)).insert(
            "notes"@,
            ValueView::Text("Credit sale, POS order "@ + c.order_id@),
        ).insert("source_order_id"@, ValueView::Text(c.order_id@)).insert(
            "entry_number"@,
            ValueView::Text(c.entry_number@),
        ),
        "due_date"@,
        opt_view(c.req.due_date),
    )
}

/// The debt of a sale: there for a credit sale only.
pub open spec fn debt_of(c: CheckoutInput) -> Option<Map<Seq<char>, ValueView>> {
    if c.req.on_credit && c.debt_credit is Some {
        Some(with_defaults(c.debt_credit->0.fields@, debt_base(c)))
    } else {
        None
    }
}

/// The income of a sale: there only where the money has come in, which it has
/// not for a credit sale, and the business keeps books.
pub open spec fn income_of(c: CheckoutInput) -> Option<Map<Seq<char>, ValueView>> {
    if !c.req.on_credit && c.accounting is Some {
        Some(
            with_defaults(
                c.accounting->0.fields@,
                entry_map(
                    "POS sale — order "@ + c.order_id@,
                    "income"@,
                    "Sales"@,
                    paid_for(c, c.req.items@.len()) as i64,
                    opt_view(c.req.payment_method),
                ),
            ),
        )
    } else {
        None
    }
}

/// The first problem among the lines.
pub open spec fn cart_error(c: CheckoutInput) -> Option<LineError> {
    first_some(c.req.items@.len(), |i: int| line_error(c, i))
}

/// Why a checkout is refused; `None` where it goes through.
pub open spec fn checkout_problem(c: CheckoutInput) -> Option<CheckoutError> {
    let customer = opt_view(c.req.customer);
    let phone = opt_view(c.req.customer_phone);
    if names_customer(customer, phone) && key_of(customer, phone) is None {
        Some(CheckoutError::Customer)
    } else if cart_error(c) is Some {
        Some(CheckoutError::Line(cart_error(c)->0))
    } else if debt_of(c) is Some && record_error(c.debt_credit->0.fields@, debt_of(c)->0) is Some {
        Some(CheckoutError::Debt(record_error(c.debt_credit->0.fields@, debt_of(c)->0)->0))
    } else if income_of(c) is Some && record_error(c.accounting->0.fields@, income_of(c)->0) is Some {
        Some(CheckoutError::Entry(record_error(c.accounting->0.fields@, income_of(c)->0)->0))
    } else {
        None
    }
}

/// The lines of the invoice: every line at its listed price and, where there
/// is a discount, a line that takes it off again.
pub open spec fn invoice_lines(c: CheckoutInput) -> Seq<ItemView> {
    let n = c.req.items@.len();
    let lines = Seq::new(n, |i: int| invoice_line(c, i));
    if discounted(c, n) > 0 {
        lines.push(ItemView { description: "Discount"@, quantity: 1, unit_price: -discounted(c, n) })
    } else {
        lines
    }
}

/// Everything that a checkout writes, all of it or nothing.
#[derive(Debug)]
pub struct CheckoutPlan {
    /// The customer to find or create.
    pub customer: Option<CustomerKey>,
    pub lines: Vec<PlannedLine>,
    pub subtotal: i64,
    pub total_discount: i64,
    pub debt: Option<Record>,
    pub income: Option<Record>,
    /// For the invoice, where the business has that module.
    pub invoice_items: Vec<InvoiceItem>,
}

/// The views of a list of lines.
pub open spec fn line_views(s: Seq<PlannedLine>) -> Seq<LineView> {
    Seq::new(s.len(), |i: int| s[i]@)
}

/// The view of an optional record.
pub open spec fn opt_record(r: Option<Record>) -> Option<Map<Seq<char>, ValueView>> {
    match r {
        Some(m) => Some(m@),
        None => None,
    }
}

/// The view of an optional customer.
pub open spec fn opt_key(k: Option<CustomerKey>) -> Option<KeyView> {
    match k {
        Some(k) => Some(k@),
        None => None,
    }
}

/// The plan is what the input asks for.
pub open spec fn plan_is(plan: CheckoutPlan, c: CheckoutInput) -> bool {
    let n = c.req.items@.len();
    &&& opt_key(plan.customer) == key_of(opt_view(c.req.customer), opt_view(c.req.customer_phone))
    &&& line_views(plan.lines@) == Seq::new(n, |i: int| line_view(c, i))
    &&& plan.subtotal == paid_for(c, n)
    &&& plan.total_discount == discounted(c, n)
    &&& opt_record(plan.debt) == debt_of(c)
    &&& opt_record(plan.income) == income_of(c)
    &&& item_views(plan.invoice_items@) == invoice_lines(c)
}

fn debt_record(c: &CheckoutInput, m: &ModuleDef, subtotal: i64) -> (r: Result<Record, ValidationError>)
    requires
        subtotal == paid_for(*c, c.req.items@.len()),
    ensures
        ({
            let full = with_defaults(m.fields@, debt_base(*c));
            match r {
                Ok(debt) => debt@ == full && record_error(m.fields@, full) is None,
                Err(e) => record_error(m.fields@, full) == Some(e),
            }
        }),
{
    let mut debt = Record::new();
    match &c.req.customer {
        Some(name) => {
            debt.insert_text("party_name", name.as_str());
        },
        None => {
            let none = String::new();
            debt.insert_text("party_name", none.as_str());
        },
    }
    debt.insert_text("direction", "owed_to_business");
    debt.insert_int("amount", subtotal);
    debt.insert("settled", Value::Bool(false));
    debt.insert_text("notes", cat("Credit sale, POS order ", c.order_id).as_str());
    debt.insert_text("source_order_id", c.order_id);
    debt.insert_text("entry_number", c.entry_number);
    debt.insert_opt_text("due_date", &c.req.due_date);
    assert(debt@ == debt_base(*c));
    m.complete(debt)
}

/// A borrowed optional string.
fn as_opt_str(o: &Option<String>) -> (r: Option<&str>)
    ensures
        crate::text::opt_str_view(r) == opt_view(*o),
{
    match o {
        Some(s) => Some(s.as_str()),
        None => None,
    }
}

/// Decides a whole checkout: what it writes, or why it is refused. The checks
/// on the sender and the enabled modules come before.
pub fn checkout(c: &CheckoutInput) -> (r: Result<CheckoutPlan, CheckoutError>)
    requires
        c.discounts@.len() == c.req.items@.len(),
    ensures
        match r {
            Ok(plan) => checkout_problem(*c) is None && plan_is(plan, *c),
            Err(e) => checkout_problem(*c) == Some(e),
        },
{
    let ghost n = c.req.items@.len();
    let ghost problems = |i: int| line_error(*c, i);
    let customer = customer_key(as_opt_str(&c.req.customer), as_opt_str(&c.req.customer_phone));
    if (is_given(&c.req.customer) || is_given(&c.req.customer_phone)) && customer.is_none() {
        return Err(CheckoutError::Customer);
    }
    let mut lines: Vec<PlannedLine> = Vec::new();
    let mut invoice_items: Vec<InvoiceItem> = Vec::new();
    let mut subtotal: i64 = 0;
    let mut total_discount: i64 = 0;
    let mut i: usize = 0;
    while i < c.req.items.len()
        invariant
            n == c.req.items@.len(),
            c.discounts@.len() == n,
            problems == (|i: int| line_error(*c, i)),
            i <= n,
            !(names_customer(opt_view(c.req.customer), opt_view(c.req.customer_phone)) && key_of(
                opt_view(c.req.customer),
                opt_view(c.req.customer_phone),
            ) is None),
            first_some(i as nat, problems) is None,
            forall|j: int| 0 <= j < i ==> (#[trigger] line_problem(*c, j)) is None,
            subtotal == paid_for(*c, i as nat),
            total_discount == discounted(*c, i as nat),
            lines@.len() == i,
            forall|j: int| 0 <= j < i ==> (#[trigger] lines@[j])@ == line_view(*c, j),
            invoice_items@.len() == i,
            forall|j: int| 0 <= j < i ==> (#[trigger] invoice_items@[j])@ == invoice_line(*c, j),
        decreases n - i,
    {
        match plan_line(c, i, subtotal, total_discount) {
            Err(problem) => {
                proof {
                    lemma_first_some_at(n, i as nat, problems);
                }
                return Err(CheckoutError::Line(LineError { line: i, problem }));
            },
            Ok(line) => {
                assert(line_problem(*c, i as int) is None);
                subtotal = subtotal + line.line_total;
                total_discount = total_discount + line.discount_amount;
                invoice_items.push(
                    InvoiceItem { description: line.name.clone(), quantity: line.quantity, unit_price: line.unit_price },
                );
                lines.push(line);
            },
        }
        i = i + 1;
    }
    let mut debt: Option<Record> = None;
    if c.req.on_credit {
        match c.debt_credit {
            Some(m) => match debt_record(c, m, subtotal) {
                Ok(d) => {
                    debt = Some(d);
                },
                Err(e) => {
                    return Err(CheckoutError::Debt(e));
                },
            },
            None => {},
        }
    }
    let mut income: Option<Record> = None;
    if !c.req.on_credit {
        match c.accounting {
            Some(m) => {
                let description = cat("POS sale — order ", c.order_id);
                match ledger_entry(m, description.as_str(), "income", "Sales", subtotal, &c.req.payment_method) {
                    Ok(e) => {
                        income = Some(e);
                    },
                    Err(e) => {
                        return Err(CheckoutError::Entry(e));
                    },
                }
            },
            None => {},
        }
    }
    let ghost listed = invoice_items@;
    if total_discount > 0 {
        invoice_items.push(
            InvoiceItem { description: "Discount".to_owned(), quantity: 1, unit_price: -total_discount },
        );
    }
    let plan = CheckoutPlan { customer, lines, subtotal, total_discount, debt, income, invoice_items };
    proof {
        assert(line_views(plan.lines@) =~= Seq::new(n, |i: int| line_view(*c, i)));
        assert(item_views(plan.invoice_items@) =~= invoice_lines(*c)) by {
            assert forall|j: int| 0 <= j < n implies item_views(plan.invoice_items@)[j] == invoice_line(*c, j) by {
                assert(plan.invoice_items@[j] == listed[j]);
            }
        }
        if opt_key(plan.customer) is None {
            assert(key_of(opt_view(c.req.customer), opt_view(c.req.customer_phone)) is None);
        }
    }
    Ok(plan)
}

// ---------------------------------------------------------------------------
// Once and only once
// ---------------------------------------------------------------------------

/// What is left to do once everything has been written in the transaction.
#[derive(Clone, Copy, PartialEq, Eq, Structural, Debug)]
pub enum Finish {
    /// Commit: the order is real.
    Commit,
    /// Another request with the same key was first. Drop everything that was
    /// written and hand back that request's result.
    ReplayOther,
    /// The key is taken, but nothing is on file for it.
    Conflict,
}

/// How a checkout ends. `key_taken` says that storing the idempotency key hit
/// another request's committed key; `on_file` that a result can be found for
/// it.
pub open spec fn finish_of(has_key: bool, key_taken: bool, on_file: bool) -> Finish {
    if !(has_key && key_taken) {
        Finish::Commit
    } else if on_file {
        Finish::ReplayOther
    } else {
        Finish::Conflict
    }
}

/// Decides how a checkout ends.
pub fn finish_checkout(has_key: bool, key_taken: bool, on_file: bool) -> (r: Finish)
    ensures
        r == finish_of(has_key, key_taken, on_file),
{
    if !(has_key && key_taken) {
        Finish::Commit
    } else if on_file {
        Finish::ReplayOther
    } else {
        Finish::Conflict
    }
}

/// The committed orders of a business, by idempotency key, after a checkout
/// with that key. `seen` says whether a key that is there is already seen by
/// the first checks; in a race it is not, and storing the key decides.
pub open spec fn orders_after(
    orders: Map<Seq<char>, Seq<char>>,
    key: Seq<char>,
    new_order: Seq<char>,
    seen: bool,
) -> Map<Seq<char>, Seq<char>> {
    let there = orders.dom().contains(key);
    if seen && there {
        orders
    } else {
        match finish_of(true, there, there) {
            Finish::Commit => orders.insert(key, new_order),
            _ => orders,
        }
    }
}

/// Checking out twice with one key makes one order: the second time changes
/// nothing and finds the order of the first, whichever of the two it is.
pub proof fn law_one_key_one_order(
    orders: Map<Seq<char>, Seq<char>>,
    key: Seq<char>,
    first: Seq<char>,
    second: Seq<char>,
    seen_first: bool,
    seen_second: bool,
)
    ensures
        ({
            let once = orders_after(orders, key, first, seen_first);
            &&& orders_after(once, key, second, seen_second) == once
            &&& once.dom().contains(key)
            &&& once[key] == if orders.dom().contains(key) {
                orders[key]
            } else {
                first
            }
        }),
{
}

/// A request whose key is on file is never let through to write anything.
pub proof fn law_known_key_is_replayed(
    access: Option<&Access>,
    req: CheckoutRequest,
    inventory_enabled: bool,
    sales_enabled: bool,
    debt_credit_enabled: bool,
)
    requires
        req.idempotency_key is Some,
    ensures
        gate_for(access, req, true, inventory_enabled, sales_enabled, debt_credit_enabled) != Ok::<Gate, GateErrorView>(
            Gate::Proceed,
        ),
{
}

// ---------------------------------------------------------------------------
// Laws
// ---------------------------------------------------------------------------

proof fn lemma_lines_in_order(c: CheckoutInput)
    requires
        checkout_problem(c) is None,
    ensures
        forall|i: int| 0 <= i < c.req.items@.len() ==> (#[trigger] line_problem(c, i)) is None,
{
    let problems = |i: int| line_error(c, i);
    lemma_first_some_none(c.req.items@.len(), problems);
    assert forall|i: int| 0 <= i < c.req.items@.len() implies (#[trigger] line_problem(c, i)) is None by {
        assert(problems(i) is None);
    }
}

/// Nothing is ever sold at a loss: in a checkout that goes through, every
/// product is priced at its cost or above, and so is every line after its
/// discount.
pub proof fn law_never_sold_at_a_loss(c: CheckoutInput, i: int)
    requires
        checkout_problem(c) is None,
        0 <= i < c.req.items@.len(),
    ensures
        line_view(c, i).unit_price >= line_view(c, i).unit_cost,
        line_view(c, i).line_total >= line_view(c, i).cost_total,
{
    lemma_lines_in_order(c);
    assert(line_problem(c, i) is None);
}

/// Unless overselling was asked for, no stock goes below zero.
pub proof fn law_no_oversell(c: CheckoutInput, i: int)
    requires
        checkout_problem(c) is None,
        0 <= i < c.req.items@.len(),
        !c.req.allow_oversell,
    ensures
        line_view(c, i).remaining_stock >= 0,
{
    lemma_lines_in_order(c);
    assert(line_problem(c, i) is None);
}

/// The stock that the last line of a product leaves is the stock there was,
/// less all units of it in the cart, also where a product is on more than one
/// line.
pub proof fn law_stock_falls_by_what_is_sold(c: CheckoutInput, i: int)
    requires
        checkout_problem(c) is None,
        0 <= i < c.req.items@.len(),
        forall|j: int|
            i < j < c.req.items@.len() ==> (#[trigger] c.req.items@[j]).inventory_record_id@
                != c.req.items@[i].inventory_record_id@,
    ensures
        ({
            let id = c.req.items@[i].inventory_record_id@;
            line_view(c, i).remaining_stock == c.products@[product_at(c.products@, id)].quantity - sold_before(
                c.req.items@,
                c.req.items@.len(),
                id,
            )
        }),
{
    lemma_nothing_sold_after(c.req.items@, (i + 1) as nat, c.req.items@.len(), c.req.items@[i].inventory_record_id@);
}

proof fn lemma_nothing_sold_after(items: Seq<CartItem>, m: nat, n: nat, id: Seq<char>)
    requires
        m <= n <= items.len(),
        forall|j: int| m <= j < n ==> (#[trigger] items[j]).inventory_record_id@ != id,
    ensures
        sold_before(items, n, id) == sold_before(items, m, id),
    decreases n,
{
    if m < n {
        lemma_nothing_sold_after(items, m, (n - 1) as nat, id);
        assert(items[n - 1].inventory_record_id@ != id);
    }
}

proof fn lemma_listed_total(c: CheckoutInput, items: Seq<ItemView>, n: nat)
    requires
        n <= c.req.items@.len(),
        n <= items.len(),
        forall|i: int| 0 <= i < n ==> #[trigger] items[i] == invoice_line(c, i),
    ensures
        lines_total(items, n) == paid_for(c, n) + discounted(c, n),
    decreases n,
{
    if n > 0 {
        lemma_listed_total(c, items, (n - 1) as nat);
        assert(items[n - 1] == invoice_line(c, n - 1));
        let item = c.req.items@[n - 1];
        let p = c.products@[product_at(c.products@, item.inventory_record_id@)];
        assert(item.quantity * p.unit_price == p.unit_price * item.quantity) by (nonlinear_arith);
    }
}

/// The lines of the invoice add up to the subtotal: the listed prices less the
/// discount are what the customer pays.
pub proof fn law_invoice_adds_up(c: CheckoutInput)
    requires
        discounted(c, c.req.items@.len()) >= 0,
    ensures
        lines_total(invoice_lines(c), invoice_lines(c).len()) == paid_for(c, c.req.items@.len()),
{
    let n = c.req.items@.len();
    let all = invoice_lines(c);
    lemma_listed_total(c, all, n);
    if discounted(c, n) > 0 {
        assert(all[n as int].quantity * all[n as int].unit_price == -discounted(c, n));
    }
}

/// The money of a sale is on the books once: a credit sale makes a debt and no
/// income, any other sale makes no debt.
pub proof fn law_debt_or_income_never_both(c: CheckoutInput)
    ensures
        !(debt_of(c) is Some && income_of(c) is Some),
        c.req.on_credit ==> income_of(c) is None,
        !c.req.on_credit ==> debt_of(c) is None,
{
}

/// Discounting line by line takes off what the lines' discounts add up to, so
/// what is paid and what is taken off make up the listed total.
pub proof fn law_paid_and_discount_make_the_listed_total(c: CheckoutInput, n: nat)
    requires
        n <= c.req.items@.len(),
    ensures
        paid_for(c, n) + discounted(c, n) == listed_total(c, n),
    decreases n,
{
    if n > 0 {
        law_paid_and_discount_make_the_listed_total(c, (n - 1) as nat);
    }
}

/// The first `n` lines at their listed prices.
pub open spec fn listed_total(c: CheckoutInput, n: nat) -> int
    decreases n,
{
    if n == 0 {
        0
    } else {
        listed_total(c, (n - 1) as nat) + figures(c, n - 1).original
    }
}

/// Whether a record holds a text, or an amount or a count, under a name.
pub open spec fn says(m: Map<Seq<char>, ValueView>, name: Seq<char>, text: Seq<char>) -> bool {
    m.contains_pair(name, ValueView::Text(text))
}

/// Whether a record holds a number under a name.
pub open spec fn counts(m: Map<Seq<char>, ValueView>, name: Seq<char>, n: int) -> bool {
    m.contains_key(name) && m[name] is Int && m[name]->Int_0 == n
}

/// Every line of a cart that goes through is of the product that it names, at
/// that product's own price and cost: what is paid for it is the price times the
/// quantity less its discount, what it costs is the cost times the quantity. The
/// quantity is above zero. `k` is the place of that product.
pub proof fn law_lines_are_of_their_products(c: CheckoutInput, plan: CheckoutPlan, i: int, k: int)
    requires
        checkout_problem(c) is None,
        plan_is(plan, c),
        0 <= i < c.req.items@.len(),
        0 <= k < c.products@.len(),
        c.products@[k].id@ == c.req.items@[i].inventory_record_id@,
        forall|j: int| 0 <= j < k ==> (#[trigger] c.products@[j]).id@ != c.req.items@[i].inventory_record_id@,
    ensures
        plan.lines@.len() == c.req.items@.len(),
        ({
            let line = plan.lines@[i];
            let item = c.req.items@[i];
            let p = c.products@[k];
            &&& line.product_id@ == p.id@
            &&& line.sku@ == p.sku@
            &&& line.name@ == p.name@
            &&& line.quantity == item.quantity && item.quantity > 0
            &&& line.unit_price == p.unit_price
            &&& line.unit_cost == p.unit_cost
            &&& line.discount_amount == c.discounts@[i]
            &&& line.line_total == p.unit_price * item.quantity - c.discounts@[i]
            &&& line.cost_total == p.unit_cost * item.quantity
        }),
{
    lemma_lines_in_order(c);
    lemma_product_at(c.products@, c.req.items@[i].inventory_record_id@, k);
    assert(line_problem(c, i) is None);
    assert(line_views(plan.lines@).len() == c.req.items@.len());
    assert(line_views(plan.lines@)[i] == line_view(c, i));
}

/// The stock that a line leaves is what its product had, less what the line
/// sells, or, where an earlier line is of the same product, what the last such
/// line left, less that. `j` is the place of that line, `i` where there is none.
pub proof fn law_each_line_takes_its_units_from_stock(c: CheckoutInput, plan: CheckoutPlan, i: int, k: int, j: int)
    requires
        checkout_problem(c) is None,
        plan_is(plan, c),
        0 <= j <= i < c.req.items@.len(),
        0 <= k < c.products@.len(),
        c.products@[k].id@ == c.req.items@[i].inventory_record_id@,
        forall|l: int| 0 <= l < k ==> (#[trigger] c.products@[l]).id@ != c.req.items@[i].inventory_record_id@,
        c.req.items@[j].inventory_record_id@ == c.req.items@[i].inventory_record_id@,
        forall|l: int|
            0 <= l < i && (l > j || j == i) ==> (#[trigger] c.req.items@[l]).inventory_record_id@
                != c.req.items@[i].inventory_record_id@,
    ensures
        plan.lines@.len() == c.req.items@.len(),
        plan.lines@[i].remaining_stock == (if j == i {
            c.products@[k].quantity
        } else {
            plan.lines@[j].remaining_stock
        }) - c.req.items@[i].quantity,
{
    let id = c.req.items@[i].inventory_record_id@;
    lemma_product_at(c.products@, id, k);
    assert(line_views(plan.lines@).len() == c.req.items@.len());
    assert(line_views(plan.lines@)[i] == line_view(c, i));
    assert(line_views(plan.lines@)[j] == line_view(c, j));
    if j == i {
        lemma_nothing_sold_after(c.req.items@, 0, i as nat, id);
    } else {
        lemma_nothing_sold_after(c.req.items@, (j + 1) as nat, i as nat, id);
    }
}

/// The sale that is stored for a line says the same as the line: which item and
/// how many, what was paid for them and what they cost, what was taken off, in
/// which order and on which day, and whatever was said of the customer and the
/// payment. No default of the module takes the place of any of it.
pub proof fn law_stored_sales_say_what_was_sold(c: CheckoutInput, plan: CheckoutPlan, i: int)
    requires
        checkout_problem(c) is None,
        plan_is(plan, c),
        0 <= i < plan.lines@.len(),
    ensures
        ({
            let line = plan.lines@[i];
            let sale = line.sale@;
            &&& says(sale, "item_name"@, line.name@)
            &&& counts(sale, "quantity"@, line.quantity as int)
            &&& counts(sale, "revenue"@, line.line_total as int)
            &&& counts(sale, "unit_price"@, line.unit_price as int)
            &&& counts(sale, "cost_at_sale"@, line.cost_total as int)
            &&& counts(sale, "discount_amount"@, line.discount_amount as int)
            &&& says(sale, "order_id"@, c.order_id@)
            &&& says(sale, "sale_date"@, c.today@)
            &&& c.req.customer is Some ==> says(sale, "customer"@, c.req.customer->0@)
            &&& c.req.payment_method is Some ==> says(sale, "payment_method"@, c.req.payment_method->0@)
            &&& opt_view(c.req.customer_phone) matches Some(phone) ==> normalized_phone(phone).len() > 0 ==> says(
                sale,
                "customer_phone"@,
                normalized_phone(phone),
            )
        }),
{
    reveal_strlit("item_name");
    reveal_strlit("quantity");
    reveal_strlit("revenue");
    reveal_strlit("unit_price");
    reveal_strlit("order_id");
    reveal_strlit("cost_at_sale");
    reveal_strlit("discount_amount");
    reveal_strlit("sale_date");
    reveal_strlit("customer");
    reveal_strlit("customer_phone");
    reveal_strlit("payment_method");
    assert("item_name"@[0] != "sale_date"@[0]);
    assert("quantity"@[0] != "order_id"@[0] && "quantity"@[0] != "customer"@[0] && "order_id"@[0] != "customer"@[0]);
    assert("customer_phone"@[0] != "payment_method"@[0]);
    lemma_lines_in_order(c);
    assert(line_views(plan.lines@).len() == c.req.items@.len());
    assert(line_views(plan.lines@)[i] == line_view(c, i));
    assert(line_problem(c, i) is None);
    let names = seq![
        "item_name"@,
        "quantity"@,
        "revenue"@,
        "unit_price"@,
        "order_id"@,
        "cost_at_sale"@,
        "discount_amount"@,
        "sale_date"@,
        "customer"@,
        "customer_phone"@,
        "payment_method"@,
    ];
    let base = sale_base(c, i);
    let fields = c.sales.fields@;
    assert forall|j: int| 0 <= j < names.len() && base.contains_key(#[trigger] names[j]) implies sale_of(
        c,
        i,
    ).contains_pair(names[j], base[names[j]]) by {
        law_defaults_keep_values(fields, fields.len(), base, names[j]);
    }
    assert(names[0] == "item_name"@ && names[1] == "quantity"@ && names[2] == "revenue"@ && names[3] == "unit_price"@
        && names[4] == "order_id"@ && names[5] == "cost_at_sale"@ && names[6] == "discount_amount"@ && names[7]
        == "sale_date"@ && names[8] == "customer"@ && names[9] == "customer_phone"@ && names[10] == "payment_method"@);
}

/// The subtotal of a checkout is what its lines come to, and its discount what
/// is taken off them.
pub proof fn law_subtotal_is_the_sum_of_the_lines(c: CheckoutInput, plan: CheckoutPlan)
    requires
        plan_is(plan, c),
    ensures
        plan.subtotal == sum_upto(plan.lines@.len(), |i: int| plan.lines@[i].line_total as int),
        plan.total_discount == sum_upto(plan.lines@.len(), |i: int| plan.lines@[i].discount_amount as int),
{
    assert(line_views(plan.lines@).len() == c.req.items@.len());
    lemma_sums_of_lines(c, plan, plan.lines@.len());
}

proof fn lemma_sums_of_lines(c: CheckoutInput, plan: CheckoutPlan, n: nat)
    requires
        plan_is(plan, c),
        n <= plan.lines@.len(),
    ensures
        paid_for(c, n) == sum_upto(n, |i: int| plan.lines@[i].line_total as int),
        discounted(c, n) == sum_upto(n, |i: int| plan.lines@[i].discount_amount as int),
    decreases n,
{
    if n > 0 {
        lemma_sums_of_lines(c, plan, (n - 1) as nat);
        assert(line_views(plan.lines@).len() == c.req.items@.len());
        assert(line_views(plan.lines@)[n - 1] == line_view(c, n - 1));
    }
}

/// A credit sale is money that the customer owes the business, and nothing has
/// come in yet: the debt is owed to the business by the customer of the request,
/// comes to the subtotal, is not settled, and knows its order, its number and
/// when it is due. No income is posted for it.
pub proof fn law_credit_is_owed_to_the_business(c: CheckoutInput, plan: CheckoutPlan)
    requires
        checkout_problem(c) is None,
        plan_is(plan, c),
        c.req.on_credit,
        c.debt_credit is Some,
    ensures
        plan.income is None,
        plan.debt is Some,
        ({
            let debt = plan.debt->0@;
            &&& says(debt, "direction"@, "owed_to_business"@)
            &&& owed_to_business(debt["direction"@]->Text_0)
            &&& debt.contains_pair("settled"@, ValueView::Bool(false))
            &&& counts(debt, "amount"@, plan.subtotal as int)
            &&& c.req.customer is Some ==> says(debt, "party_name"@, c.req.customer->0@)
            &&& says(debt, "source_order_id"@, c.order_id@)
            &&& says(debt, "entry_number"@, c.entry_number@)
            &&& c.req.due_date is Some ==> says(debt, "due_date"@, c.req.due_date->0@)
        }),
{
    reveal_strlit("party_name");
    reveal_strlit("direction");
    reveal_strlit("amount");
    reveal_strlit("settled");
    reveal_strlit("notes");
    reveal_strlit("source_order_id");
    reveal_strlit("entry_number");
    reveal_strlit("due_date");
    assert("party_name"@.len() == 10 && "direction"@.len() == 9 && "amount"@.len() == 6 && "settled"@.len() == 7
        && "notes"@.len() == 5 && "source_order_id"@.len() == 15 && "entry_number"@.len() == 12 && "due_date"@.len()
        == 8);
    let base = debt_base(c);
    let fields = c.debt_credit->0.fields@;
    lemma_subtotal_fits(c);
    law_defaults_keep_values(fields, fields.len(), base, "direction"@);
    law_defaults_keep_values(fields, fields.len(), base, "settled"@);
    law_defaults_keep_values(fields, fields.len(), base, "amount"@);
    law_defaults_keep_values(fields, fields.len(), base, "party_name"@);
    law_defaults_keep_values(fields, fields.len(), base, "source_order_id"@);
    law_defaults_keep_values(fields, fields.len(), base, "entry_number"@);
    if c.req.due_date is Some {
        law_defaults_keep_values(fields, fields.len(), base, "due_date"@);
    }
}

/// What a checkout comes to fits in 64 bits.
proof fn lemma_subtotal_fits(c: CheckoutInput)
    requires
        checkout_problem(c) is None,
    ensures
        fits(paid_for(c, c.req.items@.len())),
{
    lemma_lines_in_order(c);
    let n = c.req.items@.len();
    if n > 0 {
        assert(line_problem(c, n - 1) is None);
    }
}

/// Settling the debt of a credit sale brings the subtotal in as income, and
/// tells the sales of that order how they were paid. `row` is the debt as it is
/// read back.
pub proof fn law_settled_credit_is_income(
    c: CheckoutInput,
    plan: CheckoutPlan,
    row: &DebtRow,
    access: Option<&Access>,
    payment_method: Seq<char>,
    module_enabled: bool,
)
    requires
        checkout_problem(c) is None,
        plan_is(plan, c),
        c.req.on_credit,
        c.debt_credit is Some,
        says(plan.debt->0@, "direction"@, row.direction@),
        counts(plan.debt->0@, "amount"@, row.amount as int),
        row.source_order_id is Some && says(plan.debt->0@, "source_order_id"@, row.source_order_id->0@),
    ensures
        settlement(access, payment_method, module_enabled, Some(row), c.accounting) matches Ok(p) ==> {
            &&& p.is_income
            &&& p.backfill_order == Some(c.order_id@)
            &&& p.entry is Some ==> posts(
                p.entry->0,
                "income"@,
                "Debt & Credit"@,
                plan.subtotal as int,
                Some(trimmed(payment_method)),
            )
        },
{
    law_credit_is_owed_to_the_business(c, plan);
    law_settling_moves_the_money_the_right_way(access, payment_method, module_enabled, row, c.accounting);
}

/// A sale that is paid at once is income of its subtotal, by the method that it
/// was paid with, where the business keeps books; it leaves no debt.
pub proof fn law_paid_sales_are_income(c: CheckoutInput, plan: CheckoutPlan)
    requires
        checkout_problem(c) is None,
        plan_is(plan, c),
        !c.req.on_credit,
    ensures
        plan.debt is None,
        plan.income is Some == c.accounting is Some,
        plan.income is Some ==> posts(
            plan.income->0@,
            "income"@,
            "Sales"@,
            plan.subtotal as int,
            opt_view(c.req.payment_method),
        ),
{
    lemma_subtotal_fits(c);
    if c.accounting is Some {
        law_entries_post_what_they_are_made_for(
            *c.accounting->0,
            "POS sale — order "@ + c.order_id@,
            "income"@,
            "Sales"@,
            paid_for(c, c.req.items@.len()) as i64,
            opt_view(c.req.payment_method),
        );
    }
}

/// The invoice of a checkout lists its lines at their listed prices and, behind
/// them, takes off the discount where there is one.
pub proof fn law_invoices_list_the_lines(c: CheckoutInput, plan: CheckoutPlan, i: int)
    requires
        checkout_problem(c) is None,
        plan_is(plan, c),
        0 <= i < plan.invoice_items@.len(),
    ensures
        plan.invoice_items@.len() == plan.lines@.len() + (if plan.total_discount > 0 {
            1int
        } else {
            0
        }),
        ({
            let item = plan.invoice_items@[i];
            if i < plan.lines@.len() {
                &&& item.description@ == plan.lines@[i].name@
                &&& item.quantity == plan.lines@[i].quantity
                &&& item.unit_price == plan.lines@[i].unit_price
            } else {
                item.quantity * item.unit_price == -plan.total_discount
            }
        }),
{
    assert(line_views(plan.lines@).len() == c.req.items@.len());
    assert(item_views(plan.invoice_items@).len() == plan.invoice_items@.len());
    assert(item_views(plan.invoice_items@)[i] == plan.invoice_items@[i]@);
    if i < plan.lines@.len() {
        assert(line_views(plan.lines@)[i] == line_view(c, i));
    }
}

/// Every problem of a line is real: the quantity is not above zero, no product
/// has that id, the product that has it is priced below its cost, there is less
/// of it than asked for and overselling was not asked for, or the discount
/// would bring the line below its cost. A line without any of these, whose
/// amounts fit and whose record the module accepts, has no problem.
pub proof fn law_lines_are_refused_for_a_reason(c: CheckoutInput, i: int)
    requires
        0 <= i < c.req.items@.len(),
        forall|j: int| 0 <= j < i ==> (#[trigger] line_problem(c, j)) is None,
    ensures
        ({
            let item = c.req.items@[i];
            let sought = |p: Product| p.id@ == item.inventory_record_id@;
            match line_problem(c, i) {
                Some(LineProblem::Quantity) => item.quantity <= 0,
                Some(LineProblem::NotFound) => item.quantity > 0 && forall|k: int|
                    0 <= k < c.products@.len() ==> !sought(#[trigger] c.products@[k]),
                Some(LineProblem::BelowCost { unit_price, unit_cost }) => unit_price < unit_cost && exists|k: int|
                    0 <= k < c.products@.len() && sought(#[trigger] c.products@[k]) && c.products@[k].unit_price
                        == unit_price && c.products@[k].unit_cost == unit_cost,
                Some(LineProblem::Stock { available, requested }) => available < requested && requested
                    == item.quantity && !c.req.allow_oversell && exists|k: int|
                    0 <= k < c.products@.len() && sought(#[trigger] c.products@[k]) && available
                        == c.products@[k].quantity - sold_before(c.req.items@, i as nat, item.inventory_record_id@),
                Some(LineProblem::OutOfRange) => exists|k: int|
                    0 <= k < c.products@.len() && sought(#[trigger] c.products@[k]) && {
                        let units = item.quantity as int;
                        let left = c.products@[k].quantity - sold_before(c.req.items@, i as nat, item.inventory_record_id@)
                            - units;
                        let listed = c.products@[k].unit_price * units;
                        ||| !fits(left) || !fits(listed) || !fits(listed - c.discounts@[i])
                        ||| !fits(c.products@[k].unit_cost * units)
                        ||| !fits(paid_for(c, (i + 1) as nat)) || !fits(discounted(c, (i + 1) as nat))
                    },
                Some(LineProblem::DiscountBelowCost { line_total, cost_total, quantity }) => line_total < cost_total
                    && quantity == item.quantity && exists|k: int|
                    0 <= k < c.products@.len() && sought(#[trigger] c.products@[k]) && line_total
                        == c.products@[k].unit_price * quantity - c.discounts@[i] && cost_total
                        == c.products@[k].unit_cost * quantity,
                Some(LineProblem::Invalid(e)) => record_error(c.sales.fields@, sale_of(c, i)) == Some(e),
                None => item.quantity > 0 && exists|k: int|
                    0 <= k < c.products@.len() && sought(#[trigger] c.products@[k]) && c.products@[k].unit_price
                        >= c.products@[k].unit_cost && c.products@[k].unit_price * item.quantity - c.discounts@[i]
                        >= c.products@[k].unit_cost * item.quantity && (c.req.allow_oversell || c.products@[k].quantity
                        - sold_before(c.req.items@, i as nat, item.inventory_record_id@) >= item.quantity),
            }
        }),
{
    let id = c.req.items@[i].inventory_record_id@;
    lemma_product_is(c.products@, id);
    let k = product_at(c.products@, id);
    if k < c.products@.len() {
        assert(c.products@[k].id@ == id);
        lemma_stock_fits(c, i as nat, i);
    }
}

proof fn lemma_product_is(products: Seq<Product>, id: Seq<char>)
    ensures
        0 <= product_at(products, id) <= products.len(),
        product_at(products, id) < products.len() ==> products[product_at(products, id)].id@ == id,
        forall|k: int| 0 <= k < product_at(products, id) ==> (#[trigger] products[k]).id@ != id,
    decreases products.len(),
{
    if products.len() > 0 && products[0].id@ != id {
        let rest = products.drop_first();
        lemma_product_is(rest, id);
        assert forall|k: int| 0 <= k < product_at(products, id) implies (#[trigger] products[k]).id@ != id by {
            if k > 0 {
                assert(products[k] == rest[k - 1]);
            }
        }
    }
}

/// A checkout is let through to its lines just when there is something in the
/// cart, the sender may sell, it is no repetition, the modules that it writes to
/// are there, who owes is known where it is on credit, and the discount is a
/// percentage; and it is a repetition just when its own key is on file.
pub proof fn law_who_may_check_out(
    access: Option<&Access>,
    req: CheckoutRequest,
    already_done: bool,
    inventory_enabled: bool,
    sales_enabled: bool,
    debt_credit_enabled: bool,
)
    ensures
        ({
            let g = gate_for(access, req, already_done, inventory_enabled, sales_enabled, debt_credit_enabled);
            let may_sell = access is Some && granted(access->0.permissions@, "inventory"@, "sell"@);
            let repeated = req.idempotency_key is Some && already_done;
            &&& g == Ok::<Gate, GateErrorView>(Gate::Proceed) <==> {
                &&& req.items@.len() > 0
                &&& may_sell
                &&& !repeated
                &&& inventory_enabled && sales_enabled
                &&& req.on_credit ==> debt_credit_enabled && given(opt_view(req.customer))
                &&& req.discount_in_range
            }
            &&& g == Ok::<Gate, GateErrorView>(Gate::Replay) <==> req.items@.len() > 0 && may_sell && repeated
        }),
{
}

/// A name or a phone number with a digit to it always identifies a customer, so
/// no checkout is refused for its customer where either is given.
pub proof fn law_known_customers_can_buy(c: CheckoutInput)
    ensures
        given(opt_view(c.req.customer)) ==> checkout_problem(c) != Some(CheckoutError::Customer),
        c.req.customer is None && c.req.customer_phone is None ==> checkout_problem(c) != Some(
            CheckoutError::Customer,
        ),
{
}

// ---------------------------------------------------------------------------
// Sentences
// ---------------------------------------------------------------------------

/// The sentence for a problem with a line. `invalid` is the sentence for a record
/// that is not valid.
pub open spec fn line_message(
    problem: LineProblem,
    product_id: Seq<char>,
    name: Seq<char>,
    code: Seq<char>,
    discount: Seq<char>,
    invalid: Seq<char>,
) -> Seq<char> {
    match problem {
        LineProblem::Quantity => "quantity must be greater than zero"@,
        LineProblem::NotFound => "product not found: "@ + product_id,
        LineProblem::BelowCost { unit_price, unit_cost } => "cannot sell '"@ + name + "': priced at "@ + amount_text(
            unit_price as int,
            places_of(code),
        ) + " but costs "@ + amount_text(unit_cost as int, places_of(code))
            + " — this would sell at a loss. Raise the price in Inventory first."@,
        LineProblem::Stock { available, requested } => "not enough stock for '"@ + name + "': "@ + signed_decimal(
            available as int,
        ) + " available, "@ + signed_decimal(requested as int) + " requested"@,
        LineProblem::OutOfRange => "amount out of range for '"@ + name + "'"@,
        LineProblem::DiscountBelowCost { line_total, cost_total, quantity } => "cannot sell '"@ + name + "' at a "@
            + discount + "% discount: "@ + signed_decimal(quantity as int) + " × "@ + amount_text(
            line_total as int,
            places_of(code),
        ) + " would be below its "@ + amount_text(cost_total as int, places_of(code))
            + " cost. Lower the discount or raise the price first."@,
        LineProblem::Invalid(e) => invalid,
    }
}

/// The sentence for a problem with a line.
pub fn line_problem_text(
    problem: LineProblem,
    product_id: &str,
    name: &str,
    currency: &str,
    discount: &str,
    invalid: &str,
) -> (s: String)
    ensures
        s@ == line_message(problem, product_id@, name@, currency@, discount@, invalid@),
{
    match problem {
        LineProblem::Quantity => "quantity must be greater than zero".to_owned(),
        LineProblem::NotFound => cat("product not found: ", product_id),
        LineProblem::BelowCost { unit_price, unit_cost } => {
            let mut s = "cannot sell '".to_owned();
            s.append(name);
            s.append("': priced at ");
            s.append(format_money(unit_price, currency).as_str());
            s.append(" but costs ");
            s.append(format_money(unit_cost, currency).as_str());
            s.append(" — this would sell at a loss. Raise the price in Inventory first.");
            s
        },
        LineProblem::Stock { available, requested } => {
            let mut s = "not enough stock for '".to_owned();
            s.append(name);
            s.append("': ");
            s.append(i64_text(available).as_str());
            s.append(" available, ");
            s.append(i64_text(requested).as_str());
            s.append(" requested");
            s
        },
        LineProblem::OutOfRange => cat3("amount out of range for '", name, "'"),
        LineProblem::DiscountBelowCost { line_total, cost_total, quantity } => {
            let mut s = "cannot sell '".to_owned();
            s.append(name);
            s.append("' at a ");
            s.append(discount);
            s.append("% discount: ");
            s.append(i64_text(quantity).as_str());
            s.append(" × ");
            s.append(format_money(line_total, currency).as_str());
            s.append(" would be below its ");
            s.append(format_money(cost_total, currency).as_str());
            s.append(" cost. Lower the discount or raise the price first.");
            s
        },
        LineProblem::Invalid(_) => invalid.to_owned(),
    }
}

// ---------------------------------------------------------------------------
// Service sales
// ---------------------------------------------------------------------------

/// One line of a service sale; there is no stock to refer to.
#[derive(Debug)]
pub struct ServiceLine {
    pub description: String,
    pub unit_price: i64,
    pub quantity: i64,
}

/// A request to ring up services. It is always paid at once.
#[derive(Debug)]
pub struct ServiceSaleRequest {
    pub lines: Vec<ServiceLine>,
    pub payment_method: Option<String>,
    pub customer: Option<String>,
    pub customer_phone: Option<String>,
}

/// Everything that a service sale is decided from.
pub struct ServiceInput<'a> {
    pub access: Option<&'a Access>,
    pub req: &'a ServiceSaleRequest,
    /// There where the business has the Sales module.
    pub sales: Option<&'a ModuleDef>,
    /// There where the business keeps books.
    pub accounting: Option<&'a ModuleDef>,
    pub order_id: &'a str,
    pub today: &'a str,
}

/// What is wrong with a line of a service sale, in the order in which it is
/// checked.
#[derive(Clone, Copy, PartialEq, Eq, Structural, Debug)]
pub enum ServiceProblem {
    Quantity,
    NegativePrice,
    NoDescription,
    /// An amount does not fit in 64 bits.
    OutOfRange,
    /// The Sales module refuses the record.
    Invalid(ValidationError),
}

/// A problem and the line that has it.
#[derive(Clone, Copy, PartialEq, Eq, Structural, Debug)]
pub struct ServiceLineError {
    pub line: usize,
    pub problem: ServiceProblem,
}

/// Why a service sale is refused.
#[derive(Debug)]
pub enum ServiceError {
    NoLines,
    Access(AccessError),
    SalesDisabled,
    /// A customer was given who cannot be identified.
    Customer,
    Line(ServiceLineError),
    /// The Bookkeeping module refuses the entry.
    Entry(ValidationError),
}

/// Why a service sale is refused.
pub enum ServiceErrorView {
    NoLines,
    Access(AccessErrorView),
    SalesDisabled,
    Customer,
    Line(ServiceLineError),
    Entry(ValidationError),
}

impl View for ServiceError {
    type V = ServiceErrorView;

    open spec fn view(&self) -> ServiceErrorView {
        match *self {
            ServiceError::NoLines => ServiceErrorView::NoLines,
            ServiceError::Access(e) => ServiceErrorView::Access(e@),
            ServiceError::SalesDisabled => ServiceErrorView::SalesDisabled,
            ServiceError::Customer => ServiceErrorView::Customer,
            ServiceError::Line(e) => ServiceErrorView::Line(e),
            ServiceError::Entry(e) => ServiceErrorView::Entry(e),
        }
    }
}

/// The price times the quantity of line `i`.
pub open spec fn service_total(req: ServiceSaleRequest, i: int) -> int {
    req.lines@[i].unit_price * req.lines@[i].quantity
}

/// The total of the first `n` lines.
pub open spec fn service_sum(req: ServiceSaleRequest, n: nat) -> int
    decreases n,
{
    if n == 0 {
        0
    } else {
        service_sum(req, (n - 1) as nat) + service_total(req, n - 1)
    }
}

/// The sale of line `i`, before the module's defaults are filled in.
pub open spec fn service_base(c: ServiceInput, i: int) -> Map<Seq<char>, ValueView> {
    let line = c.req.lines@[i];
    let m = Map::<Seq<char>, ValueView>::empty().insert("item_name"@, ValueView::Text(trimmed(line.description@))).insert(
        "quantity"@,
        ValueView::Int(line.quantity),
    ).insert("revenue"@, ValueView::Int(service_total(*c.req, i) as i64)).insert(
        "unit_price"@,
        ValueView::Int(line.unit_price),
    ).insert("order_id"@, ValueView::Text(c.order_id@)).insert("sale_date"@, ValueView::Text(c.today@));
    put_text(
        put_text(
            put_text(m, "customer"@, opt_view(c.req.customer)),
            "customer_phone"@,
            clean_phone(opt_view(c.req.customer_phone)),
        ),
        "payment_method"@,
        opt_view(c.req.payment_method),
    )
}

/// The sale of line `i` as it is stored.
pub open spec fn service_sale_of(c: ServiceInput, i: int) -> Map<Seq<char>, ValueView> {
    with_defaults(c.sales->0.fields@, service_base(c, i))
}

/// What is wrong with line `i`.
pub open spec fn service_problem(c: ServiceInput, i: int) -> Option<ServiceProblem> {
    let line = c.req.lines@[i];
    if line.quantity <= 0 {
        Some(ServiceProblem::Quantity)
    } else if line.unit_price < 0 {
        Some(ServiceProblem::NegativePrice)
    } else if blank(line.description@) {
        Some(ServiceProblem::NoDescription)
    } else if !fits(service_total(*c.req, i)) || !fits(service_sum(*c.req, (i + 1) as nat)) {
        Some(ServiceProblem::OutOfRange)
    } else {
        match record_error(c.sales->0.fields@, service_sale_of(c, i)) {
            Some(e) => Some(ServiceProblem::Invalid(e)),
            None => None,
        }
    }
}

/// The problem of line `i` with its place.
pub open spec fn service_line_error(c: ServiceInput, i: int) -> Option<ServiceLineError> {
    match service_problem(c, i) {
        Some(problem) => Some(ServiceLineError { line: i as usize, problem }),
        None => None,
    }
}

/// The first problem among the lines.
pub open spec fn service_lines_error(c: ServiceInput) -> Option<ServiceLineError> {
    first_some(c.req.lines@.len(), |i: int| service_line_error(c, i))
}

/// The income of a service sale, where the business keeps books.
pub open spec fn service_income(c: ServiceInput) -> Option<Map<Seq<char>, ValueView>> {
    match c.accounting {
        Some(m) => Some(
            with_defaults(
                m.fields@,
                entry_map(
                    "Service sale — order "@ + c.order_id@,
                    "income"@,
                    "Service Sales"@,
                    service_sum(*c.req, c.req.lines@.len()) as i64,
                    opt_view(c.req.payment_method),
                ),
            ),
        ),
        None => None,
    }
}

/// Why a service sale is refused; `None` where it goes through.
pub open spec fn service_refusal(c: ServiceInput) -> Option<ServiceErrorView> {
    let customer = opt_view(c.req.customer);
    let phone = opt_view(c.req.customer_phone);
    let denied = refusal(c.access, "sales"@, "create"@);
    if c.req.lines@.len() == 0 {
        Some(ServiceErrorView::NoLines)
    } else if denied is Some {
        Some(ServiceErrorView::Access(denied->0))
    } else if c.sales is None {
        Some(ServiceErrorView::SalesDisabled)
    } else if names_customer(customer, phone) && key_of(customer, phone) is None {
        Some(ServiceErrorView::Customer)
    } else if service_lines_error(c) is Some {
        Some(ServiceErrorView::Line(service_lines_error(c)->0))
    } else if service_income(c) is Some && record_error(c.accounting->0.fields@, service_income(c)->0) is Some {
        Some(ServiceErrorView::Entry(record_error(c.accounting->0.fields@, service_income(c)->0)->0))
    } else {
        None
    }
}

/// One line of a service sale that goes through.
#[derive(Debug)]
pub struct PlannedService {
    pub line_total: i64,
    pub sale: Record,
}

/// Everything that a service sale writes, all of it or nothing.
#[derive(Debug)]
pub struct ServicePlan {
    pub customer: Option<CustomerKey>,
    pub lines: Vec<PlannedService>,
    pub subtotal: i64,
    pub income: Option<Record>,
    pub invoice_items: Vec<InvoiceItem>,
}

/// The line of the invoice for line `i`.
pub open spec fn service_invoice_line(c: ServiceInput, i: int) -> ItemView {
    let line = c.req.lines@[i];
    ItemView {
        description: trimmed(line.description@),
        quantity: line.quantity as int,
        unit_price: line.unit_price as int,
    }
}

/// The plan is what the input asks for.
pub open spec fn service_plan_is(plan: ServicePlan, c: ServiceInput) -> bool {
    let n = c.req.lines@.len();
    &&& opt_key(plan.customer) == key_of(opt_view(c.req.customer), opt_view(c.req.customer_phone))
    &&& plan.lines@.len() == n
    &&& forall|i: int|
        0 <= i < n ==> (#[trigger] plan.lines@[i]).line_total == service_total(*c.req, i) && plan.lines@[i].sale@
            == service_sale_of(c, i)
    &&& plan.subtotal == service_sum(*c.req, n)
    &&& opt_record(plan.income) == service_income(c)
    &&& item_views(plan.invoice_items@) == Seq::new(n, |i: int| service_invoice_line(c, i))
}

fn plan_service_line(c: &ServiceInput, sales: &ModuleDef, i: usize, subtotal: i64) -> (r: Result<
    PlannedService,
    ServiceProblem,
>)
    requires
        i < c.req.lines@.len(),
        c.sales == Some(sales),
        subtotal == service_sum(*c.req, i as nat),
    ensures
        match r {
            Ok(line) => service_problem(*c, i as int) is None && line.line_total == service_total(*c.req, i as int)
                && line.sale@ == service_sale_of(*c, i as int),
            Err(e) => service_problem(*c, i as int) == Some(e),
        },
{
    let line = &c.req.lines[i];
    if line.quantity <= 0 {
        return Err(ServiceProblem::Quantity);
    }
    if line.unit_price < 0 {
        return Err(ServiceProblem::NegativePrice);
    }
    let description = trim(line.description.as_str());
    if description.as_str().is_empty() {
        return Err(ServiceProblem::NoDescription);
    }
    let total: i128 = times(line.unit_price, line.quantity);
    if !in_range(total) || !in_range(subtotal as i128 + total) {
        return Err(ServiceProblem::OutOfRange);
    }
    let mut sale = Record::new();
    sale.insert_text("item_name", description.as_str());
    sale.insert_int("quantity", line.quantity);
    sale.insert_int("revenue", total as i64);
    sale.insert_int("unit_price", line.unit_price);
    sale.insert_text("order_id", c.order_id);
    sale.insert_text("sale_date", c.today);
    sale.insert_opt_text("customer", &c.req.customer);
    let phone = usable_phone(as_opt_str(&c.req.customer_phone));
    sale.insert_opt_text("customer_phone", &phone);
    sale.insert_opt_text("payment_method", &c.req.payment_method);
    assert(sale@ == service_base(*c, i as int));
    match sales.complete(sale) {
        Err(e) => Err(ServiceProblem::Invalid(e)),
        Ok(sale) => Ok(PlannedService { line_total: total as i64, sale }),
    }
}

/// Decides a service sale: what it writes, or why it is refused.
pub fn create_service_sale(c: &ServiceInput) -> (r: Result<ServicePlan, ServiceError>)
    ensures
        match r {
            Ok(plan) => service_refusal(*c) is None && service_plan_is(plan, *c),
            Err(e) => service_refusal(*c) == Some(e@),
        },
{
    let ghost n = c.req.lines@.len();
    let ghost problems = |i: int| service_line_error(*c, i);
    if c.req.lines.len() == 0 {
        return Err(ServiceError::NoLines);
    }
    match require(c.access, "sales", "create") {
        Err(e) => {
            return Err(ServiceError::Access(e));
        },
        Ok(()) => {},
    }
    match c.sales {
        None => Err(ServiceError::SalesDisabled),
        Some(sales) => {
            let customer = customer_key(as_opt_str(&c.req.customer), as_opt_str(&c.req.customer_phone));
            if (is_given(&c.req.customer) || is_given(&c.req.customer_phone)) && customer.is_none() {
                return Err(ServiceError::Customer);
            }
            let mut lines: Vec<PlannedService> = Vec::new();
            let mut invoice_items: Vec<InvoiceItem> = Vec::new();
            let mut subtotal: i64 = 0;
            let mut i: usize = 0;
            while i < c.req.lines.len()
                invariant
                    n == c.req.lines@.len(),
                    n > 0,
                    i <= n,
                    c.sales == Some(sales),
                    refusal(c.access, "sales"@, "create"@) is None,
                    !(names_customer(opt_view(c.req.customer), opt_view(c.req.customer_phone)) && key_of(
                        opt_view(c.req.customer),
                        opt_view(c.req.customer_phone),
                    ) is None),
                    problems == (|i: int| service_line_error(*c, i)),
                    first_some(i as nat, problems) is None,
                    subtotal == service_sum(*c.req, i as nat),
                    lines@.len() == i,
                    forall|j: int|
                        0 <= j < i ==> (#[trigger] lines@[j]).line_total == service_total(*c.req, j)
                            && lines@[j].sale@ == service_sale_of(*c, j),
                    invoice_items@.len() == i,
                    forall|j: int| 0 <= j < i ==> (#[trigger] invoice_items@[j])@ == service_invoice_line(*c, j),
                decreases n - i,
            {
                match plan_service_line(c, sales, i, subtotal) {
                    Err(problem) => {
                        proof {
                            lemma_first_some_at(n, i as nat, problems);
                        }
                        return Err(ServiceError::Line(ServiceLineError { line: i, problem }));
                    },
                    Ok(line) => {
                        subtotal = subtotal + line.line_total;
                        invoice_items.push(
                            InvoiceItem {
                                description: trim(c.req.lines[i].description.as_str()),
                                quantity: c.req.lines[i].quantity,
                                unit_price: c.req.lines[i].unit_price,
                            },
                        );
                        lines.push(line);
                    },
                }
                i = i + 1;
            }
            let mut income: Option<Record> = None;
            match c.accounting {
                Some(m) => {
                    let description = cat("Service sale — order ", c.order_id);
                    match ledger_entry(
                        m,
                        description.as_str(),
                        "income",
                        "Service Sales",
                        subtotal,
                        &c.req.payment_method,
                    ) {
                        Ok(e) => {
                            income = Some(e);
                        },
                        Err(e) => {
                            return Err(ServiceError::Entry(e));
                        },
                    }
                },
                None => {},
            }
            let plan = ServicePlan { customer, lines, subtotal, income, invoice_items };
            assert(item_views(plan.invoice_items@) =~= Seq::new(n, |i: int| service_invoice_line(*c, i)));
            Ok(plan)
        },
    }
}

/// The lines of a service sale's invoice add up to its subtotal.
pub proof fn law_service_invoice_adds_up(c: ServiceInput, n: nat)
    requires
        n <= c.req.lines@.len(),
    ensures
        lines_total(Seq::new(c.req.lines@.len(), |i: int| service_invoice_line(c, i)), n) == service_sum(*c.req, n),
    decreases n,
{
    if n > 0 {
        law_service_invoice_adds_up(c, (n - 1) as nat);
        let line = c.req.lines@[n - 1];
        assert(line.quantity * line.unit_price == line.unit_price * line.quantity) by (nonlinear_arith);
    }
}

proof fn lemma_service_lines_in_order(c: ServiceInput)
    requires
        service_refusal(c) is None,
    ensures
        forall|i: int| 0 <= i < c.req.lines@.len() ==> (#[trigger] service_problem(c, i)) is None,
{
    let problems = |i: int| service_line_error(c, i);
    lemma_first_some_none(c.req.lines@.len(), problems);
    assert forall|i: int| 0 <= i < c.req.lines@.len() implies (#[trigger] service_problem(c, i)) is None by {
        assert(problems(i) is None);
    }
}

/// Every line of a service sale that goes through comes to its price times its
/// quantity, and the sale that is stored for it says so: what was done and how
/// often, at which price, what was paid, in which order and on which day, and
/// whatever was said of the customer and the payment. It has at least one unit,
/// a price that is not below zero and a description.
pub proof fn law_stored_services_say_what_was_done(c: ServiceInput, plan: ServicePlan, i: int)
    requires
        service_refusal(c) is None,
        service_plan_is(plan, c),
        0 <= i < plan.lines@.len(),
    ensures
        plan.lines@.len() == c.req.lines@.len(),
        ({
            let line = c.req.lines@[i];
            let sale = plan.lines@[i].sale@;
            &&& line.quantity > 0 && line.unit_price >= 0 && !blank(line.description@)
            &&& plan.lines@[i].line_total == line.unit_price * line.quantity
            &&& says(sale, "item_name"@, trimmed(line.description@))
            &&& counts(sale, "quantity"@, line.quantity as int)
            &&& counts(sale, "unit_price"@, line.unit_price as int)
            &&& counts(sale, "revenue"@, line.unit_price * line.quantity)
            &&& says(sale, "order_id"@, c.order_id@)
            &&& says(sale, "sale_date"@, c.today@)
            &&& c.req.customer is Some ==> says(sale, "customer"@, c.req.customer->0@)
            &&& c.req.payment_method is Some ==> says(sale, "payment_method"@, c.req.payment_method->0@)
            &&& opt_view(c.req.customer_phone) matches Some(phone) ==> normalized_phone(phone).len() > 0 ==> says(
                sale,
                "customer_phone"@,
                normalized_phone(phone),
            )
        }),
{
    reveal_strlit("item_name");
    reveal_strlit("quantity");
    reveal_strlit("revenue");
    reveal_strlit("unit_price");
    reveal_strlit("order_id");
    reveal_strlit("sale_date");
    reveal_strlit("customer");
    reveal_strlit("customer_phone");
    reveal_strlit("payment_method");
    assert("item_name"@[0] != "sale_date"@[0]);
    assert("quantity"@[0] != "order_id"@[0] && "quantity"@[0] != "customer"@[0] && "order_id"@[0] != "customer"@[0]);
    assert("customer_phone"@[0] != "payment_method"@[0]);
    lemma_service_lines_in_order(c);
    assert(service_problem(c, i) is None);
    let names = seq![
        "item_name"@,
        "quantity"@,
        "revenue"@,
        "unit_price"@,
        "order_id"@,
        "sale_date"@,
        "customer"@,
        "customer_phone"@,
        "payment_method"@,
    ];
    let base = service_base(c, i);
    let fields = c.sales->0.fields@;
    assert forall|j: int| 0 <= j < names.len() && base.contains_key(#[trigger] names[j]) implies service_sale_of(
        c,
        i,
    ).contains_pair(names[j], base[names[j]]) by {
        law_defaults_keep_values(fields, fields.len(), base, names[j]);
    }
    assert(names[0] == "item_name"@ && names[1] == "quantity"@ && names[2] == "revenue"@ && names[3] == "unit_price"@
        && names[4] == "order_id"@ && names[5] == "sale_date"@ && names[6] == "customer"@ && names[7]
        == "customer_phone"@ && names[8] == "payment_method"@);
}

/// A service sale is paid at once: its subtotal is what its lines come to, and
/// all of it is income, by the method that it was paid with, where the business
/// keeps books. Its invoice lists the same lines.
pub proof fn law_services_are_paid_at_once(c: ServiceInput, plan: ServicePlan)
    requires
        service_refusal(c) is None,
        service_plan_is(plan, c),
    ensures
        plan.subtotal == sum_upto(plan.lines@.len(), |i: int| plan.lines@[i].line_total as int),
        plan.income is Some == c.accounting is Some,
        plan.income is Some ==> posts(
            plan.income->0@,
            "income"@,
            "Service Sales"@,
            plan.subtotal as int,
            opt_view(c.req.payment_method),
        ),
        plan.invoice_items@.len() == plan.lines@.len(),
        forall|i: int|
            0 <= i < plan.invoice_items@.len() ==> {
                &&& (#[trigger] plan.invoice_items@[i]).description@ == trimmed(c.req.lines@[i].description@)
                &&& plan.invoice_items@[i].quantity == c.req.lines@[i].quantity
                &&& plan.invoice_items@[i].unit_price == c.req.lines@[i].unit_price
            },
{
    let n = c.req.lines@.len();
    lemma_sum_of_services(c, plan, n);
    lemma_service_lines_in_order(c);
    if n > 0 {
        assert(service_problem(c, n - 1) is None);
    }
    assert(item_views(plan.invoice_items@).len() == plan.invoice_items@.len());
    assert forall|i: int| 0 <= i < plan.invoice_items@.len() implies {
        &&& (#[trigger] plan.invoice_items@[i]).description@ == trimmed(c.req.lines@[i].description@)
        &&& plan.invoice_items@[i].quantity == c.req.lines@[i].quantity
        &&& plan.invoice_items@[i].unit_price == c.req.lines@[i].unit_price
    } by {
        assert(item_views(plan.invoice_items@)[i] == service_invoice_line(c, i));
    }
    if c.accounting is Some {
        law_entries_post_what_they_are_made_for(
            *c.accounting->0,
            "Service sale — order "@ + c.order_id@,
            "income"@,
            "Service Sales"@,
            service_sum(*c.req, n) as i64,
            opt_view(c.req.payment_method),
        );
    }
}

proof fn lemma_sum_of_services(c: ServiceInput, plan: ServicePlan, n: nat)
    requires
        service_plan_is(plan, c),
        n <= plan.lines@.len(),
    ensures
        service_sum(*c.req, n) == sum_upto(n, |i: int| plan.lines@[i].line_total as int),
    decreases n,
{
    if n > 0 {
        lemma_sum_of_services(c, plan, (n - 1) as nat);
        assert(plan.lines@[n - 1].line_total == service_total(*c.req, n - 1));
    }
}

/// A service sale is refused for what is wrong with it and for nothing else:
/// there is no line, the sender may not make sales, there is no Sales module, a
/// customer is given who is nobody, a line has no quantity, a price below zero,
/// no description or an amount beyond 64 bits, or a record is not accepted.
pub proof fn law_services_are_refused_for_a_reason(c: ServiceInput, i: int)
    requires
        0 <= i < c.req.lines@.len(),
    ensures
        service_refusal(c) is None ==> c.sales is Some && c.access is Some && granted(
            c.access->0.permissions@,
            "sales"@,
            "create"@,
        ),
        ({
            let line = c.req.lines@[i];
            match service_problem(c, i) {
                Some(ServiceProblem::Quantity) => line.quantity <= 0,
                Some(ServiceProblem::NegativePrice) => line.unit_price < 0,
                Some(ServiceProblem::NoDescription) => blank(line.description@),
                Some(ServiceProblem::OutOfRange) => !fits(line.unit_price * line.quantity) || !fits(
                    service_sum(*c.req, (i + 1) as nat),
                ),
                Some(ServiceProblem::Invalid(e)) => record_error(c.sales->0.fields@, service_sale_of(c, i)) == Some(e),
                None => line.quantity > 0 && line.unit_price >= 0 && !blank(line.description@),
            }
        }),
        service_refusal(c) is Some ==> {
            ||| c.access is None || !granted(c.access->0.permissions@, "sales"@, "create"@)
            ||| c.sales is None
            ||| service_refusal(c)->0 is Customer && !given(opt_view(c.req.customer))
            ||| service_refusal(c)->0 is Line && exists|k: int|
                0 <= k < c.req.lines@.len() && (#[trigger] service_problem(c, k)) is Some
            ||| service_refusal(c)->0 is Entry && c.accounting is Some
        },
{
    let problems = |k: int| service_line_error(c, k);
    lemma_first_some_none(c.req.lines@.len(), problems);
    if service_lines_error(c) is Some {
        let k = choose|k: int| 0 <= k < c.req.lines@.len() && (#[trigger] problems(k)) is Some;
        assert(service_problem(c, k) is Some);
    }
}

/// The sentence for a refused service sale. `invalid` is the sentence for a
/// record that is not valid.
pub open spec fn service_message(e: ServiceErrorView, invalid: Seq<char>) -> Seq<char> {
    match e {
        ServiceErrorView::NoLines => "add at least one line"@,
        ServiceErrorView::Access(a) => a.message(),
        ServiceErrorView::SalesDisabled => "the Sales module isn't enabled for this business"@,
        ServiceErrorView::Customer => "a name or phone number is required to identify a customer"@,
        ServiceErrorView::Line(l) => match l.problem {
            ServiceProblem::Quantity => "quantity must be greater than zero"@,
            ServiceProblem::NegativePrice => "price cannot be negative"@,
            ServiceProblem::NoDescription => "every line needs a description"@,
            ServiceProblem::OutOfRange => "amount out of range"@,
            ServiceProblem::Invalid(v) => invalid,
        },
        ServiceErrorView::Entry(v) => invalid,
    }
}

/// The sentence for a refused service sale.
pub fn service_error_text(e: &ServiceError, invalid: &str) -> (s: String)
    ensures
        s@ == service_message(e@, invalid@),
{
    match e {
        ServiceError::NoLines => "add at least one line".to_owned(),
        ServiceError::Access(a) => a.message(),
        ServiceError::SalesDisabled => "the Sales module isn't enabled for this business".to_owned(),
        ServiceError::Customer => "a name or phone number is required to identify a customer".to_owned(),
        ServiceError::Line(l) => match l.problem {
            ServiceProblem::Quantity => "quantity must be greater than zero".to_owned(),
            ServiceProblem::NegativePrice => "price cannot be negative".to_owned(),
            ServiceProblem::NoDescription => "every line needs a description".to_owned(),
            ServiceProblem::OutOfRange => "amount out of range".to_owned(),
            ServiceProblem::Invalid(_) => invalid.to_owned(),
        },
        ServiceError::Entry(_) => invalid.to_owned(),
    }
}

// ---------------------------------------------------------------------------
// Looking things up
// ---------------------------------------------------------------------------

/// The number, brought between the two bounds.
pub open spec fn clamped(n: int, lo: int, hi: int) -> int {
    if n < lo {
        lo
    } else if n > hi {
        hi
    } else {
        n
    }
}

/// The number, brought between the two bounds.
pub fn clamp(n: i64, lo: i64, hi: i64) -> (r: i64)
    requires
        lo <= hi,
    ensures
        r == clamped(n as int, lo as int, hi as int),
{
    if n < lo {
        lo
    } else if n > hi {
        hi
    } else {
        n
    }
}

/// Bringing a number between two bounds leaves one that is between them as it
/// is, gives the nearer bound for any other, and never leaves the bounds.
pub proof fn law_clamping_keeps_what_fits(n: int, lo: int, hi: int)
    requires
        lo <= hi,
    ensures
        lo <= clamped(n, lo, hi) <= hi,
        lo <= n <= hi ==> clamped(n, lo, hi) == n,
        n > hi ==> clamped(n, lo, hi) == hi,
        n < lo ==> clamped(n, lo, hi) == lo,
{
}

/// A search among the products: its statement, and its pattern where there is
/// a search term. The parameters are the business, the pattern if there is
/// one, and the limit.
#[derive(Debug)]
pub struct ProductQuery {
    pub statement: String,
    pub pattern: Option<String>,
    pub limit: i64,
}

/// The statement of a search among the products; it never asks for the cost.
pub open spec fn product_statement(table: Seq<char>, searching: bool) -> Seq<char> {
    "SELECT id, name, sku, unit_price, quantity FROM "@ + table + " WHERE business_id = ?1 AND deleted_at IS NULL"@ + (
    if searching {
        " AND (name LIKE ?2 OR sku LIKE ?2) ORDER BY quantity DESC LIMIT ?3"@
    } else {
        " ORDER BY quantity DESC LIMIT ?2"@
    })
}

/// A search among the products of the till: by name or SKU where the term is
/// not blank, at most 200 of them.
pub fn lookup_products(table: &str, search: &Option<String>, limit: i64) -> (q: ProductQuery)
    ensures
        q.statement@ == product_statement(table@, given(opt_view(*search))),
        opt_view(q.pattern) == if given(opt_view(*search)) {
            Some("%"@ + opt_view(*search)->0 + "%"@)
        } else {
            None
        },
        q.limit == clamped(limit as int, 1, 200),
{
    let mut statement = "SELECT id, name, sku, unit_price, quantity FROM ".to_owned();
    statement.append(table);
    statement.append(" WHERE business_id = ?1 AND deleted_at IS NULL");
    let mut pattern: Option<String> = None;
    if is_given(search) {
        match search {
            Some(term) => {
                pattern = Some(cat3("%", term.as_str(), "%"));
            },
            None => {},
        }
        statement.append(" AND (name LIKE ?2 OR sku LIKE ?2) ORDER BY quantity DESC LIMIT ?3");
    } else {
        statement.append(" ORDER BY quantity DESC LIMIT ?2");
    }
    ProductQuery { statement, pattern, limit: clamp(limit, 1, 200) }
}

/// The statement for the items that run low.
pub open spec fn low_stock_statement(table: Seq<char>) -> Seq<char> {
    "SELECT name, quantity, reorder_level FROM "@ + table
        + " WHERE business_id = ?1 AND deleted_at IS NULL AND quantity <= reorder_level ORDER BY quantity ASC LIMIT ?2"@
}

/// The till finds the products of its own business that are not deleted. A search
/// finds those whose name or SKU has the term in it; what there is most of comes
/// first. Returned are the two conditions that the statement of a search joins.
pub proof fn law_searches_find_products_by_name_or_sku(table: Seq<char>) -> (r: (Seq<char>, Seq<char>))
    ensures
        product_statement(table, true) == "SELECT id, name, sku, unit_price, quantity FROM "@ + table + " WHERE "@ + r.0
            + " AND ("@ + r.1 + ")"@ + " ORDER BY quantity DESC LIMIT ?3"@,
        demands(r.0, seq!["business_id = ?1"@, "deleted_at IS NULL"@]),
        forall|truth: spec_fn(Seq<char>) -> bool| #[trigger]
            condition_holds(r.1, truth) == (truth("name LIKE ?2"@) || truth("sku LIKE ?2"@)),
        asks(
            product_statement(table, false),
            "SELECT id, name, sku, unit_price, quantity FROM "@ + table,
            seq!["business_id = ?1"@, "deleted_at IS NULL"@],
            " ORDER BY quantity DESC LIMIT ?2"@,
        ),
{
    let own_parts = seq!["business_id = ?1"@, "deleted_at IS NULL"@];
    let either_parts = seq!["name LIKE ?2"@, "sku LIKE ?2"@];
    let own = joined(own_parts, " AND "@);
    let either = joined(either_parts, " OR "@);
    let head = "SELECT id, name, sku, unit_price, quantity FROM "@ + table;
    reveal_strlit("business_id = ?1");
    reveal_strlit("deleted_at IS NULL");
    reveal_strlit("name LIKE ?2");
    reveal_strlit("sku LIKE ?2");
    reveal_strlit(" AND ");
    reveal_strlit(" OR ");
    reveal_strlit(" WHERE ");
    reveal_strlit(" AND (");
    reveal_strlit(")");
    reveal_strlit(" ORDER BY quantity DESC LIMIT ?3");
    reveal_strlit(" WHERE business_id = ?1 AND deleted_at IS NULL");
    reveal_strlit(" AND (name LIKE ?2 OR sku LIKE ?2) ORDER BY quantity DESC LIMIT ?3");
    lemma_joined_few(own_parts[0], own_parts[1], own_parts[1], own_parts[1], " AND "@);
    lemma_joined_few(either_parts[0], either_parts[1], either_parts[1], either_parts[1], " OR "@);
    assert(" WHERE business_id = ?1 AND deleted_at IS NULL"@ =~= " WHERE "@ + own);
    assert(" AND (name LIKE ?2 OR sku LIKE ?2) ORDER BY quantity DESC LIMIT ?3"@ =~= " AND ("@ + either + ")"@
        + " ORDER BY quantity DESC LIMIT ?3"@);
    assert(product_statement(table, false) =~= head + " WHERE "@ + own + " ORDER BY quantity DESC LIMIT ?2"@);
    assert(all_single(own_parts) && all_single(either_parts));
    lemma_asks(product_statement(table, false), head, own_parts, " ORDER BY quantity DESC LIMIT ?2"@);
    assert forall|truth: spec_fn(Seq<char>) -> bool| #[trigger]
        condition_holds(either, truth) == (truth("name LIKE ?2"@) || truth("sku LIKE ?2"@)) by {
        lemma_or_is_read(either_parts, truth);
        assert(either_parts[0] == "name LIKE ?2"@ && either_parts[1] == "sku LIKE ?2"@);
    }
    assert(product_statement(table, true) =~= "SELECT id, name, sku, unit_price, quantity FROM "@ + table + " WHERE "@
        + own + " AND ("@ + either + ")"@ + " ORDER BY quantity DESC LIMIT ?3"@);
    (own, either)
}

/// What runs low is what is at its reorder level or below, of the items of one
/// business that are not deleted; what there is least of comes first.
pub proof fn law_low_stock_is_at_or_below_its_level(table: Seq<char>)
    ensures
        asks(
            low_stock_statement(table),
            "SELECT name, quantity, reorder_level FROM "@ + table,
            seq!["business_id = ?1"@, "deleted_at IS NULL"@, "quantity <= reorder_level"@],
            " ORDER BY quantity ASC LIMIT ?2"@,
        ),
{
    let parts = seq!["business_id = ?1"@, "deleted_at IS NULL"@, "quantity <= reorder_level"@];
    let tail = " ORDER BY quantity ASC LIMIT ?2"@;
    reveal_strlit("business_id = ?1");
    reveal_strlit("deleted_at IS NULL");
    reveal_strlit("quantity <= reorder_level");
    reveal_strlit(" AND ");
    reveal_strlit(" WHERE ");
    reveal_strlit(" ORDER BY quantity ASC LIMIT ?2");
    reveal_strlit(
        " WHERE business_id = ?1 AND deleted_at IS NULL AND quantity <= reorder_level ORDER BY quantity ASC LIMIT ?2",
    );
    lemma_joined_few(parts[0], parts[1], parts[2], parts[2], " AND "@);
    assert(" WHERE business_id = ?1 AND deleted_at IS NULL AND quantity <= reorder_level ORDER BY quantity ASC LIMIT ?2"@
        =~= " WHERE "@ + joined(parts, " AND "@) + tail);
    let head = "SELECT name, quantity, reorder_level FROM "@ + table;
    assert(low_stock_statement(table) =~= head + " WHERE "@ + joined(parts, " AND "@) + tail);
    assert(all_single(parts));
    lemma_asks(low_stock_statement(table), head, parts, tail);
}

/// The query for the items that run low, the lowest first: at least one of them,
/// at most a hundred.
pub fn low_stock_items(table: &str, limit: i64) -> (q: ProductQuery)
    ensures
        q.statement@ == low_stock_statement(table@),
        q.statement@ == "SELECT name, quantity, reorder_level FROM "@ + table@
            + " WHERE business_id = ?1 AND deleted_at IS NULL AND quantity <= reorder_level ORDER BY quantity ASC LIMIT ?2"@,
        q.pattern is None,
        q.limit == clamped(limit as int, 1, 100),
{
    let statement = cat3(
        "SELECT name, quantity, reorder_level FROM ",
        table,
        " WHERE business_id = ?1 AND deleted_at IS NULL AND quantity <= reorder_level ORDER BY quantity ASC LIMIT ?2",
    );
    ProductQuery { statement, pattern: None, limit: clamp(limit, 1, 100) }
}

/// The subtotal of an order from the revenues of its lines; `None` for an
/// order without any line, which is no order.
pub fn get_order(revenues: &Vec<i64>) -> (r: Option<i64>)
    requires
        crate::customers::revenue_fits(revenues@),
    ensures
        r == if revenues@.len() == 0 {
            None
        } else {
            Some(crate::customers::revenue_of(revenues@, revenues@.len()) as i64)
        },
{
    if revenues.len() == 0 {
        None
    } else {
        Some(crate::customers::lifetime_value(revenues))
    }
}

/// The sentences for a line that cannot be sold say of the product by its name what
/// it is priced at and what it costs, how much of it there is and how much was asked
/// for, each in its own place.
pub proof fn law_sentences_name_what_is_wrong_with_a_line(
    a: i64,
    b: i64,
    quantity: i64,
    product_id: Seq<char>,
    name: Seq<char>,
    code: Seq<char>,
    discount: Seq<char>,
    invalid: Seq<char>,
)
    ensures
        crate::text::begins(
            line_message(
                LineProblem::BelowCost { unit_price: a, unit_cost: b },
                product_id,
                name,
                code,
                discount,
                invalid,
            ),
            "cannot sell '"@ + name + "': priced at "@ + amount_text(a as int, places_of(code)) + " but costs "@
                + amount_text(b as int, places_of(code)),
        ),
        line_message(
            LineProblem::Stock { available: a, requested: b },
            product_id,
            name,
            code,
            discount,
            invalid,
        ) == "not enough stock for '"@ + name + "': "@ + signed_decimal(a as int) + " available, "@ + signed_decimal(
            b as int,
        ) + " requested"@,
        crate::text::begins(
            line_message(
                LineProblem::DiscountBelowCost { line_total: a, cost_total: b, quantity },
                product_id,
                name,
                code,
                discount,
                invalid,
            ),
            "cannot sell '"@ + name + "' at a "@ + discount + "% discount: "@ + signed_decimal(quantity as int)
                + " × "@ + amount_text(a as int, places_of(code)) + " would be below its "@ + amount_text(
                b as int,
                places_of(code),
            ),
        ),
        line_message(LineProblem::NotFound, product_id, name, code, discount, invalid) == "product not found: "@
            + product_id,
{
    crate::text::lemma_begins(
        "cannot sell '"@ + name + "': priced at "@ + amount_text(a as int, places_of(code)) + " but costs "@
            + amount_text(b as int, places_of(code)),
        " — this would sell at a loss. Raise the price in Inventory first."@,
    );
    crate::text::lemma_begins(
        "cannot sell '"@ + name + "' at a "@ + discount + "% discount: "@ + signed_decimal(quantity as int) + " × "@
            + amount_text(a as int, places_of(code)) + " would be below its "@ + amount_text(b as int, places_of(code)),
        " cost. Lower the discount or raise the price first."@,
    );
}

} // verus!
