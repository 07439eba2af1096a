//! Invoices: their numbers, what they say, and how their status changes.

use crate::lists::sum_upto;
use crate::money::fixed_digits;
use crate::rbac::{granted, refusal, require, Access, AccessError, AccessErrorView};
use crate::text::{
    blank, decimal, digits_value, given, is_blank, lemma_decimal, list_has, opt_view, push_decimal, same,
    trim, trimmed, views,
};
use crate::value::{put_text, Record, Value, ValueView};
use vstd::prelude::*;

verus! {

/// One line of an invoice; the price is in minor units.
#[derive(Debug)]
pub struct InvoiceItem {
    pub description: String,
    pub quantity: i64,
    pub unit_price: i64,
}

/// What a line says.
pub struct ItemView {
    pub description: Seq<char>,
    pub quantity: int,
    pub unit_price: int,
}

impl View for InvoiceItem {
    type V = ItemView;

    open spec fn view(&self) -> ItemView {
        ItemView { description: self.description@, quantity: self.quantity as int, unit_price: self.unit_price as int }
    }
}

/// The views of a list of lines.
pub open spec fn item_views(s: Seq<InvoiceItem>) -> Seq<ItemView> {
    Seq::new(s.len(), |i: int| s[i]@)
}

/// A request for an invoice.
#[derive(Debug)]
pub struct CreateInvoiceRequest {
    pub customer: String,
    pub customer_email: Option<String>,
    pub customer_phone: Option<String>,
    pub due_date: String,
    pub items: Vec<InvoiceItem>,
    pub notes: Option<String>,
    pub source_sale_id: Option<String>,
}

// ---------------------------------------------------------------------------
// Numbers
// ---------------------------------------------------------------------------

/// At least four digits, with leading zeros where needed.
pub open spec fn four_digits(n: nat) -> Seq<char> {
    if n < 10000 {
        fixed_digits(n, 4)
    } else {
        decimal(n)
    }
}

/// The number of the invoice that comes after `count` others.
pub open spec fn number_after(count: int) -> Seq<char> {
    "INV-"@ + four_digits((count + 1) as nat)
}

/// The number of the next invoice of a business that has `count` already:
/// INV-0001, INV-0002 and so on.
pub fn generate_number(count: i64) -> (s: String)
    requires
        0 <= count < i64::MAX,
    ensures
        s@ == number_after(count as int),
{
    let n: u64 = (count + 1) as u64;
    let mut s = "INV-".to_owned();
    if n < 10000 {
        s.push((48 + (n / 1000) as u8) as char);
        s.push((48 + (n / 100 % 10) as u8) as char);
        s.push((48 + (n / 10 % 10) as u8) as char);
        s.push((48 + (n % 10) as u8) as char);
        proof {
            reveal_with_fuel(fixed_digits, 5);
            assert((n as nat / 10 / 10 / 10) % 10 == n / 1000);
            assert((n as nat / 10 / 10) % 10 == n / 100 % 10);
            assert(s@ =~= number_after(count as int));
        }
    } else {
        push_decimal(&mut s, n);
    }
    s
}

proof fn lemma_four_digits_value(n: nat)
    ensures
        digits_value(four_digits(n)) == n,
{
    if n < 10000 {
        reveal_with_fuel(fixed_digits, 5);
        reveal_with_fuel(digits_value, 5);
        let d = fixed_digits(n, 4);
        let d3 = d.drop_last();
        let d2 = d3.drop_last();
        let d1 = d2.drop_last();
        assert(d1.drop_last() =~= Seq::<char>::empty());
        assert(d3 =~= fixed_digits(n / 10, 3));
        assert(d2 =~= fixed_digits(n / 10 / 10, 2));
        assert(d1 =~= fixed_digits(n / 10 / 10 / 10, 1));
    } else {
        lemma_decimal(n);
    }
}

/// No two counts give the same invoice number.
pub proof fn law_numbers_differ(a: nat, b: nat)
    requires
        number_after(a as int) == number_after(b as int),
    ensures
        a == b,
{
    lemma_four_digits_value(a + 1);
    lemma_four_digits_value(b + 1);
    let p = "INV-"@;
    assert(number_after(a as int).skip(p.len() as int) =~= four_digits(a + 1));
    assert(number_after(b as int).skip(p.len() as int) =~= four_digits(b + 1));
}

/// The counts from `from` up to `to` whose invoice number is taken: all of
/// them.
pub open spec fn all_taken(taken: Seq<Seq<char>>, from: int, to: int) -> bool {
    forall|c: int| from <= c < to ==> taken.contains(#[trigger] number_after(c))
}

/// Whether `c` is the count to take the number after: `count` itself, or where
/// that number is already taken, the first one above it whose number is free.
pub open spec fn is_next_free(taken: Seq<Seq<char>>, count: int, c: int) -> bool {
    count <= c && all_taken(taken, count, c) && !taken.contains(number_after(c))
}

/// The count to take the number after.
pub open spec fn next_free(taken: Seq<Seq<char>>, count: int) -> int {
    choose|c: int| is_next_free(taken, count, c)
}

/// There are never more numbers taken than there are numbers on the list.
proof fn lemma_some_are_free(taken: Seq<Seq<char>>, from: int, to: int)
    requires
        0 <= from,
        to - from > taken.len(),
    ensures
        !all_taken(taken, from, to),
{
    if all_taken(taken, from, to) {
        let numbers = Seq::new((to - from) as nat, |i: int| number_after(from + i));
        assert forall|i: int, j: int| 0 <= i < numbers.len() && 0 <= j < numbers.len() && i != j implies numbers[i]
            != numbers[j] by {
            if numbers[i] == numbers[j] {
                law_numbers_differ((from + i) as nat, (from + j) as nat);
            }
        }
        numbers.unique_seq_to_set();
        assert forall|n: Seq<char>| numbers.to_set().contains(n) implies taken.to_set().contains(n) by {
            let i = choose|i: int| 0 <= i < numbers.len() && numbers[i] == n;
            assert(taken.contains(number_after(from + i)));
        }
        vstd::seq_lib::seq_to_set_is_finite(taken);
        vstd::set_lib::lemma_len_subset(numbers.to_set(), taken.to_set());
        taken.lemma_cardinality_of_set();
    }
}

proof fn lemma_next_free(taken: Seq<Seq<char>>, count: int, c: int)
    requires
        is_next_free(taken, count, c),
    ensures
        next_free(taken, count) == c,
{
    let other = next_free(taken, count);
    assert(is_next_free(taken, count, other));
    if other < c {
        assert(taken.contains(number_after(other)));
    } else if c < other {
        assert(taken.contains(number_after(c)));
    }
}

proof fn lemma_least_free(taken: Seq<Seq<char>>, count: int, c: int, d: int)
    requires
        count <= c <= d,
        all_taken(taken, count, c),
        !taken.contains(number_after(d)),
    ensures
        is_next_free(taken, count, next_free(taken, count)),
    decreases d - c,
{
    if taken.contains(number_after(c)) {
        assert forall|k: int| count <= k < c + 1 implies taken.contains(#[trigger] number_after(k)) by {}
        lemma_least_free(taken, count, c + 1, d);
    } else {
        lemma_next_free(taken, count, c);
    }
}

/// The count to take the number after: `count` itself, or where that number is
/// already taken, the first one above it whose number is free. `None` where
/// none is left.
pub fn free_count(count: i64, taken: &Vec<String>) -> (r: Option<i64>)
    requires
        0 <= count < i64::MAX,
    ensures
        match r {
            Some(c) => {
                &&& count <= c < i64::MAX
                &&& is_next_free(views(taken@), count as int, c as int)
                &&& c == next_free(views(taken@), count as int)
            },
            None => all_taken(views(taken@), count as int, i64::MAX as int),
        },
        count + taken@.len() < i64::MAX ==> r is Some,
{
    let mut c: i64 = count;
    while c < i64::MAX
        invariant
            0 <= count <= c <= i64::MAX,
            all_taken(views(taken@), count as int, c as int),
        decreases i64::MAX - c,
    {
        let number = generate_number(c);
        if !list_has(taken, number.as_str()) {
            proof {
                lemma_next_free(views(taken@), count as int, c as int);
            }
            return Some(c);
        }
        c = c + 1;
    }
    proof {
        if count + taken@.len() < i64::MAX {
            lemma_some_are_free(views(taken@), count as int, i64::MAX as int);
        }
    }
    None
}

/// The number that the next invoice gets, which none of those taken is.
fn free_number(count: i64, taken: &Vec<String>) -> (s: String)
    requires
        0 <= count,
        count + taken@.len() < i64::MAX,
    ensures
        s@ == number_after(next_free(views(taken@), count as int)),
        !views(taken@).contains(s@),
{
    match free_count(count, taken) {
        Some(c) => generate_number(c),
        None => generate_number(count),
    }
}

// ---------------------------------------------------------------------------
// Totals
// ---------------------------------------------------------------------------

/// The total of the first `n` lines.
pub open spec fn lines_total(items: Seq<ItemView>, n: nat) -> int
    decreases n,
{
    if n == 0 {
        0
    } else {
        lines_total(items, (n - 1) as nat) + items[n - 1].quantity * items[n - 1].unit_price
    }
}

/// Every line total, and every sum of line totals on the way, fits in 64 bits.
pub open spec fn totals_fit(items: Seq<ItemView>) -> bool {
    &&& forall|i: int|
        0 <= i < items.len() ==> i64::MIN <= (#[trigger] items[i]).quantity * items[i].unit_price <= i64::MAX
    &&& forall|n: nat| n <= items.len() ==> i64::MIN <= #[trigger] lines_total(items, n) <= i64::MAX
}

/// The sum of quantity times price over the lines.
pub fn invoice_subtotal(items: &Vec<InvoiceItem>) -> (total: i64)
    requires
        totals_fit(item_views(items@)),
    ensures
        total == lines_total(item_views(items@), items@.len()),
{
    let mut total: i64 = 0;
    let mut i: usize = 0;
    let ghost all = item_views(items@);
    while i < items.len()
        invariant
            i <= items@.len(),
            all == item_views(items@),
            totals_fit(all),
            total == lines_total(all, i as nat),
        decreases items@.len() - i,
    {
        assert(all[i as int] == items@[i as int]@);
        assert(i64::MIN <= all[i as int].quantity * all[i as int].unit_price <= i64::MAX);
        assert(i64::MIN <= lines_total(all, (i + 1) as nat) <= i64::MAX);
        total = total + items[i].quantity * items[i].unit_price;
        i = i + 1;
    }
    total
}

/// Whether the totals of the lines fit in 64 bits, so that they can be added
/// up.
pub fn invoice_totals_fit(items: &Vec<InvoiceItem>) -> (b: bool)
    ensures
        b == totals_fit(item_views(items@)),
{
    let mut total: i64 = 0;
    let mut i: usize = 0;
    let ghost all = item_views(items@);
    while i < items.len()
        invariant
            i <= items@.len(),
            all == item_views(items@),
            total == lines_total(all, i as nat),
            forall|k: int|
                0 <= k < i ==> i64::MIN <= (#[trigger] all[k]).quantity * all[k].unit_price <= i64::MAX,
            forall|n: nat| n <= i ==> i64::MIN <= #[trigger] lines_total(all, n) <= i64::MAX,
        decreases items@.len() - i,
    {
        assert(all[i as int] == items@[i as int]@);
        match items[i].quantity.checked_mul(items[i].unit_price) {
            None => {
                return false;
            },
            Some(line) => match total.checked_add(line) {
                None => {
                    assert(!(i64::MIN <= lines_total(all, (i + 1) as nat) <= i64::MAX));
                    return false;
                },
                Some(sum) => {
                    total = sum;
                },
            },
        }
        i = i + 1;
    }
    true
}

// ---------------------------------------------------------------------------
// Records
// ---------------------------------------------------------------------------

/// The tax of an invoice, frozen when it is made.
#[derive(Clone, Copy, PartialEq, Eq, Structural, Debug)]
pub struct FrozenTax {
    /// The bits of the rate in percent.
    pub rate_bits: u64,
    pub amount: i64,
}

/// The fields that every invoice has.
pub open spec fn invoice_base(
    number: Seq<char>,
    customer: Seq<char>,
    today: Seq<char>,
    due_date: Seq<char>,
    status: Seq<char>,
    items_json: Seq<char>,
    subtotal: i64,
    tax: FrozenTax,
) -> Map<Seq<char>, ValueView> {
    Map::<Seq<char>, ValueView>::empty().insert("invoice_number"@, ValueView::Text(number)).insert(
        "customer"@,
        ValueView::Text(customer),
    ).insert("issue_date"@, ValueView::Text(today)).insert("due_date"@, ValueView::Text(due_date)).insert(
        "status"@,
        ValueView::Text(status),
    ).insert("items_json"@, ValueView::Text(items_json)).insert("subtotal"@, ValueView::Int(subtotal)).insert(
        "tax_rate"@,
        ValueView::Real(tax.rate_bits),
    ).insert("tax_amount"@, ValueView::Int(tax.amount)).insert("total"@, ValueView::Int((subtotal + tax.amount) as i64))
}

fn base_record(
    number: &str,
    customer: &str,
    today: &str,
    due_date: &str,
    status: &str,
    items_json: &str,
    subtotal: i64,
    tax: FrozenTax,
) -> (r: Record)
    requires
        i64::MIN <= subtotal + tax.amount <= i64::MAX,
    ensures
        r@ == invoice_base(number@, customer@, today@, due_date@, status@, items_json@, subtotal, tax),
{
    let mut r = Record::new();
    r.insert_text("invoice_number", number);
    r.insert_text("customer", customer);
    r.insert_text("issue_date", today);
    r.insert_text("due_date", due_date);
    r.insert_text("status", status);
    r.insert_text("items_json", items_json);
    r.insert_int("subtotal", subtotal);
    r.insert("tax_rate", Value::Real(tax.rate_bits));
    r.insert_int("tax_amount", tax.amount);
    r.insert_int("total", subtotal + tax.amount);
    r
}

/// Why an invoice is refused, in the order in which it is checked.
#[derive(Debug)]
pub enum InvoiceError {
    Access(AccessError),
    NoItems,
    NoCustomer,
    /// The sale that the invoice is for does not exist.
    NoSale,
}

/// Why an invoice is refused.
pub enum InvoiceErrorView {
    Access(AccessErrorView),
    NoItems,
    NoCustomer,
    NoSale,
}

impl View for InvoiceError {
    type V = InvoiceErrorView;

    open spec fn view(&self) -> InvoiceErrorView {
        match *self {
            InvoiceError::Access(e) => InvoiceErrorView::Access(e@),
            InvoiceError::NoItems => InvoiceErrorView::NoItems,
            InvoiceError::NoCustomer => InvoiceErrorView::NoCustomer,
            InvoiceError::NoSale => InvoiceErrorView::NoSale,
        }
    }
}

impl InvoiceErrorView {
    /// The sentence for a refused invoice.
    pub open spec fn message(self) -> Seq<char> {
        match self {
            InvoiceErrorView::Access(e) => e.message(),
            InvoiceErrorView::NoItems => "invoice must have at least one line item"@,
            InvoiceErrorView::NoCustomer => "customer name is required"@,
            InvoiceErrorView::NoSale => "sale not found"@,
        }
    }
}

impl InvoiceError {
    /// The sentence for a refused invoice.
    pub fn message(&self) -> (s: String)
        ensures
            s@ == self@.message(),
    {
        match self {
            InvoiceError::Access(e) => e.message(),
            InvoiceError::NoItems => "invoice must have at least one line item".to_owned(),
            InvoiceError::NoCustomer => "customer name is required".to_owned(),
            InvoiceError::NoSale => "sale not found".to_owned(),
        }
    }

    /// The status that a refused invoice is answered with.
    pub fn status(&self) -> (status: u16)
        ensures
            status == (if self@ is NoSale {
                404u16
            } else {
                400u16
            }),
    {
        match self {
            InvoiceError::NoSale => 404,
            _ => 400,
        }
    }
}

/// What is wrong with a request for an invoice. `sale_found` says whether the
/// sale that it names exists.
pub open spec fn request_problem(access: Option<&Access>, req: CreateInvoiceRequest, sale_found: bool) -> Option<
    InvoiceErrorView,
> {
    match refusal(access, "invoice"@, "create"@) {
        Some(e) => Some(InvoiceErrorView::Access(e)),
        None => if req.items@.len() == 0 {
            Some(InvoiceErrorView::NoItems)
        } else if blank(req.customer@) {
            Some(InvoiceErrorView::NoCustomer)
        } else if req.source_sale_id is Some && !sale_found {
            Some(InvoiceErrorView::NoSale)
        } else {
            None
        },
    }
}

/// Checks a request for an invoice before anything is written.
pub fn check_invoice_request(access: Option<&Access>, req: &CreateInvoiceRequest, sale_found: bool) -> (r: Result<
    (),
    InvoiceError,
>)
    ensures
        match r {
            Ok(()) => request_problem(access, *req, sale_found) is None,
            Err(e) => request_problem(access, *req, sale_found) == Some(e@),
        },
{
    match require(access, "invoice", "create") {
        Err(e) => {
            return Err(InvoiceError::Access(e));
        },
        Ok(()) => {},
    }
    if req.items.len() == 0 {
        return Err(InvoiceError::NoItems);
    }
    if is_blank(req.customer.as_str()) {
        return Err(InvoiceError::NoCustomer);
    }
    if req.source_sale_id.is_some() && !sale_found {
        return Err(InvoiceError::NoSale);
    }
    Ok(())
}

/// What a requested invoice says.
pub open spec fn requested_invoice(
    req: CreateInvoiceRequest,
    count: int,
    tax: FrozenTax,
    items_json: Seq<char>,
    today: Seq<char>,
) -> Map<Seq<char>, ValueView> {
    let base = invoice_base(
        number_after(count),
        trimmed(req.customer@),
        today,
        req.due_date@,
        "draft"@,
        items_json,
        lines_total(item_views(req.items@), req.items@.len()) as i64,
        tax,
    );
    put_text(
        put_text(
            put_text(
                put_text(base, "customer_email"@, opt_view(req.customer_email)),
                "customer_phone"@,
                opt_view(req.customer_phone),
            ),
            "notes"@,
            opt_view(req.notes),
        ),
        "source_sale_id"@,
        opt_view(req.source_sale_id),
    )
}

/// The record of a requested invoice: a draft with the next number, its total
/// the sum of its lines and the tax. `count` is how many invoices the business
/// has, `taken` the numbers of all that it ever had, `items_json` the lines as
/// they are stored.
pub fn create_invoice(
    access: Option<&Access>,
    req: &CreateInvoiceRequest,
    sale_found: bool,
    count: i64,
    taken: &Vec<String>,
    tax: FrozenTax,
    items_json: &str,
    today: &str,
) -> (r: Result<Record, InvoiceError>)
    requires
        0 <= count,
        count + taken@.len() < i64::MAX,
        totals_fit(item_views(req.items@)),
        i64::MIN <= lines_total(item_views(req.items@), req.items@.len()) + tax.amount <= i64::MAX,
    ensures
        match r {
            Ok(record) => request_problem(access, *req, sale_found) is None && record@ == requested_invoice(
                *req,
                next_free(views(taken@), count as int),
                tax,
                items_json@,
                today@,
            ),
            Err(e) => request_problem(access, *req, sale_found) == Some(e@),
        },
{
    match check_invoice_request(access, req, sale_found) {
        Err(e) => {
            return Err(e);
        },
        Ok(()) => {},
    }
    let number = free_number(count, taken);
    let customer = trim(req.customer.as_str());
    let subtotal: i64 = invoice_subtotal(&req.items);
    let mut record = base_record(
        number.as_str(),
        customer.as_str(),
        today,
        req.due_date.as_str(),
        "draft",
        items_json,
        subtotal,
        tax,
    );
    record.insert_opt_text("customer_email", &req.customer_email);
    record.insert_opt_text("customer_phone", &req.customer_phone);
    record.insert_opt_text("notes", &req.notes);
    record.insert_opt_text("source_sale_id", &req.source_sale_id);
    Ok(record)
}

/// The name on the invoice of a sale.
pub open spec fn order_customer(customer: Option<Seq<char>>) -> Seq<char> {
    if given(customer) {
        trimmed(customer->0)
    } else {
        "Walk-in customer"@
    }
}

/// The due date on the invoice of a sale: that of the credit, or else today.
pub open spec fn order_due_date(on_credit: bool, due_date: Option<Seq<char>>, today: Seq<char>) -> Seq<char> {
    if on_credit && given(due_date) {
        due_date->0
    } else {
        today
    }
}

/// What the invoice of a completed sale says.
pub open spec fn order_invoice(
    count: int,
    order_id: Seq<char>,
    customer: Option<Seq<char>>,
    customer_phone: Option<Seq<char>>,
    items_json: Seq<char>,
    subtotal: i64,
    tax: FrozenTax,
    on_credit: bool,
    due_date: Option<Seq<char>>,
    today: Seq<char>,
) -> Map<Seq<char>, ValueView> {
    let base = invoice_base(
        number_after(count),
        order_customer(customer),
        today,
        order_due_date(on_credit, due_date, today),
        if on_credit {
            "sent"@
        } else {
            "paid"@
        },
        items_json,
        subtotal,
        tax,
    ).insert("source_sale_id"@, ValueView::Text(order_id));
    put_text(
        put_text(
            base,
            "paid_at"@,
            if on_credit {
                None
            } else {
                Some(today)
            },
        ),
        "customer_phone"@,
        if given(customer_phone) {
            customer_phone
        } else {
            None
        },
    )
}

/// No new invoice gets a number that another one of the business has or ever
/// had, whether it was asked for or came with a sale.
pub proof fn law_new_invoices_have_free_numbers(
    taken: Seq<Seq<char>>,
    count: int,
    req: CreateInvoiceRequest,
    order_id: Seq<char>,
    customer: Option<Seq<char>>,
    customer_phone: Option<Seq<char>>,
    items_json: Seq<char>,
    subtotal: i64,
    tax: FrozenTax,
    on_credit: bool,
    due_date: Option<Seq<char>>,
    today: Seq<char>,
)
    requires
        0 <= count,
    ensures
        ({
            let c = next_free(taken, count);
            let asked = requested_invoice(req, c, tax, items_json, today)["invoice_number"@];
            let sold = order_invoice(
                c,
                order_id,
                customer,
                customer_phone,
                items_json,
                subtotal,
                tax,
                on_credit,
                due_date,
                today,
            )["invoice_number"@];
            &&& asked == ValueView::Text(number_after(c))
            &&& sold == ValueView::Text(number_after(c))
            &&& !taken.contains(number_after(c))
        }),
{
    lemma_some_are_free(taken, count, count + taken.len() + 1);
    let d = choose|d: int|
        count <= d < count + taken.len() + 1 && !taken.contains(#[trigger] number_after(d));
    lemma_least_free(taken, count, count, d);
    reveal_strlit("invoice_number");
    reveal_strlit("customer");
    reveal_strlit("issue_date");
    reveal_strlit("due_date");
    reveal_strlit("status");
    reveal_strlit("items_json");
    reveal_strlit("subtotal");
    reveal_strlit("tax_rate");
    reveal_strlit("tax_amount");
    reveal_strlit("total");
    reveal_strlit("customer_email");
    reveal_strlit("customer_phone");
    reveal_strlit("notes");
    reveal_strlit("source_sale_id");
    reveal_strlit("paid_at");
    let n = "invoice_number"@;
    assert(n.len() == 14 && n[0] == 'i');
    assert("customer"@.len() == 8 && "issue_date"@.len() == 10 && "due_date"@.len() == 8 && "status"@.len() == 6
        && "items_json"@.len() == 10 && "subtotal"@.len() == 8 && "tax_rate"@.len() == 8 && "tax_amount"@.len() == 10
        && "total"@.len() == 5 && "notes"@.len() == 5 && "paid_at"@.len() == 7);
    assert("customer_email"@[0] == 'c' && "customer_phone"@[0] == 'c' && "source_sale_id"@[0] == 's');
}

/// The record of the invoice that a completed sale gets by itself: paid at
/// once, or sent and due where the sale was on credit. `count` is how many
/// invoices the business has, `taken` the numbers of all that it ever had.
pub fn create_invoice_for_order(
    count: i64,
    taken: &Vec<String>,
    order_id: &str,
    customer: &Option<String>,
    customer_phone: &Option<String>,
    items_json: &str,
    subtotal: i64,
    tax: FrozenTax,
    on_credit: bool,
    due_date: &Option<String>,
    today: &str,
) -> (r: Record)
    requires
        0 <= count,
        count + taken@.len() < i64::MAX,
        i64::MIN <= subtotal + tax.amount <= i64::MAX,
    ensures
        r@ == order_invoice(
            next_free(views(taken@), count as int),
            order_id@,
            opt_view(*customer),
            opt_view(*customer_phone),
            items_json@,
            subtotal,
            tax,
            on_credit,
            opt_view(*due_date),
            today@,
        ),
{
    let number = free_number(count, taken);
    let name = match customer {
        Some(c) => {
            let t = trim(c.as_str());
            if t.as_str().is_empty() {
                "Walk-in customer".to_owned()
            } else {
                t
            }
        },
        None => "Walk-in customer".to_owned(),
    };
    let due = match due_date {
        Some(d) => if on_credit && !is_blank(d.as_str()) {
            d.clone()
        } else {
            today.to_owned()
        },
        None => today.to_owned(),
    };
    let status = if on_credit {
        "sent"
    } else {
        "paid"
    };
    let mut r = base_record(
        number.as_str(),
        name.as_str(),
        today,
        due.as_str(),
        status,
        items_json,
        subtotal,
        tax,
    );
    r.insert_text("source_sale_id", order_id);
    if !on_credit {
        r.insert_text("paid_at", today);
    }
    match customer_phone {
        Some(p) => {
            if !is_blank(p.as_str()) {
                r.insert_text("customer_phone", p.as_str());
            }
        },
        None => {},
    }
    r
}

/// Whether a record holds a text under a name.
pub open spec fn says(m: Map<Seq<char>, ValueView>, name: Seq<char>, text: Seq<char>) -> bool {
    m.contains_pair(name, ValueView::Text(text))
}

/// Whether a record says under a name what was given for it, and nothing where
/// nothing was given.
pub open spec fn says_if_given(m: Map<Seq<char>, ValueView>, name: Seq<char>, text: Option<Seq<char>>) -> bool {
    match text {
        Some(s) => says(m, name, s),
        None => !m.contains_key(name),
    }
}

/// Whether a record holds a number under a name.
pub open spec fn counts(m: Map<Seq<char>, ValueView>, name: Seq<char>, n: int) -> bool {
    m.contains_key(name) && m[name] is Int && m[name]->Int_0 == n
}

/// The names of what an invoice holds are all different from one another.
proof fn lemma_base_says(
    number: Seq<char>,
    customer: Seq<char>,
    today: Seq<char>,
    due_date: Seq<char>,
    status: Seq<char>,
    items_json: Seq<char>,
    subtotal: i64,
    tax: FrozenTax,
)
    requires
        i64::MIN <= subtotal + tax.amount <= i64::MAX,
    ensures
        ({
            let m = invoice_base(number, customer, today, due_date, status, items_json, subtotal, tax);
            &&& says(m, "invoice_number"@, number)
            &&& says(m, "customer"@, customer)
            &&& says(m, "issue_date"@, today)
            &&& says(m, "due_date"@, due_date)
            &&& says(m, "status"@, status)
            &&& says(m, "items_json"@, items_json)
            &&& counts(m, "subtotal"@, subtotal as int)
            &&& m.contains_pair("tax_rate"@, ValueView::Real(tax.rate_bits))
            &&& counts(m, "tax_amount"@, tax.amount as int)
            &&& counts(m, "total"@, subtotal + tax.amount)
            &&& !m.contains_key("customer_email"@) && !m.contains_key("customer_phone"@) && !m.contains_key("notes"@)
                && !m.contains_key("source_sale_id"@) && !m.contains_key("paid_at"@)
        }),
{
    lemma_invoice_names_differ();
}

/// The names of what an invoice holds all differ from one another.
proof fn lemma_invoice_names_differ()
    ensures
        "invoice_number"@.len() == 14 && "customer_email"@.len() == 14 && "customer_phone"@.len() == 14
            && "source_sale_id"@.len() == 14,
        "issue_date"@.len() == 10 && "items_json"@.len() == 10 && "tax_amount"@.len() == 10,
        "customer"@.len() == 8 && "due_date"@.len() == 8 && "subtotal"@.len() == 8 && "tax_rate"@.len() == 8,
        "status"@.len() == 6 && "total"@.len() == 5 && "notes"@.len() == 5 && "paid_at"@.len() == 7,
        "invoice_number"@ != "customer_email"@ && "invoice_number"@ != "customer_phone"@ && "invoice_number"@
            != "source_sale_id"@ && "customer_email"@ != "customer_phone"@ && "customer_email"@ != "source_sale_id"@
            && "customer_phone"@ != "source_sale_id"@,
        "issue_date"@ != "items_json"@ && "issue_date"@ != "tax_amount"@ && "items_json"@ != "tax_amount"@,
        "customer"@ != "due_date"@ && "customer"@ != "subtotal"@ && "customer"@ != "tax_rate"@ && "due_date"@
            != "subtotal"@ && "due_date"@ != "tax_rate"@ && "subtotal"@ != "tax_rate"@,
        "total"@ != "notes"@,
{
    reveal_strlit("invoice_number");
    reveal_strlit("customer_email");
    reveal_strlit("customer_phone");
    reveal_strlit("source_sale_id");
    reveal_strlit("issue_date");
    reveal_strlit("items_json");
    reveal_strlit("tax_amount");
    reveal_strlit("customer");
    reveal_strlit("due_date");
    reveal_strlit("subtotal");
    reveal_strlit("tax_rate");
    reveal_strlit("status");
    reveal_strlit("total");
    reveal_strlit("notes");
    reveal_strlit("paid_at");
    assert("invoice_number"@[0] == 'i' && "customer_email"@[0] == 'c' && "customer_phone"@[0] == 'c'
        && "source_sale_id"@[0] == 's' && "customer_email"@[9] == 'e' && "customer_phone"@[9] == 'p');
    assert("issue_date"@[1] == 's' && "items_json"@[1] == 't' && "tax_amount"@[1] == 'a');
    assert("customer"@[0] == 'c' && "due_date"@[0] == 'd' && "subtotal"@[0] == 's' && "tax_rate"@[0] == 't');
    assert("total"@[0] == 't' && "notes"@[0] == 'n');
}

/// A requested invoice keeps what was asked for: it is a draft, made out today to
/// the customer of the request without outer blanks, due on the day that was
/// asked for. It comes to quantity times price over its lines, and the tax on
/// top. Whatever else the request says is on it, and nothing that it does not
/// say.
pub proof fn law_requested_invoices_keep_what_was_asked(
    req: CreateInvoiceRequest,
    count: int,
    tax: FrozenTax,
    items_json: Seq<char>,
    today: Seq<char>,
)
    requires
        totals_fit(item_views(req.items@)),
        i64::MIN <= lines_total(item_views(req.items@), req.items@.len()) + tax.amount <= i64::MAX,
    ensures
        ({
            let m = requested_invoice(req, count, tax, items_json, today);
            let worth = sum_upto(req.items@.len(), |i: int| req.items@[i].quantity * req.items@[i].unit_price);
            &&& says(m, "customer"@, trimmed(req.customer@))
            &&& says(m, "due_date"@, req.due_date@)
            &&& says(m, "issue_date"@, today)
            &&& says(m, "status"@, "draft"@)
            &&& says(m, "items_json"@, items_json)
            &&& counts(m, "subtotal"@, worth)
            &&& m.contains_pair("tax_rate"@, ValueView::Real(tax.rate_bits))
            &&& counts(m, "tax_amount"@, tax.amount as int)
            &&& counts(m, "total"@, worth + tax.amount)
            &&& says_if_given(m, "customer_email"@, opt_view(req.customer_email))
            &&& says_if_given(m, "customer_phone"@, opt_view(req.customer_phone))
            &&& says_if_given(m, "notes"@, opt_view(req.notes))
            &&& says_if_given(m, "source_sale_id"@, opt_view(req.source_sale_id))
        }),
{
    lemma_invoice_names_differ();
    lemma_lines_are_summed(req.items@, req.items@.len());
    assert(lines_total(item_views(req.items@), req.items@.len()) <= i64::MAX);
    lemma_base_says(
        number_after(count),
        trimmed(req.customer@),
        today,
        req.due_date@,
        "draft"@,
        items_json,
        lines_total(item_views(req.items@), req.items@.len()) as i64,
        tax,
    );
}

proof fn lemma_lines_are_summed(items: Seq<InvoiceItem>, n: nat)
    requires
        n <= items.len(),
    ensures
        lines_total(item_views(items), n) == sum_upto(n, |i: int| items[i].quantity * items[i].unit_price),
    decreases n,
{
    if n > 0 {
        lemma_lines_are_summed(items, (n - 1) as nat);
        assert(item_views(items)[n - 1] == items[n - 1]@);
    }
}

/// The invoice that comes with a sale is for that order and for what was paid,
/// the tax on top, made out today to the customer of the sale, or to a walk-in
/// customer where none is known. One of a sale on credit is sent and falls due
/// on the day that was agreed, today where none was; one of a sale that was paid
/// is paid, today, and owes nothing more.
pub proof fn law_sales_get_the_invoice_of_their_order(
    count: int,
    order_id: Seq<char>,
    customer: Option<Seq<char>>,
    customer_phone: Option<Seq<char>>,
    items_json: Seq<char>,
    subtotal: i64,
    tax: FrozenTax,
    on_credit: bool,
    due_date: Option<Seq<char>>,
    today: Seq<char>,
)
    requires
        i64::MIN <= subtotal + tax.amount <= i64::MAX,
    ensures
        ({
            let m = order_invoice(
                count,
                order_id,
                customer,
                customer_phone,
                items_json,
                subtotal,
                tax,
                on_credit,
                due_date,
                today,
            );
            &&& says(m, "source_sale_id"@, order_id)
            &&& says(m, "issue_date"@, today)
            &&& says(m, "items_json"@, items_json)
            &&& counts(m, "subtotal"@, subtotal as int)
            &&& m.contains_pair("tax_rate"@, ValueView::Real(tax.rate_bits))
            &&& counts(m, "tax_amount"@, tax.amount as int)
            &&& counts(m, "total"@, subtotal + tax.amount)
            &&& customer is Some && !blank(customer->0) ==> says(m, "customer"@, trimmed(customer->0))
            &&& customer is None || blank(customer->0) ==> says(m, "customer"@, "Walk-in customer"@)
            &&& on_credit ==> {
                &&& says(m, "status"@, "sent"@)
                &&& !m.contains_key("paid_at"@)
                &&& due_date is Some && !blank(due_date->0) ==> says(m, "due_date"@, due_date->0)
                &&& due_date is None ==> says(m, "due_date"@, today)
            }
            &&& !on_credit ==> {
                &&& says(m, "status"@, "paid"@)
                &&& says(m, "paid_at"@, today)
                &&& says(m, "due_date"@, today)
            }
            &&& customer_phone is Some && !blank(customer_phone->0) ==> says(
                m,
                "customer_phone"@,
                customer_phone->0,
            )
            &&& customer_phone is None ==> !m.contains_key("customer_phone"@)
        }),
{
    lemma_invoice_names_differ();
    lemma_base_says(
        number_after(count),
        order_customer(customer),
        today,
        order_due_date(on_credit, due_date, today),
        if on_credit {
            "sent"@
        } else {
            "paid"@
        },
        items_json,
        subtotal,
        tax,
    );
}

/// An invoice is made for who may create invoices, where it has a line and a
/// customer and the sale that it names, if any, is there; and for no one else.
pub proof fn law_which_invoices_are_made(access: Option<&Access>, req: CreateInvoiceRequest, sale_found: bool)
    ensures
        request_problem(access, req, sale_found) is None <==> {
            &&& access is Some && granted(access->0.permissions@, "invoice"@, "create"@)
            &&& req.items@.len() > 0
            &&& !blank(req.customer@)
            &&& req.source_sale_id is Some ==> sale_found
        },
{
}

// ---------------------------------------------------------------------------
// Refunds
// ---------------------------------------------------------------------------

/// How much of an invoice's sale has been refunded.
#[derive(Clone, Copy, PartialEq, Eq, Structural, Debug)]
pub struct RefundStatus {
    pub refunded_amount: i64,
    pub is_refunded: bool,
}

/// The refund status of an invoice. One that came from no sale, and one of a
/// business without refunds, has nothing refunded.
pub fn get_refund_status(has_sale: bool, refunded: Option<i64>) -> (r: RefundStatus)
    ensures
        r.refunded_amount == if has_sale && refunded is Some {
            refunded->0
        } else {
            0
        },
        r.is_refunded == (r.refunded_amount > 0),
{
    let refunded_amount: i64 = match refunded {
        Some(n) => if has_sale {
            n
        } else {
            0
        },
        None => 0,
    };
    RefundStatus { refunded_amount, is_refunded: refunded_amount > 0 }
}

// ---------------------------------------------------------------------------
// Status
// ---------------------------------------------------------------------------

/// What can be done to an invoice.
#[derive(Clone, Copy, PartialEq, Eq, Structural, Debug)]
pub enum InvoiceAction {
    Send,
    Pay,
    Cancel,
}

/// The status that an action leads to.
pub open spec fn target_status(a: InvoiceAction) -> Seq<char> {
    match a {
        InvoiceAction::Send => "sent"@,
        InvoiceAction::Pay => "paid"@,
        InvoiceAction::Cancel => "cancelled"@,
    }
}

/// The permission on invoices that an action needs.
pub open spec fn needed_action(a: InvoiceAction) -> Seq<char> {
    match a {
        InvoiceAction::Cancel => "delete"@,
        _ => "update"@,
    }
}

/// Whether an invoice may go from one status to another.
pub open spec fn may_change(current: Seq<char>, new: Seq<char>) -> bool {
    ||| current == "draft"@ && (new == "sent"@ || new == "cancelled"@)
    ||| current == "sent"@ && (new == "paid"@ || new == "overdue"@ || new == "cancelled"@)
    ||| current == "overdue"@ && new == "paid"@
}

/// Whether an invoice may go from one status to another.
pub fn is_valid_transition(current: &str, new: &str) -> (b: bool)
    ensures
        b == may_change(current@, new@),
{
    (same(current, "draft") && (same(new, "sent") || same(new, "cancelled"))) || (same(current, "sent") && (same(
        new,
        "paid",
    ) || same(new, "overdue") || same(new, "cancelled"))) || (same(current, "overdue") && same(new, "paid"))
}

/// Why a change of status is refused.
#[derive(Debug)]
pub enum TransitionError {
    Access(AccessError),
    NotFound,
    Invalid,
}

/// Why a change of status is refused.
pub enum TransitionErrorView {
    Access(AccessErrorView),
    NotFound,
    Invalid,
}

impl View for TransitionError {
    type V = TransitionErrorView;

    open spec fn view(&self) -> TransitionErrorView {
        match *self {
            TransitionError::Access(e) => TransitionErrorView::Access(e@),
            TransitionError::NotFound => TransitionErrorView::NotFound,
            TransitionError::Invalid => TransitionErrorView::Invalid,
        }
    }
}

/// The statement that stores a new status: the parameters are the status, the
/// invoice and the business.
pub open spec fn status_update_text(a: InvoiceAction) -> Seq<char> {
    match a {
        InvoiceAction::Send =>
            "UPDATE module_invoice SET status = ?1, sent_at = datetime('now'), updated_at = datetime('now') WHERE id = ?2 AND business_id = ?3"@,
        InvoiceAction::Pay =>
            "UPDATE module_invoice SET status = ?1, paid_at = datetime('now'), updated_at = datetime('now') WHERE id = ?2 AND business_id = ?3"@,
        InvoiceAction::Cancel =>
            "UPDATE module_invoice SET status = ?1, updated_at = datetime('now') WHERE id = ?2 AND business_id = ?3"@,
    }
}

/// A change of status that is allowed.
#[derive(Debug)]
pub struct StatusChange {
    pub new_status: String,
    pub statement: String,
}

/// Why an action on an invoice is refused; `None` where it is not. `current`
/// is the status of the invoice, where it exists.
pub open spec fn action_refusal(
    access: Option<&Access>,
    a: InvoiceAction,
    current: Option<Seq<char>>,
) -> Option<TransitionErrorView> {
    match refusal(access, "invoice"@, needed_action(a)) {
        Some(e) => Some(TransitionErrorView::Access(e)),
        None => match current {
            None => Some(TransitionErrorView::NotFound),
            Some(c) => if may_change(c, target_status(a)) {
                None
            } else {
                Some(TransitionErrorView::Invalid)
            },
        },
    }
}

/// Decides a change of an invoice's status.
pub fn transition_status(access: Option<&Access>, a: InvoiceAction, current: Option<&str>) -> (r: Result<
    StatusChange,
    TransitionError,
>)
    ensures
        match r {
            Ok(c) => action_refusal(access, a, crate::text::opt_str_view(current)) is None && c.new_status@
                == target_status(a) && c.statement@ == status_update_text(a),
            Err(e) => action_refusal(access, a, crate::text::opt_str_view(current)) == Some(e@),
        },
{
    let needed = match a {
        InvoiceAction::Cancel => "delete",
        _ => "update",
    };
    match require(access, "invoice", needed) {
        Err(e) => {
            return Err(TransitionError::Access(e));
        },
        Ok(()) => {},
    }
    let (new_status, statement) = match a {
        InvoiceAction::Send => (
            "sent",
            "UPDATE module_invoice SET status = ?1, sent_at = datetime('now'), updated_at = datetime('now') WHERE id = ?2 AND business_id = ?3",
        ),
        InvoiceAction::Pay => (
            "paid",
            "UPDATE module_invoice SET status = ?1, paid_at = datetime('now'), updated_at = datetime('now') WHERE id = ?2 AND business_id = ?3",
        ),
        InvoiceAction::Cancel => (
            "cancelled",
            "UPDATE module_invoice SET status = ?1, updated_at = datetime('now') WHERE id = ?2 AND business_id = ?3",
        ),
    };
    match current {
        None => Err(TransitionError::NotFound),
        Some(c) => if is_valid_transition(c, new_status) {
            Ok(StatusChange { new_status: new_status.to_owned(), statement: statement.to_owned() })
        } else {
            Err(TransitionError::Invalid)
        },
    }
}

/// Marks an invoice as sent.
pub fn mark_sent(access: Option<&Access>, current: Option<&str>) -> (r: Result<StatusChange, TransitionError>)
    ensures
        match r {
            Ok(c) => action_refusal(access, InvoiceAction::Send, crate::text::opt_str_view(current)) is None
                && c.new_status@ == "sent"@ && c.statement@ == status_update_text(InvoiceAction::Send),
            Err(e) => action_refusal(access, InvoiceAction::Send, crate::text::opt_str_view(current)) == Some(e@),
        },
{
    transition_status(access, InvoiceAction::Send, current)
}

/// Marks an invoice as paid.
pub fn mark_paid(access: Option<&Access>, current: Option<&str>) -> (r: Result<StatusChange, TransitionError>)
    ensures
        match r {
            Ok(c) => action_refusal(access, InvoiceAction::Pay, crate::text::opt_str_view(current)) is None
                && c.new_status@ == "paid"@ && c.statement@ == status_update_text(InvoiceAction::Pay),
            Err(e) => action_refusal(access, InvoiceAction::Pay, crate::text::opt_str_view(current)) == Some(e@),
        },
{
    transition_status(access, InvoiceAction::Pay, current)
}

/// Cancels an invoice, for which the permission to delete is needed.
pub fn mark_cancelled(access: Option<&Access>, current: Option<&str>) -> (r: Result<StatusChange, TransitionError>)
    ensures
        match r {
            Ok(c) => action_refusal(access, InvoiceAction::Cancel, crate::text::opt_str_view(current)) is None
                && c.new_status@ == "cancelled"@ && c.statement@ == status_update_text(InvoiceAction::Cancel),
            Err(e) => action_refusal(access, InvoiceAction::Cancel, crate::text::opt_str_view(current)) == Some(e@),
        },
{
    transition_status(access, InvoiceAction::Cancel, current)
}

/// The sentence for a refused change of status.
pub open spec fn transition_message(e: TransitionErrorView, current: Seq<char>, new: Seq<char>) -> Seq<char> {
    match e {
        TransitionErrorView::Access(a) => a.message(),
        TransitionErrorView::NotFound => "invoice not found"@,
        TransitionErrorView::Invalid => "cannot change invoice status from '"@ + current + "' to '"@ + new + "'"@,
    }
}

/// The sentence for a refused change of status.
pub fn transition_error_text(e: &TransitionError, current: &str, new: &str) -> (s: String)
    ensures
        s@ == transition_message(e@, current@, new@),
{
    match e {
        TransitionError::Access(a) => a.message(),
        TransitionError::NotFound => "invoice not found".to_owned(),
        TransitionError::Invalid => {
            let mut s = "cannot change invoice status from '".to_owned();
            s.append(current);
            s.append("' to '");
            s.append(new);
            s.append("'");
            s
        },
    }
}

proof fn lemma_statuses_differ()
    ensures
        "paid"@ != "draft"@ && "paid"@ != "sent"@ && "paid"@ != "overdue"@,
        "cancelled"@ != "draft"@ && "cancelled"@ != "sent"@ && "cancelled"@ != "overdue"@,
        "sent"@ != "draft"@ && "overdue"@ != "draft"@ && "overdue"@ != "sent"@ && "paid"@ != "cancelled"@,
{
    reveal_strlit("paid");
    reveal_strlit("draft");
    reveal_strlit("sent");
    reveal_strlit("overdue");
    reveal_strlit("cancelled");
    assert("paid"@.len() == 4 && "draft"@.len() == 5 && "sent"@.len() == 4 && "overdue"@.len() == 7
        && "cancelled"@.len() == 9);
    assert("paid"@[0] == 'p' && "sent"@[0] == 's');
}

/// What each action does to an invoice. Sending takes a draft, paying one that
/// was sent or is overdue, cancelling a draft or one that was sent; each leads to
/// the status of its name. Sending and paying need the right to update invoices,
/// cancelling the right to delete them. The statement notes when an invoice was
/// sent or paid, and reaches one invoice of one business.
pub proof fn law_what_is_done_to_an_invoice(access: Option<&Access>, a: InvoiceAction, current: Seq<char>)
    ensures
        ({
            let may = |action: Seq<char>| access is Some && granted(access->0.permissions@, "invoice"@, action);
            action_refusal(access, a, Some(current)) is None <==> match a {
                InvoiceAction::Send => may("update"@) && current == "draft"@,
                InvoiceAction::Pay => may("update"@) && (current == "sent"@ || current == "overdue"@),
                InvoiceAction::Cancel => may("delete"@) && (current == "draft"@ || current == "sent"@),
            }
        }),
        action_refusal(access, a, None) is Some,
        target_status(InvoiceAction::Send) == "sent"@,
        target_status(InvoiceAction::Pay) == "paid"@,
        target_status(InvoiceAction::Cancel) == "cancelled"@,
        may_change("sent"@, "overdue"@) && !may_change("draft"@, "overdue"@) && !may_change("overdue"@, "cancelled"@),
        ({
            let note = match a {
                InvoiceAction::Send => "sent_at = datetime('now'), "@,
                InvoiceAction::Pay => "paid_at = datetime('now'), "@,
                InvoiceAction::Cancel => Seq::empty(),
            };
            status_update_text(a) == "UPDATE module_invoice SET status = ?1, "@ + note
                + "updated_at = datetime('now') WHERE id = ?2 AND business_id = ?3"@
        }),
{
    lemma_statuses_differ();
    reveal_strlit("overdue");
    reveal_strlit("UPDATE module_invoice SET status = ?1, ");
    reveal_strlit("sent_at = datetime('now'), ");
    reveal_strlit("paid_at = datetime('now'), ");
    reveal_strlit("updated_at = datetime('now') WHERE id = ?2 AND business_id = ?3");
    reveal_strlit(
        "UPDATE module_invoice SET status = ?1, sent_at = datetime('now'), updated_at = datetime('now') WHERE id = ?2 AND business_id = ?3",
    );
    reveal_strlit(
        "UPDATE module_invoice SET status = ?1, paid_at = datetime('now'), updated_at = datetime('now') WHERE id = ?2 AND business_id = ?3",
    );
    reveal_strlit("UPDATE module_invoice SET status = ?1, updated_at = datetime('now') WHERE id = ?2 AND business_id = ?3");
    assert(status_update_text(a) =~= "UPDATE module_invoice SET status = ?1, "@ + (match a {
        InvoiceAction::Send => "sent_at = datetime('now'), "@,
        InvoiceAction::Pay => "paid_at = datetime('now'), "@,
        InvoiceAction::Cancel => Seq::empty(),
    }) + "updated_at = datetime('now') WHERE id = ?2 AND business_id = ?3"@);
}

/// The whole number in an invoice number is how many invoices there are with it,
/// so each is one above the last.
pub proof fn law_invoice_numbers_count_up(count: nat)
    ensures
        ({
            let n = number_after(count as int);
            &&& n.take(4) == "INV-"@
            &&& digits_value(n.skip(4)) == count + 1
            &&& count < 9999 ==> n.len() == 8
        }),
{
    reveal_strlit("INV-");
    lemma_four_digits_value(count + 1);
    let n = number_after(count as int);
    assert(n.take(4) =~= "INV-"@);
    assert(n.skip(4) =~= four_digits(count + 1));
    reveal_with_fuel(fixed_digits, 5);
}

/// A paid invoice and a cancelled one are final: no status can follow.
pub proof fn law_final_statuses(new: Seq<char>)
    ensures
        !may_change("paid"@, new),
        !may_change("cancelled"@, new),
{
    lemma_statuses_differ();
}

/// No invoice ever becomes a draft again.
pub proof fn law_never_a_draft_again(current: Seq<char>)
    ensures
        !may_change(current, "draft"@),
{
    lemma_statuses_differ();
}

/// An invoice is paid only after it was sent.
pub proof fn law_paid_only_after_sent(current: Seq<char>)
    requires
        may_change(current, "paid"@),
    ensures
        current == "sent"@ || current == "overdue"@,
{
    lemma_statuses_differ();
}

/// The sentence for a step that an invoice cannot take names the status that it has
/// and the one that was asked for, in this order.
pub proof fn law_sentences_name_both_statuses(current: Seq<char>, new: Seq<char>)
    ensures
        transition_message(TransitionErrorView::Invalid, current, new) == "cannot change invoice status from '"@ + current
            + "' to '"@ + new + "'"@,
{
}

/// The number of a new invoice is the next one where that is free, and else the first
/// free one behind it: no number below it that could have been taken is free.
pub proof fn law_the_first_free_number_is_taken(taken: Seq<Seq<char>>, count: int, c: int, d: int)
    requires
        is_next_free(taken, count, c),
    ensures
        count <= c,
        !taken.contains(number_after(c)),
        count <= d < c ==> taken.contains(number_after(d)),
        !taken.contains(number_after(count)) ==> c == count,
{
    if c > count && !taken.contains(number_after(count)) {
        assert(taken.contains(number_after(count)));
    }
}

/// The next invoice takes its number without gaps: where the next number is free, it
/// is the one to take.
pub proof fn law_free_numbers_are_not_skipped(taken: Seq<Seq<char>>, count: int)
    requires
        !taken.contains(number_after(count)),
    ensures
        is_next_free(taken, count, count),
{
}

} // verus!
