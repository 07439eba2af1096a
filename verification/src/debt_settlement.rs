//! Debts and credits: their numbers, their settlement and their summary.

use crate::bookkeeping::{entry_map, ledger_entry};
use crate::conditions::{all_single, asks, lemma_asks, lemma_joined_few};
use crate::dates::{date_day, date_text, day_of, day_text};
use crate::lists::sum_upto;
use crate::module::{record_error, with_defaults, ModuleDef, ValidationError};
use crate::rbac::{refusal, require, Access, AccessError, AccessErrorView};
use crate::text::{
    cat, cat3, clone_opt, i64_text, joined, lemma_precedes_asymmetric, lemma_precedes_irreflexive, lemma_precedes_total,
    opt_str_view, opt_view, precedes, same, signed_decimal, text_before, trim, trimmed,
};
use crate::value::{Record, ValueView};
use vstd::prelude::*;

verus! {

/// The number of the next entry, given the highest number so far.
pub fn generate_entry_number(max_existing: i64) -> (s: String)
    requires
        max_existing < i64::MAX,
    ensures
        s@ == "DC-"@ + signed_decimal(max_existing + 1),
{
    cat("DC-", i64_text(max_existing + 1).as_str())
}

/// A request to settle a debt or credit.
#[derive(Debug)]
pub struct SettleDebtRequest {
    pub debt_record_id: String,
    pub payment_method: String,
}

/// What is stored of a debt or credit.
#[derive(Debug)]
pub struct DebtRow {
    pub party_name: String,
    /// `owed_to_business`, or else the business owes it.
    pub direction: String,
    pub amount: i64,
    pub settled: bool,
    /// The sale that the debt came from.
    pub source_order_id: Option<String>,
}

/// Why a settlement is refused, in the order in which it is checked.
#[derive(Debug)]
pub enum SettleError {
    Access(AccessError),
    /// A settlement must say how it was paid.
    NoPaymentMethod,
    /// The business has no Debt & Credit module.
    ModuleDisabled,
    NotFound,
    AlreadySettled,
    /// The Bookkeeping module refuses the entry.
    Entry(ValidationError),
}

/// Why a settlement is refused.
pub enum SettleErrorView {
    Access(AccessErrorView),
    NoPaymentMethod,
    ModuleDisabled,
    NotFound,
    AlreadySettled,
    Entry(ValidationError),
}

impl View for SettleError {
    type V = SettleErrorView;

    open spec fn view(&self) -> SettleErrorView {
        match *self {
            SettleError::Access(e) => SettleErrorView::Access(e@),
            SettleError::NoPaymentMethod => SettleErrorView::NoPaymentMethod,
            SettleError::ModuleDisabled => SettleErrorView::ModuleDisabled,
            SettleError::NotFound => SettleErrorView::NotFound,
            SettleError::AlreadySettled => SettleErrorView::AlreadySettled,
            SettleError::Entry(e) => SettleErrorView::Entry(e),
        }
    }
}

/// Everything that a settlement writes, all of it or nothing.
#[derive(Debug)]
pub struct SettlePlan {
    /// Stored with the debt, which becomes settled.
    pub payment_method: String,
    /// The order whose sales get the payment method where they have none.
    pub backfill_order: Option<String>,
    /// The entry for Bookkeeping.
    pub entry: Option<Record>,
    /// Whether the money came in, as opposed to going out.
    pub is_income: bool,
    /// Whether there is money to post at all.
    pub posts_money: bool,
}

/// What a settlement writes.
pub struct SettleView {
    pub payment_method: Seq<char>,
    pub backfill_order: Option<Seq<char>>,
    pub entry: Option<Map<Seq<char>, ValueView>>,
    pub is_income: bool,
    pub posts_money: bool,
}

impl View for SettlePlan {
    type V = SettleView;

    open spec fn view(&self) -> SettleView {
        SettleView {
            payment_method: self.payment_method@,
            backfill_order: opt_view(self.backfill_order),
            entry: match self.entry {
                Some(e) => Some(e@),
                None => None,
            },
            is_income: self.is_income,
            posts_money: self.posts_money,
        }
    }
}

/// Whether a direction means that the business is owed the money.
pub open spec fn owed_to_business(direction: Seq<char>) -> bool {
    direction == "owed_to_business"@
}

/// The entry that a settlement posts.
pub open spec fn settlement_entry(
    accounting: ModuleDef,
    debt: DebtRow,
    payment_method: Seq<char>,
) -> Map<Seq<char>, ValueView> {
    let income = owed_to_business(debt.direction@);
    with_defaults(
        accounting.fields@,
        entry_map(
            (if income {
                "Debt"@
            } else {
                "Credit"@
            }) + " settled — "@ + debt.party_name@,
            if income {
                "income"@
            } else {
                "expense"@
            },
            "Debt & Credit"@,
            debt.amount,
            Some(payment_method),
        ),
    )
}

/// What a settlement does.
pub open spec fn settlement(
    access: Option<&Access>,
    payment_method: Seq<char>,
    module_enabled: bool,
    debt: Option<&DebtRow>,
    accounting: Option<&ModuleDef>,
) -> Result<SettleView, SettleErrorView> {
    let method = trimmed(payment_method);
    match refusal(access, "debt_credit"@, "settle"@) {
        Some(e) => Err(SettleErrorView::Access(e)),
        None => if method.len() == 0 {
            Err(SettleErrorView::NoPaymentMethod)
        } else if !module_enabled {
            Err(SettleErrorView::ModuleDisabled)
        } else {
            match debt {
                None => Err(SettleErrorView::NotFound),
                Some(d) => if d.settled {
                    Err(SettleErrorView::AlreadySettled)
                } else {
                    let posts = d.amount > 0;
                    let entry = if posts && accounting is Some {
                        Some(settlement_entry(*accounting->0, *d, method))
                    } else {
                        None
                    };
                    let problem = match entry {
                        Some(e) => record_error(accounting->0.fields@, e),
                        None => None,
                    };
                    match problem {
                        Some(p) => Err(SettleErrorView::Entry(p)),
                        None => Ok(
                            SettleView {
                                payment_method: method,
                                backfill_order: opt_view(d.source_order_id),
                                entry,
                                is_income: owed_to_business(d.direction@),
                                posts_money: posts,
                            },
                        ),
                    }
                },
            }
        },
    }
}

/// Decides a settlement: the debt becomes settled with its payment method, the
/// sale it came from learns how it was paid, and the money is posted to
/// Bookkeeping where the business has it and there is money to post.
pub fn settle(
    access: Option<&Access>,
    req: &SettleDebtRequest,
    module_enabled: bool,
    debt: Option<&DebtRow>,
    accounting: Option<&ModuleDef>,
) -> (r: Result<SettlePlan, SettleError>)
    ensures
        match r {
            Ok(plan) => settlement(access, req.payment_method@, module_enabled, debt, accounting) == Ok::<
                SettleView,
                SettleErrorView,
            >(plan@),
            Err(e) => settlement(access, req.payment_method@, module_enabled, debt, accounting) == Err::<
                SettleView,
                SettleErrorView,
            >(e@),
        },
{
    match require(access, "debt_credit", "settle") {
        Err(e) => {
            return Err(SettleError::Access(e));
        },
        Ok(()) => {},
    }
    let payment_method = trim(req.payment_method.as_str());
    if payment_method.as_str().is_empty() {
        return Err(SettleError::NoPaymentMethod);
    }
    if !module_enabled {
        return Err(SettleError::ModuleDisabled);
    }
    match debt {
        None => Err(SettleError::NotFound),
        Some(d) => {
            if d.settled {
                return Err(SettleError::AlreadySettled);
            }
            let is_income: bool = same(d.direction.as_str(), "owed_to_business");
            let posts_money: bool = d.amount > 0;
            let mut entry: Option<Record> = None;
            if posts_money {
                match accounting {
                    Some(m) => {
                        let mut description = if is_income {
                            "Debt".to_owned()
                        } else {
                            "Credit".to_owned()
                        };
                        description.append(" settled — ");
                        description.append(d.party_name.as_str());
                        let entry_type = if is_income {
                            "income"
                        } else {
                            "expense"
                        };
                        let method = Some(payment_method.clone());
                        match ledger_entry(m, description.as_str(), entry_type, "Debt & Credit", d.amount, &method) {
                            Ok(e) => {
                                entry = Some(e);
                            },
                            Err(e) => {
                                return Err(SettleError::Entry(e));
                            },
                        }
                    },
                    None => {},
                }
            }
            let backfill_order = clone_opt(&d.source_order_id);
            Ok(SettlePlan { payment_method, backfill_order, entry, is_income, posts_money })
        },
    }
}

/// Settling moves the money the way that the debt runs: what the business is
/// owed comes in as income, what it owes goes out as an expense, each in full and
/// with the method that it was paid by. What comes of it depends on nothing else
/// of the debt.
pub proof fn law_settling_moves_the_money_the_right_way(
    access: Option<&Access>,
    payment_method: Seq<char>,
    module_enabled: bool,
    debt: &DebtRow,
    accounting: Option<&ModuleDef>,
)
    ensures
        settlement(access, payment_method, module_enabled, Some(debt), accounting) matches Ok(p) ==> {
            &&& p.payment_method == trimmed(payment_method)
            &&& p.backfill_order == opt_view(debt.source_order_id)
            &&& p.posts_money == (debt.amount > 0)
            &&& p.is_income == (debt.direction@ == "owed_to_business"@)
            &&& p.entry is Some == (debt.amount > 0 && accounting is Some)
            &&& p.entry is Some ==> crate::bookkeeping::posts(
                p.entry->0,
                if p.is_income {
                    "income"@
                } else {
                    "expense"@
                },
                "Debt & Credit"@,
                debt.amount as int,
                Some(trimmed(payment_method)),
            )
        },
{
    if accounting is Some {
        let income = owed_to_business(debt.direction@);
        crate::bookkeeping::law_entries_post_what_they_are_made_for(
            *accounting->0,
            (if income {
                "Debt"@
            } else {
                "Credit"@
            }) + " settled — "@ + debt.party_name@,
            if income {
                "income"@
            } else {
                "expense"@
            },
            "Debt & Credit"@,
            debt.amount,
            Some(trimmed(payment_method)),
        );
    }
}

/// Every open debt is settled for who may settle, once it is said how it was
/// paid, unless Bookkeeping refuses the entry; no one else settles anything.
pub proof fn law_open_debts_can_be_settled(
    access: Option<&Access>,
    payment_method: Seq<char>,
    debt: Option<&DebtRow>,
    module_enabled: bool,
    accounting: Option<&ModuleDef>,
)
    ensures
        ({
            let r = settlement(access, payment_method, module_enabled, debt, accounting);
            let allowed = refusal(access, "debt_credit"@, "settle"@) is None;
            let open = module_enabled && debt is Some && !debt->0.settled;
            let says_how = !crate::text::blank(payment_method);
            &&& r is Ok ==> allowed && open && says_how
            &&& allowed && open && says_how && accounting is None ==> r is Ok
            &&& allowed && open && says_how && debt->0.amount <= 0 ==> r is Ok
            &&& allowed && open && says_how ==> r is Ok || r->Err_0 is Entry
        }),
{
}

/// A debt that is settled is never settled again, so its money is never
/// posted twice.
pub proof fn law_settled_once(
    access: Option<&Access>,
    payment_method: Seq<char>,
    module_enabled: bool,
    debt: &DebtRow,
    accounting: Option<&ModuleDef>,
)
    requires
        debt.settled,
    ensures
        settlement(access, payment_method, module_enabled, Some(debt), accounting) is Err,
{
}

/// The statement that settles a debt. The parameters are the debt, the business
/// and the payment method.
pub fn settled_statement(table: &str) -> (s: String)
    ensures
        s@ == settled_text(table@),
        s@ == "UPDATE "@ + table@
            + " SET settled = 1, payment_method = ?3, updated_at = datetime('now') WHERE id = ?1 AND business_id = ?2"@,
{
    cat3(
        "UPDATE ",
        table,
        " SET settled = 1, payment_method = ?3, updated_at = datetime('now') WHERE id = ?1 AND business_id = ?2",
    )
}

/// The statement that fills in how the sales of an order were paid, only where
/// nothing says so yet. The parameters are the business, the order and the
/// payment method.
pub fn backfill_statement(sales_table: &str) -> (s: String)
    ensures
        s@ == backfill_text(sales_table@),
        s@ == "UPDATE "@ + sales_table@
            + " SET payment_method = ?3, updated_at = datetime('now') WHERE business_id = ?1 AND order_id = ?2 AND deleted_at IS NULL AND payment_method IS NULL"@,
{
    cat3(
        "UPDATE ",
        sales_table,
        " SET payment_method = ?3, updated_at = datetime('now') WHERE business_id = ?1 AND order_id = ?2 AND deleted_at IS NULL AND payment_method IS NULL",
    )
}

/// The text of the statement that marks a debt as settled.
pub open spec fn settled_text(table: Seq<char>) -> Seq<char> {
    "UPDATE "@ + table
        + " SET settled = 1, payment_method = ?3, updated_at = datetime('now') WHERE id = ?1 AND business_id = ?2"@
}

/// The text of the statement that fills in how the sales of an order were paid.
pub open spec fn backfill_text(sales_table: Seq<char>) -> Seq<char> {
    "UPDATE "@ + sales_table
        + " SET payment_method = ?3, updated_at = datetime('now') WHERE business_id = ?1 AND order_id = ?2 AND deleted_at IS NULL AND payment_method IS NULL"@
}

/// Settling marks one debt of one business, and says how it was paid. The sales of
/// its order get the same payment method, but only those that have none: what a
/// sale says already stays.
pub proof fn law_settling_reaches_one_debt_and_its_order(table: Seq<char>)
    ensures
        asks(
            settled_text(table),
            "UPDATE "@ + table + " SET settled = 1, payment_method = ?3, updated_at = datetime('now')"@,
            seq!["id = ?1"@, "business_id = ?2"@],
            Seq::empty(),
        ),
        asks(
            backfill_text(table),
            "UPDATE "@ + table + " SET payment_method = ?3, updated_at = datetime('now')"@,
            seq!["business_id = ?1"@, "order_id = ?2"@, "deleted_at IS NULL"@, "payment_method IS NULL"@],
            Seq::empty(),
        ),
{
    reveal_strlit(" SET settled = 1, payment_method = ?3, updated_at = datetime('now') WHERE id = ?1 AND business_id = ?2");
    reveal_strlit(" SET settled = 1, payment_method = ?3, updated_at = datetime('now')");
    reveal_strlit(
        " SET payment_method = ?3, updated_at = datetime('now') WHERE business_id = ?1 AND order_id = ?2 AND deleted_at IS NULL AND payment_method IS NULL",
    );
    reveal_strlit(" SET payment_method = ?3, updated_at = datetime('now')");
    reveal_strlit("id = ?1");
    reveal_strlit("business_id = ?2");
    reveal_strlit("business_id = ?1");
    reveal_strlit("order_id = ?2");
    reveal_strlit("deleted_at IS NULL");
    reveal_strlit("payment_method IS NULL");
    reveal_strlit(" AND ");
    reveal_strlit(" WHERE ");
    let nothing = Seq::<char>::empty();
    let one = seq!["id = ?1"@, "business_id = ?2"@];
    let head = "UPDATE "@ + table + " SET settled = 1, payment_method = ?3, updated_at = datetime('now')"@;
    lemma_joined_few(one[0], one[1], one[1], one[1], " AND "@);
    assert(settled_text(table) =~= head + " WHERE "@ + joined(one, " AND "@) + nothing);
    assert(all_single(one));
    lemma_asks(settled_text(table), head, one, nothing);
    let sales = seq!["business_id = ?1"@, "order_id = ?2"@, "deleted_at IS NULL"@, "payment_method IS NULL"@];
    let to = "UPDATE "@ + table + " SET payment_method = ?3, updated_at = datetime('now')"@;
    lemma_joined_few(sales[0], sales[1], sales[2], sales[3], " AND "@);
    assert(backfill_text(table) =~= to + " WHERE "@ + joined(sales, " AND "@) + nothing);
    assert(all_single(sales));
    lemma_asks(backfill_text(table), to, sales, nothing);
}

/// A settlement that goes through always records how it was paid.
pub proof fn law_settlement_says_how(
    access: Option<&Access>,
    payment_method: Seq<char>,
    module_enabled: bool,
    debt: Option<&DebtRow>,
    accounting: Option<&ModuleDef>,
)
    ensures
        settlement(access, payment_method, module_enabled, debt, accounting) matches Ok(p) ==> p.payment_method.len() > 0
            && !crate::text::blank(payment_method),
{
}

/// The sentence for a refused settlement. `invalid` is the sentence for a
/// Bookkeeping entry that is not valid.
pub open spec fn settle_message(e: SettleErrorView, record_id: Seq<char>, invalid: Seq<char>) -> Seq<char> {
    match e {
        SettleErrorView::Access(a) => a.message(),
        SettleErrorView::NoPaymentMethod =>
            "select how this was paid before settling — a settlement must record its payment method"@,
        SettleErrorView::ModuleDisabled => "the Debt & Credit module isn't enabled for this business"@,
        SettleErrorView::NotFound => "debt/credit record not found: "@ + record_id,
        SettleErrorView::AlreadySettled =>
            "this record is already marked settled — settling it again would double-post the cash movement to Bookkeeping"@,
        SettleErrorView::Entry(p) => invalid,
    }
}

/// The sentence for a refused settlement.
pub fn settle_error_text(e: &SettleError, record_id: &str, invalid: &str) -> (s: String)
    ensures
        s@ == settle_message(e@, record_id@, invalid@),
{
    match e {
        SettleError::Access(a) => a.message(),
        SettleError::NoPaymentMethod =>
            "select how this was paid before settling — a settlement must record its payment method".to_owned(),
        SettleError::ModuleDisabled => "the Debt & Credit module isn't enabled for this business".to_owned(),
        SettleError::NotFound => cat("debt/credit record not found: ", record_id),
        SettleError::AlreadySettled =>
            "this record is already marked settled — settling it again would double-post the cash movement to Bookkeeping".to_owned(),
        SettleError::Entry(_) => invalid.to_owned(),
    }
}

// ---------------------------------------------------------------------------
// Summary
// ---------------------------------------------------------------------------

/// A debt or credit that is not settled.
#[derive(Debug)]
pub struct OpenDebt {
    pub direction: String,
    pub amount: i64,
    pub due_date: Option<String>,
}

/// What is unpaid, overdue and due soon.
#[derive(Clone, Copy, PartialEq, Eq, Structural, Debug)]
pub struct DebtSummary {
    pub owed_to_business_unpaid: i64,
    pub owed_to_business_unpaid_count: i64,
    pub owed_by_business_unpaid: i64,
    pub owed_by_business_unpaid_count: i64,
    pub overdue_amount: i64,
    pub overdue_count: i64,
    pub due_soon_amount: i64,
    pub due_soon_count: i64,
}

/// The four groups that a summary adds up.
#[derive(Clone, Copy, PartialEq, Eq, Structural, Debug)]
pub enum DebtGroup {
    OwedToBusiness,
    OwedByBusiness,
    Overdue,
    DueSoon,
}

/// Whether a debt belongs to a group. Dates compare as texts; `week_ahead` is
/// the date a week after `today`.
pub open spec fn in_group(d: OpenDebt, g: DebtGroup, today: Seq<char>, week_ahead: Option<Seq<char>>) -> bool {
    let due = opt_view(d.due_date);
    let dated = due is Some && due->0.len() > 0;
    match g {
        DebtGroup::OwedToBusiness => owed_to_business(d.direction@),
        DebtGroup::OwedByBusiness => !owed_to_business(d.direction@),
        DebtGroup::Overdue => dated && precedes(due->0, today),
        DebtGroup::DueSoon => dated && week_ahead is Some && !precedes(due->0, today) && !precedes(
            week_ahead->0,
            due->0,
        ),
    }
}

/// The amounts of the first `n` debts that belong to the group.
pub open spec fn group_amount(
    debts: Seq<OpenDebt>,
    n: nat,
    g: DebtGroup,
    today: Seq<char>,
    week_ahead: Option<Seq<char>>,
) -> int {
    sum_upto(
        n,
        |i: int|
            if in_group(debts[i], g, today, week_ahead) {
                debts[i].amount as int
            } else {
                0
            },
    )
}

/// How many of the first `n` debts belong to the group.
pub open spec fn group_count(
    debts: Seq<OpenDebt>,
    n: nat,
    g: DebtGroup,
    today: Seq<char>,
    week_ahead: Option<Seq<char>>,
) -> int {
    sum_upto(
        n,
        |i: int|
            if in_group(debts[i], g, today, week_ahead) {
                1int
            } else {
                0
            },
    )
}

/// Every sum on the way fits in 64 bits.
pub open spec fn amounts_fit(debts: Seq<OpenDebt>, today: Seq<char>, week_ahead: Option<Seq<char>>) -> bool {
    forall|n: nat, g: DebtGroup|
        n <= debts.len() ==> i64::MIN <= #[trigger] group_amount(debts, n, g, today, week_ahead) <= i64::MAX
}

fn belongs(d: &OpenDebt, g: DebtGroup, today: &str, week_ahead: Option<&str>) -> (b: bool)
    ensures
        b == in_group(*d, g, today@, opt_str_view(week_ahead)),
{
    match g {
        DebtGroup::OwedToBusiness => same(d.direction.as_str(), "owed_to_business"),
        DebtGroup::OwedByBusiness => !same(d.direction.as_str(), "owed_to_business"),
        DebtGroup::Overdue => match &d.due_date {
            Some(due) => !due.as_str().is_empty() && text_before(due.as_str(), today),
            None => false,
        },
        DebtGroup::DueSoon => match (&d.due_date, week_ahead) {
            (Some(due), Some(end)) => !due.as_str().is_empty() && !text_before(due.as_str(), today) && !text_before(
                end,
                due.as_str(),
            ),
            _ => false,
        },
    }
}

fn add_group(debts: &Vec<OpenDebt>, g: DebtGroup, today: &str, week_ahead: Option<&str>) -> (r: (i64, i64))
    requires
        amounts_fit(debts@, today@, opt_str_view(week_ahead)),
        debts@.len() <= i64::MAX,
    ensures
        r.0 == group_amount(debts@, debts@.len(), g, today@, opt_str_view(week_ahead)),
        r.1 == group_count(debts@, debts@.len(), g, today@, opt_str_view(week_ahead)),
{
    let mut amount: i64 = 0;
    let mut count: i64 = 0;
    let mut i: usize = 0;
    while i < debts.len()
        invariant
            i <= debts@.len() <= i64::MAX,
            amounts_fit(debts@, today@, opt_str_view(week_ahead)),
            amount == group_amount(debts@, i as nat, g, today@, opt_str_view(week_ahead)),
            count == group_count(debts@, i as nat, g, today@, opt_str_view(week_ahead)),
            0 <= count <= i,
        decreases debts@.len() - i,
    {
        assert(i64::MIN <= group_amount(debts@, (i + 1) as nat, g, today@, opt_str_view(week_ahead)) <= i64::MAX);
        if belongs(&debts[i], g, today, week_ahead) {
            amount = amount + debts[i].amount;
            count = count + 1;
        }
        i = i + 1;
    }
    (amount, count)
}

/// The date a week after a date, where both exist.
pub open spec fn week_after(today: Seq<char>) -> Option<Seq<char>> {
    match day_of(today) {
        Some(d) => if d + 7 <= i32::MAX {
            day_text(d + 7)
        } else {
            None
        },
        None => None,
    }
}

/// The date a week after a date.
pub fn week_ahead_of(today: &str) -> (r: Option<String>)
    ensures
        opt_view(r) == week_after(today@),
{
    match date_day(today) {
        Some(d) => if d <= i32::MAX - 7 {
            date_text(d + 7)
        } else {
            None
        },
        None => None,
    }
}

/// Sums up the debts that are not settled.
pub fn summary(debts: &Vec<OpenDebt>, today: &str, week_ahead: Option<&str>) -> (s: DebtSummary)
    requires
        amounts_fit(debts@, today@, opt_str_view(week_ahead)),
        debts@.len() <= i64::MAX,
    ensures
        ({
            let n = debts@.len();
            let w = opt_str_view(week_ahead);
            &&& s.owed_to_business_unpaid == group_amount(debts@, n, DebtGroup::OwedToBusiness, today@, w)
            &&& s.owed_to_business_unpaid_count == group_count(debts@, n, DebtGroup::OwedToBusiness, today@, w)
            &&& s.owed_by_business_unpaid == group_amount(debts@, n, DebtGroup::OwedByBusiness, today@, w)
            &&& s.owed_by_business_unpaid_count == group_count(debts@, n, DebtGroup::OwedByBusiness, today@, w)
            &&& s.overdue_amount == group_amount(debts@, n, DebtGroup::Overdue, today@, w)
            &&& s.overdue_count == group_count(debts@, n, DebtGroup::Overdue, today@, w)
            &&& s.due_soon_amount == group_amount(debts@, n, DebtGroup::DueSoon, today@, w)
            &&& s.due_soon_count == group_count(debts@, n, DebtGroup::DueSoon, today@, w)
        }),
{
    let to = add_group(debts, DebtGroup::OwedToBusiness, today, week_ahead);
    let by = add_group(debts, DebtGroup::OwedByBusiness, today, week_ahead);
    let overdue = add_group(debts, DebtGroup::Overdue, today, week_ahead);
    let soon = add_group(debts, DebtGroup::DueSoon, today, week_ahead);
    DebtSummary {
        owed_to_business_unpaid: to.0,
        owed_to_business_unpaid_count: to.1,
        owed_by_business_unpaid: by.0,
        owed_by_business_unpaid_count: by.1,
        overdue_amount: overdue.0,
        overdue_count: overdue.1,
        due_soon_amount: soon.0,
        due_soon_count: soon.1,
    }
}

/// Every open debt is counted once among what the business is owed and what
/// it owes.
pub proof fn law_every_debt_is_counted_once(
    debts: Seq<OpenDebt>,
    n: nat,
    today: Seq<char>,
    week_ahead: Option<Seq<char>>,
)
    ensures
        group_count(debts, n, DebtGroup::OwedToBusiness, today, week_ahead) + group_count(
            debts,
            n,
            DebtGroup::OwedByBusiness,
            today,
            week_ahead,
        ) == n,
    decreases n,
{
    if n > 0 {
        law_every_debt_is_counted_once(debts, (n - 1) as nat, today, week_ahead);
    }
}

/// A debt counts towards what the business is owed, with its full amount, just
/// when it is owed to it, and towards what it owes otherwise; so the two sums
/// are all that is open. What is overdue was due before today; what is due soon
/// is due from today up to a week from it.
pub proof fn law_each_debt_counts_where_it_belongs(
    debts: Seq<OpenDebt>,
    n: nat,
    today: Seq<char>,
    week_ahead: Option<Seq<char>>,
)
    requires
        0 < n <= debts.len(),
    ensures
        ({
            let d = debts[n - 1];
            let m = (n - 1) as nat;
            let dated = d.due_date is Some && d.due_date->0@.len() > 0;
            let due = d.due_date->0@;
            let grows = |g: DebtGroup| group_amount(debts, n, g, today, week_ahead) - group_amount(
                debts,
                m,
                g,
                today,
                week_ahead,
            );
            let ours = d.direction@ == "owed_to_business"@;
            let late = dated && precedes(due, today);
            let soon = dated && week_ahead is Some && (due == today || precedes(today, due)) && (due
                == week_ahead->0 || precedes(due, week_ahead->0));
            &&& grows(DebtGroup::OwedToBusiness) == (if ours {
                d.amount as int
            } else {
                0
            })
            &&& grows(DebtGroup::OwedByBusiness) == (if ours {
                0
            } else {
                d.amount as int
            })
            &&& grows(DebtGroup::Overdue) == (if late {
                d.amount as int
            } else {
                0
            })
            &&& grows(DebtGroup::DueSoon) == (if soon {
                d.amount as int
            } else {
                0
            })
            &&& forall|g: DebtGroup|
                group_count(debts, n, g, today, week_ahead) - group_count(debts, m, g, today, week_ahead) == (if match g {
                    DebtGroup::OwedToBusiness => ours,
                    DebtGroup::OwedByBusiness => !ours,
                    DebtGroup::Overdue => late,
                    DebtGroup::DueSoon => soon,
                } {
                    1int
                } else {
                    0
                })
        }),
{
    let d = debts[n - 1];
    if d.due_date is Some {
        lemma_precedes_total(d.due_date->0@, today);
        lemma_precedes_irreflexive(today);
        if precedes(today, d.due_date->0@) && precedes(d.due_date->0@, today) {
            lemma_precedes_asymmetric(today, d.due_date->0@);
        }
        if week_ahead is Some {
            lemma_precedes_total(d.due_date->0@, week_ahead->0);
            lemma_precedes_irreflexive(week_ahead->0);
            if precedes(week_ahead->0, d.due_date->0@) && precedes(d.due_date->0@, week_ahead->0) {
                lemma_precedes_asymmetric(week_ahead->0, d.due_date->0@);
            }
        }
    }
}

/// No debt is both overdue and due soon.
pub proof fn law_overdue_is_not_due_soon(d: OpenDebt, today: Seq<char>, week_ahead: Option<Seq<char>>)
    ensures
        !(in_group(d, DebtGroup::Overdue, today, week_ahead) && in_group(d, DebtGroup::DueSoon, today, week_ahead)),
{
}

/// A debt is due soon up to and with the day a week from today.
pub proof fn law_a_week_is_seven_days(today: Seq<char>, d: int)
    requires
        day_of(today) == Some(d),
        d <= 3_000_000,
    ensures
        week_after(today) == day_text(d + 7),
{
}

} // verus!
