//! Batch-costed inventory with first-expired, first-out consumption.
//!
//! Every receipt is a batch with its own quantity, cost, price and expiry. The
//! stock of an item that is in no batch is its legacy stock: the item's total
//! less what its batches hold, never a number of its own. Consumption takes
//! from the batch that expires first and from legacy stock last of all.

use crate::money::{amount_text, format_money, places_of};
use crate::text::{
    cat, clone_opt, lemma_precedes_asymmetric, lemma_precedes_irreflexive, lemma_precedes_total,
    lemma_precedes_transitive, opt_view, precedes, same, text_before,
};
use vstd::prelude::*;

verus! {

/// One batch, as callers see it.
#[derive(Debug)]
pub struct BatchRow {
    pub id: String,
    pub inventory_record_id: String,
    pub source_po_number: Option<String>,
    pub quantity_received: i64,
    pub quantity_remaining: i64,
    pub unit_cost: i64,
    pub unit_price: i64,
    pub expiry_date: Option<String>,
    pub received_at: String,
}

/// Where one portion of a consumption came from.
#[derive(Debug)]
pub enum ConsumedFrom {
    Batch { batch_id: String, expiry_date: Option<String> },
    Legacy,
}

/// One priced and costed slice of a consumption.
#[derive(Debug)]
pub struct ConsumedPortion {
    pub from: ConsumedFrom,
    pub quantity: i64,
    pub unit_cost: i64,
    pub unit_price: i64,
}

impl ConsumedPortion {
    /// The batch that the portion came from; none for legacy stock.
    pub fn source_batch_id(&self) -> (r: Option<&str>)
        ensures
            match self.from {
                ConsumedFrom::Batch { batch_id, expiry_date } => r is Some && r->0@ == batch_id@,
                ConsumedFrom::Legacy => r is None,
            },
    {
        match &self.from {
            ConsumedFrom::Batch { batch_id, .. } => Some(batch_id.as_str()),
            ConsumedFrom::Legacy => None,
        }
    }
}

/// What consumption reads of a batch.
#[derive(Debug)]
pub struct LiveBatch {
    pub id: String,
    pub quantity_remaining: i64,
    pub unit_cost: i64,
    pub unit_price: i64,
    pub expiry_date: Option<String>,
    pub received_at: String,
    /// A batch that stands for stock from before batches existed.
    pub is_legacy_migration: bool,
}

// ---------------------------------------------------------------------------
// The order of consumption
// ---------------------------------------------------------------------------

/// Whether `a` is used up before `b`: migrated legacy stock last; then a real
/// expiry date before none, the sooner one first; then the one received
/// first; then by id.
pub open spec fn fefo_before(a: LiveBatch, b: LiveBatch) -> bool {
    if a.is_legacy_migration != b.is_legacy_migration {
        b.is_legacy_migration
    } else if (a.expiry_date is None) != (b.expiry_date is None) {
        b.expiry_date is None
    } else if a.expiry_date is Some && a.expiry_date->0@ != b.expiry_date->0@ {
        precedes(a.expiry_date->0@, b.expiry_date->0@)
    } else if a.received_at@ != b.received_at@ {
        precedes(a.received_at@, b.received_at@)
    } else {
        precedes(a.id@, b.id@)
    }
}

/// Of two batches with different ids, exactly one is used up before the
/// other: the order leaves no tie.
pub proof fn law_fefo_is_total(a: LiveBatch, b: LiveBatch)
    requires
        a.id@ != b.id@,
    ensures
        fefo_before(a, b) != fefo_before(b, a),
{
    if a.expiry_date is Some && b.expiry_date is Some {
        lemma_precedes_total(a.expiry_date->0@, b.expiry_date->0@);
    }
    lemma_precedes_total(a.received_at@, b.received_at@);
    lemma_precedes_total(a.id@, b.id@);
    law_fefo_is_asymmetric(a, b);
}

/// No two batches are each used up before the other.
pub proof fn law_fefo_is_asymmetric(a: LiveBatch, b: LiveBatch)
    ensures
        !(fefo_before(a, b) && fefo_before(b, a)),
{
    if a.expiry_date is Some && b.expiry_date is Some {
        if precedes(a.expiry_date->0@, b.expiry_date->0@) {
            lemma_precedes_asymmetric(a.expiry_date->0@, b.expiry_date->0@);
        }
    }
    if precedes(a.received_at@, b.received_at@) {
        lemma_precedes_asymmetric(a.received_at@, b.received_at@);
    }
    if precedes(a.id@, b.id@) {
        lemma_precedes_asymmetric(a.id@, b.id@);
    }
}

/// The order of consumption is transitive.
pub proof fn law_fefo_is_transitive(a: LiveBatch, b: LiveBatch, c: LiveBatch)
    requires
        fefo_before(a, b),
        fefo_before(b, c),
    ensures
        fefo_before(a, c),
{
    if a.expiry_date is Some && b.expiry_date is Some && c.expiry_date is Some {
        let (x, y, z) = (a.expiry_date->0@, b.expiry_date->0@, c.expiry_date->0@);
        if precedes(x, y) && precedes(y, z) {
            lemma_precedes_transitive(x, y, z);
            lemma_precedes_irreflexive(x);
        }
    }
    let (x, y, z) = (a.received_at@, b.received_at@, c.received_at@);
    if precedes(x, y) && precedes(y, z) {
        lemma_precedes_transitive(x, y, z);
        lemma_precedes_irreflexive(x);
    }
    let (x, y, z) = (a.id@, b.id@, c.id@);
    if precedes(x, y) && precedes(y, z) {
        lemma_precedes_transitive(x, y, z);
    }
}

/// Whether `a` is used up before `b`.
pub fn is_fefo_before(a: &LiveBatch, b: &LiveBatch) -> (r: bool)
    ensures
        r == fefo_before(*a, *b),
{
    if a.is_legacy_migration != b.is_legacy_migration {
        return b.is_legacy_migration;
    }
    match (&a.expiry_date, &b.expiry_date) {
        (Some(x), Some(y)) => {
            if !same(x.as_str(), y.as_str()) {
                return text_before(x.as_str(), y.as_str());
            }
        },
        (None, None) => {},
        (Some(_), None) => {
            return true;
        },
        (None, Some(_)) => {
            return false;
        },
    }
    if !same(a.received_at.as_str(), b.received_at.as_str()) {
        return text_before(a.received_at.as_str(), b.received_at.as_str());
    }
    text_before(a.id.as_str(), b.id.as_str())
}

/// No batch comes after one that is used up later.
pub open spec fn fefo_sorted(s: Seq<LiveBatch>) -> bool {
    forall|i: int, j: int| 0 <= i < j < s.len() ==> !fefo_before(#[trigger] s[j], #[trigger] s[i])
}

/// The batches in the order of consumption.
pub fn fefo_order(batches: Vec<LiveBatch>) -> (r: Vec<LiveBatch>)
    ensures
        r@.to_multiset() == batches@.to_multiset(),
        fefo_sorted(r@),
{
    let mut rest = batches;
    let mut r: Vec<LiveBatch> = Vec::new();
    let ghost all = rest@;
    proof {
        broadcast use vstd::seq_lib::group_to_multiset_ensures;

        assert(r@.to_multiset().add(rest@.to_multiset()) =~= all.to_multiset());
    }
    while rest.len() > 0
        invariant
            r@.to_multiset().add(rest@.to_multiset()) == all.to_multiset(),
            fefo_sorted(r@),
        decreases rest@.len(),
    {
        let ghost rest0 = rest@;
        let ghost r0 = r@;
        match rest.pop() {
            None => {},
            Some(b) => {
                // The place behind every batch that does not come after `b`.
                let mut k: usize = r.len();
                while k > 0 && is_fefo_before(&b, &r[k - 1])
                    invariant
                        k <= r@.len(),
                        r@ == r0,
                        forall|i: int| k <= i < r@.len() ==> fefo_before(b, #[trigger] r@[i]),
                    decreases k,
                {
                    k = k - 1;
                }
                proof {
                    broadcast use vstd::seq_lib::group_to_multiset_ensures;

                    assert(rest0 =~= rest@.push(b));
                    assert(r0.insert(k as int, b).to_multiset() =~= r0.to_multiset().insert(b));
                    assert(rest0.to_multiset() =~= rest@.to_multiset().insert(b));
                    assert(r0.to_multiset().insert(b).add(rest@.to_multiset()) =~= r0.to_multiset().add(
                        rest0.to_multiset(),
                    ));
                    lemma_insert_keeps_order(r0, b, k as int);
                }
                r.insert(k, b);
            },
        }
    }
    proof {
        broadcast use vstd::seq_lib::group_to_multiset_ensures;

        assert(rest@ =~= Seq::<LiveBatch>::empty());
        assert(r@.to_multiset().add(rest@.to_multiset()) =~= r@.to_multiset());
    }
    r
}

proof fn lemma_insert_keeps_order(s: Seq<LiveBatch>, b: LiveBatch, k: int)
    requires
        fefo_sorted(s),
        0 <= k <= s.len(),
        k > 0 ==> !fefo_before(b, s[k - 1]),
        forall|i: int| k <= i < s.len() ==> fefo_before(b, #[trigger] s[i]),
    ensures
        fefo_sorted(s.insert(k, b)),
{
    let t = s.insert(k, b);
    assert forall|i: int, j: int| 0 <= i < j < t.len() implies !fefo_before(#[trigger] t[j], #[trigger] t[i]) by {
        if i < k && j < k {
            assert(t[i] == s[i] && t[j] == s[j]);
        } else if i < k && j == k {
            assert(t[i] == s[i]);
            if fefo_before(b, s[i]) && i < k - 1 {
                // Then `b` would also come before everything up to `k - 1`
                // that does not come before `s[i]`.
                lemma_not_before_chain(b, s[i], s[k - 1]);
            }
        } else if i < k && j > k {
            assert(t[i] == s[i] && t[j] == s[j - 1]);
        } else if i == k {
            assert(t[j] == s[j - 1]);
            law_fefo_is_asymmetric(b, s[j - 1]);
        } else {
            assert(t[i] == s[i - 1] && t[j] == s[j - 1]);
        }
    }
}

/// Coming before one batch is coming before every batch that does not come
/// before that one.
proof fn lemma_not_before_chain(b: LiveBatch, x: LiveBatch, y: LiveBatch)
    requires
        fefo_before(b, x),
        !fefo_before(y, x),
    ensures
        fefo_before(b, y),
{
    if x.expiry_date is Some && y.expiry_date is Some {
        lemma_precedes_total(x.expiry_date->0@, y.expiry_date->0@);
    }
    lemma_precedes_total(x.received_at@, y.received_at@);
    lemma_precedes_total(x.id@, y.id@);
    if fefo_before(x, y) {
        law_fefo_is_transitive(b, x, y);
    }
}

// ---------------------------------------------------------------------------
// Consumption
// ---------------------------------------------------------------------------

/// Where a portion came from: a batch with its expiry, or legacy stock.
pub enum SourceView {
    Batch(Seq<char>, Option<Seq<char>>),
    Legacy,
}

/// What a portion is.
pub struct PortionView {
    pub from: SourceView,
    pub quantity: int,
    pub unit_cost: int,
    pub unit_price: int,
}

impl View for ConsumedPortion {
    type V = PortionView;

    open spec fn view(&self) -> PortionView {
        PortionView {
            from: match self.from {
                ConsumedFrom::Batch { batch_id, expiry_date } => SourceView::Batch(batch_id@, opt_view(expiry_date)),
                ConsumedFrom::Legacy => SourceView::Legacy,
            },
            quantity: self.quantity as int,
            unit_cost: self.unit_cost as int,
            unit_price: self.unit_price as int,
        }
    }
}

/// The views of a list of portions.
pub open spec fn portion_views(s: Seq<ConsumedPortion>) -> Seq<PortionView> {
    Seq::new(s.len(), |i: int| s[i]@)
}

/// The smaller of two numbers.
pub open spec fn min_of(a: int, b: int) -> int {
    if a <= b {
        a
    } else {
        b
    }
}

/// The number, or zero where it is below zero.
pub open spec fn at_least_zero(a: int) -> int {
    if a >= 0 {
        a
    } else {
        0
    }
}

/// What is still needed after the first `n` batches have given what they can.
pub open spec fn still_needed(batches: Seq<LiveBatch>, n: nat, needed: int) -> int
    decreases n,
{
    if n == 0 {
        needed
    } else {
        let before = still_needed(batches, (n - 1) as nat, needed);
        before - min_of(at_least_zero(batches[n - 1].quantity_remaining as int), before)
    }
}

/// What the batch at place `i` gives: all that it has, or what is still needed
/// if that is less.
pub open spec fn taken_from(batches: Seq<LiveBatch>, i: int, needed: int) -> int {
    min_of(at_least_zero(batches[i].quantity_remaining as int), still_needed(batches, i as nat, needed))
}

/// The portions that the first `n` batches give, in order; a batch that gives
/// nothing makes no portion.
pub open spec fn batch_portions(batches: Seq<LiveBatch>, n: nat, needed: int) -> Seq<PortionView>
    decreases n,
{
    if n == 0 {
        Seq::empty()
    } else {
        let before = batch_portions(batches, (n - 1) as nat, needed);
        let b = batches[n - 1];
        let take = taken_from(batches, n - 1, needed);
        if take > 0 {
            before.push(
                PortionView {
                    from: SourceView::Batch(b.id@, opt_view(b.expiry_date)),
                    quantity: take,
                    unit_cost: b.unit_cost as int,
                    unit_price: b.unit_price as int,
                },
            )
        } else {
            before
        }
    }
}

/// What the first `n` batches hold together, counting none below zero.
pub open spec fn batch_stock(batches: Seq<LiveBatch>, n: nat) -> int
    decreases n,
{
    if n == 0 {
        0
    } else {
        batch_stock(batches, (n - 1) as nat) + at_least_zero(batches[n - 1].quantity_remaining as int)
    }
}

/// The legacy stock: the part of the item's total that is in no live batch.
pub open spec fn legacy_stock(batches: Seq<LiveBatch>, item_total: int) -> int {
    at_least_zero(item_total - batch_stock(batches, batches.len()))
}

/// What legacy stock gives.
pub open spec fn taken_from_legacy(batches: Seq<LiveBatch>, needed: int, item_total: int) -> int {
    min_of(still_needed(batches, batches.len(), needed), legacy_stock(batches, item_total))
}

/// The portions of a whole consumption, legacy stock last.
pub open spec fn all_portions(
    batches: Seq<LiveBatch>,
    needed: int,
    item_total: int,
    legacy_unit_cost: int,
    legacy_unit_price: int,
) -> Seq<PortionView> {
    let from_batches = batch_portions(batches, batches.len(), needed);
    let take = taken_from_legacy(batches, needed, item_total);
    if take > 0 {
        from_batches.push(
            PortionView {
                from: SourceView::Legacy,
                quantity: take,
                unit_cost: legacy_unit_cost,
                unit_price: legacy_unit_price,
            },
        )
    } else {
        from_batches
    }
}

/// Why a consumption is refused.
#[derive(Clone, Copy, PartialEq, Eq, Structural, Debug)]
pub enum FefoError {
    /// Nothing, or less than nothing, was asked for.
    NonPositive,
    /// That many units are in no batch and not in legacy stock either.
    Short { missing: i64 },
}

/// Consumes `qty_needed` units of one item from its live batches, which are
/// given in the order of consumption, and from legacy stock when they are
/// used up. `item_total` is the item's quantity before the consumption.
/// Either everything that is needed is sourced, or nothing is consumed.
pub fn fefo_consume(
    batches: &Vec<LiveBatch>,
    qty_needed: i64,
    item_total: i64,
    legacy_unit_cost: i64,
    legacy_unit_price: i64,
) -> (r: Result<Vec<ConsumedPortion>, FefoError>)
    ensures
        match r {
            Err(FefoError::NonPositive) => qty_needed <= 0,
            Err(FefoError::Short { missing }) => qty_needed > 0 && missing > 0 && missing == still_needed(
                batches@,
                batches@.len(),
                qty_needed as int,
            ) - taken_from_legacy(batches@, qty_needed as int, item_total as int),
            Ok(portions) => {
                &&& qty_needed > 0
                &&& still_needed(batches@, batches@.len(), qty_needed as int) == taken_from_legacy(
                    batches@,
                    qty_needed as int,
                    item_total as int,
                )
                &&& portion_views(portions@) == all_portions(
                    batches@,
                    qty_needed as int,
                    item_total as int,
                    legacy_unit_cost as int,
                    legacy_unit_price as int,
                )
            },
        },
{
    if qty_needed <= 0 {
        return Err(FefoError::NonPositive);
    }
    let mut needed: i64 = qty_needed;
    let mut held: i128 = 0;
    let mut portions: Vec<ConsumedPortion> = Vec::new();
    let mut i: usize = 0;
    assert(portion_views(portions@) =~= Seq::<PortionView>::empty());
    while i < batches.len()
        invariant
            i <= batches@.len(),
            0 <= needed <= qty_needed,
            needed == still_needed(batches@, i as nat, qty_needed as int),
            held == batch_stock(batches@, i as nat),
            0 <= held <= 0x7fff_ffff_ffff_ffff * i,
            portion_views(portions@) == batch_portions(batches@, i as nat, qty_needed as int),
        decreases batches@.len() - i,
    {
        let b = &batches[i];
        if b.quantity_remaining > 0 {
            held = held + b.quantity_remaining as i128;
        }
        let take: i64 = if b.quantity_remaining <= 0 {
            0
        } else if b.quantity_remaining < needed {
            b.quantity_remaining
        } else {
            needed
        };
        assert(take == taken_from(batches@, i as int, qty_needed as int));
        if take > 0 {
            let portion = ConsumedPortion {
                from: ConsumedFrom::Batch { batch_id: b.id.clone(), expiry_date: clone_opt(&b.expiry_date) },
                quantity: take,
                unit_cost: b.unit_cost,
                unit_price: b.unit_price,
            };
            let ghost before = portion_views(portions@);
            portions.push(portion);
            assert(portion_views(portions@) =~= before.push(portion@));
            needed = needed - take;
        }
        i = i + 1;
    }
    let legacy: i128 = item_total as i128 - held;
    let take: i64 = if legacy <= 0 {
        0
    } else if legacy < needed as i128 {
        legacy as i64
    } else {
        needed
    };
    assert(take == taken_from_legacy(batches@, qty_needed as int, item_total as int));
    if take > 0 {
        let portion = ConsumedPortion {
            from: ConsumedFrom::Legacy,
            quantity: take,
            unit_cost: legacy_unit_cost,
            unit_price: legacy_unit_price,
        };
        let ghost before = portion_views(portions@);
        portions.push(portion);
        assert(portion_views(portions@) =~= before.push(portion@));
    }
    if needed > take {
        return Err(FefoError::Short { missing: needed - take });
    }
    Ok(portions)
}

// ---------------------------------------------------------------------------
// Laws of consumption
// ---------------------------------------------------------------------------

/// The units of the portions together.
pub open spec fn portions_total(s: Seq<PortionView>) -> int
    decreases s.len(),
{
    if s.len() == 0 {
        0
    } else {
        portions_total(s.drop_last()) + s.last().quantity
    }
}

proof fn lemma_portions_push(s: Seq<PortionView>, p: PortionView)
    ensures
        portions_total(s.push(p)) == portions_total(s) + p.quantity,
{
    assert(s.push(p).drop_last() =~= s);
}

proof fn lemma_needed(batches: Seq<LiveBatch>, n: nat, needed: int)
    requires
        n <= batches.len(),
        needed >= 0,
    ensures
        0 <= still_needed(batches, n, needed) <= needed,
        portions_total(batch_portions(batches, n, needed)) == needed - still_needed(batches, n, needed),
    decreases n,
{
    if n > 0 {
        lemma_needed(batches, (n - 1) as nat, needed);
        if taken_from(batches, n - 1, needed) > 0 {
            lemma_portions_push(
                batch_portions(batches, (n - 1) as nat, needed),
                batch_portions(batches, n, needed).last(),
            );
        }
    }
}

/// A consumption that succeeds takes exactly what was needed.
pub proof fn law_consumption_is_exact(
    batches: Seq<LiveBatch>,
    needed: int,
    item_total: int,
    legacy_unit_cost: int,
    legacy_unit_price: int,
)
    requires
        needed > 0,
        still_needed(batches, batches.len(), needed) == taken_from_legacy(batches, needed, item_total),
    ensures
        portions_total(all_portions(batches, needed, item_total, legacy_unit_cost, legacy_unit_price)) == needed,
{
    lemma_needed(batches, batches.len(), needed);
    let all = all_portions(batches, needed, item_total, legacy_unit_cost, legacy_unit_price);
    if taken_from_legacy(batches, needed, item_total) > 0 {
        lemma_portions_push(batch_portions(batches, batches.len(), needed), all.last());
    }
}

/// A batch gives something only once every batch before it has given all that
/// it had.
pub proof fn law_earlier_batches_first(batches: Seq<LiveBatch>, i: int, j: int, needed: int)
    requires
        0 <= i < j < batches.len(),
        needed >= 0,
        taken_from(batches, j, needed) > 0,
    ensures
        taken_from(batches, i, needed) == at_least_zero(batches[i].quantity_remaining as int),
{
    lemma_needed_shrinks(batches, (i + 1) as nat, j as nat, needed);
    lemma_needed(batches, i as nat, needed);
}

proof fn lemma_needed_shrinks(batches: Seq<LiveBatch>, m: nat, n: nat, needed: int)
    requires
        m <= n <= batches.len(),
        needed >= 0,
    ensures
        still_needed(batches, n, needed) <= still_needed(batches, m, needed),
    decreases n,
{
    if m < n {
        lemma_needed_shrinks(batches, m, (n - 1) as nat, needed);
        lemma_needed(batches, (n - 1) as nat, needed);
    }
}

/// Legacy stock gives something only once every batch has given all that it
/// had.
pub proof fn law_legacy_last(batches: Seq<LiveBatch>, i: int, needed: int, item_total: int)
    requires
        0 <= i < batches.len(),
        needed >= 0,
        taken_from_legacy(batches, needed, item_total) > 0,
    ensures
        taken_from(batches, i, needed) == at_least_zero(batches[i].quantity_remaining as int),
{
    lemma_needed_shrinks(batches, (i + 1) as nat, batches.len(), needed);
    lemma_needed(batches, i as nat, needed);
}

/// No batch gives more than it has, and none gives less than nothing.
pub proof fn law_no_batch_is_overdrawn(batches: Seq<LiveBatch>, i: int, needed: int)
    requires
        0 <= i < batches.len(),
        needed >= 0,
    ensures
        0 <= taken_from(batches, i, needed) <= at_least_zero(batches[i].quantity_remaining as int),
{
    lemma_needed(batches, i as nat, needed);
}

proof fn lemma_needed_closed_form(batches: Seq<LiveBatch>, n: nat, needed: int)
    requires
        n <= batches.len(),
        needed >= 0,
    ensures
        still_needed(batches, n, needed) == at_least_zero(needed - batch_stock(batches, n)),
        batch_stock(batches, n) >= 0,
    decreases n,
{
    if n > 0 {
        lemma_needed_closed_form(batches, (n - 1) as nat, needed);
    }
}

/// A consumption succeeds exactly when the batches and legacy stock together
/// hold what is needed.
pub proof fn law_succeeds_when_there_is_enough(batches: Seq<LiveBatch>, needed: int, item_total: int)
    requires
        needed > 0,
    ensures
        still_needed(batches, batches.len(), needed) == taken_from_legacy(batches, needed, item_total) <==> needed
            <= batch_stock(batches, batches.len()) + legacy_stock(batches, item_total),
{
    lemma_needed_closed_form(batches, batches.len(), needed);
}

/// A consumption within the item's total always succeeds, and where the total
/// covers the batches no consumption beyond it does: nothing is oversold.
pub proof fn law_nothing_is_oversold(batches: Seq<LiveBatch>, needed: int, item_total: int)
    requires
        needed > 0,
    ensures
        needed <= item_total ==> still_needed(batches, batches.len(), needed) == taken_from_legacy(
            batches,
            needed,
            item_total,
        ),
        batch_stock(batches, batches.len()) <= item_total < needed ==> still_needed(batches, batches.len(), needed)
            > taken_from_legacy(batches, needed, item_total),
{
    lemma_needed_closed_form(batches, batches.len(), needed);
}

/// Whether a portion is what a batch gave: it bears that batch's id and expiry,
/// costs and sells at that batch's cost and price, and is no more than the batch
/// held.
pub open spec fn given_by(p: PortionView, b: LiveBatch) -> bool {
    &&& p.from == SourceView::Batch(b.id@, opt_view(b.expiry_date))
    &&& p.unit_cost == b.unit_cost
    &&& p.unit_price == b.unit_price
    &&& 0 < p.quantity <= b.quantity_remaining
}

proof fn lemma_portions_follow_batches(batches: Seq<LiveBatch>, n: nat, needed: int) -> (at: Seq<int>)
    requires
        n <= batches.len(),
        needed >= 0,
    ensures
        at.len() == batch_portions(batches, n, needed).len(),
        forall|i: int|
            0 <= i < at.len() ==> 0 <= #[trigger] at[i] < n && given_by(
                batch_portions(batches, n, needed)[i],
                batches[at[i]],
            ),
        forall|i: int, j: int| 0 <= i < j < at.len() ==> #[trigger] at[i] < #[trigger] at[j],
    decreases n,
{
    if n == 0 {
        Seq::empty()
    } else {
        let before = lemma_portions_follow_batches(batches, (n - 1) as nat, needed);
        lemma_needed(batches, (n - 1) as nat, needed);
        if taken_from(batches, n - 1, needed) > 0 {
            let at = before.push(n - 1);
            assert forall|i: int| 0 <= i < at.len() implies 0 <= #[trigger] at[i] < n && given_by(
                batch_portions(batches, n, needed)[i],
                batches[at[i]],
            ) by {
                if i < before.len() {
                    assert(at[i] == before[i]);
                    assert(batch_portions(batches, n, needed)[i] == batch_portions(
                        batches,
                        (n - 1) as nat,
                        needed,
                    )[i]);
                }
            }
            assert forall|i: int, j: int| 0 <= i < j < at.len() implies #[trigger] at[i] < #[trigger] at[j] by {
                assert(at[i] == before[i]);
                if j < before.len() {
                    assert(at[j] == before[j]);
                }
            }
            at
        } else {
            before
        }
    }
}

/// Every portion carries the numbers of what it was taken from: one from a batch
/// that of a batch in the list, with the same id, expiry, cost and price, and no
/// more than it holds; one from legacy stock those of the item, and no more than
/// the part of the item's total that is in no batch.
pub proof fn law_portions_carry_the_numbers_of_their_source(
    batches: Seq<LiveBatch>,
    needed: int,
    item_total: int,
    legacy_unit_cost: int,
    legacy_unit_price: int,
    i: int,
)
    requires
        needed > 0,
        0 <= i < all_portions(batches, needed, item_total, legacy_unit_cost, legacy_unit_price).len(),
    ensures
        ({
            let p = all_portions(batches, needed, item_total, legacy_unit_cost, legacy_unit_price)[i];
            match p.from {
                SourceView::Batch(id, expiry) => exists|k: int|
                    0 <= k < batches.len() && (#[trigger] batches[k]).id@ == id && opt_view(batches[k].expiry_date)
                        == expiry && batches[k].unit_cost == p.unit_cost && batches[k].unit_price == p.unit_price && 0
                        < p.quantity <= batches[k].quantity_remaining,
                SourceView::Legacy => {
                    &&& p.unit_cost == legacy_unit_cost
                    &&& p.unit_price == legacy_unit_price
                    &&& 0 < p.quantity <= item_total - batch_stock(batches, batches.len())
                },
            }
        }),
{
    let at = lemma_portions_follow_batches(batches, batches.len(), needed);
    let of_batches = batch_portions(batches, batches.len(), needed);
    lemma_needed(batches, batches.len(), needed);
    if i < of_batches.len() {
        let p = all_portions(batches, needed, item_total, legacy_unit_cost, legacy_unit_price)[i];
        assert(p == of_batches[i]);
        assert(given_by(p, batches[at[i]]));
    }
}

/// The portions come in the order of the batches, no batch makes two, and legacy
/// stock comes behind them all.
pub proof fn law_portions_follow_the_order_of_consumption(
    batches: Seq<LiveBatch>,
    needed: int,
    item_total: int,
    legacy_unit_cost: int,
    legacy_unit_price: int,
    i: int,
    j: int,
)
    requires
        needed > 0,
        0 <= i < j < all_portions(batches, needed, item_total, legacy_unit_cost, legacy_unit_price).len(),
    ensures
        ({
            let all = all_portions(batches, needed, item_total, legacy_unit_cost, legacy_unit_price);
            ||| exists|a: int, b: int|
                0 <= a < b < batches.len() && given_by(all[i], #[trigger] batches[a]) && given_by(
                    all[j],
                    #[trigger] batches[b],
                )
            ||| all[j].from == SourceView::Legacy && exists|a: int|
                0 <= a < batches.len() && given_by(all[i], #[trigger] batches[a])
        }),
{
    let at = lemma_portions_follow_batches(batches, batches.len(), needed);
    let all = all_portions(batches, needed, item_total, legacy_unit_cost, legacy_unit_price);
    let of_batches = batch_portions(batches, batches.len(), needed);
    assert(all[i] == of_batches[i]);
    assert(given_by(all[i], batches[at[i]]));
    if j < of_batches.len() {
        assert(all[j] == of_batches[j]);
        assert(at[i] < at[j]);
        assert(given_by(all[j], batches[at[j]]));
    }
}

/// Where there is too little, what is missing is what was needed less all that
/// the batches and legacy stock hold.
pub proof fn law_shortfall_is_what_is_missing(batches: Seq<LiveBatch>, needed: int, item_total: int)
    requires
        needed > 0,
        batch_stock(batches, batches.len()) + legacy_stock(batches, item_total) < needed,
    ensures
        still_needed(batches, batches.len(), needed) - taken_from_legacy(batches, needed, item_total) == needed
            - batch_stock(batches, batches.len()) - legacy_stock(batches, item_total),
{
    lemma_needed_closed_form(batches, batches.len(), needed);
}

/// What decides between two batches: migrated legacy stock goes last whatever
/// its dates; of others the one with the sooner expiry goes first, one without
/// any expiry last; of those alike in that, the one that was received first.
pub proof fn law_what_expires_first_goes_first(a: LiveBatch, b: LiveBatch)
    ensures
        !a.is_legacy_migration && b.is_legacy_migration ==> fefo_before(a, b),
        a.is_legacy_migration == b.is_legacy_migration ==> {
            &&& a.expiry_date is Some && b.expiry_date is None ==> fefo_before(a, b)
            &&& a.expiry_date is Some && b.expiry_date is Some && precedes(a.expiry_date->0@, b.expiry_date->0@)
                ==> fefo_before(a, b)
            &&& opt_view(a.expiry_date) == opt_view(b.expiry_date) && precedes(a.received_at@, b.received_at@)
                ==> fefo_before(a, b)
            &&& opt_view(a.expiry_date) == opt_view(b.expiry_date) && a.received_at@ == b.received_at@ && precedes(
                a.id@,
                b.id@,
            ) ==> fefo_before(a, b)
        },
{
    if a.expiry_date is Some && b.expiry_date is Some {
        lemma_precedes_irreflexive(a.expiry_date->0@);
    }
    lemma_precedes_irreflexive(a.received_at@);
}

// ---------------------------------------------------------------------------
// Creating, restoring and repricing
// ---------------------------------------------------------------------------

/// Why a batch cannot be as asked.
#[derive(Clone, Copy, PartialEq, Eq, Structural, Debug)]
pub enum BatchError {
    /// A batch holds at least one unit.
    Quantity,
    /// Neither cost nor price may be below zero.
    Negative,
    /// The price is below the cost.
    BelowCost,
}

/// What is wrong with a new batch.
pub open spec fn new_batch_problem(quantity: int, unit_cost: int, unit_price: int) -> Option<BatchError> {
    if quantity <= 0 {
        Some(BatchError::Quantity)
    } else if unit_cost < 0 || unit_price < 0 {
        Some(BatchError::Negative)
    } else if unit_price < unit_cost {
        Some(BatchError::BelowCost)
    } else {
        None
    }
}

/// Checks the numbers of a new batch.
pub fn check_new_batch(quantity: i64, unit_cost: i64, unit_price: i64) -> (r: Result<(), BatchError>)
    ensures
        match r {
            Ok(()) => new_batch_problem(quantity as int, unit_cost as int, unit_price as int) is None,
            Err(e) => new_batch_problem(quantity as int, unit_cost as int, unit_price as int) == Some(e),
        },
{
    if quantity <= 0 {
        Err(BatchError::Quantity)
    } else if unit_cost < 0 || unit_price < 0 {
        Err(BatchError::Negative)
    } else if unit_price < unit_cost {
        Err(BatchError::BelowCost)
    } else {
        Ok(())
    }
}

/// The sentence for a batch that cannot be.
pub open spec fn batch_message(e: BatchError, unit_cost: int, unit_price: int, code: Seq<char>) -> Seq<char> {
    match e {
        BatchError::Quantity => "batch quantity must be greater than zero"@,
        BatchError::Negative => "batch cost/price cannot be negative"@,
        BatchError::BelowCost => "this batch would be priced at "@ + amount_text(unit_price, places_of(code))
            + " while costing "@ + amount_text(unit_cost, places_of(code))
            + " per unit — a batch can never be priced below its own cost"@,
    }
}

/// The sentence for a batch that cannot be.
pub fn batch_error_text(e: BatchError, unit_cost: i64, unit_price: i64, currency: &str) -> (s: String)
    ensures
        s@ == batch_message(e, unit_cost as int, unit_price as int, currency@),
{
    match e {
        BatchError::Quantity => "batch quantity must be greater than zero".to_owned(),
        BatchError::Negative => "batch cost/price cannot be negative".to_owned(),
        BatchError::BelowCost => {
            let mut s = "this batch would be priced at ".to_owned();
            s.append(format_money(unit_price, currency).as_str());
            s.append(" while costing ");
            s.append(format_money(unit_cost, currency).as_str());
            s.append(" per unit — a batch can never be priced below its own cost");
            s
        },
    }
}

/// How refunded units go back into stock.
#[derive(Clone, Copy, PartialEq, Eq, Structural, Debug)]
pub enum RestoreAction {
    /// Add them to the batch they came from.
    Credit { quantity: i64 },
    /// That batch is gone: make a new one at the cost and price of the sale.
    NewBatch { quantity: i64, unit_cost: i64, unit_price: i64 },
}

/// How refunded units go back into stock.
pub open spec fn restored(
    batch_is_live: bool,
    quantity: i64,
    unit_cost: i64,
    unit_price: i64,
) -> Result<RestoreAction, BatchError> {
    if batch_is_live {
        Ok(RestoreAction::Credit { quantity })
    } else {
        match new_batch_problem(quantity as int, unit_cost as int, unit_price as int) {
            None => Ok(RestoreAction::NewBatch { quantity, unit_cost, unit_price }),
            Some(e) => Err(e),
        }
    }
}

/// What comes back goes back in full: as many units as were refunded, onto the batch
/// that they came from while it is there, and else into a batch with the cost and
/// the price that they were sold at.
pub proof fn law_refunds_go_back_in_full(batch_is_live: bool, quantity: i64, unit_cost: i64, unit_price: i64)
    requires
        quantity > 0,
        0 <= unit_cost <= unit_price,
    ensures
        restored(batch_is_live, quantity, unit_cost, unit_price) is Ok,
        match restored(batch_is_live, quantity, unit_cost, unit_price)->Ok_0 {
            RestoreAction::Credit { quantity: n } => batch_is_live && n == quantity,
            RestoreAction::NewBatch { quantity: n, unit_cost: cost, unit_price: price } => !batch_is_live && n == quantity
                && cost == unit_cost && price == unit_price,
        },
{
}

/// Decides how refunded units go back: onto the batch they came from while it
/// is live, and else into a new batch, which must then be a proper one.
pub fn restore_to_batch(
    batch_is_live: bool,
    quantity: i64,
    original_unit_cost: i64,
    original_unit_price: i64,
) -> (r: Result<RestoreAction, BatchError>)
    ensures
        r == restored(batch_is_live, quantity, original_unit_cost, original_unit_price),
        batch_is_live ==> r == Ok::<RestoreAction, BatchError>(RestoreAction::Credit { quantity }),
        !batch_is_live ==> match new_batch_problem(
            quantity as int,
            original_unit_cost as int,
            original_unit_price as int,
        ) {
            None => r == Ok::<RestoreAction, BatchError>(
                RestoreAction::NewBatch {
                    quantity,
                    unit_cost: original_unit_cost,
                    unit_price: original_unit_price,
                },
            ),
            Some(e) => r == Err::<RestoreAction, BatchError>(e),
        },
{
    if batch_is_live {
        return Ok(RestoreAction::Credit { quantity });
    }
    match check_new_batch(quantity, original_unit_cost, original_unit_price) {
        Ok(()) => Ok(
            RestoreAction::NewBatch { quantity, unit_cost: original_unit_cost, unit_price: original_unit_price },
        ),
        Err(e) => Err(e),
    }
}

/// A change of a batch's price and, optionally, of its cost.
#[derive(Debug)]
pub struct UpdateBatchPriceRequest {
    pub batch_id: String,
    pub unit_price: i64,
    pub unit_cost: Option<i64>,
}

/// What is wrong with the numbers of a price change, in the order in which it
/// is checked.
#[derive(Clone, Copy, PartialEq, Eq, Structural, Debug)]
pub enum PriceProblem {
    NegativePrice,
    NegativeCost,
    BatchNotFound,
    /// The price would be below that cost.
    BelowCost { unit_cost: i64 },
}

/// Why a price change is refused.
#[derive(Clone, Copy, PartialEq, Eq, Structural, Debug)]
pub enum PriceChangeError {
    /// The role may not reprice batches.
    NotPermitted,
    /// Only the owner may change a cost.
    OwnerOnly,
    Refused(PriceProblem),
}

/// The cost and price that a batch gets.
#[derive(Clone, Copy, PartialEq, Eq, Structural, Debug)]
pub struct NewPrices {
    pub unit_cost: i64,
    pub unit_price: i64,
}

/// What a price change does. `may_reprice` and `is_owner` are what the role
/// allows, `current_cost` is the cost of the batch where it exists.
pub open spec fn price_change(
    may_reprice: bool,
    is_owner: bool,
    unit_price: i64,
    unit_cost: Option<i64>,
    current_cost: Option<i64>,
) -> Result<NewPrices, PriceChangeError> {
    if !may_reprice {
        Err(PriceChangeError::NotPermitted)
    } else if unit_cost is Some && !is_owner {
        Err(PriceChangeError::OwnerOnly)
    } else if unit_price < 0 {
        Err(PriceChangeError::Refused(PriceProblem::NegativePrice))
    } else if unit_cost is Some && unit_cost->0 < 0 {
        Err(PriceChangeError::Refused(PriceProblem::NegativeCost))
    } else if current_cost is None {
        Err(PriceChangeError::Refused(PriceProblem::BatchNotFound))
    } else {
        let cost = if unit_cost is Some {
            unit_cost->0
        } else {
            current_cost->0
        };
        if unit_price < cost {
            Err(PriceChangeError::Refused(PriceProblem::BelowCost { unit_cost: cost }))
        } else {
            Ok(NewPrices { unit_cost: cost, unit_price })
        }
    }
}

/// Decides a change of a batch's price: the price for whoever may reprice
/// batches, the cost for the owner only, and never a price below the cost.
pub fn update_batch_price(
    may_reprice: bool,
    is_owner: bool,
    req: &UpdateBatchPriceRequest,
    current_cost: Option<i64>,
) -> (r: Result<NewPrices, PriceChangeError>)
    ensures
        r == price_change(may_reprice, is_owner, req.unit_price, req.unit_cost, current_cost),
{
    if !may_reprice {
        return Err(PriceChangeError::NotPermitted);
    }
    if req.unit_cost.is_some() && !is_owner {
        return Err(PriceChangeError::OwnerOnly);
    }
    if req.unit_price < 0 {
        return Err(PriceChangeError::Refused(PriceProblem::NegativePrice));
    }
    match req.unit_cost {
        Some(c) => {
            if c < 0 {
                return Err(PriceChangeError::Refused(PriceProblem::NegativeCost));
            }
        },
        None => {},
    }
    match current_cost {
        None => Err(PriceChangeError::Refused(PriceProblem::BatchNotFound)),
        Some(current) => {
            let cost: i64 = match req.unit_cost {
                Some(c) => c,
                None => current,
            };
            if req.unit_price < cost {
                Err(PriceChangeError::Refused(PriceProblem::BelowCost { unit_cost: cost }))
            } else {
                Ok(NewPrices { unit_cost: cost, unit_price: req.unit_price })
            }
        },
    }
}

/// The sentence for a price change that is refused for its numbers.
pub open spec fn price_change_message(
    e: PriceProblem,
    batch_id: Seq<char>,
    unit_price: int,
    code: Seq<char>,
) -> Seq<char> {
    match e {
        PriceProblem::NegativePrice => "price cannot be negative"@,
        PriceProblem::NegativeCost => "cost cannot be negative"@,
        PriceProblem::BatchNotFound => "batch not found: "@ + batch_id,
        PriceProblem::BelowCost { unit_cost } => "this would price the batch at "@ + amount_text(
            unit_price,
            places_of(code),
        ) + " while it costs "@ + amount_text(unit_cost as int, places_of(code))
            + " per unit — a batch can never be priced below its own cost"@,
    }
}

/// The sentence for a price change that is refused for its numbers.
pub fn price_change_error_text(e: PriceProblem, req: &UpdateBatchPriceRequest, currency: &str) -> (s: String)
    ensures
        s@ == price_change_message(e, req.batch_id@, req.unit_price as int, currency@),
{
    match e {
        PriceProblem::NegativePrice => "price cannot be negative".to_owned(),
        PriceProblem::NegativeCost => "cost cannot be negative".to_owned(),
        PriceProblem::BatchNotFound => cat("batch not found: ", req.batch_id.as_str()),
        PriceProblem::BelowCost { unit_cost } => {
            let mut s = "this would price the batch at ".to_owned();
            s.append(format_money(req.unit_price, currency).as_str());
            s.append(" while it costs ");
            s.append(format_money(unit_cost, currency).as_str());
            s.append(" per unit — a batch can never be priced below its own cost");
            s
        },
    }
}

/// Whatever way a batch gets its price, the price is never below the cost:
/// neither when it is made nor after any change of price.
pub proof fn law_never_priced_below_cost(
    quantity: int,
    unit_cost: i64,
    unit_price: i64,
    may_reprice: bool,
    is_owner: bool,
    new_price: i64,
    new_cost: Option<i64>,
)
    ensures
        new_batch_problem(quantity, unit_cost as int, unit_price as int) is None ==> 0 <= unit_cost <= unit_price,
        price_change(may_reprice, is_owner, new_price, new_cost, Some(unit_cost)) matches Ok(p) ==> p.unit_cost
            <= p.unit_price,
        price_change(may_reprice, is_owner, new_price, new_cost, Some(unit_cost)) matches Ok(p) ==> (!is_owner
            ==> p.unit_cost == unit_cost),
{
}

/// A change of price that goes through gives the batch the price that was asked
/// for, and its cost changes only where a cost was asked for. Whoever may reprice
/// can set any price that is not below the cost; whoever may not is refused.
pub proof fn law_price_changes_are_as_asked(
    may_reprice: bool,
    is_owner: bool,
    new_price: i64,
    new_cost: Option<i64>,
    unit_cost: i64,
)
    ensures
        price_change(may_reprice, is_owner, new_price, new_cost, Some(unit_cost)) matches Ok(p) ==> may_reprice
            && p.unit_price == new_price && p.unit_cost == (if new_cost is Some {
            new_cost->0
        } else {
            unit_cost
        }),
        may_reprice && 0 <= unit_cost <= new_price ==> price_change(
            may_reprice,
            is_owner,
            new_price,
            None,
            Some(unit_cost),
        ) is Ok,
        may_reprice && is_owner && new_cost is Some && 0 <= new_cost->0 <= new_price ==> price_change(
            may_reprice,
            is_owner,
            new_price,
            new_cost,
            Some(unit_cost),
        ) is Ok,
        new_cost is Some && !is_owner ==> price_change(may_reprice, is_owner, new_price, new_cost, Some(unit_cost)) is Err,
        price_change(may_reprice, is_owner, new_price, new_cost, None) is Err,
{
}

/// Every batch of at least one unit whose price covers its cost can be made.
pub proof fn law_proper_batches_are_made(quantity: int, unit_cost: int, unit_price: int)
    requires
        quantity > 0,
        0 <= unit_cost <= unit_price,
    ensures
        new_batch_problem(quantity, unit_cost, unit_price) is None,
{
}

// ---------------------------------------------------------------------------
// The list of an item's batches
// ---------------------------------------------------------------------------

/// What the batches of a list hold together.
pub open spec fn rows_total(rows: Seq<BatchRow>, n: nat) -> int
    decreases n,
{
    if n == 0 {
        0
    } else {
        rows_total(rows, (n - 1) as nat) + rows[n - 1].quantity_remaining
    }
}

/// The numbers shown above an item's batches.
#[derive(Clone, Copy, PartialEq, Eq, Structural, Debug)]
pub struct BatchOverview {
    /// Units in no batch.
    pub legacy_quantity: i64,
    /// Cost and price of what would be sold next.
    pub front_unit_cost: i64,
    pub front_unit_price: i64,
    /// Whether a batch, rather than legacy stock, would be sold next.
    pub front_is_batch: bool,
}

/// The overview of an item whose batches are given in the order of
/// consumption. Cost and price in front are those of the first batch, or the
/// item's own where it has no batch.
pub fn list_batches(
    batches: &Vec<BatchRow>,
    total_quantity: i64,
    legacy_unit_cost: i64,
    legacy_unit_price: i64,
) -> (r: BatchOverview)
    requires
        total_quantity - rows_total(batches@, batches@.len()) <= i64::MAX,
    ensures
        r.legacy_quantity == at_least_zero(total_quantity - rows_total(batches@, batches@.len())),
        r.front_is_batch == (batches@.len() > 0),
        r.front_unit_cost == if batches@.len() > 0 {
            batches@[0].unit_cost
        } else {
            legacy_unit_cost
        },
        r.front_unit_price == if batches@.len() > 0 {
            batches@[0].unit_price
        } else {
            legacy_unit_price
        },
{
    let mut live: i128 = 0;
    let mut i: usize = 0;
    while i < batches.len()
        invariant
            i <= batches@.len(),
            live == rows_total(batches@, i as nat),
            -0x8000_0000_0000_0000 * i <= live <= 0x7fff_ffff_ffff_ffff * i,
        decreases batches@.len() - i,
    {
        live = live + batches[i].quantity_remaining as i128;
        i = i + 1;
    }
    let legacy: i128 = total_quantity as i128 - live;
    let legacy_quantity: i64 = if legacy < 0 {
        0
    } else {
        legacy as i64
    };
    if batches.len() > 0 {
        BatchOverview {
            legacy_quantity,
            front_unit_cost: batches[0].unit_cost,
            front_unit_price: batches[0].unit_price,
            front_is_batch: true,
        }
    } else {
        BatchOverview {
            legacy_quantity,
            front_unit_cost: legacy_unit_cost,
            front_unit_price: legacy_unit_price,
            front_is_batch: false,
        }
    }
}

/// The sentences name the price as the price and the cost as the cost, and a batch
/// that was not found by its own id.
pub proof fn law_sentences_tell_price_from_cost(unit_cost: i64, unit_price: int, batch_id: Seq<char>, code: Seq<char>)
    ensures
        crate::text::begins(
            batch_message(BatchError::BelowCost, unit_cost as int, unit_price, code),
            "this batch would be priced at "@ + amount_text(unit_price, places_of(code)) + " while costing "@
                + amount_text(unit_cost as int, places_of(code)),
        ),
        crate::text::begins(
            price_change_message(PriceProblem::BelowCost { unit_cost }, batch_id, unit_price, code),
            "this would price the batch at "@ + amount_text(unit_price, places_of(code)) + " while it costs "@
                + amount_text(unit_cost as int, places_of(code)),
        ),
        price_change_message(PriceProblem::BatchNotFound, batch_id, unit_price, code) == "batch not found: "@ + batch_id,
{
    let tail = " per unit — a batch can never be priced below its own cost"@;
    let made = "this batch would be priced at "@ + amount_text(unit_price, places_of(code)) + " while costing "@
        + amount_text(unit_cost as int, places_of(code));
    let changed = "this would price the batch at "@ + amount_text(unit_price, places_of(code)) + " while it costs "@
        + amount_text(unit_cost as int, places_of(code));
    crate::text::lemma_begins(made, tail);
    crate::text::lemma_begins(changed, tail);
}

} // verus!
