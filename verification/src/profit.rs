//! Gross profit: what sales brought in, what was paid for the goods, and what
//! was written off.

use crate::dates::{date_day, day_of};
use crate::lists::sum_upto;
use crate::pos::{clamp, clamped};
use crate::text::{list_has, magnitude, push_decimal, push_text, same, views};
use vstd::prelude::*;

verus! {

/// Whether a number is one of 64 bits.
pub open spec fn fits(n: int) -> bool {
    i64::MIN <= n <= i64::MAX
}

/// The totals of sales.
#[derive(Clone, Copy, PartialEq, Eq, Structural, Debug)]
pub struct SalesTotals {
    pub revenue_cents: i64,
    pub cost_cents: i64,
    pub sales_count: i64,
    /// The sales for which a cost is on record.
    pub cost_bearing_sales_count: i64,
}

/// The gross profit of a business.
#[derive(Clone, Copy, PartialEq, Eq, Structural, Debug)]
pub struct GrossProfitSummary {
    pub totals: SalesTotals,
    pub profit_cents: i64,
    /// What closed stock takes wrote off. It is no part of the cost.
    pub shrinkage_cents: i64,
    pub profit_cents_after_shrinkage: i64,
    /// Whether a margin can be given: there is none without revenue.
    pub has_margin: bool,
}

/// Whether the profits of these totals are numbers of 64 bits.
pub open spec fn profit_fits(t: SalesTotals, shrinkage_cents: int) -> bool {
    &&& fits(t.revenue_cents - t.cost_cents)
    &&& fits(t.revenue_cents - t.cost_cents - shrinkage_cents)
}

/// The gross profit of a business.
pub fn summary(totals: SalesTotals, shrinkage_cents: i64) -> (s: GrossProfitSummary)
    requires
        profit_fits(totals, shrinkage_cents as int),
    ensures
        s.totals == totals,
        s.profit_cents == totals.revenue_cents - totals.cost_cents,
        s.shrinkage_cents == shrinkage_cents,
        s.profit_cents_after_shrinkage == s.profit_cents - shrinkage_cents,
        s.has_margin == (totals.revenue_cents > 0),
{
    let profit_cents: i64 = totals.revenue_cents - totals.cost_cents;
    GrossProfitSummary {
        totals,
        profit_cents,
        shrinkage_cents,
        profit_cents_after_shrinkage: profit_cents - shrinkage_cents,
        has_margin: totals.revenue_cents > 0,
    }
}

/// What was written off of an item.
#[derive(Debug)]
pub struct ItemShrinkage {
    pub item_name: String,
    pub cents: i64,
}

/// What was written off of an item; nothing where the list has no such item.
pub open spec fn shrinkage_of(list: Seq<ItemShrinkage>, item_name: Seq<char>) -> int
    decreases list.len(),
{
    if list.len() == 0 {
        0
    } else if list[0].item_name@ == item_name {
        list[0].cents as int
    } else {
        shrinkage_of(list.skip(1), item_name)
    }
}

fn get_shrinkage(list: &Vec<ItemShrinkage>, item_name: &str) -> (n: i64)
    ensures
        n == shrinkage_of(list@, item_name@),
{
    let mut i: usize = 0;
    assert(list@.skip(0) =~= list@);
    while i < list.len()
        invariant
            i <= list@.len(),
            shrinkage_of(list@.skip(i as int), item_name@) == shrinkage_of(list@, item_name@),
        decreases list@.len() - i,
    {
        assert(list@.skip(i as int)[0] == list@[i as int]);
        assert(list@.skip(i as int).skip(1) =~= list@.skip(i + 1));
        if same(list[i].item_name.as_str(), item_name) {
            return list[i].cents;
        }
        i = i + 1;
    }
    0
}

/// The most items that a list of profits shows.
pub const MAX_ITEMS: i64 = 100;

/// The longest period that a trend compares.
pub const MAX_PERIOD_DAYS: i64 = 180;

/// The items that a list of profits shows: at least one, at most a hundred.
pub fn item_limit(asked: i64) -> (n: i64)
    ensures
        n == clamped(asked as int, 1, MAX_ITEMS as int),
{
    clamp(asked, 1, MAX_ITEMS)
}

/// The days of a period: at least one, at most a hundred and eighty.
pub fn period_days(asked: i64) -> (n: i64)
    ensures
        n == clamped(asked as int, 1, MAX_PERIOD_DAYS as int),
{
    clamp(asked, 1, MAX_PERIOD_DAYS)
}

/// The profit of an item.
#[derive(Debug)]
pub struct ItemProfit {
    pub item_name: String,
    pub totals: SalesTotals,
    pub profit_cents: i64,
    /// Whether a margin can be given: there is none without revenue.
    pub has_margin: bool,
    pub shrinkage_cents: i64,
    pub profit_cents_after_shrinkage: i64,
}

/// The profit of an item.
pub fn by_item(item_name: &str, totals: SalesTotals, written_off: &Vec<ItemShrinkage>) -> (p: ItemProfit)
    requires
        profit_fits(totals, shrinkage_of(written_off@, item_name@)),
    ensures
        p.item_name@ == item_name@,
        p.totals == totals,
        p.profit_cents == totals.revenue_cents - totals.cost_cents,
        p.has_margin == (totals.revenue_cents > 0),
        p.shrinkage_cents == shrinkage_of(written_off@, item_name@),
        p.profit_cents_after_shrinkage == p.profit_cents - p.shrinkage_cents,
{
    let s = summary(totals, get_shrinkage(written_off, item_name));
    ItemProfit {
        item_name: item_name.to_owned(),
        totals,
        profit_cents: s.profit_cents,
        has_margin: s.has_margin,
        shrinkage_cents: s.shrinkage_cents,
        profit_cents_after_shrinkage: s.profit_cents_after_shrinkage,
    }
}

/// The profit of a category of items. What was written off is not split by
/// category.
#[derive(Debug)]
pub struct CategoryProfit {
    pub category: String,
    pub totals: SalesTotals,
    pub profit_cents: i64,
    /// Whether a margin can be given: there is none without revenue.
    pub has_margin: bool,
}

/// The profit of a category of items.
pub fn by_category(category: &str, totals: SalesTotals) -> (p: CategoryProfit)
    requires
        fits(totals.revenue_cents - totals.cost_cents),
    ensures
        p.category@ == category@,
        p.totals == totals,
        p.profit_cents == totals.revenue_cents - totals.cost_cents,
        p.has_margin == (totals.revenue_cents > 0),
{
    CategoryProfit {
        category: category.to_owned(),
        totals,
        profit_cents: totals.revenue_cents - totals.cost_cents,
        has_margin: totals.revenue_cents > 0,
    }
}

/// The profit of an item in two periods of the same length, the one before
/// the other.
#[derive(Debug)]
pub struct ItemMarginTrend {
    pub item_name: String,
    pub current: SalesTotals,
    pub current_profit_cents: i64,
    /// Whether a margin can be given for the later period: there is none
    /// without revenue.
    pub current_has_margin: bool,
    pub previous: SalesTotals,
    pub previous_profit_cents: i64,
    /// Whether a margin can be given for the earlier period.
    pub previous_has_margin: bool,
    /// Whether the margins of the two periods can be compared: both have
    /// revenue.
    pub comparable: bool,
    /// Whether the item loses money now: its cost is above its revenue, and at
    /// least one of its sales has a cost on record.
    pub is_losing_money: bool,
}

/// What a trend holds.
pub struct TrendView {
    pub item_name: Seq<char>,
    pub current: SalesTotals,
    pub current_profit_cents: int,
    pub current_has_margin: bool,
    pub previous: SalesTotals,
    pub previous_profit_cents: int,
    pub previous_has_margin: bool,
    pub comparable: bool,
    pub is_losing_money: bool,
}

impl View for ItemMarginTrend {
    type V = TrendView;

    open spec fn view(&self) -> TrendView {
        TrendView {
            item_name: self.item_name@,
            current: self.current,
            current_profit_cents: self.current_profit_cents as int,
            current_has_margin: self.current_has_margin,
            previous: self.previous,
            previous_profit_cents: self.previous_profit_cents as int,
            previous_has_margin: self.previous_has_margin,
            comparable: self.comparable,
            is_losing_money: self.is_losing_money,
        }
    }
}

/// What the totals of an item in two periods say of it.
pub open spec fn trend_from(item: Seq<char>, current: SalesTotals, previous: SalesTotals) -> TrendView {
    let profit = current.revenue_cents - current.cost_cents;
    TrendView {
        item_name: item,
        current,
        current_profit_cents: profit,
        current_has_margin: current.revenue_cents > 0,
        previous,
        previous_profit_cents: previous.revenue_cents - previous.cost_cents,
        previous_has_margin: previous.revenue_cents > 0,
        comparable: current.revenue_cents > 0 && previous.revenue_cents > 0,
        is_losing_money: current.cost_bearing_sales_count > 0 && profit < 0,
    }
}

/// The profit of an item in two periods.
pub fn margin_trend(item_name: &str, current: SalesTotals, previous: SalesTotals) -> (t: ItemMarginTrend)
    requires
        fits(current.revenue_cents - current.cost_cents),
        fits(previous.revenue_cents - previous.cost_cents),
    ensures
        t@ == trend_from(item_name@, current, previous),
{
    let current_profit_cents: i64 = current.revenue_cents - current.cost_cents;
    let previous_profit_cents: i64 = previous.revenue_cents - previous.cost_cents;
    ItemMarginTrend {
        item_name: item_name.to_owned(),
        current,
        current_profit_cents,
        current_has_margin: current.revenue_cents > 0,
        previous,
        previous_profit_cents,
        previous_has_margin: previous.revenue_cents > 0,
        comparable: current.revenue_cents > 0 && previous.revenue_cents > 0,
        is_losing_money: current.cost_bearing_sales_count > 0 && current_profit_cents < 0,
    }
}

/// A sale of an item.
#[derive(Debug)]
pub struct ItemSale {
    pub item_name: String,
    pub sale_date: String,
    pub revenue: i64,
    pub cost_at_sale: i64,
}

/// Whether a sale is of the days after `from`, up to and with `to`.
pub open spec fn sold_between(s: ItemSale, from: int, to: int) -> bool {
    match day_of(s.sale_date@) {
        Some(day) => from < day <= to,
        None => false,
    }
}

/// The sizes of the amounts of those of the first `n` sales that are of some
/// days, added up.
pub open spec fn amounts_of(sales: Seq<ItemSale>, n: nat, from: int, to: int) -> int
    decreases n,
{
    if n == 0 {
        0
    } else {
        let before = amounts_of(sales, (n - 1) as nat, from, to);
        let s = sales[n - 1];
        if sold_between(s, from, to) {
            before + size_of(s.revenue) + size_of(s.cost_at_sale)
        } else {
            before
        }
    }
}

/// A number without its sign.
pub open spec fn size_of(n: i64) -> int {
    if n < 0 {
        -n
    } else {
        n as int
    }
}

/// Whether no sum of amounts of the sales of two periods leaves 64 bits.
pub open spec fn amounts_fit(sales: Seq<ItemSale>, today: int, days: int) -> bool {
    amounts_of(sales, sales.len(), today - 2 * days, today) <= i64::MAX && sales.len() <= i64::MAX
}

proof fn lemma_amounts_grow(sales: Seq<ItemSale>, m: nat, n: nat, from: int, to: int)
    requires
        m <= n,
    ensures
        0 <= amounts_of(sales, m, from, to) <= amounts_of(sales, n, from, to),
    decreases n,
{
    if m < n {
        lemma_amounts_grow(sales, m, (n - 1) as nat, from, to);
    } else if n > 0 {
        lemma_amounts_grow(sales, (n - 1) as nat, (n - 1) as nat, from, to);
    }
}

/// Whether a list holds the day of each sale.
pub open spec fn are_days_of(list: Seq<Option<i32>>, sales: Seq<ItemSale>) -> bool {
    &&& list.len() == sales.len()
    &&& forall|i: int|
        0 <= i < list.len() ==> match #[trigger] list[i] {
            Some(day) => day_of(sales[i].sale_date@) == Some(day as int),
            None => day_of(sales[i].sale_date@) is None,
        }
}

fn days_of(sales: &Vec<ItemSale>) -> (list: Vec<Option<i32>>)
    ensures
        are_days_of(list@, sales@),
{
    let mut list: Vec<Option<i32>> = Vec::new();
    let mut i: usize = 0;
    while i < sales.len()
        invariant
            i <= sales@.len(),
            are_days_of(list@, sales@.take(i as int)),
        decreases sales@.len() - i,
    {
        list.push(date_day(sales[i].sale_date.as_str()));
        i = i + 1;
    }
    assert(sales@.take(i as int) =~= sales@);
    list
}

fn is_between(day: Option<i32>, from: i64, to: i64) -> (b: bool)
    ensures
        b == match day {
            Some(d) => from < d <= to,
            None => false,
        },
{
    match day {
        Some(d) => from < d as i64 && d as i64 <= to,
        None => false,
    }
}

/// Whether no sum of amounts of the sales of two periods leaves 64 bits. There
/// are between one and 180 days to a period.
pub fn do_amounts_fit(sales: &Vec<ItemSale>, today: i32, days: i64) -> (b: bool)
    ensures
        b == amounts_fit(sales@, today as int, clamped(days as int, 1, MAX_PERIOD_DAYS as int)),
{
    if sales.len() as u64 > i64::MAX as u64 {
        return false;
    }
    let to: i64 = today as i64;
    let from: i64 = to - 2 * period_days(days);
    let dated = days_of(sales);
    let mut left: i64 = i64::MAX;
    let mut i: usize = 0;
    while i < sales.len()
        invariant
            i <= sales@.len() <= i64::MAX,
            are_days_of(dated@, sales@),
            to == today,
            from == today - 2 * clamped(days as int, 1, MAX_PERIOD_DAYS as int),
            left == i64::MAX - amounts_of(sales@, i as nat, from as int, to as int),
            0 <= left,
        decreases sales@.len() - i,
    {
        proof {
            lemma_amounts_grow(sales@, (i + 1) as nat, sales@.len(), from as int, to as int);
        }
        if is_between(dated[i], from, to) {
            let size: u64 = magnitude(sales[i].revenue);
            let cost: u64 = magnitude(sales[i].cost_at_sale);
            if size > left as u64 || cost > left as u64 - size {
                return false;
            }
            left = left - size as i64 - cost as i64;
        }
        i = i + 1;
    }
    true
}

/// The totals of an item over the first `n` sales.
pub open spec fn item_totals(sales: Seq<ItemSale>, n: nat, item: Seq<char>, from: int, to: int) -> SalesTotals
    decreases n,
{
    if n == 0 {
        SalesTotals { revenue_cents: 0, cost_cents: 0, sales_count: 0, cost_bearing_sales_count: 0 }
    } else {
        let t = item_totals(sales, (n - 1) as nat, item, from, to);
        let s = sales[n - 1];
        if s.item_name@ == item && sold_between(s, from, to) {
            SalesTotals {
                revenue_cents: (t.revenue_cents + s.revenue) as i64,
                cost_cents: (t.cost_cents + s.cost_at_sale) as i64,
                sales_count: (t.sales_count + 1) as i64,
                cost_bearing_sales_count: (t.cost_bearing_sales_count + if s.cost_at_sale > 0 {
                    1int
                } else {
                    0
                }) as i64,
            }
        } else {
            t
        }
    }
}

/// The items that were sold on the days after `from`, up to and with `to`, each
/// once, by their first sale.
pub open spec fn sold_items(sales: Seq<ItemSale>, n: nat, from: int, to: int) -> Seq<Seq<char>>
    decreases n,
{
    if n == 0 {
        Seq::empty()
    } else {
        let before = sold_items(sales, (n - 1) as nat, from, to);
        let s = sales[n - 1];
        if sold_between(s, from, to) && !before.contains(s.item_name@) {
            before.push(s.item_name@)
        } else {
            before
        }
    }
}

/// What an item brought in in the `days` days up to and with a day, and in as
/// many before those.
pub open spec fn trend_of(sales: Seq<ItemSale>, item: Seq<char>, today: int, days: int) -> TrendView {
    trend_from(
        item,
        item_totals(sales, sales.len(), item, today - days, today),
        item_totals(sales, sales.len(), item, today - 2 * days, today - days),
    )
}

/// What every item that was sold in the later period brought in.
pub open spec fn all_trends(sales: Seq<ItemSale>, today: int, days: int) -> Seq<TrendView> {
    let items = sold_items(sales, sales.len(), today - days, today);
    Seq::new(items.len(), |i: int| trend_of(sales, items[i], today, days))
}

/// What items brought in.
pub open spec fn trend_views(list: Seq<ItemMarginTrend>) -> Seq<TrendView> {
    Seq::new(list.len(), |i: int| list[i]@)
}

/// Whether trends are ordered by what the items bring in now, the biggest loss
/// first.
pub open spec fn losses_first(list: Seq<ItemMarginTrend>) -> bool {
    forall|i: int, j: int|
        0 <= i < j < list.len() ==> (#[trigger] list[i]).current_profit_cents <= (
        #[trigger] list[j]).current_profit_cents
}

/// Whether a list holds the first of the trends that were found, once these are
/// sorted, the biggest loss first, and no more of them than asked.
pub open spec fn ranks_losers(
    list: Seq<ItemMarginTrend>,
    all: Seq<TrendView>,
    limit: int,
    found: Seq<ItemMarginTrend>,
    sorted: Seq<ItemMarginTrend>,
) -> bool {
    &&& trend_views(found) == all
    &&& sorted.to_multiset() == found.to_multiset()
    &&& losses_first(sorted)
    &&& list == sorted.take(if sorted.len() <= limit {
        sorted.len() as int
    } else {
        limit
    })
}

/// Whether a list holds the first of all trends, the biggest loss first, and no
/// more of them than asked.
pub open spec fn shows_losers(list: Seq<ItemMarginTrend>, all: Seq<TrendView>, limit: int) -> bool {
    exists|found: Seq<ItemMarginTrend>, sorted: Seq<ItemMarginTrend>|
        ranks_losers(list, all, limit, found, sorted)
}

fn get_item_totals(
    sales: &Vec<ItemSale>,
    dated: &Vec<Option<i32>>,
    item: &str,
    from: i64,
    to: i64,
    first: i64,
    last: i64,
) -> (t: SalesTotals)
    requires
        are_days_of(dated@, sales@),
        first <= from,
        to <= last,
        amounts_of(sales@, sales@.len(), first as int, last as int) <= i64::MAX,
        sales@.len() <= i64::MAX,
    ensures
        t == item_totals(sales@, sales@.len(), item@, from as int, to as int),
        fits(t.revenue_cents - t.cost_cents),
{
    let mut t = SalesTotals { revenue_cents: 0, cost_cents: 0, sales_count: 0, cost_bearing_sales_count: 0 };
    let mut i: usize = 0;
    let ghost mut sizes: int = 0;
    while i < sales.len()
        invariant
            are_days_of(dated@, sales@),
            first <= from,
            to <= last,
            amounts_of(sales@, sales@.len(), first as int, last as int) <= i64::MAX,
            sales@.len() <= i64::MAX,
            i <= sales@.len(),
            t == item_totals(sales@, i as nat, item@, from as int, to as int),
            sizes == amounts_of(sales@, i as nat, first as int, last as int),
            0 <= sizes <= i64::MAX,
            -sizes <= t.revenue_cents - t.cost_cents <= sizes,
            -sizes <= t.revenue_cents <= sizes,
            -sizes <= t.cost_cents <= sizes,
            0 <= t.sales_count <= i,
            0 <= t.cost_bearing_sales_count <= i,
        decreases sales@.len() - i,
    {
        proof {
            lemma_amounts_grow(sales@, (i + 1) as nat, sales@.len(), first as int, last as int);
            lemma_amounts_grow(sales@, i as nat, (i + 1) as nat, first as int, last as int);
            sizes = amounts_of(sales@, (i + 1) as nat, first as int, last as int);
        }
        let s = &sales[i];
        if is_between(dated[i], from, to) && same(s.item_name.as_str(), item) {
            t = SalesTotals {
                revenue_cents: t.revenue_cents + s.revenue,
                cost_cents: t.cost_cents + s.cost_at_sale,
                sales_count: t.sales_count + 1,
                cost_bearing_sales_count: if s.cost_at_sale > 0 {
                    t.cost_bearing_sales_count + 1
                } else {
                    t.cost_bearing_sales_count
                },
            };
        }
        i = i + 1;
    }
    t
}

fn get_sold_items(sales: &Vec<ItemSale>, dated: &Vec<Option<i32>>, from: i64, to: i64) -> (items: Vec<String>)
    requires
        are_days_of(dated@, sales@),
    ensures
        views(items@) == sold_items(sales@, sales@.len(), from as int, to as int),
{
    let mut items: Vec<String> = Vec::new();
    let mut i: usize = 0;
    assert(views(items@) =~= Seq::<Seq<char>>::empty());
    while i < sales.len()
        invariant
            are_days_of(dated@, sales@),
            i <= sales@.len(),
            views(items@) == sold_items(sales@, i as nat, from as int, to as int),
        decreases sales@.len() - i,
    {
        let s = &sales[i];
        if is_between(dated[i], from, to) && !list_has(&items, s.item_name.as_str()) {
            push_text(&mut items, s.item_name.as_str());
        }
        i = i + 1;
    }
    items
}

proof fn lemma_insert_keeps_losses_first(s: Seq<ItemMarginTrend>, t: ItemMarginTrend, k: int)
    requires
        losses_first(s),
        0 <= k <= s.len(),
        k > 0 ==> s[k - 1].current_profit_cents <= t.current_profit_cents,
        forall|i: int| k <= i < s.len() ==> t.current_profit_cents < (#[trigger] s[i]).current_profit_cents,
    ensures
        losses_first(s.insert(k, t)),
{
    let r = s.insert(k, t);
    assert forall|i: int, j: int| 0 <= i < j < r.len() implies (#[trigger] r[i]).current_profit_cents <= (
    #[trigger] r[j]).current_profit_cents by {
        if i < k && j == k && i < k - 1 {
            assert(s[i].current_profit_cents <= s[k - 1].current_profit_cents);
        }
        if i < k && j > k {
            assert(s[i].current_profit_cents <= s[j - 1].current_profit_cents);
        }
        if i > k {
            assert(s[i - 1].current_profit_cents <= s[j - 1].current_profit_cents);
        }
    }
}

/// Which items lose money, and how the margins of all go: what every item that
/// was sold in the days up to and with `today` brought in in them and in as many
/// days before. The biggest loss comes first. There are between one and 180 days
/// to a period, and between one and a hundred items.
pub fn by_item_trend(sales: &Vec<ItemSale>, today: i32, days: i64, limit: i64) -> (list: Vec<ItemMarginTrend>)
    requires
        amounts_fit(sales@, today as int, clamped(days as int, 1, MAX_PERIOD_DAYS as int)),
    ensures
        shows_losers(
            list@,
            all_trends(sales@, today as int, clamped(days as int, 1, MAX_PERIOD_DAYS as int)),
            clamped(limit as int, 1, MAX_ITEMS as int),
        ),
{
    let days: i64 = period_days(days);
    let limit: i64 = item_limit(limit);
    let now: i64 = today as i64;
    let dated = days_of(sales);
    let items = get_sold_items(sales, &dated, now - days, now);
    let ghost all = all_trends(sales@, today as int, days as int);
    let mut sorted: Vec<ItemMarginTrend> = Vec::new();
    let ghost mut found: Seq<ItemMarginTrend> = Seq::empty();
    let mut i: usize = 0;
    proof {
        assert(views(items@).len() == items@.len());
        assert(trend_views(found) =~= all.take(0));
        assert(sorted@ =~= found);
    }
    while i < items.len()
        invariant
            amounts_fit(sales@, today as int, days as int),
            are_days_of(dated@, sales@),
            1 <= days <= MAX_PERIOD_DAYS,
            now == today,
            i <= items@.len(),
            views(items@) == sold_items(sales@, sales@.len(), now - days, now as int),
            all == all_trends(sales@, today as int, days as int),
            all.len() == items@.len(),
            found.len() == i,
            trend_views(found) == all.take(i as int),
            sorted@.to_multiset() == found.to_multiset(),
            losses_first(sorted@),
        decreases items@.len() - i,
    {
        let item = items[i].as_str();
        let start: i64 = now - 2 * days;
        let current = get_item_totals(sales, &dated, item, now - days, now, start, now);
        let previous = get_item_totals(sales, &dated, item, start, now - days, start, now);
        let t = margin_trend(item, current, previous);
        // The place behind every trend that brings in no more.
        let mut k: usize = sorted.len();
        while k > 0 && t.current_profit_cents < sorted[k - 1].current_profit_cents
            invariant
                k <= sorted@.len(),
                losses_first(sorted@),
                forall|j: int|
                    k <= j < sorted@.len() ==> t.current_profit_cents < (#[trigger] sorted@[j]).current_profit_cents,
            decreases k,
        {
            k = k - 1;
        }
        let ghost before = sorted@;
        proof {
            broadcast use vstd::seq_lib::group_to_multiset_ensures;

            lemma_insert_keeps_losses_first(before, t, k as int);
            assert(before.insert(k as int, t).to_multiset() =~= before.to_multiset().insert(t));
            assert(found.push(t).to_multiset() =~= found.to_multiset().insert(t));
            assert(t@ == all[i as int]) by {
                assert(views(items@)[i as int] == items@[i as int]@);
            }
            assert(trend_views(found.push(t)) =~= all.take(i + 1)) by {
                assert forall|j: int| 0 <= j < found.len() implies found[j]@ == all[j] by {
                    assert(trend_views(found)[j] == all.take(i as int)[j]);
                }
            }
            found = found.push(t);
        }
        sorted.insert(k, t);
        i = i + 1;
    }
    assert(all.take(all.len() as int) =~= all);
    let ghost whole = sorted@;
    let ghost n = if whole.len() <= limit {
        whole.len() as int
    } else {
        limit as int
    };
    while sorted.len() as u64 > limit as u64
        invariant
            limit >= 1,
            n <= sorted@.len() <= whole.len(),
            n == (if whole.len() <= limit {
                whole.len() as int
            } else {
                limit as int
            }),
            sorted@ == whole.take(sorted@.len() as int),
        decreases sorted@.len(),
    {
        let _ = sorted.pop();
        assert(sorted@ =~= whole.take(sorted@.len() as int));
    }
    assert(sorted@ =~= whole.take(n));
    assert(ranks_losers(sorted@, all, limit as int, found, whole));
    sorted
}

proof fn lemma_sold_items(sales: Seq<ItemSale>, n: nat, from: int, to: int, item: Seq<char>)
    requires
        n <= sales.len(),
    ensures
        sold_items(sales, n, from, to).no_duplicates(),
        sold_items(sales, n, from, to).contains(item) <==> exists|i: int|
            0 <= i < n && (#[trigger] sales[i]).item_name@ == item && sold_between(sales[i], from, to),
    decreases n,
{
    if n > 0 {
        let m = (n - 1) as nat;
        lemma_sold_items(sales, m, from, to, item);
        let before = sold_items(sales, m, from, to);
        let s = sales[n - 1];
        let after = sold_items(sales, n, from, to);
        if sold_between(s, from, to) && !before.contains(s.item_name@) {
            assert(after == before.push(s.item_name@));
            assert(after[before.len() as int] == s.item_name@);
            if before.contains(item) {
                let k = choose|k: int| 0 <= k < before.len() && before[k] == item;
                assert(after[k] == item);
            }
            if after.contains(item) && item != s.item_name@ {
                let k = choose|k: int| 0 <= k < after.len() && after[k] == item;
                assert(before[k] == item);
            }
        } else if sold_between(s, from, to) && s.item_name@ == item {
            assert(before.contains(item));
        }
    }
}

/// Whether a list shows an item.
pub open spec fn shows_item(list: Seq<ItemMarginTrend>, item: Seq<char>) -> bool {
    exists|i: int| 0 <= i < list.len() && (#[trigger] list[i]).item_name@ == item
}

/// Whether no item that a list shows brings in more now than these totals do.
pub open spec fn all_lose_more(list: Seq<ItemMarginTrend>, t: SalesTotals) -> bool {
    forall|i: int|
        0 <= i < list.len() ==> (#[trigger] list[i]).current_profit_cents <= t.revenue_cents - t.cost_cents
}

/// The report on two periods shows only items that were sold in the later one,
/// each once and with its own totals. It shows no more of them than asked, the
/// biggest loss first; one that it leaves out brings in no less than any that it
/// shows, and none is left out while there is room.
pub proof fn law_report_shows_the_biggest_losers(
    sales: Seq<ItemSale>,
    today: int,
    days: int,
    limit: int,
    list: Seq<ItemMarginTrend>,
)
    requires
        0 <= limit,
        shows_losers(list, all_trends(sales, today, days), limit),
    ensures
        list.len() <= limit,
        losses_first(list),
        forall|i: int|
            0 <= i < list.len() ==> (#[trigger] list[i])@ == trend_of(sales, list[i].item_name@, today, days),
        forall|i: int|
            0 <= i < list.len() ==> exists|j: int|
                0 <= j < sales.len() && (#[trigger] sales[j]).item_name@ == (#[trigger] list[i]).item_name@
                    && sold_between(sales[j], today - days, today),
        forall|i: int, j: int|
            0 <= i < j < list.len() ==> (#[trigger] list[i]).item_name@ != (#[trigger] list[j]).item_name@,
        forall|k: int|
            0 <= k < sales.len() && sold_between(#[trigger] sales[k], today - days, today) ==> shows_item(
                list,
                sales[k].item_name@,
            ) || list.len() == limit && all_lose_more(list, trend_of(sales, sales[k].item_name@, today, days).current),
{
    broadcast use vstd::seq_lib::group_to_multiset_ensures;

    let n = sales.len();
    let items = sold_items(sales, n, today - days, today);
    let all = all_trends(sales, today, days);
    let (found, sorted) = choose|found: Seq<ItemMarginTrend>, sorted: Seq<ItemMarginTrend>|
        ranks_losers(list, all, limit, found, sorted);
    lemma_sold_items(sales, n, today - days, today, Seq::empty());
    assert(found.len() == items.len()) by {
        assert(trend_views(found).len() == all.len());
    }
    assert forall|i: int| 0 <= i < found.len() implies (#[trigger] found[i])@ == trend_of(
        sales,
        items[i],
        today,
        days,
    ) by {
        assert(trend_views(found)[i] == all[i]);
    }
    assert(found.no_duplicates()) by {
        assert forall|i: int, j: int| 0 <= i < found.len() && 0 <= j < found.len() && i != j implies found[i]
            != found[j] by {
            assert(items[i] != items[j]);
        }
    }
    found.lemma_multiset_has_no_duplicates();
    sorted.lemma_multiset_has_no_duplicates_conv();
    assert(sorted.len() == found.len()) by {
        assert(sorted.to_multiset().len() == found.to_multiset().len());
    }
    assert forall|i: int| 0 <= i < sorted.len() implies found.contains(#[trigger] sorted[i]) by {
        assert(sorted.contains(sorted[i]));
        assert(sorted.to_multiset().count(sorted[i]) > 0);
    }
    assert forall|i: int| 0 <= i < list.len() implies (#[trigger] list[i])@ == trend_of(
        sales,
        list[i].item_name@,
        today,
        days,
    ) by {
        assert(found.contains(sorted[i]));
    }
    assert forall|i: int| 0 <= i < list.len() implies exists|j: int|
        0 <= j < sales.len() && (#[trigger] sales[j]).item_name@ == (#[trigger] list[i]).item_name@ && sold_between(
            sales[j],
            today - days,
            today,
        ) by {
        assert(found.contains(sorted[i]));
        let a = choose|a: int| 0 <= a < found.len() && found[a] == sorted[i];
        assert(items.contains(items[a]));
        lemma_sold_items(sales, n, today - days, today, items[a]);
    }
    assert forall|i: int, j: int| 0 <= i < j < list.len() implies (#[trigger] list[i]).item_name@ != (
    #[trigger] list[j]).item_name@ by {
        assert(found.contains(sorted[i]) && found.contains(sorted[j]));
        let a = choose|a: int| 0 <= a < found.len() && found[a] == sorted[i];
        let b = choose|b: int| 0 <= b < found.len() && found[b] == sorted[j];
        assert(sorted[i] != sorted[j]);
        assert(items[a] != items[b]);
    }
    assert forall|k: int| 0 <= k < sales.len() && sold_between(#[trigger] sales[k], today - days, today) implies shows_item(
        list,
        sales[k].item_name@,
    ) || list.len() == limit && all_lose_more(list, trend_of(sales, sales[k].item_name@, today, days).current) by {
        let item = sales[k].item_name@;
        lemma_sold_items(sales, n, today - days, today, item);
        let a = choose|a: int| 0 <= a < items.len() && items[a] == item;
        assert(found.contains(found[a]));
        assert(found.to_multiset().count(found[a]) > 0);
        assert(sorted.contains(found[a]));
        let c = choose|c: int| 0 <= c < sorted.len() && sorted[c] == found[a];
        if c < list.len() {
            assert(list[c].item_name@ == item);
        } else {
            assert forall|i: int| 0 <= i < list.len() implies (#[trigger] list[i]).current_profit_cents
                <= found[a].current_profit_cents by {
                assert(sorted[i].current_profit_cents <= sorted[c].current_profit_cents);
            }
        }
    }
}

/// What is added up for a sale in the totals of an item: nothing where the sale is
/// of another item or of another day.
pub open spec fn share_of(s: ItemSale, item: Seq<char>, from: int, to: int, amount: int) -> int {
    if s.item_name@ == item && (day_of(s.sale_date@) matches Some(day) && from < day <= to) {
        amount
    } else {
        0
    }
}

proof fn lemma_item_totals_are_sums(sales: Seq<ItemSale>, n: nat, item: Seq<char>, from: int, to: int)
    requires
        n <= sales.len() <= i64::MAX,
        amounts_of(sales, n, from, to) <= i64::MAX,
    ensures
        ({
            let t = item_totals(sales, n, item, from, to);
            &&& t.revenue_cents == sum_upto(n, |i: int| share_of(sales[i], item, from, to, sales[i].revenue as int))
            &&& t.cost_cents == sum_upto(n, |i: int| share_of(sales[i], item, from, to, sales[i].cost_at_sale as int))
            &&& t.sales_count == sum_upto(n, |i: int| share_of(sales[i], item, from, to, 1))
            &&& t.cost_bearing_sales_count == sum_upto(
                n,
                |i: int|
                    share_of(
                        sales[i],
                        item,
                        from,
                        to,
                        if sales[i].cost_at_sale > 0 {
                            1
                        } else {
                            0
                        },
                    ),
            )
            &&& size_of(t.revenue_cents) + size_of(t.cost_cents) <= amounts_of(sales, n, from, to)
            &&& 0 <= t.cost_bearing_sales_count <= t.sales_count <= n
        }),
    decreases n,
{
    if n > 0 {
        lemma_amounts_grow(sales, (n - 1) as nat, n, from, to);
        lemma_item_totals_are_sums(sales, (n - 1) as nat, item, from, to);
    }
}

/// A trend sets what an item brought in and cost in the last `days` days, today
/// with them, beside the same of as many days before. Every sale of those days
/// counts in one of the two, and no other sale does. The item loses money where
/// it cost more than it brought in and at least one sale says what it cost.
pub proof fn law_trends_compare_two_periods(sales: Seq<ItemSale>, item: Seq<char>, today: int, days: int)
    requires
        days > 0,
        sales.len() <= i64::MAX,
        amounts_of(sales, sales.len(), today - days, today) <= i64::MAX,
        amounts_of(sales, sales.len(), today - 2 * days, today - days) <= i64::MAX,
    ensures
        ({
            let t = trend_of(sales, item, today, days);
            let n = sales.len();
            let sum = |from: int, to: int| sum_upto(n, |i: int| share_of(sales[i], item, from, to, sales[i].revenue as int));
            let cost = |from: int, to: int|
                sum_upto(n, |i: int| share_of(sales[i], item, from, to, sales[i].cost_at_sale as int));
            &&& t.item_name == item
            &&& t.current.revenue_cents == sum(today - days, today)
            &&& t.current.cost_cents == cost(today - days, today)
            &&& t.previous.revenue_cents == sum(today - 2 * days, today - days)
            &&& t.previous.cost_cents == cost(today - 2 * days, today - days)
            &&& t.current_profit_cents == sum(today - days, today) - cost(today - days, today)
            &&& t.previous_profit_cents == sum(today - 2 * days, today - days) - cost(today - 2 * days, today - days)
            &&& t.current.sales_count == sum_upto(n, |i: int| share_of(sales[i], item, today - days, today, 1))
            &&& t.is_losing_money ==> sum(today - days, today) < cost(today - days, today)
            &&& sum(today - days, today) < cost(today - days, today) && t.current.cost_bearing_sales_count > 0
                ==> t.is_losing_money
            &&& t.comparable <==> sum(today - days, today) > 0 && sum(today - 2 * days, today - days) > 0
            &&& t.current_has_margin <==> sum(today - days, today) > 0
            &&& t.previous_has_margin <==> sum(today - 2 * days, today - days) > 0
        }),
{
    lemma_item_totals_are_sums(sales, sales.len(), item, today - days, today);
    lemma_item_totals_are_sums(sales, sales.len(), item, today - 2 * days, today - days);
}

// ---------------------------------------------------------------------------
// Ranges of time
// ---------------------------------------------------------------------------

/// The conditions of a query for records between two times, where they are
/// given: the parameters that they stand for come after `used` others.
pub open spec fn range_conditions(column: Seq<char>, used: nat, has_start: bool, has_end: bool) -> Seq<Seq<char>> {
    let from = if has_start {
        seq![column + " >= ?"@ + crate::text::decimal(used + 1)]
    } else {
        Seq::empty()
    };
    let next = if has_start {
        used + 2
    } else {
        used + 1
    };
    let to = if has_end {
        seq![column + " <= ?"@ + crate::text::decimal(next)]
    } else {
        Seq::empty()
    };
    from + to
}

/// A range of time is one from its start on, where it has one, up to its end, where
/// it has one. The start comes first among the parameters.
pub proof fn law_ranges_run_from_start_to_end(column: Seq<char>)
    ensures
        range_conditions(column, 1, true, true) == seq![column + " >= ?2"@, column + " <= ?3"@],
        range_conditions(column, 1, true, false) == seq![column + " >= ?2"@],
        range_conditions(column, 1, false, true) == seq![column + " <= ?2"@],
        range_conditions(column, 1, false, false) == Seq::<Seq<char>>::empty(),
{
    reveal_strlit(" >= ?");
    reveal_strlit(" <= ?");
    reveal_strlit(" >= ?2");
    reveal_strlit(" <= ?3");
    reveal_strlit(" <= ?2");
    assert(crate::text::digit_char(2) == '2' && crate::text::digit_char(3) == '3');
    assert(" >= ?"@ + crate::text::decimal(2) =~= " >= ?2"@);
    assert(" <= ?"@ + crate::text::decimal(3) =~= " <= ?3"@);
    assert(" <= ?"@ + crate::text::decimal(2) =~= " <= ?2"@);
    assert(column + " >= ?"@ + crate::text::decimal(2) =~= column + " >= ?2"@);
    assert(column + " <= ?"@ + crate::text::decimal(3) =~= column + " <= ?3"@);
    assert(column + " <= ?"@ + crate::text::decimal(2) =~= column + " <= ?2"@);
    assert(range_conditions(column, 1, true, true) =~= seq![column + " >= ?2"@, column + " <= ?3"@]);
    assert(range_conditions(column, 1, true, false) =~= seq![column + " >= ?2"@]);
    assert(range_conditions(column, 1, false, true) =~= seq![column + " <= ?2"@]);
    assert(range_conditions(column, 1, false, false) =~= Seq::<Seq<char>>::empty());
}

/// Adds the conditions for records between two times.
pub fn push_range_conditions(list: &mut Vec<String>, column: &str, used: u64, has_start: bool, has_end: bool)
    requires
        used <= u64::MAX - 2,
    ensures
        views(final(list)@) == views(old(list)@) + range_conditions(column@, used as nat, has_start, has_end),
{
    let mut next: u64 = used + 1;
    if has_start {
        let mut s = column.to_owned();
        s.append(" >= ?");
        push_decimal(&mut s, next);
        push_text(list, s.as_str());
        next = next + 1;
    }
    if has_end {
        let mut s = column.to_owned();
        s.append(" <= ?");
        push_decimal(&mut s, next);
        push_text(list, s.as_str());
    }
    assert(views(list@) =~= views(old(list)@) + range_conditions(column@, used as nat, has_start, has_end));
}

/// The conditions of the profit by category.
pub fn category_conditions(has_start: bool, has_end: bool) -> (list: Vec<String>)
    ensures
        views(list@) == seq!["s.business_id = ?1"@, "s.deleted_at IS NULL"@] + range_conditions(
            "s.created_at"@,
            1,
            has_start,
            has_end,
        ),
{
    let mut list: Vec<String> = Vec::new();
    push_text(&mut list, "s.business_id = ?1");
    push_text(&mut list, "s.deleted_at IS NULL");
    assert(views(list@) =~= seq!["s.business_id = ?1"@, "s.deleted_at IS NULL"@]);
    push_range_conditions(&mut list, "s.created_at", 1, has_start, has_end);
    list
}

} // verus!
