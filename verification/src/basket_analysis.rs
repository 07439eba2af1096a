//! Which items are bought together: the query behind the report.

use crate::conditions::{asks, lemma_asks, single};
use crate::pos::{clamp, clamped};
use crate::profit::{law_ranges_run_from_start_to_end, push_range_conditions, range_conditions};
use crate::rbac::{Access, AccessError, refusal, require};
use crate::text::{decimal, join, joined, push_decimal, push_text, views};
use vstd::prelude::*;

verus! {

/// The most pairs that the report shows.
pub const MAX_PAIRS: i64 = 50;

/// The conditions for the sales that count: those of an order.
pub open spec fn order_conditions(has_start: bool, has_end: bool) -> Seq<Seq<char>> {
    seq!["business_id = ?1"@, "deleted_at IS NULL"@, "order_id IS NOT NULL"@, "order_id != ''"@]
        + range_conditions("created_at"@, 1, has_start, has_end)
}

/// The place of the limit among the parameters.
pub open spec fn limit_place(has_start: bool, has_end: bool) -> nat {
    (2 + (if has_start {
        1int
    } else {
        0
    }) + (if has_end {
        1int
    } else {
        0
    })) as nat
}

/// The query for the pairs: every two items of one order once, with the number
/// of orders and what both brought in.
pub open spec fn pairs_sql(has_start: bool, has_end: bool) -> Seq<char> {
    "WITH item_totals AS (SELECT order_id, item_name, SUM(revenue) AS item_revenue FROM module_sales WHERE "@ + joined(
        order_conditions(has_start, has_end),
        " AND "@,
    )
        + " GROUP BY order_id, item_name) SELECT a.item_name, b.item_name, COUNT(*) AS order_count, COALESCE(SUM(a.item_revenue + b.item_revenue), 0) AS combined_revenue FROM item_totals a JOIN item_totals b ON a.order_id = b.order_id AND a.item_name < b.item_name GROUP BY a.item_name, b.item_name ORDER BY order_count DESC LIMIT ?"@
        + decimal(limit_place(has_start, has_end))
}

/// The report counts the sales of one business that belong to an order, are not
/// deleted and are of the time that was asked for, and no others. The limit is
/// the parameter behind those.
pub proof fn law_pairs_are_of_the_orders_asked_for(has_start: bool, has_end: bool)
    ensures
        ({
            let range = match (has_start, has_end) {
                (true, true) => seq!["created_at >= ?2"@, "created_at <= ?3"@],
                (true, false) => seq!["created_at >= ?2"@],
                (false, true) => seq!["created_at <= ?2"@],
                (false, false) => Seq::empty(),
            };
            let limit = match (has_start, has_end) {
                (true, true) => 4,
                (false, false) => 2,
                _ => 3nat,
            };
            asks(
                pairs_sql(has_start, has_end),
                "WITH item_totals AS (SELECT order_id, item_name, SUM(revenue) AS item_revenue FROM module_sales"@,
                seq!["business_id = ?1"@, "deleted_at IS NULL"@, "order_id IS NOT NULL"@, "order_id != ''"@] + range,
                " GROUP BY order_id, item_name) SELECT a.item_name, b.item_name, COUNT(*) AS order_count, COALESCE(SUM(a.item_revenue + b.item_revenue), 0) AS combined_revenue FROM item_totals a JOIN item_totals b ON a.order_id = b.order_id AND a.item_name < b.item_name GROUP BY a.item_name, b.item_name ORDER BY order_count DESC LIMIT ?"@
                    + decimal(limit),
            )
        }),
{
    reveal_strlit("business_id = ?1");
    reveal_strlit("deleted_at IS NULL");
    reveal_strlit("order_id IS NOT NULL");
    reveal_strlit("order_id != ''");
    reveal_strlit("created_at");
    reveal_strlit("created_at >= ?2");
    reveal_strlit("created_at <= ?3");
    reveal_strlit("created_at <= ?2");
    reveal_strlit(" >= ?2");
    reveal_strlit(" <= ?3");
    reveal_strlit(" <= ?2");
    reveal_strlit(" WHERE ");
    reveal_strlit("WITH item_totals AS (SELECT order_id, item_name, SUM(revenue) AS item_revenue FROM module_sales");
    reveal_strlit("WITH item_totals AS (SELECT order_id, item_name, SUM(revenue) AS item_revenue FROM module_sales WHERE ");
    law_ranges_run_from_start_to_end("created_at"@);
    assert("created_at"@ + " >= ?2"@ =~= "created_at >= ?2"@);
    assert("created_at"@ + " <= ?3"@ =~= "created_at <= ?3"@);
    assert("created_at"@ + " <= ?2"@ =~= "created_at <= ?2"@);
    let parts = order_conditions(has_start, has_end);
    let head = "WITH item_totals AS (SELECT order_id, item_name, SUM(revenue) AS item_revenue FROM module_sales"@;
    let tail =
        " GROUP BY order_id, item_name) SELECT a.item_name, b.item_name, COUNT(*) AS order_count, COALESCE(SUM(a.item_revenue + b.item_revenue), 0) AS combined_revenue FROM item_totals a JOIN item_totals b ON a.order_id = b.order_id AND a.item_name < b.item_name GROUP BY a.item_name, b.item_name ORDER BY order_count DESC LIMIT ?"@
        + decimal(limit_place(has_start, has_end));
    assert forall|i: int| 0 <= i < parts.len() implies single(#[trigger] parts[i]) && parts[i].len() > 0 && parts[i][0]
        != 'O' by {}
    assert(pairs_sql(has_start, has_end) =~= head + " WHERE "@ + joined(parts, " AND "@) + tail);
    lemma_asks(pairs_sql(has_start, has_end), head, parts, tail);
}

/// Why the report is refused.
#[derive(Debug)]
pub enum BasketError {
    Access(AccessError),
    SalesNotEnabled,
}

/// The report as it is to be run.
#[derive(Debug)]
pub struct BasketQuery {
    pub sql: String,
    pub limit: i64,
}

/// The sentence where sales are not on.
pub fn sales_not_enabled_text() -> (s: &'static str)
    ensures
        s@ == "module 'sales' is not enabled for this business"@,
{
    "module 'sales' is not enabled for this business"
}

/// Prepares the report: for who may read sales, where sales are on, and never
/// for more pairs than can be skimmed.
pub fn top_pairs(
    access: Option<&Access>,
    sales_enabled: bool,
    has_start: bool,
    has_end: bool,
    limit: i64,
) -> (r: Result<BasketQuery, BasketError>)
    ensures
        match r {
            Ok(q) => {
                &&& refusal(access, "sales"@, "read"@) is None && sales_enabled
                &&& q.sql@ == pairs_sql(has_start, has_end)
                &&& q.limit == clamped(limit as int, 1, MAX_PAIRS as int)
            },
            Err(BasketError::Access(e)) => refusal(access, "sales"@, "read"@) == Some(e@),
            Err(BasketError::SalesNotEnabled) => refusal(access, "sales"@, "read"@) is None && !sales_enabled,
        },
{
    match require(access, "sales", "read") {
        Err(e) => {
            return Err(BasketError::Access(e));
        },
        Ok(()) => {},
    }
    if !sales_enabled {
        return Err(BasketError::SalesNotEnabled);
    }
    let mut conditions: Vec<String> = Vec::new();
    push_text(&mut conditions, "business_id = ?1");
    push_text(&mut conditions, "deleted_at IS NULL");
    push_text(&mut conditions, "order_id IS NOT NULL");
    push_text(&mut conditions, "order_id != ''");
    assert(views(conditions@) =~= seq![
        "business_id = ?1"@,
        "deleted_at IS NULL"@,
        "order_id IS NOT NULL"@,
        "order_id != ''"@,
    ]);
    push_range_conditions(&mut conditions, "created_at", 1, has_start, has_end);
    let mut place: u64 = 2;
    if has_start {
        place = place + 1;
    }
    if has_end {
        place = place + 1;
    }
    let mut sql =
        "WITH item_totals AS (SELECT order_id, item_name, SUM(revenue) AS item_revenue FROM module_sales WHERE ".to_owned();
    sql.append(join(&conditions, " AND ").as_str());
    sql.append(
        " GROUP BY order_id, item_name) SELECT a.item_name, b.item_name, COUNT(*) AS order_count, COALESCE(SUM(a.item_revenue + b.item_revenue), 0) AS combined_revenue FROM item_totals a JOIN item_totals b ON a.order_id = b.order_id AND a.item_name < b.item_name GROUP BY a.item_name, b.item_name ORDER BY order_count DESC LIMIT ?",
    );
    push_decimal(&mut sql, place);
    Ok(BasketQuery { sql, limit: clamp(limit, 1, MAX_PAIRS) })
}

} // verus!
