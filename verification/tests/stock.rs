use sme_pro::batches::{
    batch_error_text, list_batches, check_new_batch, fefo_consume, fefo_order, is_fefo_before,
    price_change_error_text, restore_to_batch, update_batch_price, BatchError, BatchRow, ConsumedFrom, FefoError,
    LiveBatch, PriceChangeError, PriceProblem, RestoreAction, UpdateBatchPriceRequest,
};

fn batch(id: &str, left: i64, expiry: Option<&str>, received: &str) -> LiveBatch {
    LiveBatch {
        id: id.to_string(),
        quantity_remaining: left,
        unit_cost: 10,
        unit_price: 15,
        expiry_date: expiry.map(str::to_string),
        received_at: received.to_string(),
        is_legacy_migration: false,
    }
}

fn ask(price: i64, cost: Option<i64>) -> UpdateBatchPriceRequest {
    UpdateBatchPriceRequest { batch_id: "b".to_string(), unit_price: price, unit_cost: cost }
}

#[test]
fn the_first_to_expire_goes_first() {
    let list = fefo_order(vec![
        batch("never", 5, None, "2026-01-01"),
        batch("late", 5, Some("2026-09-01"), "2026-01-01"),
        batch("soon", 5, Some("2026-03-01"), "2026-02-01"),
    ]);
    let ids: Vec<&str> = list.iter().map(|b| b.id.as_str()).collect();
    assert_eq!(ids, ["soon", "late", "never"]);
    assert!(is_fefo_before(&list[0], &list[1]));
    assert!(!is_fefo_before(&list[1], &list[0]));
}

#[test]
fn consumption_takes_exactly_what_is_asked() {
    let list = vec![batch("a", 3, Some("2026-03-01"), "1"), batch("b", 4, None, "2")];
    let parts = fefo_consume(&list, 5, 7, 1, 2).unwrap();
    assert_eq!(parts.iter().map(|p| p.quantity).sum::<i64>(), 5);
    assert_eq!(parts[0].source_batch_id(), Some("a"));
    assert_eq!(parts[0].quantity, 3);
    assert_eq!(parts[1].source_batch_id(), Some("b"));
    assert_eq!(parts[1].quantity, 2);
}

#[test]
fn stock_without_a_batch_is_used_last() {
    let list = vec![batch("a", 3, None, "1")];
    let parts = fefo_consume(&list, 5, 6, 1, 2).unwrap();
    assert_eq!(parts.len(), 2);
    assert!(matches!(parts[1].from, ConsumedFrom::Legacy));
    assert_eq!(parts[1].quantity, 2);
    assert_eq!(parts[1].unit_cost, 1);
    assert_eq!(parts[1].unit_price, 2);
    assert_eq!(parts[1].source_batch_id(), None);
}

#[test]
fn consumption_is_refused_where_stock_is_short() {
    let list = vec![batch("a", 3, None, "1")];
    assert_eq!(fefo_consume(&list, 5, 3, 1, 2).unwrap_err(), FefoError::Short { missing: 2 });
    assert_eq!(fefo_consume(&list, 5, 2, 1, 2).unwrap_err(), FefoError::Short { missing: 2 });
    assert_eq!(fefo_consume(&list, 3, 0, 1, 2).unwrap().len(), 1);
    assert_eq!(fefo_consume(&list, 0, 3, 1, 2).unwrap_err(), FefoError::NonPositive);
}

#[test]
fn new_batches_are_checked() {
    assert_eq!(check_new_batch(1, 5, 5), Ok(()));
    assert_eq!(check_new_batch(0, 5, 5), Err(BatchError::Quantity));
    assert_eq!(check_new_batch(1, -5, 5), Err(BatchError::Negative));
    assert_eq!(check_new_batch(1, 6, 5), Err(BatchError::BelowCost));
    for e in [BatchError::Quantity, BatchError::Negative, BatchError::BelowCost] {
        assert!(!batch_error_text(e, 600, 500, "USD").is_empty());
    }
}

#[test]
fn returned_goods_go_back_to_their_batch() {
    assert_eq!(restore_to_batch(true, 2, 5, 6).unwrap(), RestoreAction::Credit { quantity: 2 });
    assert_eq!(
        restore_to_batch(false, 2, 5, 6).unwrap(),
        RestoreAction::NewBatch { quantity: 2, unit_cost: 5, unit_price: 6 }
    );
    assert_eq!(restore_to_batch(false, 0, 5, 6), Err(BatchError::Quantity));
}

#[test]
fn batches_are_never_priced_below_cost() {
    let p = update_batch_price(true, true, &ask(20, Some(12)), Some(10)).unwrap();
    assert_eq!((p.unit_cost, p.unit_price), (12, 20));
    let p = update_batch_price(true, true, &ask(20, None), Some(10)).unwrap();
    assert_eq!((p.unit_cost, p.unit_price), (10, 20));
    assert_eq!(
        update_batch_price(true, true, &ask(9, None), Some(10)).unwrap_err(),
        PriceChangeError::Refused(PriceProblem::BelowCost { unit_cost: 10 })
    );
    assert_eq!(
        update_batch_price(true, true, &ask(-1, None), Some(10)).unwrap_err(),
        PriceChangeError::Refused(PriceProblem::NegativePrice)
    );
    assert_eq!(
        update_batch_price(true, true, &ask(1, Some(-1)), Some(10)).unwrap_err(),
        PriceChangeError::Refused(PriceProblem::NegativeCost)
    );
    assert_eq!(
        update_batch_price(true, true, &ask(1, None), None).unwrap_err(),
        PriceChangeError::Refused(PriceProblem::BatchNotFound)
    );
    assert_eq!(update_batch_price(false, true, &ask(20, None), Some(10)).unwrap_err(), PriceChangeError::NotPermitted);
    assert_eq!(update_batch_price(true, false, &ask(20, Some(5)), Some(10)).unwrap_err(), PriceChangeError::OwnerOnly);
    for e in [
        PriceProblem::NegativePrice,
        PriceProblem::NegativeCost,
        PriceProblem::BatchNotFound,
        PriceProblem::BelowCost { unit_cost: 10 },
    ] {
        assert!(!price_change_error_text(e, &ask(1, None), "USD").is_empty());
    }
}

#[test]
fn the_front_of_the_stock() {
    let row = BatchRow {
        id: "a".to_string(),
        inventory_record_id: "i".to_string(),
        source_po_number: None,
        quantity_received: 5,
        quantity_remaining: 3,
        unit_cost: 10,
        unit_price: 15,
        expiry_date: None,
        received_at: "1".to_string(),
    };
    let o = list_batches(&vec![row], 7, 1, 2);
    assert_eq!(o.legacy_quantity, 4);
    assert_eq!((o.front_unit_cost, o.front_unit_price, o.front_is_batch), (10, 15, true));
    let o = list_batches(&Vec::new(), 7, 1, 2);
    assert_eq!((o.legacy_quantity, o.front_unit_cost, o.front_unit_price, o.front_is_batch), (7, 1, 2, false));
}
