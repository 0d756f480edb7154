use ssms_core::ledger::{apply_movement, replay_movements};
use ssms_core::models::{CreateStockMovementRequest, Stock, StockMovement, StockMovementType};
use ssms_core::response::AppError;
use ssms_core::warehouse::Warehouse;

fn request(stock_id: i32, kind: StockMovementType, quantity: i64) -> CreateStockMovementRequest {
    CreateStockMovementRequest {
        stock_id,
        movement_type: kind,
        quantity,
        reference_type: Some("order".to_string()),
        reference_id: Some(12),
        reference_info: Some("Sipariş #ORD-12".to_string()),
        notes: None,
    }
}

fn warehouse_with_stock(minimum: u64) -> Warehouse {
    let mut w = Warehouse::new();
    let id = w
        .add_stock(4, Some("Rice".to_string()), "KG".to_string(), Some("A-1".to_string()), minimum, "t0".to_string())
        .unwrap();
    assert_eq!(id, 1);
    w
}

fn stock(quantity: u64, minimum: u64) -> Stock {
    Stock {
        id: 1,
        supply_item_id: 1,
        supply_item_name: None,
        quantity,
        unit: "KG".to_string(),
        warehouse_location: None,
        minimum_quantity: minimum,
        last_updated: "t".to_string(),
    }
}

#[test]
fn stock_low_then_out_scenario() {
    let mut w = warehouse_with_stock(20);
    w.create_movement(request(1, StockMovementType::In, 100), "t1".to_string()).unwrap();
    assert_eq!(w.stocks[0].quantity, 100);
    let m = w.create_movement(request(1, StockMovementType::Out, 90), "t2".to_string()).unwrap();
    assert_eq!(m.quantity, 90);
    assert_eq!(m.movement_type, StockMovementType::Out);
    assert_eq!(m.unit, "KG");
    assert_eq!(m.supply_item_name, Some("Rice".to_string()));
    assert_eq!(m.reference_id, Some(12));
    assert_eq!(m.created_at, "t2");
    assert_eq!(w.stocks[0].quantity, 10);
    assert_eq!(w.stocks[0].last_updated, "t2");
    assert!(w.stocks[0].is_low_stock());
    assert!(!w.stocks[0].is_out_of_stock());
    w.create_movement(request(1, StockMovementType::Out, 50), "t3".to_string()).unwrap();
    assert_eq!(w.stocks[0].quantity, 0);
    assert!(w.stocks[0].is_out_of_stock());
    assert!(!w.stocks[0].is_low_stock());
    assert_eq!(w.movements.len(), 3);
    assert_eq!(w.movements[2].id, 3);
}

#[test]
fn negative_movement_is_a_validation_error() {
    let mut w = warehouse_with_stock(0);
    assert_eq!(
        w.create_movement(request(1, StockMovementType::In, -5), "t".to_string()).unwrap_err(),
        AppError::ValidationError
    );
    assert!(w.movements.is_empty());
    assert_eq!(w.stocks[0].quantity, 0);
}

#[test]
fn movement_on_unknown_stock_is_not_found() {
    let mut w = warehouse_with_stock(0);
    assert_eq!(
        w.create_movement(request(2, StockMovementType::In, 5), "t".to_string()).unwrap_err(),
        AppError::NotFound
    );
    assert!(w.movements.is_empty());
}

#[test]
fn overflowing_receipt_is_refused() {
    let mut w = warehouse_with_stock(0);
    w.create_movement(request(1, StockMovementType::Adjustment, i64::MAX), "t".to_string()).unwrap();
    w.create_movement(request(1, StockMovementType::Return, i64::MAX), "t".to_string()).unwrap();
    assert_eq!(w.stocks[0].quantity, 2 * (i64::MAX as u64));
    assert_eq!(
        w.create_movement(request(1, StockMovementType::In, 2), "t".to_string()).unwrap_err(),
        AppError::ValidationError
    );
    assert_eq!(w.movements.len(), 2);
}

#[test]
fn adjustment_sets_absolute_level() {
    let mut w = warehouse_with_stock(0);
    w.create_movement(request(1, StockMovementType::In, 70), "t".to_string()).unwrap();
    w.create_movement(request(1, StockMovementType::Adjustment, 25), "t".to_string()).unwrap();
    assert_eq!(w.stocks[0].quantity, 25);
    w.create_movement(request(1, StockMovementType::Return, 5), "t".to_string()).unwrap();
    assert_eq!(w.stocks[0].quantity, 30);
}

#[test]
fn incremental_quantity_matches_replay() {
    let mut w = warehouse_with_stock(0);
    let steps = [
        (StockMovementType::In, 40),
        (StockMovementType::Out, 15),
        (StockMovementType::Return, 5),
        (StockMovementType::Out, 100),
        (StockMovementType::In, 8),
        (StockMovementType::Adjustment, 12),
        (StockMovementType::Out, 2),
    ];
    for (kind, q) in steps.iter() {
        w.create_movement(request(1, *kind, *q), "t".to_string()).unwrap();
    }
    assert_eq!(w.stocks[0].quantity, 10);
    assert_eq!(replay_movements(&w.movements), Some(10));
    let tail: Vec<StockMovement> = w.movements[5..].to_vec();
    assert_eq!(replay_movements(&tail), Some(10));
}

#[test]
fn replay_reports_overflow() {
    let mut w = warehouse_with_stock(0);
    w.create_movement(request(1, StockMovementType::In, i64::MAX), "t".to_string()).unwrap();
    w.create_movement(request(1, StockMovementType::In, i64::MAX), "t".to_string()).unwrap();
    let mut ms = w.movements.clone();
    ms.push(ms[0].clone());
    assert_eq!(replay_movements(&ms), None);
    assert_eq!(replay_movements(&vec![]), Some(0));
}

#[test]
fn outgoing_run_stops_at_zero() {
    let mut q: u64 = 30;
    for out in [10u64, 15, 20, 40] {
        q = apply_movement(q, StockMovementType::Out, out);
    }
    assert_eq!(q, 0);
    assert_eq!(apply_movement(5, StockMovementType::Out, 5), 0);
    assert_eq!(apply_movement(5, StockMovementType::Out, 3), 2);
    assert_eq!(apply_movement(5, StockMovementType::In, 3), 8);
    assert_eq!(apply_movement(5, StockMovementType::Adjustment, 0), 0);
}

#[test]
fn low_stock_boundaries() {
    assert!(stock(20, 20).is_low_stock());
    assert!(!stock(21, 20).is_low_stock());
    assert!(!stock(0, 20).is_low_stock());
    assert!(stock(0, 0).is_out_of_stock());
    assert!(!stock(1, 0).is_out_of_stock());
}

#[test]
fn stock_summary_counts_and_value() {
    let mut w = Warehouse::new();
    for (item, minimum) in [(10, 20u64), (11, 5), (12, 5)] {
        w.add_stock(item, None, "KG".to_string(), None, minimum, "t".to_string()).unwrap();
    }
    w.create_movement(request(1, StockMovementType::In, 15), "t".to_string()).unwrap();
    w.create_movement(request(3, StockMovementType::In, 9), "t".to_string()).unwrap();
    let prices = vec![(10, 200u32), (12, 50), (10, 999)];
    let s = w.get_summary(&prices);
    assert_eq!(s.total_items, 3);
    assert_eq!(s.low_stock_count, 1);
    assert_eq!(s.out_of_stock_count, 1);
    assert_eq!(s.total_value, 15 * 200 + 9 * 50);
    assert_eq!(s.currency, "USD");
}

#[test]
fn low_stock_list_largest_shortfall_first() {
    let mut w = Warehouse::new();
    for minimum in [10u64, 50, 5, 35, 9] {
        w.add_stock(1, None, "PCS".to_string(), None, minimum, "t".to_string()).unwrap();
    }
    for (id, q) in [(1, 10i64), (2, 20), (3, 40), (4, 0), (5, 8)] {
        w.create_movement(request(id, StockMovementType::In, q), "t".to_string()).unwrap();
    }
    let ids: Vec<i32> = w.get_low_stock().iter().map(|s| s.id).collect();
    assert_eq!(ids, vec![4, 2, 5, 1]);
    assert!(Warehouse::new().get_low_stock().is_empty());
}

#[test]
fn stock_history_folds_to_quantity() {
    let mut w = Warehouse::new();
    w.add_stock(1, None, "KG".to_string(), None, 0, "t".to_string()).unwrap();
    w.add_stock(2, None, "KG".to_string(), None, 0, "t".to_string()).unwrap();
    w.create_movement(request(1, StockMovementType::In, 10), "t".to_string()).unwrap();
    w.create_movement(request(2, StockMovementType::In, 99), "t".to_string()).unwrap();
    w.create_movement(request(1, StockMovementType::Out, 4), "t".to_string()).unwrap();
    let h = w.get_with_movements(1).unwrap();
    assert_eq!(h.stock.quantity, 6);
    let ids: Vec<i32> = h.movements.iter().map(|m| m.id).collect();
    assert_eq!(ids, vec![1, 3]);
    assert_eq!(replay_movements(&h.movements), Some(6));
    assert_eq!(w.get_movements(2).len(), 1);
    assert!(w.get_with_movements(3).is_none());
    assert!(w.get_with_movements(0).is_none());
}
