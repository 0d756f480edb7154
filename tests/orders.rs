use ssms_core::models::{DeliveryType, Order, OrderItem, OrderStatus};
use ssms_core::order_book::OrderBook;
use ssms_core::response::AppError;

fn order(id: i32, status: OrderStatus, currency: &str) -> Order {
    Order {
        id,
        order_number: format!("ORD-{}", id),
        ship_id: 1,
        ship_name: Some(format!("Ship {}", id)),
        status,
        delivery_port: None,
        notes: None,
        currency: currency.to_string(),
        created_at: "2026-01-01 00:00:00".to_string(),
        updated_at: "2026-01-01 00:00:00".to_string(),
    }
}

fn item(id: i32, order_id: i32, buying: u32, selling: u32, quantity: u32, currency: &str) -> OrderItem {
    OrderItem {
        id,
        order_id,
        product_name: format!("Product {}", id),
        impa_code: None,
        description: None,
        quantity,
        unit: "PCS".to_string(),
        buying_price: buying,
        selling_price: selling,
        currency: currency.to_string(),
        delivery_type: DeliveryType::ViaWarehouse,
        warehouse_delivery_date: None,
        ship_delivery_date: None,
        notes: None,
    }
}

fn book_with(orders: Vec<Order>, items: Vec<OrderItem>) -> OrderBook {
    let mut book = OrderBook::new();
    for o in orders {
        book.add_order(o).unwrap();
    }
    for i in items {
        book.add_item(i).unwrap();
    }
    book
}

#[test]
fn order_lifecycle_scenario() {
    let mut book = book_with(vec![order(1, OrderStatus::New, "EUR")], vec![]);
    let quoted = book.update_status(1, OrderStatus::Quoted, "t1".to_string()).unwrap();
    assert_eq!(quoted.status, OrderStatus::Quoted);
    assert_eq!(quoted.updated_at, "t1");
    assert_eq!(
        book.update_status(1, OrderStatus::WaitingGoods, "t2".to_string()).unwrap_err(),
        AppError::InvalidStateTransition { from: OrderStatus::Quoted, to: OrderStatus::WaitingGoods }
    );
    assert_eq!(book.orders[0].status, OrderStatus::Quoted);
    assert_eq!(book.orders[0].updated_at, "t1");
    let cancelled = book.update_status(1, OrderStatus::Cancelled, "t3".to_string()).unwrap();
    assert_eq!(cancelled.status, OrderStatus::Cancelled);
    assert_eq!(
        book.update_status(1, OrderStatus::Agreed, "t4".to_string()).unwrap_err(),
        AppError::InvalidStateTransition { from: OrderStatus::Cancelled, to: OrderStatus::Agreed }
    );
}

#[test]
fn status_update_of_unknown_order_is_not_found() {
    let mut book = book_with(vec![order(1, OrderStatus::New, "EUR")], vec![]);
    assert_eq!(book.update_status(7, OrderStatus::Quoted, "t".to_string()).unwrap_err(), AppError::NotFound);
}

#[test]
fn same_status_request_always_fails() {
    let all = [
        OrderStatus::New,
        OrderStatus::Quoted,
        OrderStatus::Agreed,
        OrderStatus::WaitingGoods,
        OrderStatus::Prepared,
        OrderStatus::OnWay,
        OrderStatus::Delivered,
        OrderStatus::Invoiced,
        OrderStatus::Cancelled,
    ];
    for (n, s) in all.iter().enumerate() {
        let id = n as i32 + 1;
        let mut book = book_with(vec![order(id, *s, "USD")], vec![]);
        assert_eq!(
            book.update_status(id, *s, "t".to_string()).unwrap_err(),
            AppError::InvalidStateTransition { from: *s, to: *s }
        );
    }
}

#[test]
fn duplicate_order_id_is_refused() {
    let mut book = book_with(vec![order(1, OrderStatus::New, "EUR")], vec![]);
    assert_eq!(book.add_order(order(1, OrderStatus::Quoted, "USD")), Err(AppError::ValidationError));
    assert_eq!(book.orders.len(), 1);
}

#[test]
fn totals_of_order_without_items_use_its_currency() {
    let book = book_with(vec![order(3, OrderStatus::New, "EUR")], vec![]);
    let t = book.calculate_order_totals(3);
    assert_eq!(t.item_count, 0);
    assert_eq!(t.total_cost, 0);
    assert_eq!(t.total_revenue, 0);
    assert_eq!(t.gross_profit, 0);
    assert_eq!(t.margin_basis_points, None);
    assert_eq!(t.currency, "EUR");
}

#[test]
fn totals_of_unknown_order_fall_back_to_usd() {
    let book = book_with(vec![order(3, OrderStatus::New, "EUR")], vec![]);
    let t = book.calculate_order_totals(99);
    assert_eq!(t.item_count, 0);
    assert_eq!(t.currency, "USD");
}

#[test]
fn totals_sum_the_order_items() {
    let book = book_with(
        vec![order(1, OrderStatus::New, "EUR"), order(2, OrderStatus::New, "TRY")],
        vec![
            item(1, 1, 100, 150, 3, "GBP"),
            item(2, 2, 10, 20, 5, "TRY"),
            item(3, 1, 20, 25, 4, "GBP"),
        ],
    );
    let t = book.calculate_order_totals(1);
    assert_eq!(t.item_count, 2);
    assert_eq!(t.total_cost, 380);
    assert_eq!(t.total_revenue, 550);
    assert_eq!(t.gross_profit, 170);
    assert_eq!(t.margin_basis_points, Some(3090));
    assert_eq!(t.currency, "GBP");
}

#[test]
fn delete_order_removes_its_items() {
    let mut book = book_with(
        vec![order(1, OrderStatus::New, "EUR"), order(2, OrderStatus::New, "EUR")],
        vec![item(1, 1, 1, 2, 1, "EUR"), item(2, 2, 1, 2, 1, "EUR"), item(3, 1, 1, 2, 1, "EUR")],
    );
    assert!(book.delete_order(1));
    assert_eq!(book.orders.len(), 1);
    assert_eq!(book.orders[0].id, 2);
    assert_eq!(book.items.len(), 1);
    assert_eq!(book.items[0].id, 2);
    assert!(!book.delete_order(1));
}

#[test]
fn profit_summary_skips_cancelled_orders() {
    let book = book_with(
        vec![
            order(1, OrderStatus::Agreed, "EUR"),
            order(2, OrderStatus::Cancelled, "EUR"),
            order(3, OrderStatus::New, "EUR"),
            order(4, OrderStatus::Delivered, "EUR"),
        ],
        vec![
            item(1, 1, 100, 150, 3, "EUR"),
            item(2, 2, 10, 1000, 10, "EUR"),
            item(3, 4, 50, 40, 2, "EUR"),
            item(4, 1, 1, 2, 10, "EUR"),
        ],
    );
    let s = book.get_profit_summary();
    assert_eq!(s.total_orders, 2);
    assert_eq!(s.total_revenue, 450 + 80 + 20);
    assert_eq!(s.total_cost, 300 + 100 + 10);
    assert_eq!(s.total_profit, 140);
    assert_eq!(s.average_margin_basis_points, Some(2545));
    assert_eq!(s.currency, "TRY");
}

#[test]
fn profit_summary_of_empty_book() {
    let book = OrderBook::new();
    let s = book.get_profit_summary();
    assert_eq!(s.total_orders, 0);
    assert_eq!(s.total_revenue, 0);
    assert_eq!(s.total_profit, 0);
    assert_eq!(s.average_margin_basis_points, None);
}

#[test]
fn top_profitable_orders_ranked_and_limited() {
    let mut unnamed = order(5, OrderStatus::OnWay, "USD");
    unnamed.ship_name = None;
    let book = book_with(
        vec![
            order(1, OrderStatus::Agreed, "EUR"),
            order(2, OrderStatus::Cancelled, "EUR"),
            order(3, OrderStatus::New, "EUR"),
            order(4, OrderStatus::Delivered, "EUR"),
            unnamed,
        ],
        vec![
            item(1, 1, 100, 150, 3, "EUR"),
            item(2, 2, 10, 1000, 10, "EUR"),
            item(3, 4, 50, 40, 2, "EUR"),
            item(4, 5, 10, 110, 5, "USD"),
        ],
    );
    let top = book.get_top_profitable_orders(2);
    assert_eq!(top.len(), 2);
    assert_eq!(top[0].order_id, 5);
    assert_eq!(top[0].profit, 500);
    assert_eq!(top[0].ship_name, "Bilinmeyen Gemi");
    assert_eq!(top[0].currency, "USD");
    assert_eq!(top[0].margin_basis_points, Some(9090));
    assert_eq!(top[1].order_id, 1);
    assert_eq!(top[1].order_number, "ORD-1");
    assert_eq!(top[1].ship_name, "Ship 1");
    assert_eq!(top[1].total_revenue, 450);
    assert_eq!(top[1].total_cost, 300);
    assert_eq!(top[1].profit, 150);

    let all = book.get_top_profitable_orders(10);
    let ids: Vec<i32> = all.iter().map(|r| r.order_id).collect();
    assert_eq!(ids, vec![5, 1, 4]);
    assert_eq!(all[2].profit, -20);

    assert!(book.get_top_profitable_orders(0).is_empty());
}

#[test]
fn order_with_items_uses_order_currency() {
    let book = book_with(
        vec![order(1, OrderStatus::New, "EUR"), order(2, OrderStatus::New, "EUR")],
        vec![item(1, 1, 100, 150, 3, "GBP"), item(2, 2, 1, 1, 1, "EUR"), item(3, 1, 20, 25, 4, "GBP")],
    );
    let w = book.get_with_items(1).unwrap();
    assert_eq!(w.order.id, 1);
    assert_eq!(w.items.len(), 2);
    assert_eq!(w.items[1].id, 3);
    assert_eq!(w.totals.item_count, 2);
    assert_eq!(w.totals.total_cost, 380);
    assert_eq!(w.totals.total_revenue, 550);
    assert_eq!(w.totals.currency, "EUR");
    assert!(book.get_with_items(9).is_none());
}
