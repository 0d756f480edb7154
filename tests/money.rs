use ssms_core::models::{DeliveryType, OrderItem};
use ssms_core::money::{calculate_item_profit, margin_basis_points, order_totals};

fn item(buying: u32, selling: u32, quantity: u32, currency: &str) -> OrderItem {
    OrderItem {
        id: 1,
        order_id: 1,
        product_name: "Rope".to_string(),
        impa_code: Some("210101".to_string()),
        description: None,
        quantity,
        unit: "M".to_string(),
        buying_price: buying,
        selling_price: selling,
        currency: currency.to_string(),
        delivery_type: DeliveryType::DirectToShip,
        warehouse_delivery_date: None,
        ship_delivery_date: None,
        notes: None,
    }
}

#[test]
fn item_profit_scenario() {
    let p = calculate_item_profit(100, 150, 3);
    assert_eq!(p.total_cost, 300);
    assert_eq!(p.total_revenue, 450);
    assert_eq!(p.gross_profit, 150);
    assert_eq!(p.margin_basis_points, Some(3333));
}

#[test]
fn gross_profit_is_revenue_less_cost() {
    for &(b, s, q) in &[(0u32, 0u32, 0u32), (7, 3, 11), (3, 7, 11), (u32::MAX, 1, u32::MAX), (1, u32::MAX, u32::MAX)] {
        let p = calculate_item_profit(b, s, q);
        assert_eq!(p.gross_profit, p.total_revenue - p.total_cost);
        assert_eq!(p.margin_basis_points.is_none(), s == 0);
    }
}

#[test]
fn margin_undefined_without_selling_price() {
    let p = calculate_item_profit(40, 0, 5);
    assert_eq!(p.total_cost, 200);
    assert_eq!(p.total_revenue, 0);
    assert_eq!(p.gross_profit, -200);
    assert_eq!(p.margin_basis_points, None);
}

#[test]
fn margin_rounds_toward_zero() {
    assert_eq!(calculate_item_profit(3, 7, 1).margin_basis_points, Some(5714));
    assert_eq!(calculate_item_profit(7, 3, 1).margin_basis_points, Some(-13333));
    assert_eq!(margin_basis_points(-1, 3), Some(-3333));
    assert_eq!(margin_basis_points(5, 0), None);
}

#[test]
fn largest_prices_stay_exact() {
    let p = calculate_item_profit(0, u32::MAX, u32::MAX);
    assert_eq!(p.total_revenue, (u32::MAX as i128) * (u32::MAX as i128));
    assert_eq!(p.margin_basis_points, Some(10000));
}

#[test]
fn order_totals_of_no_items() {
    let t = order_totals(&vec![], &"JPY".to_string());
    assert_eq!(t.item_count, 0);
    assert_eq!(t.total_cost, 0);
    assert_eq!(t.total_revenue, 0);
    assert_eq!(t.gross_profit, 0);
    assert_eq!(t.margin_basis_points, None);
    assert_eq!(t.currency, "JPY");
}

#[test]
fn order_totals_take_first_item_currency() {
    let t = order_totals(&vec![item(100, 150, 3, "EUR"), item(5, 4, 10, "USD")], &"JPY".to_string());
    assert_eq!(t.item_count, 2);
    assert_eq!(t.total_cost, 350);
    assert_eq!(t.total_revenue, 490);
    assert_eq!(t.gross_profit, 140);
    assert_eq!(t.margin_basis_points, Some(2857));
    assert_eq!(t.currency, "EUR");
}
