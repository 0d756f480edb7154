//! Money arithmetic: cost, revenue, gross profit and margin of line items,
//! and their totals over an order. All amounts are exact integers; a margin
//! is expressed in hundredths of a percent, rounded toward zero.
use vstd::prelude::*;
use crate::models::{ItemProfit, OrderItem, OrderTotals};

verus! {

/// The most line items that one total may add up: it keeps every sum and
/// every margin computation inside `i128`.
pub const MAX_ITEMS: usize = 4294967295;

/// Bound on the magnitude of an amount that a margin is computed from.
pub const MAX_AMOUNT: i128 = 0x10000_0000_0000_0000_0000_0000;

pub open spec fn item_cost(buying_price: int, quantity: int) -> int {
    buying_price * quantity
}

pub open spec fn item_revenue(selling_price: int, quantity: int) -> int {
    selling_price * quantity
}

pub open spec fn item_gross_profit(buying_price: int, selling_price: int, quantity: int) -> int {
    (selling_price - buying_price) * quantity
}

/// Integer division rounded toward zero, for a positive divisor.
pub open spec fn div_toward_zero(a: int, d: int) -> int {
    if a >= 0 {
        a / d
    } else {
        -((-a) / d)
    }
}

/// Margin of `profit` over `revenue` in hundredths of a percent;
/// undefined when there is no revenue.
pub open spec fn margin_of(profit: int, revenue: int) -> Option<int> {
    if revenue <= 0 {
        None
    } else {
        Some(div_toward_zero(profit * 10000, revenue))
    }
}

/// Margin of one unit sold at `selling_price` that cost `buying_price`.
pub open spec fn item_margin(buying_price: int, selling_price: int) -> Option<int> {
    margin_of(selling_price - buying_price, selling_price)
}

pub open spec fn margin_as_int(m: Option<i128>) -> Option<int> {
    match m {
        Some(v) => Some(v as int),
        None => None,
    }
}

/// What `calculate_item_profit` returns, over the mathematical integers.
pub open spec fn item_profit_spec(buying_price: int, selling_price: int, quantity: int, r: ItemProfit) -> bool {
    &&& r.total_cost == item_cost(buying_price, quantity)
    &&& r.total_revenue == item_revenue(selling_price, quantity)
    &&& r.gross_profit == item_gross_profit(buying_price, selling_price, quantity)
    &&& margin_as_int(r.margin_basis_points) == item_margin(buying_price, selling_price)
}

/// Sum of the line costs of `items`.
pub open spec fn sum_cost(items: Seq<OrderItem>) -> int
    decreases items.len(),
{
    if items.len() == 0 {
        0
    } else {
        sum_cost(items.drop_last()) + item_cost(
            items.last().buying_price as int,
            items.last().quantity as int,
        )
    }
}

/// Sum of the line revenues of `items`.
pub open spec fn sum_revenue(items: Seq<OrderItem>) -> int
    decreases items.len(),
{
    if items.len() == 0 {
        0
    } else {
        sum_revenue(items.drop_last()) + item_revenue(
            items.last().selling_price as int,
            items.last().quantity as int,
        )
    }
}

/// The totals of an order with line items `items`; `fallback` is the
/// currency reported when there are none.
pub open spec fn totals_spec(items: Seq<OrderItem>, fallback: Seq<char>, r: OrderTotals) -> bool {
    &&& amounts_spec(items, r)
    &&& r.currency@ == (if items.len() == 0 {
        fallback
    } else {
        items[0].currency@
    })
}

/// The count and amounts of the totals of `items`, whatever their currency.
pub open spec fn amounts_spec(items: Seq<OrderItem>, r: OrderTotals) -> bool {
    &&& r.item_count == items.len()
    &&& r.total_cost == sum_cost(items)
    &&& r.total_revenue == sum_revenue(items)
    &&& r.gross_profit == sum_revenue(items) - sum_cost(items)
    &&& margin_as_int(r.margin_basis_points) == margin_of(
        sum_revenue(items) - sum_cost(items),
        sum_revenue(items),
    )
}

/// Margin of `profit` over `revenue`, in hundredths of a percent rounded
/// toward zero; `None` when there is no revenue.
pub fn margin_basis_points(profit: i128, revenue: i128) -> (r: Option<i128>)
    requires
        -MAX_AMOUNT <= profit <= MAX_AMOUNT,
        0 <= revenue,
    ensures
        margin_as_int(r) == margin_of(profit as int, revenue as int),
{
    if revenue == 0 {
        return None;
    }
    if profit >= 0 {
        let scaled: i128 = profit * 10000;
        Some(scaled / revenue)
    } else {
        let scaled: i128 = (-profit) * 10000;
        let q: i128 = scaled / revenue;
        proof {
            assert(((-profit) * 10000) as int == -(profit * 10000)) by (nonlinear_arith);
        }
        Some(-q)
    }
}

proof fn lemma_item_bounds(buying_price: u32, selling_price: u32, quantity: u32)
    ensures
        0 <= item_cost(buying_price as int, quantity as int) <= 0xffff_ffff_ffff_ffff,
        0 <= item_revenue(selling_price as int, quantity as int) <= 0xffff_ffff_ffff_ffff,
        item_gross_profit(buying_price as int, selling_price as int, quantity as int)
            == item_revenue(selling_price as int, quantity as int) - item_cost(buying_price as int, quantity as int),
{
    let (b, s, q) = (buying_price as int, selling_price as int, quantity as int);
    assert(0 <= b * q <= 0xffff_ffff * 0xffff_ffff) by (nonlinear_arith)
        requires 0 <= b <= 0xffff_ffff, 0 <= q <= 0xffff_ffff;
    assert(0 <= s * q <= 0xffff_ffff * 0xffff_ffff) by (nonlinear_arith)
        requires 0 <= s <= 0xffff_ffff, 0 <= q <= 0xffff_ffff;
    assert((s - b) * q == s * q - b * q) by (nonlinear_arith);
}

/// Cost, revenue, gross profit and margin of one line item.
pub fn calculate_item_profit(buying_price: u32, selling_price: u32, quantity: u32) -> (r: ItemProfit)
    ensures
        item_profit_spec(buying_price as int, selling_price as int, quantity as int, r),
{
    proof {
        lemma_item_bounds(buying_price, selling_price, quantity);
    }
    let total_cost: i128 = (buying_price as i128) * (quantity as i128);
    let total_revenue: i128 = (selling_price as i128) * (quantity as i128);
    let gross_profit: i128 = ((selling_price as i128) - (buying_price as i128)) * (quantity as i128);
    let margin = margin_basis_points(
        (selling_price as i128) - (buying_price as i128),
        selling_price as i128,
    );
    ItemProfit { total_cost, total_revenue, gross_profit, margin_basis_points: margin }
}

proof fn lemma_sums_bounded(items: Seq<OrderItem>)
    ensures
        0 <= sum_cost(items) <= items.len() * 0xffff_ffff_ffff_ffff,
        0 <= sum_revenue(items) <= items.len() * 0xffff_ffff_ffff_ffff,
    decreases items.len(),
{
    if items.len() > 0 {
        let last = items.last();
        lemma_sums_bounded(items.drop_last());
        lemma_item_bounds(last.buying_price, last.selling_price, last.quantity);
        assert((items.len() - 1) * 0xffff_ffff_ffff_ffff + 0xffff_ffff_ffff_ffff
            == items.len() * 0xffff_ffff_ffff_ffff) by (nonlinear_arith);
    }
}

proof fn lemma_bound_scale(n: int)
    requires
        0 <= n <= MAX_ITEMS,
    ensures
        n * 0xffff_ffff_ffff_ffff <= 0xffff_ffff * 0xffff_ffff_ffff_ffff,
{
    assert(n * 0xffff_ffff_ffff_ffff <= 0xffff_ffff * 0xffff_ffff_ffff_ffff) by (nonlinear_arith)
        requires 0 <= n <= 0xffff_ffff;
}

/// Totals of an order whose line items are `items`. The currency is that of
/// the first item, or `fallback` when there are no items.
pub fn order_totals(items: &Vec<OrderItem>, fallback: &String) -> (r: OrderTotals)
    requires
        items@.len() <= MAX_ITEMS,
    ensures
        totals_spec(items@, fallback@, r),
{
    let mut total_cost: i128 = 0;
    let mut total_revenue: i128 = 0;
    let mut i: usize = 0;
    proof {
        lemma_bound_scale(items@.len() as int);
    }
    while i < items.len()
        invariant
            0 <= i <= items@.len() <= MAX_ITEMS,
            total_cost == sum_cost(items@.subrange(0, i as int)),
            total_revenue == sum_revenue(items@.subrange(0, i as int)),
            items@.len() * 0xffff_ffff_ffff_ffff <= 0xffff_ffff * 0xffff_ffff_ffff_ffff,
        decreases items@.len() - i,
    {
        let item = &items[i];
        let p = calculate_item_profit(item.buying_price, item.selling_price, item.quantity);
        proof {
            let next = items@.subrange(0, i + 1);
            assert(next.drop_last() == items@.subrange(0, i as int));
            assert(next.last() == items@[i as int]);
            lemma_sums_bounded(next);
            assert(next.len() * 0xffff_ffff_ffff_ffff <= items@.len() * 0xffff_ffff_ffff_ffff)
                by (nonlinear_arith)
                requires next.len() <= items@.len();
        }
        total_cost = total_cost + p.total_cost;
        total_revenue = total_revenue + p.total_revenue;
        i = i + 1;
    }
    proof {
        assert(items@.subrange(0, items@.len() as int) == items@);
        lemma_sums_bounded(items@);
    }
    let gross_profit: i128 = total_revenue - total_cost;
    let margin = margin_basis_points(gross_profit, total_revenue);
    let currency = if items.len() == 0 {
        fallback.clone()
    } else {
        items[0].currency.clone()
    };
    OrderTotals {
        item_count: items.len(),
        total_cost,
        total_revenue,
        gross_profit,
        margin_basis_points: margin,
        currency,
    }
}

/// For non-negative prices and quantity, the gross profit is the revenue
/// less the cost, and the margin is undefined exactly when the selling
/// price is zero.
pub proof fn lemma_item_profit_law(buying_price: int, selling_price: int, quantity: int)
    requires
        buying_price >= 0,
        selling_price >= 0,
        quantity >= 0,
    ensures
        item_gross_profit(buying_price, selling_price, quantity)
            == item_revenue(selling_price, quantity) - item_cost(buying_price, quantity),
        item_margin(buying_price, selling_price) is None <==> selling_price == 0,
{
    assert((selling_price - buying_price) * quantity == selling_price * quantity - buying_price * quantity)
        by (nonlinear_arith);
}

/// Totals of an order without line items: no items, every amount zero, no
/// margin, and the currency given for an empty order.
pub proof fn lemma_empty_order_totals(items: Seq<OrderItem>, fallback: Seq<char>, r: OrderTotals)
    requires
        items.len() == 0,
        totals_spec(items, fallback, r),
    ensures
        r.item_count == 0,
        r.total_cost == 0,
        r.total_revenue == 0,
        r.gross_profit == 0,
        r.margin_basis_points is None,
        r.currency@ == fallback,
{
}

} // verus!
