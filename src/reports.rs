//! Reporting over the order book: the dashboard profit summary and the
//! ranking of the most profitable orders.
use vstd::prelude::*;
use crate::models::{Order, OrderItem, OrderProfitInfo, OrderStatus, ProfitSummary};
use crate::money::{MAX_ITEMS, order_totals, sum_cost, sum_revenue, margin_of, margin_as_int};
use crate::order_book::{OrderBook, has_order, ids_unique, items_for, lemma_items_for_len};

verus! {

pub open spec fn has_item(items: Seq<OrderItem>, order_id: i32) -> bool {
    exists|k: int| 0 <= k < items.len() && items[k].order_id == order_id
}

/// An order counts in the reports when it is not cancelled and has items.
pub open spec fn reported(o: Order, items: Seq<OrderItem>) -> bool {
    o.status != OrderStatus::Cancelled && has_item(items, o.id)
}

/// Whether order `id` is held and not cancelled.
pub open spec fn order_active(orders: Seq<Order>, id: i32) -> bool {
    exists|i: int| 0 <= i < orders.len() && orders[i].id == id && orders[i].status != OrderStatus::Cancelled
}

/// The line items whose order is held and not cancelled, in order.
pub open spec fn active_items(orders: Seq<Order>, items: Seq<OrderItem>) -> Seq<OrderItem>
    decreases items.len(),
{
    if items.len() == 0 {
        Seq::empty()
    } else if order_active(orders, items.last().order_id) {
        active_items(orders, items.drop_last()).push(items.last())
    } else {
        active_items(orders, items.drop_last())
    }
}

/// How many of `orders` count in the reports.
pub open spec fn reported_count(orders: Seq<Order>, items: Seq<OrderItem>) -> int
    decreases orders.len(),
{
    if orders.len() == 0 {
        0
    } else {
        reported_count(orders.drop_last(), items) + if reported(orders.last(), items) {
            1int
        } else {
            0int
        }
    }
}

/// What the profit summary of a book with `orders` and `items` holds.
pub open spec fn summary_spec(orders: Seq<Order>, items: Seq<OrderItem>, r: ProfitSummary) -> bool {
    let act = active_items(orders, items);
    &&& r.total_orders == reported_count(orders, items)
    &&& r.total_revenue == sum_revenue(act)
    &&& r.total_cost == sum_cost(act)
    &&& r.total_profit == sum_revenue(act) - sum_cost(act)
    &&& margin_as_int(r.average_margin_basis_points) == margin_of(
        sum_revenue(act) - sum_cost(act),
        sum_revenue(act),
    )
    &&& r.currency@ == "TRY"@
}

/// Profit of order `id`: its revenue less its cost.
pub open spec fn order_profit(items: Seq<OrderItem>, id: i32) -> int {
    sum_revenue(items_for(items, id)) - sum_cost(items_for(items, id))
}

/// The name shown for the ship of an order.
pub open spec fn ship_label(o: Order) -> Seq<char> {
    match o.ship_name {
        Some(n) => n@,
        None => "Bilinmeyen Gemi"@,
    }
}

/// Whether `r` is the ranking row of order `o`.
pub open spec fn describes(o: Order, items: Seq<OrderItem>, r: OrderProfitInfo) -> bool {
    let its = items_for(items, o.id);
    &&& r.order_id == o.id
    &&& r.order_number == o.order_number
    &&& r.ship_name@ == ship_label(o)
    &&& r.total_revenue == sum_revenue(its)
    &&& r.total_cost == sum_cost(its)
    &&& r.profit == order_profit(items, o.id)
    &&& margin_as_int(r.margin_basis_points) == margin_of(order_profit(items, o.id), sum_revenue(its))
    &&& r.currency == o.currency
}

/// `row` is the ranking row of one of the first `n` orders that count in the reports.
pub open spec fn row_of_some(orders: Seq<Order>, items: Seq<OrderItem>, n: int, row: OrderProfitInfo) -> bool {
    exists|j: int| 0 <= j < n && reported(orders[j], items) && #[trigger] describes(orders[j], items, row)
}

pub open spec fn in_ranking(r: Seq<OrderProfitInfo>, id: i32) -> bool {
    exists|k: int| 0 <= k < r.len() && r[k].order_id == id
}

/// `r` ranks the first `n` of `orders` that count in the reports: at most
/// `limit` rows, each the row of one such order, no order twice, by profit
/// from highest to lowest, and an order left out only when `limit` rows
/// all earn at least as much.
pub open spec fn ranking_of(
    orders: Seq<Order>,
    items: Seq<OrderItem>,
    limit: int,
    r: Seq<OrderProfitInfo>,
    n: int,
) -> bool {
    &&& r.len() <= limit
    &&& forall|k: int| 0 <= k < r.len() ==> row_of_some(orders, items, n, #[trigger] r[k])
    &&& forall|k1: int, k2: int| 0 <= k1 < k2 < r.len() ==> r[k1].profit >= r[k2].profit
    &&& forall|k1: int, k2: int|
        0 <= k1 < r.len() && 0 <= k2 < r.len() && k1 != k2 ==> r[k1].order_id != r[k2].order_id
    &&& forall|j: int| 0 <= j < n && #[trigger] reported(orders[j], items) ==> in_ranking(r, orders[j].id) || (
        r.len() == limit && forall|k: int| 0 <= k < r.len() ==> r[k].profit >= order_profit(items, orders[j].id))
}

pub proof fn lemma_items_for_nonempty(items: Seq<OrderItem>, id: i32)
    ensures
        items_for(items, id).len() > 0 <==> has_item(items, id),
    decreases items.len(),
{
    if items.len() > 0 {
        let init = items.drop_last();
        lemma_items_for_nonempty(init, id);
        if has_item(init, id) {
            let k = choose|k: int| 0 <= k < init.len() && init[k].order_id == id;
            assert(items[k] == init[k]);
        }
        if has_item(items, id) && items.last().order_id != id {
            let k = choose|k: int| 0 <= k < items.len() && items[k].order_id == id;
            assert(k != items.len() - 1);
            assert(init[k] == items[k]);
        }
    }
}

impl OrderBook {
    /// Whether order `id` is held and not cancelled.
    pub fn is_active_order(&self, id: i32) -> (r: bool)
        ensures
            r == order_active(self.orders@, id),
    {
        let mut i: usize = 0;
        while i < self.orders.len()
            invariant
                0 <= i <= self.orders@.len(),
                forall|k: int| 0 <= k < i ==> !(self.orders@[k].id == id
                    && self.orders@[k].status != OrderStatus::Cancelled),
            decreases self.orders@.len() - i,
        {
            if self.orders[i].id == id && self.orders[i].status != OrderStatus::Cancelled {
                return true;
            }
            i = i + 1;
        }
        false
    }

    /// Dashboard summary over the orders that are not cancelled: how many
    /// have items, their revenue, cost, profit and average margin.
    pub fn get_profit_summary(&self) -> (r: ProfitSummary)
        requires
            self.wf(),
        ensures
            summary_spec(self.orders@, self.items@, r),
    {
        let mut act: Vec<OrderItem> = Vec::new();
        let mut i: usize = 0;
        while i < self.items.len()
            invariant
                0 <= i <= self.items@.len() <= MAX_ITEMS,
                act@ == active_items(self.orders@, self.items@.subrange(0, i as int)),
                act@.len() <= i,
            decreases self.items@.len() - i,
        {
            let ghost next = self.items@.subrange(0, i + 1);
            proof {
                assert(next.drop_last() == self.items@.subrange(0, i as int));
                assert(next.last() == self.items@[i as int]);
            }
            if self.is_active_order(self.items[i].order_id) {
                act.push(self.items[i].duplicate());
            }
            i = i + 1;
        }
        proof {
            assert(self.items@.subrange(0, self.items@.len() as int) == self.items@);
        }
        let mut count: usize = 0;
        let mut j: usize = 0;
        while j < self.orders.len()
            invariant
                0 <= j <= self.orders@.len(),
                count == reported_count(self.orders@.subrange(0, j as int), self.items@),
                count <= j,
            decreases self.orders@.len() - j,
        {
            let ghost next = self.orders@.subrange(0, j + 1);
            proof {
                assert(next.drop_last() == self.orders@.subrange(0, j as int));
                assert(next.last() == self.orders@[j as int]);
            }
            let its = self.items_of_order(self.orders[j].id);
            proof {
                lemma_items_for_nonempty(self.items@, self.orders@[j as int].id);
            }
            if self.orders[j].status != OrderStatus::Cancelled && its.len() > 0 {
                count = count + 1;
            }
            j = j + 1;
        }
        proof {
            assert(self.orders@.subrange(0, self.orders@.len() as int) == self.orders@);
            reveal_strlit("TRY");
        }
        let currency = String::from_str("TRY");
        let totals = order_totals(&act, &currency);
        ProfitSummary {
            total_orders: count,
            total_revenue: totals.total_revenue,
            total_cost: totals.total_cost,
            total_profit: totals.gross_profit,
            average_margin_basis_points: totals.margin_basis_points,
            currency,
        }
    }
}

/// Skipping an order that does not count keeps the ranking.
proof fn lemma_rank_skip(
    orders: Seq<Order>,
    items: Seq<OrderItem>,
    limit: int,
    r: Seq<OrderProfitInfo>,
    i: int,
)
    requires
        0 <= i < orders.len(),
        ranking_of(orders, items, limit, r, i),
        !reported(orders[i], items),
    ensures
        ranking_of(orders, items, limit, r, i + 1),
{
    assert forall|k: int| 0 <= k < r.len() implies row_of_some(orders, items, i + 1, #[trigger] r[k]) by {
        assert(row_of_some(orders, items, i, r[k]));
        let j = choose|j: int| 0 <= j < i && reported(orders[j], items) && #[trigger] describes(orders[j], items, r[k]);
        assert(0 <= j < i + 1 && reported(orders[j], items) && describes(orders[j], items, r[k]));
    }
}

/// Inserting the row of order `i` at the first place whose profit is lower,
/// then dropping the row past `limit`, ranks one order more.
proof fn lemma_rank_insert(
    orders: Seq<Order>,
    items: Seq<OrderItem>,
    limit: int,
    r: Seq<OrderProfitInfo>,
    i: int,
    info: OrderProfitInfo,
    p: int,
)
    requires
        0 <= i < orders.len(),
        ids_unique(orders),
        ranking_of(orders, items, limit, r, i),
        reported(orders[i], items),
        describes(orders[i], items, info),
        0 <= p <= r.len(),
        forall|k: int| 0 <= k < p ==> r[k].profit >= info.profit,
        p < r.len() ==> r[p].profit < info.profit,
    ensures
        ranking_of(
            orders,
            items,
            limit,
            if r.insert(p, info).len() > limit {
                r.insert(p, info).drop_last()
            } else {
                r.insert(p, info)
            },
            i + 1,
        ),
{
    let r1 = r.insert(p, info);
    let r2 = if r1.len() > limit {
        r1.drop_last()
    } else {
        r1
    };
    assert forall|k: int| 0 <= k < r1.len() implies #[trigger] r1[k] == (if k < p {
        r[k]
    } else if k == p {
        info
    } else {
        r[k - 1]
    }) by {}
    assert forall|k: int| 0 <= k < r2.len() implies #[trigger] r2[k] == r1[k] by {}
    // every row belongs to a counted order
    assert forall|k: int| 0 <= k < r1.len() implies row_of_some(orders, items, i + 1, #[trigger] r1[k]) by {
        if k == p {
            assert(describes(orders[i], items, r1[k]));
        } else {
            let k0 = if k < p { k } else { k - 1 };
            assert(r1[k] == r[k0]);
            assert(row_of_some(orders, items, i, r[k0]));
            let j = choose|j: int| 0 <= j < i && reported(orders[j], items) && #[trigger] describes(orders[j], items, r[k0]);
            assert(0 <= j < i + 1 && reported(orders[j], items) && describes(orders[j], items, r1[k]));
        }
    }
    assert forall|k: int| 0 <= k < r2.len() implies row_of_some(orders, items, i + 1, #[trigger] r2[k]) by {
        assert(r2[k] == r1[k]);
    }
    // sorted
    assert forall|k1: int, k2: int| 0 <= k1 < k2 < r1.len() implies r1[k1].profit >= r1[k2].profit by {
        if k2 == p {
        } else if k1 == p {
            assert(r1[k2] == r[k2 - 1]);
            assert(p < r.len());
            if k2 - 1 > p {
                assert(r[p].profit >= r[k2 - 1].profit);
            }
        } else {
        }
    }
    // distinct orders
    assert forall|k1: int, k2: int|
        0 <= k1 < r1.len() && 0 <= k2 < r1.len() && k1 != k2 implies r1[k1].order_id != r1[k2].order_id by {
        if k1 == p || k2 == p {
            let k = if k1 == p { k2 } else { k1 };
            let k0 = if k < p { k } else { k - 1 };
            assert(r1[k] == r[k0]);
            assert(row_of_some(orders, items, i, r[k0]));
            let j = choose|j: int| 0 <= j < i && reported(orders[j], items) && #[trigger] describes(orders[j], items, r[k0]);
            assert(orders[j].id != orders[i].id);
        }
    }
    // an order left out is outranked by a full ranking
    assert forall|j: int| 0 <= j < i + 1 && #[trigger] reported(orders[j], items) implies in_ranking(r2, orders[j].id) || (
        r2.len() == limit && forall|k: int| 0 <= k < r2.len() ==> r2[k].profit >= order_profit(items, orders[j].id)) by {
        let pj = order_profit(items, orders[j].id);
        if r1.len() > limit {
            // the last row of r1 is dropped; every kept row earns at least as much
            assert forall|k: int| 0 <= k < r2.len() implies r2[k].profit >= r1[r1.len() - 1].profit by {
                assert(r2[k] == r1[k]);
            }
        }
        if j == i {
            if p < r2.len() {
                assert(r2[p].order_id == orders[j].id);
            } else {
                assert(r1.len() > limit);
                assert(p == r1.len() - 1);
                assert forall|k: int| 0 <= k < r2.len() implies r2[k].profit >= pj by {
                    assert(r2[k] == r[k]);
                }
            }
        } else if in_ranking(r, orders[j].id) {
            let k0 = choose|k: int| 0 <= k < r.len() && r[k].order_id == orders[j].id;
            let k1 = if k0 < p { k0 } else { k0 + 1 };
            assert(r1[k1].order_id == orders[j].id);
            if k1 < r2.len() {
                assert(r2[k1].order_id == orders[j].id);
            } else {
                assert(row_of_some(orders, items, i, r[k0]));
                let jj = choose|jj: int| 0 <= jj < i && reported(orders[jj], items) && #[trigger] describes(orders[jj], items, r[k0]);
                assert(orders[jj].id == orders[j].id);
                assert(jj == j);
                assert(r1[r1.len() - 1].profit == pj);
            }
        } else {
            assert(r.len() == limit);
            assert forall|k: int| 0 <= k < r2.len() implies r2[k].profit >= pj by {
                assert(r2[k] == r1[k]);
                if k != p {
                    let k0 = if k < p { k } else { k - 1 };
                    assert(r1[k] == r[k0]);
                } else {
                    assert(p < r.len());
                    assert(r[p].profit >= pj);
                }
            }
        }
    }
}

impl OrderBook {
    /// The ranking row of the order at position `i`.
    fn profit_info(&self, i: usize) -> (r: OrderProfitInfo)
        requires
            self.wf(),
            i < self.orders@.len(),
        ensures
            describes(self.orders@[i as int], self.items@, r),
    {
        let o = &self.orders[i];
        let its = self.items_of_order(o.id);
        proof {
            lemma_items_for_len(self.items@, o.id);
        }
        let totals = order_totals(&its, &o.currency);
        let ship_name = match &o.ship_name {
            Some(n) => n.clone(),
            None => String::from_str("Bilinmeyen Gemi"),
        };
        OrderProfitInfo {
            order_id: o.id,
            order_number: o.order_number.clone(),
            ship_name,
            total_revenue: totals.total_revenue,
            total_cost: totals.total_cost,
            profit: totals.gross_profit,
            margin_basis_points: totals.margin_basis_points,
            currency: o.currency.clone(),
        }
    }

    /// The at most `limit` most profitable orders that are not cancelled
    /// and have items, from the highest profit down.
    pub fn get_top_profitable_orders(&self, limit: usize) -> (r: Vec<OrderProfitInfo>)
        requires
            self.wf(),
        ensures
            ranking_of(self.orders@, self.items@, limit as int, r@, self.orders@.len() as int),
    {
        let mut r: Vec<OrderProfitInfo> = Vec::new();
        let mut i: usize = 0;
        while i < self.orders.len()
            invariant
                self.wf(),
                0 <= i <= self.orders@.len(),
                ranking_of(self.orders@, self.items@, limit as int, r@, i as int),
            decreases self.orders@.len() - i,
        {
            let its = self.items_of_order(self.orders[i].id);
            proof {
                lemma_items_for_nonempty(self.items@, self.orders@[i as int].id);
            }
            if self.orders[i].status != OrderStatus::Cancelled && its.len() > 0 {
                let info = self.profit_info(i);
                let mut p: usize = 0;
                while p < r.len() && r[p].profit >= info.profit
                    invariant
                        0 <= p <= r@.len(),
                        forall|k: int| 0 <= k < p ==> r@[k].profit >= info.profit,
                    decreases r@.len() - p,
                {
                    p = p + 1;
                }
                proof {
                    lemma_rank_insert(self.orders@, self.items@, limit as int, r@, i as int, info, p as int);
                }
                r.insert(p, info);
                if r.len() > limit {
                    r.pop();
                }
            } else {
                proof {
                    lemma_rank_skip(self.orders@, self.items@, limit as int, r@, i as int);
                }
            }
            i = i + 1;
        }
        r
    }
}

} // verus!
