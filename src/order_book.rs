//! Orders and their line items as the services see them: the status
//! transition service, order deletion, and order totals.
use vstd::prelude::*;
use crate::models::{Order, OrderItem, OrderStatus, OrderTotals, OrderWithItems, lemma_no_self_transition, transition_allowed};
use crate::money::{MAX_ITEMS, amounts_spec, order_totals, totals_spec};
use crate::response::AppError;

verus! {

/// Orders and line items held by the storage collaborator.
#[derive(Debug, Clone)]
pub struct OrderBook {
    pub orders: Vec<Order>,
    pub items: Vec<OrderItem>,
}

/// No two orders share an identifier.
pub open spec fn ids_unique(orders: Seq<Order>) -> bool {
    forall|i: int, j: int|
        0 <= i < orders.len() && 0 <= j < orders.len() && i != j ==> orders[i].id != orders[j].id
}

pub open spec fn has_order(orders: Seq<Order>, id: i32) -> bool {
    exists|i: int| 0 <= i < orders.len() && orders[i].id == id
}

/// The line items of order `order_id`, in order.
pub open spec fn items_for(items: Seq<OrderItem>, order_id: i32) -> Seq<OrderItem>
    decreases items.len(),
{
    if items.len() == 0 {
        Seq::empty()
    } else if items.last().order_id == order_id {
        items_for(items.drop_last(), order_id).push(items.last())
    } else {
        items_for(items.drop_last(), order_id)
    }
}

/// The line items that do not belong to order `order_id`, in order.
pub open spec fn items_without(items: Seq<OrderItem>, order_id: i32) -> Seq<OrderItem>
    decreases items.len(),
{
    if items.len() == 0 {
        Seq::empty()
    } else if items.last().order_id != order_id {
        items_without(items.drop_last(), order_id).push(items.last())
    } else {
        items_without(items.drop_last(), order_id)
    }
}

/// The currency reported for an order without items: its own, or the
/// configured fallback when the order is unknown.
pub open spec fn empty_order_currency(orders: Seq<Order>, id: i32) -> Seq<char> {
    if has_order(orders, id) {
        orders[choose|i: int| 0 <= i < orders.len() && orders[i].id == id].currency@
    } else {
        "USD"@
    }
}

pub fn clone_text(s: &Option<String>) -> (r: Option<String>)
    ensures
        r == *s,
{
    match s {
        Some(t) => Some(t.clone()),
        None => None,
    }
}

/// Outcome of asking to move order `id` to `new_status` at time `now`: the
/// answer and the orders afterwards. An unknown order is not found; a move
/// the state machine refuses reports the attempted pair and changes nothing;
/// an allowed move sets the status and the update time.
pub open spec fn status_update(orders: Seq<Order>, id: i32, new_status: OrderStatus, now: String) -> (
    Result<Order, AppError>,
    Seq<Order>,
) {
    if !has_order(orders, id) {
        (Err(AppError::NotFound), orders)
    } else {
        let i = choose|i: int| 0 <= i < orders.len() && orders[i].id == id;
        let cur = orders[i];
        if transition_allowed(cur.status, new_status) {
            let upd = Order { status: new_status, updated_at: now, ..cur };
            (Ok(upd), orders.update(i, upd))
        } else {
            (Err(AppError::InvalidStateTransition { from: cur.status, to: new_status }), orders)
        }
    }
}

/// Asking for the status an order already has always fails, Cancelled
/// included, and leaves the orders unchanged.
pub proof fn lemma_same_status_update_fails(orders: Seq<Order>, i: int, now: String)
    requires
        ids_unique(orders),
        0 <= i < orders.len(),
    ensures
        status_update(orders, orders[i].id, orders[i].status, now) == (
            Err::<Order, AppError>(
                AppError::InvalidStateTransition { from: orders[i].status, to: orders[i].status },
            ),
            orders,
        ),
{
    let id = orders[i].id;
    let c = choose|k: int| 0 <= k < orders.len() && orders[k].id == id;
    assert(c == i);
    lemma_no_self_transition(orders[i].status);
}

impl Order {
    /// A field-by-field copy of this order.
    pub fn duplicate(&self) -> (r: Order)
        ensures
            r == *self,
    {
        Order {
            id: self.id,
            order_number: self.order_number.clone(),
            ship_id: self.ship_id,
            ship_name: clone_text(&self.ship_name),
            status: self.status,
            delivery_port: clone_text(&self.delivery_port),
            notes: clone_text(&self.notes),
            currency: self.currency.clone(),
            created_at: self.created_at.clone(),
            updated_at: self.updated_at.clone(),
        }
    }
}

impl OrderItem {
    /// A field-by-field copy of this line item.
    pub fn duplicate(&self) -> (r: OrderItem)
        ensures
            r == *self,
    {
        OrderItem {
            id: self.id,
            order_id: self.order_id,
            product_name: self.product_name.clone(),
            impa_code: clone_text(&self.impa_code),
            description: clone_text(&self.description),
            quantity: self.quantity,
            unit: self.unit.clone(),
            buying_price: self.buying_price,
            selling_price: self.selling_price,
            currency: self.currency.clone(),
            delivery_type: self.delivery_type,
            warehouse_delivery_date: clone_text(&self.warehouse_delivery_date),
            ship_delivery_date: clone_text(&self.ship_delivery_date),
            notes: clone_text(&self.notes),
        }
    }
}

impl OrderBook {
    /// Order identifiers are unique and the items fit the totals' bound.
    pub open spec fn wf(&self) -> bool {
        &&& ids_unique(self.orders@)
        &&& self.items@.len() <= MAX_ITEMS
    }

    /// An empty book.
    pub fn new() -> (r: OrderBook)
        ensures
            r.wf(),
            r.orders@.len() == 0,
            r.items@.len() == 0,
    {
        OrderBook { orders: Vec::new(), items: Vec::new() }
    }

    /// Position of order `id`, if it is held.
    pub fn find_order(&self, id: i32) -> (r: Option<usize>)
        ensures
            r matches Some(i) ==> i < self.orders@.len() && self.orders@[i as int].id == id,
            r is None <==> !has_order(self.orders@, id),
    {
        let mut i: usize = 0;
        while i < self.orders.len()
            invariant
                0 <= i <= self.orders@.len(),
                forall|k: int| 0 <= k < i ==> self.orders@[k].id != id,
            decreases self.orders@.len() - i,
        {
            if self.orders[i].id == id {
                return Some(i);
            }
            i = i + 1;
        }
        None
    }

    /// Adds an order; refused when its identifier is already held.
    pub fn add_order(&mut self, order: Order) -> (r: Result<(), AppError>)
        requires
            old(self).wf(),
        ensures
            final(self).wf(),
            final(self).items == old(self).items,
            has_order(old(self).orders@, order.id) ==> r == Err::<(), AppError>(AppError::ValidationError)
                && final(self).orders@ == old(self).orders@,
            !has_order(old(self).orders@, order.id) ==> r is Ok
                && final(self).orders@ == old(self).orders@.push(order),
    {
        if self.find_order(order.id).is_some() {
            return Err(AppError::ValidationError);
        }
        self.orders.push(order);
        Ok(())
    }

    /// Adds a line item; refused when the book already holds the most
    /// items that its totals can add up.
    pub fn add_item(&mut self, item: OrderItem) -> (r: Result<(), AppError>)
        requires
            old(self).wf(),
        ensures
            final(self).wf(),
            final(self).orders == old(self).orders,
            old(self).items@.len() < MAX_ITEMS ==> r is Ok && final(self).items@ == old(self).items@.push(item),
            old(self).items@.len() >= MAX_ITEMS ==> r == Err::<(), AppError>(AppError::ValidationError)
                && final(self).items@ == old(self).items@,
    {
        if self.items.len() >= MAX_ITEMS {
            return Err(AppError::ValidationError);
        }
        self.items.push(item);
        Ok(())
    }

    /// Moves order `id` to `new_status` if the state machine allows it,
    /// stamping `now` as its update time, and returns the updated order.
    pub fn update_status(&mut self, id: i32, new_status: OrderStatus, now: String) -> (r: Result<Order, AppError>)
        requires
            old(self).wf(),
        ensures
            final(self).wf(),
            final(self).items == old(self).items,
            (r, final(self).orders@) == status_update(old(self).orders@, id, new_status, now),
    {
        let idx = match self.find_order(id) {
            Some(i) => i,
            None => return Err(AppError::NotFound),
        };
        proof {
            let c = choose|k: int| 0 <= k < self.orders@.len() && self.orders@[k].id == id;
            assert(c == idx as int);
        }
        let current = self.orders[idx].status;
        if !current.can_transition_to(new_status) {
            return Err(AppError::InvalidStateTransition { from: current, to: new_status });
        }
        let mut updated = self.orders[idx].duplicate();
        updated.status = new_status;
        updated.updated_at = now;
        let result = updated.duplicate();
        self.orders.set(idx, updated);
        proof {
            assert forall|i: int, j: int|
                0 <= i < self.orders@.len() && 0 <= j < self.orders@.len() && i != j
                implies self.orders@[i].id != self.orders@[j].id by {
                assert(old(self).orders@[i].id != old(self).orders@[j].id);
            }
        }
        Ok(result)
    }

    /// The line items of order `order_id`.
    pub fn items_of_order(&self, order_id: i32) -> (r: Vec<OrderItem>)
        ensures
            r@ == items_for(self.items@, order_id),
    {
        let mut out: Vec<OrderItem> = Vec::new();
        let mut i: usize = 0;
        while i < self.items.len()
            invariant
                0 <= i <= self.items@.len(),
                out@ == items_for(self.items@.subrange(0, i as int), order_id),
            decreases self.items@.len() - i,
        {
            let ghost next = self.items@.subrange(0, i + 1);
            proof {
                assert(next.drop_last() == self.items@.subrange(0, i as int));
                assert(next.last() == self.items@[i as int]);
            }
            if self.items[i].order_id == order_id {
                out.push(self.items[i].duplicate());
            }
            i = i + 1;
        }
        proof {
            assert(self.items@.subrange(0, self.items@.len() as int) == self.items@);
        }
        out
    }

    /// Deletes order `id` together with all its line items. Returns whether
    /// an order was removed.
    pub fn delete_order(&mut self, id: i32) -> (r: bool)
        requires
            old(self).wf(),
        ensures
            final(self).wf(),
            final(self).items@ == items_without(old(self).items@, id),
            r == has_order(old(self).orders@, id),
            !has_order(final(self).orders@, id),
            !has_order(old(self).orders@, id) ==> final(self).orders@ == old(self).orders@,
            forall|i: int| 0 <= i < old(self).orders@.len() && old(self).orders@[i].id == id
                ==> final(self).orders@ == old(self).orders@.remove(i),
    {
        let mut kept: Vec<OrderItem> = Vec::new();
        let mut i: usize = 0;
        while i < self.items.len()
            invariant
                0 <= i <= self.items@.len(),
                kept@ == items_without(self.items@.subrange(0, i as int), id),
                kept@.len() <= i,
            decreases self.items@.len() - i,
        {
            let ghost next = self.items@.subrange(0, i + 1);
            proof {
                assert(next.drop_last() == self.items@.subrange(0, i as int));
                assert(next.last() == self.items@[i as int]);
            }
            if self.items[i].order_id != id {
                kept.push(self.items[i].duplicate());
            }
            i = i + 1;
        }
        proof {
            assert(self.items@.subrange(0, self.items@.len() as int) == self.items@);
        }
        self.items = kept;
        match self.find_order(id) {
            Some(idx) => {
                let ghost before = self.orders@;
                self.orders.remove(idx);
                proof {
                    assert forall|i: int| 0 <= i < before.len() && before[i].id == id implies i == idx by {}
                    assert forall|j: int| 0 <= j < self.orders@.len() implies self.orders@[j].id != id by {
                        if j < idx {
                            assert(self.orders@[j] == before[j]);
                        } else {
                            assert(self.orders@[j] == before[j + 1]);
                        }
                    }
                    assert forall|a: int, b: int|
                        0 <= a < self.orders@.len() && 0 <= b < self.orders@.len() && a != b
                        implies self.orders@[a].id != self.orders@[b].id by {
                        let a2 = if a < idx { a } else { a + 1 };
                        let b2 = if b < idx { b } else { b + 1 };
                        assert(self.orders@[a] == before[a2]);
                        assert(self.orders@[b] == before[b2]);
                    }
                }
                true
            },
            None => false,
        }
    }

    /// Totals of order `order_id`. Without items the totals are zero and
    /// carry the order's own currency, or the fallback when the order is unknown.
    pub fn calculate_order_totals(&self, order_id: i32) -> (r: OrderTotals)
        requires
            self.wf(),
        ensures
            totals_spec(
                items_for(self.items@, order_id),
                empty_order_currency(self.orders@, order_id),
                r,
            ),
    {
        let items = self.items_of_order(order_id);
        proof {
            lemma_items_for_len(self.items@, order_id);
        }
        let fallback = match self.find_order(order_id) {
            Some(i) => {
                proof {
                    let c = choose|k: int| 0 <= k < self.orders@.len() && self.orders@[k].id == order_id;
                    assert(c == i as int);
                }
                self.orders[i].currency.clone()
            },
            None => {
                proof {
                    reveal_strlit("USD");
                }
                String::from_str("USD")
            },
        };
        order_totals(&items, &fallback)
    }
}

impl OrderBook {
    /// Order `id` with its line items and their totals, reported in the
    /// order's own currency; `None` when the order is unknown.
    pub fn get_with_items(&self, id: i32) -> (r: Option<OrderWithItems>)
        requires
            self.wf(),
        ensures
            r is None <==> !has_order(self.orders@, id),
            r matches Some(w) ==> {
                &&& self.orders@.contains(w.order)
                &&& w.order.id == id
                &&& w.items@ == items_for(self.items@, id)
                &&& amounts_spec(w.items@, w.totals)
                &&& w.totals.currency == w.order.currency
            },
    {
        let i = match self.find_order(id) {
            Some(i) => i,
            None => return None,
        };
        let order = self.orders[i].duplicate();
        let items = self.items_of_order(id);
        proof {
            lemma_items_for_len(self.items@, id);
            assert(self.orders@[i as int] == order);
            assert(self.orders@.contains(order));
        }
        let mut totals = order_totals(&items, &order.currency);
        totals.currency = order.currency.clone();
        Some(OrderWithItems { order, items, totals })
    }
}

pub proof fn lemma_items_for_len(items: Seq<OrderItem>, order_id: i32)
    ensures
        items_for(items, order_id).len() <= items.len(),
    decreases items.len(),
{
    if items.len() > 0 {
        lemma_items_for_len(items.drop_last(), order_id);
    }
}

/// The currency reported for an order without items is the order's own.
pub proof fn lemma_empty_order_currency(orders: Seq<Order>, id: i32, i: int)
    requires
        ids_unique(orders),
        0 <= i < orders.len(),
        orders[i].id == id,
    ensures
        empty_order_currency(orders, id) == orders[i].currency@,
{
    let c = choose|k: int| 0 <= k < orders.len() && orders[k].id == id;
    assert(c == i);
}

} // verus!
