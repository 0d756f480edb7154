//! The stock movement service: stocks and their movement ledger, kept so
//! that every quantity is the fold of its own movement history.
use vstd::prelude::*;
use crate::ledger::{low_stock, out_of_stock, apply_movement, fold_movements, history_of, ledger_step, lemma_history_empty, lemma_history_push};
use crate::models::{CreateStockMovementRequest, Stock, StockSummary, StockWithMovements, StockMovement, StockMovementType};
use crate::order_book::clone_text;
use crate::response::AppError;

verus! {

/// The most stocks, and the most movements, that a warehouse holds: their
/// identifiers are positive `i32` values.
pub const MAX_RECORDS: usize = 2147483646;

/// Stocks and the append-only movement ledger behind them.
#[derive(Debug, Clone)]
pub struct Warehouse {
    pub stocks: Vec<Stock>,
    pub movements: Vec<StockMovement>,
}

/// What `create_movement` records for `req` against stock `s`.
pub open spec fn recorded_movement(
    s: Stock,
    req: CreateStockMovementRequest,
    id: int,
    now: String,
) -> StockMovement {
    StockMovement {
        id: id as i32,
        stock_id: s.id,
        supply_item_name: s.supply_item_name,
        movement_type: req.movement_type,
        quantity: req.quantity as u64,
        unit: s.unit,
        reference_type: req.reference_type,
        reference_id: req.reference_id,
        reference_info: req.reference_info,
        notes: req.notes,
        created_at: now,
    }
}

impl Warehouse {
    /// Stock `k` has identifier `k + 1` and movement `k` identifier `k + 1`;
    /// every movement belongs to a held stock; every quantity is the fold of
    /// the stock's history from zero.
    pub open spec fn wf(&self) -> bool {
        &&& self.stocks@.len() <= MAX_RECORDS
        &&& self.movements@.len() <= MAX_RECORDS
        &&& forall|k: int| 0 <= k < self.stocks@.len() ==> #[trigger] self.stocks@[k].id == k + 1
        &&& forall|k: int| 0 <= k < self.movements@.len() ==> #[trigger] self.movements@[k].id == k + 1
        &&& forall|k: int| 0 <= k < self.movements@.len()
            ==> 1 <= #[trigger] self.movements@[k].stock_id <= self.stocks@.len()
        &&& forall|k: int| 0 <= k < self.stocks@.len()
            ==> #[trigger] self.stocks@[k].quantity == fold_movements(0, history_of(self.movements@, self.stocks@[k].id))
    }

    /// An empty warehouse.
    pub fn new() -> (r: Warehouse)
        ensures
            r.wf(),
            r.stocks@.len() == 0,
            r.movements@.len() == 0,
    {
        Warehouse { stocks: Vec::new(), movements: Vec::new() }
    }

    /// Position of stock `id`, if it is held.
    pub fn find_stock(&self, id: i32) -> (r: Option<usize>)
        requires
            self.wf(),
        ensures
            r matches Some(i) ==> i < self.stocks@.len() && self.stocks@[i as int].id == id,
            r is None <==> !(exists|i: int| 0 <= i < self.stocks@.len() && self.stocks@[i].id == id),
    {
        if 1 <= id && (id as usize) <= self.stocks.len() {
            Some((id - 1) as usize)
        } else {
            proof {
                assert forall|i: int| 0 <= i < self.stocks@.len() implies self.stocks@[i].id != id by {
                    assert(self.stocks@[i].id == i + 1);
                }
            }
            None
        }
    }

    /// Opens a stock for a catalog item, empty, and returns its identifier;
    /// refused when the warehouse is full.
    pub fn add_stock(
        &mut self,
        supply_item_id: i32,
        supply_item_name: Option<String>,
        unit: String,
        warehouse_location: Option<String>,
        minimum_quantity: u64,
        now: String,
    ) -> (r: Result<i32, AppError>)
        requires
            old(self).wf(),
        ensures
            final(self).wf(),
            final(self).movements == old(self).movements,
            old(self).stocks@.len() >= MAX_RECORDS ==> r == Err::<i32, AppError>(AppError::ValidationError)
                && final(self).stocks == old(self).stocks,
            old(self).stocks@.len() < MAX_RECORDS ==> r == Ok::<i32, AppError>((old(self).stocks@.len() + 1) as i32)
                && final(self).stocks@ == old(self).stocks@.push(Stock {
                    id: (old(self).stocks@.len() + 1) as i32,
                    supply_item_id,
                    supply_item_name,
                    quantity: 0,
                    unit,
                    warehouse_location,
                    minimum_quantity,
                    last_updated: now,
                }),
    {
        if self.stocks.len() >= MAX_RECORDS {
            return Err(AppError::ValidationError);
        }
        let id = (self.stocks.len() + 1) as i32;
        proof {
            assert forall|k: int| 0 <= k < self.movements@.len() implies self.movements@[k].stock_id != id by {
                assert(1 <= self.movements@[k].stock_id <= self.stocks@.len());
            }
            lemma_history_empty(self.movements@, id);
        }
        self.stocks.push(Stock {
            id,
            supply_item_id,
            supply_item_name,
            quantity: 0,
            unit,
            warehouse_location,
            minimum_quantity,
            last_updated: now,
        });
        proof {
            assert forall|k: int| 0 <= k < self.stocks@.len() implies #[trigger] self.stocks@[k].quantity
                == fold_movements(0, history_of(self.movements@, self.stocks@[k].id)) by {
                if k < self.stocks@.len() - 1 {
                    assert(self.stocks@[k] == old(self).stocks@[k]);
                }
            }
            assert forall|k: int| 0 <= k < self.stocks@.len() implies #[trigger] self.stocks@[k].id == k + 1 by {
                if k < self.stocks@.len() - 1 {
                    assert(self.stocks@[k] == old(self).stocks@[k]);
                }
            }
        }
        Ok(id)
    }

    /// Records a movement against stock `req.stock_id` and updates its
    /// quantity by the ledger rule, both or neither. Fails with `NotFound`
    /// for an unknown stock, and with `ValidationError` for a negative
    /// quantity, a quantity that would not fit, or a full ledger.
    pub fn create_movement(&mut self, req: CreateStockMovementRequest, now: String) -> (r: Result<
        StockMovement,
        AppError,
    >)
        requires
            old(self).wf(),
        ensures
            final(self).wf(),
            !(1 <= req.stock_id <= old(self).stocks@.len()) ==> r == Err::<StockMovement, AppError>(
                AppError::NotFound,
            ) && *final(self) == *old(self),
            1 <= req.stock_id <= old(self).stocks@.len() ==> {
                let i = req.stock_id - 1;
                let s = old(self).stocks@[i];
                let fits = req.quantity >= 0
                    && ledger_step(s.quantity as int, req.movement_type, req.quantity as int) <= u64::MAX
                    && old(self).movements@.len() < MAX_RECORDS;
                if fits {
                    let m = recorded_movement(s, req, old(self).movements@.len() + 1int, now);
                    &&& r == Ok::<StockMovement, AppError>(m)
                    &&& final(self).movements@ == old(self).movements@.push(m)
                    &&& final(self).stocks@ == old(self).stocks@.update(i, Stock {
                        quantity: ledger_step(s.quantity as int, req.movement_type, req.quantity as int) as u64,
                        last_updated: now,
                        ..s
                    })
                } else {
                    &&& r == Err::<StockMovement, AppError>(AppError::ValidationError)
                    &&& *final(self) == *old(self)
                }
            },
    {
        let idx = match self.find_stock(req.stock_id) {
            Some(i) => i,
            None => return Err(AppError::NotFound),
        };
        if req.quantity < 0 || self.movements.len() >= MAX_RECORDS {
            return Err(AppError::ValidationError);
        }
        let qty = req.quantity as u64;
        let current = self.stocks[idx].quantity;
        if (req.movement_type == StockMovementType::In || req.movement_type == StockMovementType::Return)
            && current > u64::MAX - qty {
            return Err(AppError::ValidationError);
        }
        let new_quantity = apply_movement(current, req.movement_type, qty);
        let m = StockMovement {
            id: (self.movements.len() + 1) as i32,
            stock_id: req.stock_id,
            supply_item_name: clone_text(&self.stocks[idx].supply_item_name),
            movement_type: req.movement_type,
            quantity: qty,
            unit: self.stocks[idx].unit.clone(),
            reference_type: req.reference_type,
            reference_id: req.reference_id,
            reference_info: req.reference_info,
            notes: req.notes,
            created_at: now.clone(),
        };
        let ghost before = self.movements@;
        let result = m.duplicate();
        self.movements.push(m);
        let s = &self.stocks[idx];
        let updated = Stock {
            id: s.id,
            supply_item_id: s.supply_item_id,
            supply_item_name: clone_text(&s.supply_item_name),
            quantity: new_quantity,
            unit: s.unit.clone(),
            warehouse_location: clone_text(&s.warehouse_location),
            minimum_quantity: s.minimum_quantity,
            last_updated: now,
        };
        self.stocks.set(idx, updated);
        proof {
            let ms = self.movements@;
            assert(ms.drop_last() == before);
            assert forall|k: int| 0 <= k < self.stocks@.len() implies #[trigger] self.stocks@[k].quantity
                == fold_movements(0, history_of(ms, self.stocks@[k].id)) by {
                lemma_history_push(before, ms.last(), self.stocks@[k].id);
                assert(old(self).stocks@[k].id == k + 1);
                if k == idx {
                    let h = history_of(before, req.stock_id);
                    assert(h.push(ms.last()).drop_last() == h);
                } else {
                    assert(self.stocks@[k] == old(self).stocks@[k]);
                }
            }
            assert forall|k: int| 0 <= k < self.stocks@.len() implies #[trigger] self.stocks@[k].id == k + 1 by {
                assert(old(self).stocks@[k].id == k + 1);
            }
            assert forall|k: int| 0 <= k < ms.len() implies #[trigger] ms[k].id == k + 1 by {
                if k < before.len() {
                    assert(ms[k] == before[k]);
                }
            }
            assert forall|k: int| 0 <= k < ms.len() implies 1 <= #[trigger] ms[k].stock_id <= self.stocks@.len() by {
                if k < before.len() {
                    assert(ms[k] == before[k]);
                }
            }
        }
        Ok(result)
    }
}

/// The unit price of catalog item `supply_item_id` in `prices`, a list of
/// (catalog item, unit price) pairs: the first pair that names it, or zero.
pub open spec fn price_of(prices: Seq<(i32, u32)>, supply_item_id: i32) -> int
    decreases prices.len(),
{
    if prices.len() == 0 {
        0
    } else if prices[0].0 == supply_item_id {
        prices[0].1 as int
    } else {
        price_of(prices.drop_first(), supply_item_id)
    }
}

/// How many of `stocks` are low.
pub open spec fn low_count(stocks: Seq<Stock>) -> int
    decreases stocks.len(),
{
    if stocks.len() == 0 {
        0
    } else {
        low_count(stocks.drop_last()) + if low_stock(stocks.last().quantity as int, stocks.last().minimum_quantity as int) {
            1int
        } else {
            0int
        }
    }
}

/// How many of `stocks` are out.
pub open spec fn out_count(stocks: Seq<Stock>) -> int
    decreases stocks.len(),
{
    if stocks.len() == 0 {
        0
    } else {
        out_count(stocks.drop_last()) + if out_of_stock(stocks.last().quantity as int) {
            1int
        } else {
            0int
        }
    }
}

/// Value of `stocks` at `prices`.
pub open spec fn stock_value(stocks: Seq<Stock>, prices: Seq<(i32, u32)>) -> int
    decreases stocks.len(),
{
    if stocks.len() == 0 {
        0
    } else {
        stock_value(stocks.drop_last(), prices) + stocks.last().quantity * price_of(
            prices,
            stocks.last().supply_item_id,
        )
    }
}

/// The unit price of catalog item `supply_item_id`: the first pair of
/// `prices` that names it, or zero.
pub fn unit_price(prices: &Vec<(i32, u32)>, supply_item_id: i32) -> (r: u32)
    ensures
        r == price_of(prices@, supply_item_id),
{
    let mut i: usize = 0;
    proof {
        assert(prices@.subrange(0, prices@.len() as int) == prices@);
    }
    while i < prices.len()
        invariant
            0 <= i <= prices@.len(),
            price_of(prices@, supply_item_id) == price_of(prices@.subrange(i as int, prices@.len() as int), supply_item_id),
        decreases prices@.len() - i,
    {
        let ghost rest = prices@.subrange(i as int, prices@.len() as int);
        proof {
            assert(rest.drop_first() == prices@.subrange(i + 1, prices@.len() as int));
            assert(rest[0] == prices@[i as int]);
        }
        if prices[i].0 == supply_item_id {
            return prices[i].1;
        }
        i = i + 1;
    }
    0
}

proof fn lemma_value_bound(stocks: Seq<Stock>, prices: Seq<(i32, u32)>)
    ensures
        0 <= stock_value(stocks, prices) <= stocks.len() * (0xffff_ffff_ffff_ffff * 0xffff_ffff),
    decreases stocks.len(),
{
    lemma_price_bound(prices, 0);
    if stocks.len() > 0 {
        let last = stocks.last();
        lemma_value_bound(stocks.drop_last(), prices);
        lemma_price_bound(prices, last.supply_item_id);
        let (q, p) = (last.quantity as int, price_of(prices, last.supply_item_id));
        assert(0 <= q * p <= 0xffff_ffff_ffff_ffff * 0xffff_ffff) by (nonlinear_arith)
            requires 0 <= q <= 0xffff_ffff_ffff_ffff, 0 <= p <= 0xffff_ffff;
        assert((stocks.len() - 1) * (0xffff_ffff_ffff_ffff * 0xffff_ffff) + 0xffff_ffff_ffff_ffff * 0xffff_ffff
            == stocks.len() * (0xffff_ffff_ffff_ffff * 0xffff_ffff)) by (nonlinear_arith);
    }
}

proof fn lemma_price_bound(prices: Seq<(i32, u32)>, id: i32)
    ensures
        0 <= price_of(prices, id) <= 0xffff_ffff,
    decreases prices.len(),
{
    if prices.len() > 0 {
        lemma_price_bound(prices.drop_first(), id);
    }
}

impl Warehouse {
    /// How many stocks there are, how many are low and how many are out, and
    /// their value at the catalog unit prices `prices`, reported in USD.
    pub fn get_summary(&self, prices: &Vec<(i32, u32)>) -> (r: StockSummary)
        requires
            self.wf(),
        ensures
            r.total_items == self.stocks@.len(),
            r.low_stock_count == low_count(self.stocks@),
            r.out_of_stock_count == out_count(self.stocks@),
            r.total_value == stock_value(self.stocks@, prices@),
            r.currency@ == "USD"@,
    {
        let mut low: usize = 0;
        let mut out: usize = 0;
        let mut value: u128 = 0;
        let mut i: usize = 0;
        while i < self.stocks.len()
            invariant
                0 <= i <= self.stocks@.len() <= MAX_RECORDS,
                low == low_count(self.stocks@.subrange(0, i as int)),
                out == out_count(self.stocks@.subrange(0, i as int)),
                value == stock_value(self.stocks@.subrange(0, i as int), prices@),
                low <= i,
                out <= i,
            decreases self.stocks@.len() - i,
        {
            let ghost next = self.stocks@.subrange(0, i + 1);
            proof {
                assert(next.drop_last() == self.stocks@.subrange(0, i as int));
                assert(next.last() == self.stocks@[i as int]);
                lemma_value_bound(next, prices@);
                assert(next.len() * (0xffff_ffff_ffff_ffff * 0xffff_ffff) <= MAX_RECORDS * (0xffff_ffff_ffff_ffff * 0xffff_ffff))
                    by (nonlinear_arith) requires next.len() <= MAX_RECORDS;
                lemma_price_bound(prices@, self.stocks@[i as int].supply_item_id);
            }
            let s = &self.stocks[i];
            if s.is_low_stock() {
                low = low + 1;
            }
            if s.is_out_of_stock() {
                out = out + 1;
            }
            let price = unit_price(prices, s.supply_item_id);
            proof {
                let (q, p) = (s.quantity as int, price as int);
                assert(0 <= q * p <= 0xffff_ffff_ffff_ffff * 0xffff_ffff) by (nonlinear_arith)
                    requires 0 <= q <= 0xffff_ffff_ffff_ffff, 0 <= p <= 0xffff_ffff;
            }
            value = value + (s.quantity as u128) * (price as u128);
            i = i + 1;
        }
        proof {
            assert(self.stocks@.subrange(0, self.stocks@.len() as int) == self.stocks@);
            reveal_strlit("USD");
        }
        StockSummary {
            total_items: self.stocks.len(),
            low_stock_count: low,
            out_of_stock_count: out,
            total_value: value,
            currency: String::from_str("USD"),
        }
    }
}

impl StockMovement {
    /// A field-by-field copy of this movement.
    pub fn duplicate(&self) -> (r: StockMovement)
        ensures
            r == *self,
    {
        StockMovement {
            id: self.id,
            stock_id: self.stock_id,
            supply_item_name: clone_text(&self.supply_item_name),
            movement_type: self.movement_type,
            quantity: self.quantity,
            unit: self.unit.clone(),
            reference_type: clone_text(&self.reference_type),
            reference_id: self.reference_id,
            reference_info: clone_text(&self.reference_info),
            notes: clone_text(&self.notes),
            created_at: self.created_at.clone(),
        }
    }
}

/// A stock needs restocking when it is at or below its minimum: low, or out.
pub open spec fn needs_restock(s: Stock) -> bool {
    s.quantity <= s.minimum_quantity
}

/// How far a stock stands above its minimum; negative when below.
pub open spec fn headroom(s: Stock) -> int {
    s.quantity - s.minimum_quantity
}

/// `s` is one of the first `n` of `stocks`, and needs restocking.
pub open spec fn listed_from(stocks: Seq<Stock>, n: int, s: Stock) -> bool {
    exists|j: int| 0 <= j < n && #[trigger] stocks[j] == s && needs_restock(stocks[j])
}

/// `r` lists, each once, the stocks among the first `n` of `stocks` that
/// need restocking, from the smallest headroom up.
pub open spec fn restock_list(stocks: Seq<Stock>, r: Seq<Stock>, n: int) -> bool {
    &&& forall|k: int| 0 <= k < r.len() ==> listed_from(stocks, n, #[trigger] r[k])
    &&& forall|k1: int, k2: int| 0 <= k1 < k2 < r.len() ==> headroom(r[k1]) <= headroom(r[k2])
    &&& forall|k1: int, k2: int| 0 <= k1 < r.len() && 0 <= k2 < r.len() && k1 != k2 ==> r[k1].id != r[k2].id
    &&& forall|j: int| 0 <= j < n && needs_restock(#[trigger] stocks[j]) ==> r.contains(stocks[j])
}

impl Stock {
    /// A field-by-field copy of this stock.
    pub fn duplicate(&self) -> (r: Stock)
        ensures
            r == *self,
    {
        Stock {
            id: self.id,
            supply_item_id: self.supply_item_id,
            supply_item_name: clone_text(&self.supply_item_name),
            quantity: self.quantity,
            unit: self.unit.clone(),
            warehouse_location: clone_text(&self.warehouse_location),
            minimum_quantity: self.minimum_quantity,
            last_updated: self.last_updated.clone(),
        }
    }
}

impl Warehouse {
    /// The movements of stock `stock_id`, oldest first.
    pub fn get_movements(&self, stock_id: i32) -> (r: Vec<StockMovement>)
        ensures
            r@ == history_of(self.movements@, stock_id),
    {
        let mut out: Vec<StockMovement> = Vec::new();
        let mut i: usize = 0;
        while i < self.movements.len()
            invariant
                0 <= i <= self.movements@.len(),
                out@ == history_of(self.movements@.subrange(0, i as int), stock_id),
            decreases self.movements@.len() - i,
        {
            let ghost next = self.movements@.subrange(0, i + 1);
            proof {
                assert(next.drop_last() == self.movements@.subrange(0, i as int));
                assert(next.last() == self.movements@[i as int]);
            }
            if self.movements[i].stock_id == stock_id {
                out.push(self.movements[i].duplicate());
            }
            i = i + 1;
        }
        proof {
            assert(self.movements@.subrange(0, self.movements@.len() as int) == self.movements@);
        }
        out
    }

    /// Stock `id` with its movement history, whose fold is its quantity;
    /// `None` when the stock is unknown.
    pub fn get_with_movements(&self, id: i32) -> (r: Option<StockWithMovements>)
        requires
            self.wf(),
        ensures
            r is None <==> !(1 <= id <= self.stocks@.len()),
            r matches Some(w) ==> {
                &&& w.stock == self.stocks@[id - 1]
                &&& w.movements@ == history_of(self.movements@, id)
                &&& w.stock.quantity == fold_movements(0, w.movements@)
            },
    {
        match self.find_stock(id) {
            Some(i) => {
                let stock = self.stocks[i].duplicate();
                let movements = self.get_movements(id);
                Some(StockWithMovements { stock, movements })
            },
            None => {
                proof {
                    if 1 <= id <= self.stocks@.len() {
                        assert(self.stocks@[id - 1].id == id);
                    }
                }
                None
            },
        }
    }

    /// The stocks at or below their minimum, the largest shortfall first.
    pub fn get_low_stock(&self) -> (r: Vec<Stock>)
        requires
            self.wf(),
        ensures
            restock_list(self.stocks@, r@, self.stocks@.len() as int),
    {
        let mut r: Vec<Stock> = Vec::new();
        let mut i: usize = 0;
        while i < self.stocks.len()
            invariant
                self.wf(),
                0 <= i <= self.stocks@.len(),
                restock_list(self.stocks@, r@, i as int),
            decreases self.stocks@.len() - i,
        {
            let s = &self.stocks[i];
            if s.quantity <= s.minimum_quantity {
                let mut p: usize = 0;
                while p < r.len() && (r[p].quantity as u128) + (s.minimum_quantity as u128)
                    <= (s.quantity as u128) + (r[p].minimum_quantity as u128)
                    invariant
                        0 <= p <= r@.len(),
                        forall|k: int| 0 <= k < p ==> headroom(r@[k]) <= headroom(*s),
                    decreases r@.len() - p,
                {
                    p = p + 1;
                }
                let ghost old_r = r@;
                let ghost stocks = self.stocks@;
                r.insert(p, s.duplicate());
                proof {
                    let si = stocks[i as int];
                    assert forall|k: int| 0 <= k < r@.len() implies #[trigger] r@[k] == (if k < p {
                        old_r[k]
                    } else if k == p {
                        si
                    } else {
                        old_r[k - 1]
                    }) by {}
                    assert forall|k: int| 0 <= k < r@.len() implies listed_from(stocks, i + 1, #[trigger] r@[k]) by {
                        if k == p {
                            assert(stocks[i as int] == r@[k]);
                        } else {
                            let k0 = if k < p { k } else { k - 1 };
                            assert(r@[k] == old_r[k0]);
                            assert(listed_from(stocks, i as int, old_r[k0]));
                            let j = choose|j: int| 0 <= j < i && #[trigger] stocks[j] == old_r[k0] && needs_restock(stocks[j]);
                            assert(stocks[j] == r@[k]);
                        }
                    }
                    assert forall|k1: int, k2: int| 0 <= k1 < k2 < r@.len() implies headroom(r@[k1]) <= headroom(r@[k2]) by {
                        if k1 == p {
                            assert(p < old_r.len());
                            assert(headroom(old_r[p as int]) > headroom(si));
                            if k2 - 1 > p {
                                assert(headroom(old_r[p as int]) <= headroom(old_r[k2 - 1]));
                            }
                        }
                    }
                    assert forall|k1: int, k2: int|
                        0 <= k1 < r@.len() && 0 <= k2 < r@.len() && k1 != k2 implies r@[k1].id != r@[k2].id by {
                        if k1 == p || k2 == p {
                            let k = if k1 == p { k2 } else { k1 };
                            let k0 = if k < p { k } else { k - 1 };
                            assert(r@[k] == old_r[k0]);
                            assert(listed_from(stocks, i as int, old_r[k0]));
                            let j = choose|j: int| 0 <= j < i && #[trigger] stocks[j] == old_r[k0] && needs_restock(stocks[j]);
                            assert(stocks[j].id == j + 1);
                            assert(stocks[i as int].id == i + 1);
                        }
                    }
                    assert forall|j: int| 0 <= j < i + 1 && needs_restock(#[trigger] stocks[j]) implies r@.contains(stocks[j]) by {
                        if j == i {
                            assert(r@[p as int] == stocks[j]);
                        } else {
                            assert(old_r.contains(stocks[j]));
                            let k0 = choose|k0: int| 0 <= k0 < old_r.len() && old_r[k0] == stocks[j];
                            let k1 = if k0 < p { k0 } else { k0 + 1 };
                            assert(r@[k1] == stocks[j]);
                        }
                    }
                }
            } else {
                proof {
                    let stocks = self.stocks@;
                    assert forall|k: int| 0 <= k < r@.len() implies listed_from(stocks, i + 1, #[trigger] r@[k]) by {
                        assert(listed_from(stocks, i as int, r@[k]));
                        let j = choose|j: int| 0 <= j < i && #[trigger] stocks[j] == r@[k] && needs_restock(stocks[j]);
                        assert(0 <= j < i + 1);
                    }
                }
            }
            i = i + 1;
        }
        r
    }
}

} // verus!
