//! The inventory ledger: how one movement changes an on-hand quantity, and
//! the quantity that a whole movement history folds to.
use vstd::prelude::*;
use crate::models::{Stock, StockMovement, StockMovementType};

verus! {

/// New on-hand quantity after a movement of `kind` and `quantity` is applied
/// to `current`. The quantity never goes below zero; an adjustment sets the
/// absolute level.
pub open spec fn ledger_step(current: int, kind: StockMovementType, quantity: int) -> int {
    let raw = match kind {
        StockMovementType::In => current + quantity,
        StockMovementType::Return => current + quantity,
        StockMovementType::Out => current - quantity,
        StockMovementType::Adjustment => quantity,
    };
    if raw < 0 {
        0
    } else {
        raw
    }
}

/// The quantity reached from `start` by applying `movements` in order.
pub open spec fn fold_movements(start: int, movements: Seq<StockMovement>) -> int
    decreases movements.len(),
{
    if movements.len() == 0 {
        start
    } else {
        ledger_step(
            fold_movements(start, movements.drop_last()),
            movements.last().movement_type,
            movements.last().quantity as int,
        )
    }
}

/// Sum of the quantities of `movements`.
pub open spec fn total_quantity(movements: Seq<StockMovement>) -> int
    decreases movements.len(),
{
    if movements.len() == 0 {
        0
    } else {
        total_quantity(movements.drop_last()) + movements.last().quantity
    }
}

/// The movements of `movements` that belong to stock `stock_id`, in order.
pub open spec fn history_of(movements: Seq<StockMovement>, stock_id: i32) -> Seq<StockMovement>
    decreases movements.len(),
{
    if movements.len() == 0 {
        Seq::empty()
    } else if movements.last().stock_id == stock_id {
        history_of(movements.drop_last(), stock_id).push(movements.last())
    } else {
        history_of(movements.drop_last(), stock_id)
    }
}

/// A stock is low when it still has some, but no more than its minimum.
pub open spec fn low_stock(quantity: int, minimum: int) -> bool {
    0 < quantity <= minimum
}

/// A stock is out when nothing is left.
pub open spec fn out_of_stock(quantity: int) -> bool {
    quantity <= 0
}

/// Whether applying the movement to `current` stays within `u64`.
pub open spec fn step_fits(current: int, kind: StockMovementType, quantity: int) -> bool {
    ledger_step(current, kind, quantity) <= u64::MAX
}

/// New on-hand quantity after one movement.
pub fn apply_movement(current: u64, kind: StockMovementType, quantity: u64) -> (r: u64)
    requires
        step_fits(current as int, kind, quantity as int),
    ensures
        r == ledger_step(current as int, kind, quantity as int),
{
    match kind {
        StockMovementType::In | StockMovementType::Return => current + quantity,
        StockMovementType::Out => {
            if quantity >= current {
                0
            } else {
                current - quantity
            }
        },
        StockMovementType::Adjustment => quantity,
    }
}

impl Stock {
    /// Whether this stock is low: above zero and at most its minimum.
    pub fn is_low_stock(&self) -> (r: bool)
        ensures
            r == low_stock(self.quantity as int, self.minimum_quantity as int),
    {
        0 < self.quantity && self.quantity <= self.minimum_quantity
    }

    /// Whether this stock is out: nothing left.
    pub fn is_out_of_stock(&self) -> (r: bool)
        ensures
            r == out_of_stock(self.quantity as int),
    {
        self.quantity == 0
    }
}

/// The quantity that `movements` fold to from zero, applied one at a time.
/// `None` when an intermediate quantity would not fit in `u64`.
pub fn replay_movements(movements: &Vec<StockMovement>) -> (r: Option<u64>)
    ensures
        r matches Some(q) ==> q == fold_movements(0, movements@),
        r is Some ==> forall|k: int|
            0 < k <= movements@.len() ==> fold_movements(0, #[trigger] movements@.subrange(0, k)) <= u64::MAX,
        r is None ==> exists|k: int|
            0 < k <= movements@.len() && fold_movements(0, movements@.subrange(0, k)) > u64::MAX,
{
    let mut q: u64 = 0;
    let mut i: usize = 0;
    while i < movements.len()
        invariant
            0 <= i <= movements@.len(),
            q == fold_movements(0, movements@.subrange(0, i as int)),
            forall|k: int| 0 < k <= i ==> fold_movements(0, #[trigger] movements@.subrange(0, k)) <= u64::MAX,
        decreases movements@.len() - i,
    {
        let m = &movements[i];
        let ghost next = movements@.subrange(0, i + 1);
        proof {
            assert(next.drop_last() == movements@.subrange(0, i as int));
            assert(next.last() == movements@[i as int]);
        }
        if m.movement_type == StockMovementType::In || m.movement_type == StockMovementType::Return {
            if q > u64::MAX - m.quantity {
                proof {
                    assert(fold_movements(0, next) > u64::MAX);
                }
                return None;
            }
        }
        q = apply_movement(q, m.movement_type, m.quantity);
        i = i + 1;
    }
    proof {
        assert(movements@.subrange(0, movements@.len() as int) == movements@);
    }
    Some(q)
}

/// Folding a history in two parts gives the quantity of folding it at once:
/// applying movements one by one agrees with applying the whole sequence.
pub proof fn lemma_fold_split(start: int, first: Seq<StockMovement>, rest: Seq<StockMovement>)
    ensures
        fold_movements(fold_movements(start, first), rest) == fold_movements(start, first + rest),
    decreases rest.len(),
{
    if rest.len() == 0 {
        assert(first + rest == first);
    } else {
        lemma_fold_split(start, first, rest.drop_last());
        assert((first + rest).drop_last() == first + rest.drop_last());
        assert((first + rest).last() == rest.last());
    }
}

/// An adjustment resets the baseline: whatever came before it, the quantity
/// afterwards depends only on the adjustment and what follows it.
pub proof fn lemma_adjustment_resets(
    start: int,
    before: Seq<StockMovement>,
    adjustment: StockMovement,
    after: Seq<StockMovement>,
)
    requires
        adjustment.movement_type == StockMovementType::Adjustment,
    ensures
        fold_movements(start, before.push(adjustment) + after)
            == fold_movements(adjustment.quantity as int, after),
{
    lemma_fold_split(start, before.push(adjustment), after);
    assert(before.push(adjustment).drop_last() == before);
}

/// A fold never produces a negative quantity from a non-negative start.
pub proof fn lemma_fold_nonnegative(start: int, movements: Seq<StockMovement>)
    requires
        start >= 0,
    ensures
        fold_movements(start, movements) >= 0,
    decreases movements.len(),
{
    if movements.len() > 0 {
        lemma_fold_nonnegative(start, movements.drop_last());
    }
}

/// A run of outgoing movements takes the quantity down by their total, and
/// never below zero.
pub proof fn lemma_outgoing_run(start: int, movements: Seq<StockMovement>)
    requires
        start >= 0,
        forall|k: int| 0 <= k < movements.len() ==> movements[k].movement_type == StockMovementType::Out,
    ensures
        fold_movements(start, movements) == if start - total_quantity(movements) < 0 {
            0
        } else {
            start - total_quantity(movements)
        },
    decreases movements.len(),
{
    if movements.len() > 0 {
        let init = movements.drop_last();
        assert forall|k: int| 0 <= k < init.len() implies init[k].movement_type == StockMovementType::Out by {
            assert(init[k] == movements[k]);
        }
        lemma_outgoing_run(start, init);
        assert(movements.last() == movements[movements.len() - 1]);
    }
}

/// Outgoing movements whose total reaches the on-hand quantity leave exactly
/// zero, never a negative quantity.
pub proof fn lemma_outgoing_floor(start: int, movements: Seq<StockMovement>)
    requires
        start >= 0,
        forall|k: int| 0 <= k < movements.len() ==> movements[k].movement_type == StockMovementType::Out,
        total_quantity(movements) >= start,
    ensures
        fold_movements(start, movements) == 0,
{
    lemma_outgoing_run(start, movements);
}

/// The history of one stock grows by a new movement of that stock and is
/// unchanged by a movement of another.
pub proof fn lemma_history_push(movements: Seq<StockMovement>, m: StockMovement, stock_id: i32)
    ensures
        history_of(movements.push(m), stock_id) == if m.stock_id == stock_id {
            history_of(movements, stock_id).push(m)
        } else {
            history_of(movements, stock_id)
        },
{
    assert(movements.push(m).drop_last() == movements);
}

/// A stock that no movement refers to has an empty history.
pub proof fn lemma_history_empty(movements: Seq<StockMovement>, stock_id: i32)
    requires
        forall|k: int| 0 <= k < movements.len() ==> movements[k].stock_id != stock_id,
    ensures
        history_of(movements, stock_id) == Seq::<StockMovement>::empty(),
    decreases movements.len(),
{
    if movements.len() > 0 {
        let init = movements.drop_last();
        assert forall|k: int| 0 <= k < init.len() implies init[k].stock_id != stock_id by {
            assert(init[k] == movements[k]);
        }
        lemma_history_empty(init, stock_id);
    }
}

} // verus!
