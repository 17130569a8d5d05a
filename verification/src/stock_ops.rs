use vstd::prelude::*;
use crate::external::now;
use crate::inputs::{AdjustInput, IssueInput, ReceiveInput, ReserveIdInput, ReserveInput, TransferInput};
use crate::server::InventoryServer;
use crate::store::{
    is_prefixed_id, available, has_level, in_range, lemma_level_index, level_set, moved, on_hand, reserved_at,
    reserved_more, Store,
};
use crate::types::{InventoryError, Milli, MovementType, Reservation, StockMovement};

verus! {

/// The text of an optional string, empty where there is none.
pub open spec fn text_or_empty(o: Option<String>) -> Seq<char> {
    match o {
        Some(s) => s@,
        None => Seq::empty(),
    }
}

/// The audit trail grew by exactly one movement, appended at its end.
pub open spec fn appended_one(before: Seq<StockMovement>, after: Seq<StockMovement>) -> bool {
    after.len() == before.len() + 1 && after.drop_last() == before
}

/// `m` is the receipt movement that `input` asks for.
pub open spec fn is_receipt(m: StockMovement, input: ReceiveInput, id: String, now: String) -> bool {
    &&& m.id == id
    &&& m.movement_type == MovementType::Receive
    &&& m.sku == input.sku
    &&& m.quantity == input.quantity
    &&& m.from_location is None
    &&& m.to_location == Some(input.location_id)
    &&& m.reference@ == text_or_empty(input.reference)
    &&& m.actor == input.actor
    &&& m.lot_number == input.lot_number
    &&& m.timestamp == now
}

/// `m` is the issue movement that `input` asks for.
pub open spec fn is_issue(m: StockMovement, input: IssueInput, id: String, now: String) -> bool {
    &&& m.id == id
    &&& m.movement_type == MovementType::Issue
    &&& m.sku == input.sku
    &&& m.quantity == input.quantity
    &&& m.from_location == Some(input.location_id)
    &&& m.to_location is None
    &&& m.reference@ == text_or_empty(input.reference)
    &&& m.actor == input.actor
    &&& m.lot_number is None
    &&& m.timestamp == now
}

/// `m` is the transfer movement that `input` asks for.
pub open spec fn is_transfer(m: StockMovement, input: TransferInput, id: String, now: String) -> bool {
    &&& m.id == id
    &&& m.movement_type == MovementType::Transfer
    &&& m.sku == input.sku
    &&& m.quantity == input.quantity
    &&& m.from_location == Some(input.from_location)
    &&& m.to_location == Some(input.to_location)
    &&& m.reference@ == Seq::<char>::empty()
    &&& m.actor == input.actor
    &&& m.lot_number is None
    &&& m.timestamp == now
}

/// `m` is the adjust movement that `input` records where `old_qty` was on hand: it
/// carries the difference, into the adjusted location, with the reason as reference.
pub open spec fn is_adjustment(m: StockMovement, input: AdjustInput, id: String, now: String, old_qty: int) -> bool {
    &&& m.id == id
    &&& m.movement_type == MovementType::Adjust
    &&& m.sku == input.sku
    &&& m.quantity == input.new_quantity - old_qty
    &&& m.from_location is None
    &&& m.to_location == Some(input.location_id)
    &&& m.reference == input.reason
    &&& m.actor == input.actor
    &&& m.lot_number is None
    &&& m.timestamp == now
}

/// Putting `q` into the level of `sku` at `loc` keeps it, and `q`, in range.
pub open spec fn deposit_fits(s: Seq<crate::types::StockLevel>, sku: Seq<char>, loc: Seq<char>, q: int) -> bool {
    in_range(q) && (has_level(s, sku, loc) ==> in_range(on_hand(s, sku, loc) + q))
}

/// Taking `q` out of the level of `sku` at `loc` keeps it, and `q`, in range.
pub open spec fn withdraw_fits(s: Seq<crate::types::StockLevel>, sku: Seq<char>, loc: Seq<char>, q: int) -> bool {
    in_range(q) && (has_level(s, sku, loc) ==> in_range(on_hand(s, sku, loc) - q))
}

/// Moving `q` from `from` to `to` keeps both levels, and `q`, in range.
pub open spec fn transfer_fits(
    s: Seq<crate::types::StockLevel>,
    sku: Seq<char>,
    from: Seq<char>,
    to: Seq<char>,
    q: int,
) -> bool {
    &&& in_range(q)
    &&& from != to ==> (has_level(s, sku, from) ==> in_range(on_hand(s, sku, from) - q))
    &&& from != to ==> (has_level(s, sku, to) ==> in_range(on_hand(s, sku, to) + q))
}

/// Adding `q` to what is reserved of `sku` at `loc` keeps it, and `q`, in range.
pub open spec fn reserve_fits(s: Seq<crate::types::StockLevel>, sku: Seq<char>, loc: Seq<char>, q: int) -> bool {
    in_range(q) && (has_level(s, sku, loc) ==> in_range(reserved_at(s, sku, loc) + q))
}

/// `i` is the first position of a reservation with the ID.
pub open spec fn is_first_reservation(rs: Seq<Reservation>, id: Seq<char>, i: int) -> bool {
    0 <= i < rs.len() && rs[i].id@ == id && forall|j: int| 0 <= j < i ==> #[trigger] rs[j].id@ != id
}

/// The position of the first reservation with the ID, or -1.
pub open spec fn first_reservation(rs: Seq<Reservation>, id: Seq<char>) -> int {
    if exists|i: int| is_first_reservation(rs, id, i) {
        choose|i: int| is_first_reservation(rs, id, i)
    } else {
        -1
    }
}

/// How a stock adjustment went.
pub enum AdjustOutcome {
    /// The level existed and held `old_qty`.
    Adjusted { old_qty: Milli },
    /// The level was created.
    Created,
}

impl InventoryServer {
    /// Receives stock into a location (goods receipt from supplier, production, or return).
    pub fn stock_receive(&mut self, input: ReceiveInput) -> (r: Result<(), InventoryError>)
        requires
            old(self).store.wf(),
        ensures
            final(self).store.wf(),
            r is Ok <==> deposit_fits(old(self).store.stock@, input.sku@, input.location_id@, input.quantity as int),
            r is Ok ==> appended_one(old(self).store.movements@, final(self).store.movements@) && is_receipt(
                final(self).store.movements@.last(),
                input,
                final(self).store.movements@.last().id,
                final(self).store.movements@.last().timestamp,
            ) && is_prefixed_id(final(self).store.movements@.last().id@, "mov_"@) && final(self).store.stock@ == moved(
                old(self).store.stock@,
                final(self).store.movements@.last(),
                final(self).store.movements@.last().timestamp,
            ),
            r is Err ==> final(self).store == old(self).store,
            final(self).store.reservations == old(self).store.reservations,
            final(self).store.keeps_catalog(old(self).store),
            final(self).store.keeps_operations(old(self).store),
            final(self).store.keeps_tracking(old(self).store),
            final(self).same_config(*old(self)),
    {
        let id = Store::new_movement_id();
        let t = now();
        let r = self.stock_receive_at(input, id, t);
        r
    }

    /// Receives stock, recording the movement under `id` at time `now`.
    pub fn stock_receive_at(&mut self, input: ReceiveInput, id: String, now: String) -> (r: Result<(), InventoryError>)
        requires
            old(self).store.wf(),
        ensures
            final(self).store.wf(),
            r is Ok <==> deposit_fits(old(self).store.stock@, input.sku@, input.location_id@, input.quantity as int),
            r is Ok ==> appended_one(old(self).store.movements@, final(self).store.movements@) && is_receipt(
                final(self).store.movements@.last(),
                input,
                id,
                now,
            ) && final(self).store.stock@ == moved(old(self).store.stock@, final(self).store.movements@.last(), now),
            r is Err ==> r == Err::<(), InventoryError>(InventoryError::QuantityOutOfRange) && final(self).store
                == old(self).store,
            final(self).store.reservations == old(self).store.reservations,
            final(self).store.keeps_catalog(old(self).store),
            final(self).store.keeps_operations(old(self).store),
            final(self).store.keeps_tracking(old(self).store),
            final(self).same_config(*old(self)),
    {
        let ghost s0 = self.store.stock@;
        proof {
            lemma_level_index(s0, input.sku@, input.location_id@);
        }
        let reference = match input.reference {
            Some(r) => r,
            None => String::new(),
        };
        let m = StockMovement {
            id: id,
            movement_type: MovementType::Receive,
            sku: input.sku,
            quantity: input.quantity,
            from_location: None,
            to_location: Some(input.location_id),
            reference: reference,
            actor: input.actor,
            lot_number: input.lot_number,
            timestamp: now.clone(),
        };
        let ghost gm = m;
        let r = self.store.record_movement_at(m, &now);
        proof {
            if r is Ok {
                assert(final(self).store.movements@.drop_last() =~= old(self).store.movements@);
                assert(final(self).store.movements@.last() == gm);
            }
        }
        r
    }

    /// Issues stock from a location (sales, consumption, dispatch); answers the
    /// quantity that remains available there.
    pub fn stock_issue(&mut self, input: IssueInput) -> (r: Result<Milli, InventoryError>)
        requires
            old(self).store.wf(),
        ensures
            final(self).store.wf(),
            available(old(self).store.stock@, input.sku@, input.location_id@) < input.quantity ==> r
                == Err::<Milli, InventoryError>(
                InventoryError::InsufficientStock {
                    available: available(old(self).store.stock@, input.sku@, input.location_id@) as i64,
                    requested: input.quantity,
                },
            ),
            available(old(self).store.stock@, input.sku@, input.location_id@) >= input.quantity && !withdraw_fits(
                old(self).store.stock@,
                input.sku@,
                input.location_id@,
                input.quantity as int,
            ) ==> r == Err::<Milli, InventoryError>(InventoryError::QuantityOutOfRange),
            r is Err ==> final(self).store == old(self).store,
            r is Ok <==> available(old(self).store.stock@, input.sku@, input.location_id@) >= input.quantity
                && withdraw_fits(old(self).store.stock@, input.sku@, input.location_id@, input.quantity as int),
            r matches Ok(rem) ==> rem == available(old(self).store.stock@, input.sku@, input.location_id@)
                - input.quantity,
            r is Ok ==> appended_one(old(self).store.movements@, final(self).store.movements@) && is_issue(
                final(self).store.movements@.last(),
                input,
                final(self).store.movements@.last().id,
                final(self).store.movements@.last().timestamp,
            ) && is_prefixed_id(final(self).store.movements@.last().id@, "mov_"@) && final(self).store.stock@ == moved(
                old(self).store.stock@,
                final(self).store.movements@.last(),
                final(self).store.movements@.last().timestamp,
            ),
            final(self).store.reservations == old(self).store.reservations,
            final(self).store.keeps_catalog(old(self).store),
            final(self).store.keeps_operations(old(self).store),
            final(self).store.keeps_tracking(old(self).store),
            final(self).same_config(*old(self)),
    {
        let id = Store::new_movement_id();
        let t = now();
        let r = self.stock_issue_at(input, id, t);
        r
    }

    /// Issues stock, recording the movement under `id` at time `now`.
    pub fn stock_issue_at(&mut self, input: IssueInput, id: String, now: String) -> (r: Result<Milli, InventoryError>)
        requires
            old(self).store.wf(),
        ensures
            final(self).store.wf(),
            available(old(self).store.stock@, input.sku@, input.location_id@) < input.quantity ==> r
                == Err::<Milli, InventoryError>(
                InventoryError::InsufficientStock {
                    available: available(old(self).store.stock@, input.sku@, input.location_id@) as i64,
                    requested: input.quantity,
                },
            ),
            available(old(self).store.stock@, input.sku@, input.location_id@) >= input.quantity && !withdraw_fits(
                old(self).store.stock@,
                input.sku@,
                input.location_id@,
                input.quantity as int,
            ) ==> r == Err::<Milli, InventoryError>(InventoryError::QuantityOutOfRange),
            r is Err ==> final(self).store == old(self).store,
            r is Ok <==> available(old(self).store.stock@, input.sku@, input.location_id@) >= input.quantity
                && withdraw_fits(old(self).store.stock@, input.sku@, input.location_id@, input.quantity as int),
            r matches Ok(rem) ==> rem == available(old(self).store.stock@, input.sku@, input.location_id@)
                - input.quantity,
            r is Ok ==> appended_one(old(self).store.movements@, final(self).store.movements@) && is_issue(
                final(self).store.movements@.last(),
                input,
                id,
                now,
            ) && final(self).store.stock@ == moved(old(self).store.stock@, final(self).store.movements@.last(), now),
            final(self).store.reservations == old(self).store.reservations,
            final(self).store.keeps_catalog(old(self).store),
            final(self).store.keeps_operations(old(self).store),
            final(self).store.keeps_tracking(old(self).store),
            final(self).same_config(*old(self)),
    {
        let ghost s0 = self.store.stock@;
        proof {
            lemma_level_index(s0, input.sku@, input.location_id@);
            crate::store::lemma_lookup_in_range(s0, input.sku@, input.location_id@);
        }
        let avail = self.store.available_qty(input.sku.as_str(), input.location_id.as_str());
        let q = input.quantity;
        if avail < q {
            return Err(InventoryError::InsufficientStock { available: avail, requested: q });
        }
        let reference = match input.reference {
            Some(r) => r,
            None => String::new(),
        };
        let m = StockMovement {
            id: id,
            movement_type: MovementType::Issue,
            sku: input.sku,
            quantity: q,
            from_location: Some(input.location_id),
            to_location: None,
            reference: reference,
            actor: input.actor,
            lot_number: None,
            timestamp: now.clone(),
        };
        let ghost gm = m;
        match self.store.record_movement_at(m, &now) {
            Ok(()) => {
                proof {
                    assert(final(self).store.movements@.drop_last() =~= old(self).store.movements@);
                    assert(final(self).store.movements@.last() == gm);
                }
                Ok(avail - q)
            },
            Err(e) => Err(e),
        }
    }

    /// Transfers stock between locations.
    pub fn stock_transfer(&mut self, input: TransferInput) -> (r: Result<(), InventoryError>)
        requires
            old(self).store.wf(),
        ensures
            final(self).store.wf(),
            available(old(self).store.stock@, input.sku@, input.from_location@) < input.quantity ==> r
                == Err::<(), InventoryError>(
                InventoryError::InsufficientStock {
                    available: available(old(self).store.stock@, input.sku@, input.from_location@) as i64,
                    requested: input.quantity,
                },
            ),
            available(old(self).store.stock@, input.sku@, input.from_location@) >= input.quantity && !transfer_fits(
                old(self).store.stock@,
                input.sku@,
                input.from_location@,
                input.to_location@,
                input.quantity as int,
            ) ==> r == Err::<(), InventoryError>(InventoryError::QuantityOutOfRange),
            r is Err ==> final(self).store == old(self).store,
            r is Ok <==> available(old(self).store.stock@, input.sku@, input.from_location@) >= input.quantity
                && transfer_fits(
                old(self).store.stock@,
                input.sku@,
                input.from_location@,
                input.to_location@,
                input.quantity as int,
            ),
            r is Ok ==> appended_one(old(self).store.movements@, final(self).store.movements@) && is_transfer(
                final(self).store.movements@.last(),
                input,
                final(self).store.movements@.last().id,
                final(self).store.movements@.last().timestamp,
            ) && is_prefixed_id(final(self).store.movements@.last().id@, "mov_"@) && final(self).store.stock@ == moved(
                old(self).store.stock@,
                final(self).store.movements@.last(),
                final(self).store.movements@.last().timestamp,
            ),
            final(self).store.reservations == old(self).store.reservations,
            final(self).store.keeps_catalog(old(self).store),
            final(self).store.keeps_operations(old(self).store),
            final(self).store.keeps_tracking(old(self).store),
            final(self).same_config(*old(self)),
    {
        let id = Store::new_movement_id();
        let t = now();
        self.stock_transfer_at(input, id, t)
    }

    /// Transfers stock, recording the movement under `id` at time `now`.
    pub fn stock_transfer_at(&mut self, input: TransferInput, id: String, now: String) -> (r: Result<(), InventoryError>)
        requires
            old(self).store.wf(),
        ensures
            final(self).store.wf(),
            available(old(self).store.stock@, input.sku@, input.from_location@) < input.quantity ==> r
                == Err::<(), InventoryError>(
                InventoryError::InsufficientStock {
                    available: available(old(self).store.stock@, input.sku@, input.from_location@) as i64,
                    requested: input.quantity,
                },
            ),
            available(old(self).store.stock@, input.sku@, input.from_location@) >= input.quantity && !transfer_fits(
                old(self).store.stock@,
                input.sku@,
                input.from_location@,
                input.to_location@,
                input.quantity as int,
            ) ==> r == Err::<(), InventoryError>(InventoryError::QuantityOutOfRange),
            r is Err ==> final(self).store == old(self).store,
            r is Ok <==> available(old(self).store.stock@, input.sku@, input.from_location@) >= input.quantity
                && transfer_fits(
                old(self).store.stock@,
                input.sku@,
                input.from_location@,
                input.to_location@,
                input.quantity as int,
            ),
            r is Ok ==> appended_one(old(self).store.movements@, final(self).store.movements@) && is_transfer(
                final(self).store.movements@.last(),
                input,
                id,
                now,
            ) && final(self).store.stock@ == moved(old(self).store.stock@, final(self).store.movements@.last(), now),
            final(self).store.reservations == old(self).store.reservations,
            final(self).store.keeps_catalog(old(self).store),
            final(self).store.keeps_operations(old(self).store),
            final(self).store.keeps_tracking(old(self).store),
            final(self).same_config(*old(self)),
    {
        let ghost s0 = self.store.stock@;
        proof {
            lemma_level_index(s0, input.sku@, input.from_location@);
            lemma_level_index(s0, input.sku@, input.to_location@);
            crate::store::lemma_lookup_in_range(s0, input.sku@, input.from_location@);
        }
        let avail = self.store.available_qty(input.sku.as_str(), input.from_location.as_str());
        let q = input.quantity;
        if avail < q {
            return Err(InventoryError::InsufficientStock { available: avail, requested: q });
        }
        let m = StockMovement {
            id: id,
            movement_type: MovementType::Transfer,
            sku: input.sku,
            quantity: q,
            from_location: Some(input.from_location),
            to_location: Some(input.to_location),
            reference: String::new(),
            actor: input.actor,
            lot_number: None,
            timestamp: now.clone(),
        };
        let ghost gm = m;
        let r = self.store.record_movement_at(m, &now);
        proof {
            if r is Ok {
                assert(final(self).store.movements@.drop_last() =~= old(self).store.movements@);
                assert(final(self).store.movements@.last() == gm);
            }
        }
        r
    }

    /// Sets the quantity of a SKU at a location (cycle count correction, damage
    /// write-off, etc.), creating the level where there is none, and records an
    /// adjust movement carrying the difference.
    pub fn stock_adjust(&mut self, input: AdjustInput) -> (r: Result<AdjustOutcome, InventoryError>)
        requires
            old(self).store.wf(),
        ensures
            final(self).store.wf(),
            r is Ok <==> in_range(input.new_quantity as int),
            r is Err ==> r == Err::<AdjustOutcome, InventoryError>(InventoryError::QuantityOutOfRange)
                && final(self).store == old(self).store,
            r is Ok ==> appended_one(old(self).store.movements@, final(self).store.movements@) && is_adjustment(
                final(self).store.movements@.last(),
                input,
                final(self).store.movements@.last().id,
                final(self).store.movements@.last().timestamp,
                on_hand(old(self).store.stock@, input.sku@, input.location_id@),
            ) && is_prefixed_id(final(self).store.movements@.last().id@, "mov_"@) && final(self).store.stock@
                == level_set(
                old(self).store.stock@,
                input.sku,
                input.location_id,
                input.new_quantity as int,
                None,
                final(self).store.movements@.last().timestamp,
            ),
            r matches Ok(AdjustOutcome::Adjusted { old_qty }) ==> has_level(
                old(self).store.stock@,
                input.sku@,
                input.location_id@,
            ) && old_qty == on_hand(old(self).store.stock@, input.sku@, input.location_id@),
            r matches Ok(AdjustOutcome::Created) ==> !has_level(old(self).store.stock@, input.sku@, input.location_id@),
            final(self).store.reservations == old(self).store.reservations,
            final(self).store.keeps_catalog(old(self).store),
            final(self).store.keeps_operations(old(self).store),
            final(self).store.keeps_tracking(old(self).store),
            final(self).same_config(*old(self)),
    {
        let id = Store::new_movement_id();
        let t = now();
        self.stock_adjust_at(input, id, t)
    }

    /// Sets the quantity of a SKU at a location, stamping the level with `now` and
    /// recording the adjust movement under `id`.
    pub fn stock_adjust_at(&mut self, input: AdjustInput, id: String, now: String) -> (r: Result<
        AdjustOutcome,
        InventoryError,
    >)
        requires
            old(self).store.wf(),
        ensures
            final(self).store.wf(),
            r is Ok <==> in_range(input.new_quantity as int),
            r is Err ==> r == Err::<AdjustOutcome, InventoryError>(InventoryError::QuantityOutOfRange)
                && final(self).store == old(self).store,
            r is Ok ==> final(self).store.stock@ == level_set(
                old(self).store.stock@,
                input.sku,
                input.location_id,
                input.new_quantity as int,
                None,
                now,
            ),
            r is Ok ==> appended_one(old(self).store.movements@, final(self).store.movements@) && is_adjustment(
                final(self).store.movements@.last(),
                input,
                id,
                now,
                on_hand(old(self).store.stock@, input.sku@, input.location_id@),
            ),
            r matches Ok(AdjustOutcome::Adjusted { old_qty }) ==> has_level(
                old(self).store.stock@,
                input.sku@,
                input.location_id@,
            ) && old_qty == on_hand(old(self).store.stock@, input.sku@, input.location_id@),
            r matches Ok(AdjustOutcome::Created) ==> !has_level(old(self).store.stock@, input.sku@, input.location_id@),
            final(self).store.reservations == old(self).store.reservations,
            final(self).store.keeps_catalog(old(self).store),
            final(self).store.keeps_operations(old(self).store),
            final(self).store.keeps_tracking(old(self).store),
            final(self).same_config(*old(self)),
    {
        let q = input.new_quantity;
        if q < -crate::store::QTY_LIMIT || q > crate::store::QTY_LIMIT {
            return Err(InventoryError::QuantityOutOfRange);
        }
        let ghost s0 = self.store.stock@;
        proof {
            lemma_level_index(s0, input.sku@, input.location_id@);
        }
        let (outcome, old_qty) = match crate::store::find_level(&self.store.stock, &input.sku, &input.location_id) {
            Some(i) => {
                proof {
                    assert(crate::store::level_in_range(s0[i as int]));
                }
                (AdjustOutcome::Adjusted { old_qty: self.store.stock[i].quantity }, self.store.stock[i].quantity)
            },
            None => (AdjustOutcome::Created, 0),
        };
        let m = StockMovement {
            id: id,
            movement_type: MovementType::Adjust,
            sku: input.sku.clone(),
            quantity: q - old_qty,
            from_location: None,
            to_location: Some(input.location_id.clone()),
            reference: input.reason,
            actor: input.actor,
            lot_number: None,
            timestamp: now.clone(),
        };
        self.store.set_level_at(input.sku, input.location_id, q, None, &now);
        let ghost mv0 = self.store.movements@;
        self.store.movements.push(m);
        assert(self.store.movements@.drop_last() =~= mv0);
        Ok(outcome)
    }

    /// Reserves stock for an order: what is available drops, what is on hand does not.
    /// Answers the new reservation's ID.
    pub fn stock_reserve(&mut self, input: ReserveInput) -> (r: Result<String, InventoryError>)
        requires
            old(self).store.wf(),
        ensures
            final(self).store.wf(),
            available(old(self).store.stock@, input.sku@, input.location_id@) < input.quantity ==> r
                == Err::<String, InventoryError>(
                InventoryError::InsufficientStock {
                    available: available(old(self).store.stock@, input.sku@, input.location_id@) as i64,
                    requested: input.quantity,
                },
            ),
            available(old(self).store.stock@, input.sku@, input.location_id@) >= input.quantity && !reserve_fits(
                old(self).store.stock@,
                input.sku@,
                input.location_id@,
                input.quantity as int,
            ) ==> r == Err::<String, InventoryError>(InventoryError::QuantityOutOfRange) || r == Err::<
                String,
                InventoryError,
            >(InventoryError::ExpiryOutOfRange),
            r is Err ==> final(self).store == old(self).store,
            input.expires_hours is None ==> (r is Ok <==> available(old(self).store.stock@, input.sku@, input.location_id@)
                >= input.quantity && reserve_fits(old(self).store.stock@, input.sku@, input.location_id@, input.quantity as int)),
            available(old(self).store.stock@, input.sku@, input.location_id@) >= input.quantity && reserve_fits(
                old(self).store.stock@,
                input.sku@,
                input.location_id@,
                input.quantity as int,
            ) && r is Err ==> r == Err::<String, InventoryError>(InventoryError::ExpiryOutOfRange),
            r is Ok ==> available(old(self).store.stock@, input.sku@, input.location_id@) >= input.quantity
                && reserve_fits(old(self).store.stock@, input.sku@, input.location_id@, input.quantity as int),
            r matches Ok(id) ==> is_prefixed_id(id@, "res_"@) && final(self).store.stock@ == reserved_more(
                old(self).store.stock@,
                input.sku@,
                input.location_id@,
                input.quantity as int,
            ) && final(self).store.reservations@.len() == old(self).store.reservations@.len() + 1
                && final(self).store.reservations@.drop_last() == old(self).store.reservations@
                && is_reservation_for(
                final(self).store.reservations@.last(),
                input,
                id,
                final(self).store.reservations@.last().created_at,
                final(self).store.reservations@.last().expires_at,
            ) && (input.expires_hours is None <==> final(self).store.reservations@.last().expires_at is None),
            final(self).store.movements == old(self).store.movements,
            final(self).store.keeps_catalog(old(self).store),
            final(self).store.keeps_operations(old(self).store),
            final(self).store.keeps_tracking(old(self).store),
            final(self).same_config(*old(self)),
    {
        let expires: Option<String> = match input.expires_hours {
            Some(h) => match crate::external::rfc3339_hours_from_now(h) {
                Some(t) => Some(t),
                None => {
                    let avail = self.store.available_qty(input.sku.as_str(), input.location_id.as_str());
                    proof {
                        crate::store::lemma_lookup_in_range(old(self).store.stock@, input.sku@, input.location_id@);
                    }
                    if avail < input.quantity {
                        return Err(InventoryError::InsufficientStock { available: avail, requested: input.quantity });
                    }
                    return Err(InventoryError::ExpiryOutOfRange);
                },
            },
            None => None,
        };
        let id = Store::new_reservation_id();
        let t = now();
        self.stock_reserve_at(input, id, t, expires)
    }

    /// Reserves stock under `id`, created at `now` and expiring at `expires`.
    pub fn stock_reserve_at(
        &mut self,
        input: ReserveInput,
        id: String,
        now: String,
        expires: Option<String>,
    ) -> (r: Result<String, InventoryError>)
        requires
            old(self).store.wf(),
        ensures
            final(self).store.wf(),
            available(old(self).store.stock@, input.sku@, input.location_id@) < input.quantity ==> r
                == Err::<String, InventoryError>(
                InventoryError::InsufficientStock {
                    available: available(old(self).store.stock@, input.sku@, input.location_id@) as i64,
                    requested: input.quantity,
                },
            ),
            available(old(self).store.stock@, input.sku@, input.location_id@) >= input.quantity && !reserve_fits(
                old(self).store.stock@,
                input.sku@,
                input.location_id@,
                input.quantity as int,
            ) ==> r == Err::<String, InventoryError>(InventoryError::QuantityOutOfRange),
            r is Err ==> final(self).store == old(self).store,
            r is Ok <==> available(old(self).store.stock@, input.sku@, input.location_id@) >= input.quantity
                && reserve_fits(old(self).store.stock@, input.sku@, input.location_id@, input.quantity as int),
            r is Ok ==> r == Ok::<String, InventoryError>(id) && final(self).store.stock@ == reserved_more(
                old(self).store.stock@,
                input.sku@,
                input.location_id@,
                input.quantity as int,
            ) && final(self).store.reservations@.len() == old(self).store.reservations@.len() + 1
                && final(self).store.reservations@.drop_last() == old(self).store.reservations@
                && is_reservation_for(final(self).store.reservations@.last(), input, id, now, expires),
            final(self).store.movements == old(self).store.movements,
            final(self).store.keeps_catalog(old(self).store),
            final(self).store.keeps_operations(old(self).store),
            final(self).store.keeps_tracking(old(self).store),
            final(self).same_config(*old(self)),
    {
        let ghost s0 = self.store.stock@;
        proof {
            lemma_level_index(s0, input.sku@, input.location_id@);
            crate::store::lemma_lookup_in_range(s0, input.sku@, input.location_id@);
        }
        let avail = self.store.available_qty(input.sku.as_str(), input.location_id.as_str());
        let q = input.quantity;
        if avail < q {
            return Err(InventoryError::InsufficientStock { available: avail, requested: q });
        }
        if q < -crate::store::QTY_LIMIT || q > crate::store::QTY_LIMIT {
            return Err(InventoryError::QuantityOutOfRange);
        }
        match crate::store::find_level(&self.store.stock, &input.sku, &input.location_id) {
            Some(i) => {
                let sum = self.store.stock[i].reserved + q;
                if sum < -crate::store::QTY_LIMIT || sum > crate::store::QTY_LIMIT {
                    return Err(InventoryError::QuantityOutOfRange);
                }
            },
            None => {},
        }
        self.store.reserve_at_level(&input.sku, &input.location_id, q);
        let ghost r0 = self.store.reservations@;
        let res = Reservation {
            id: id.clone(),
            sku: input.sku,
            location_id: input.location_id,
            quantity: q,
            reference: input.reference,
            expires_at: expires,
            created_at: now,
        };
        self.store.reservations.push(res);
        proof {
            assert(self.store.reservations@.drop_last() =~= r0);
            assert forall|k: int| 0 <= k < self.store.reservations@.len() implies crate::store::in_range(
                #[trigger] self.store.reservations@[k].quantity as int,
            ) by {
                if k < r0.len() {
                    assert(crate::store::in_range(r0[k].quantity as int));
                }
            }
        }
        Ok(id)
    }

    /// Releases a reservation (order cancelled, reservation expired); answers the
    /// released reservation.
    pub fn stock_release(&mut self, input: ReserveIdInput) -> (r: Result<Reservation, InventoryError>)
        requires
            old(self).store.wf(),
        ensures
            final(self).store.wf(),
            first_reservation(old(self).store.reservations@, input.reservation_id@) < 0 ==> r
                == Err::<Reservation, InventoryError>(InventoryError::ReservationNotFound),
            first_reservation(old(self).store.reservations@, input.reservation_id@) >= 0 && !release_fits(
                old(self).store.stock@,
                old(self).store.reservations@[first_reservation(
                    old(self).store.reservations@,
                    input.reservation_id@,
                )],
            ) ==> r == Err::<Reservation, InventoryError>(InventoryError::QuantityOutOfRange),
            r is Err ==> final(self).store == old(self).store,
            r is Ok <==> first_reservation(old(self).store.reservations@, input.reservation_id@) >= 0 && release_fits(
                old(self).store.stock@,
                old(self).store.reservations@[first_reservation(
                    old(self).store.reservations@,
                    input.reservation_id@,
                )],
            ),
            r matches Ok(res) ==> res == old(self).store.reservations@[first_reservation(
                old(self).store.reservations@,
                input.reservation_id@,
            )] && final(self).store.reservations@ == old(self).store.reservations@.remove(
                first_reservation(old(self).store.reservations@, input.reservation_id@),
            ) && final(self).store.stock@ == reserved_more(
                old(self).store.stock@,
                res.sku@,
                res.location_id@,
                -res.quantity,
            ),
            final(self).store.movements == old(self).store.movements,
            final(self).store.keeps_catalog(old(self).store),
            final(self).store.keeps_operations(old(self).store),
            final(self).store.keeps_tracking(old(self).store),
            final(self).same_config(*old(self)),
    {
        let mut i: usize = 0;
        let n = self.store.reservations.len();
        while i < n && !self.store.reservations[i].id.eq(&input.reservation_id)
            invariant
                i <= n,
                n == self.store.reservations@.len(),
                forall|j: int| 0 <= j < i ==> #[trigger] self.store.reservations@[j].id@ != input.reservation_id@,
            decreases n - i,
        {
            i = i + 1;
        }
        let ghost rs = self.store.reservations@;
        proof {
            if i < n {
                assert(is_first_reservation(rs, input.reservation_id@, i as int));
                lemma_first_reservation(rs, input.reservation_id@, i as int);
            } else {
                assert(!exists|k: int| is_first_reservation(rs, input.reservation_id@, k));
            }
        }
        if i >= n {
            return Err(InventoryError::ReservationNotFound);
        }
        let ghost s0 = self.store.stock@;
        let q = self.store.reservations[i].quantity;
        proof {
            assert(crate::store::in_range(rs[i as int].quantity as int));
            lemma_level_index(s0, rs[i as int].sku@, rs[i as int].location_id@);
        }
        match crate::store::find_level(&self.store.stock, &self.store.reservations[i].sku, &self.store.reservations[i].location_id) {
            Some(k) => {
                proof {
                    assert(crate::store::level_in_range(s0[k as int]));
                }
                let diff = self.store.stock[k].reserved - q;
                if diff < -crate::store::QTY_LIMIT || diff > crate::store::QTY_LIMIT {
                    return Err(InventoryError::QuantityOutOfRange);
                }
            },
            None => {},
        }
        let res = self.store.reservations.remove(i);
        proof {
            assert forall|k: int| 0 <= k < self.store.reservations@.len() implies crate::store::in_range(
                #[trigger] self.store.reservations@[k].quantity as int,
            ) by {
                if k < i {
                    assert(crate::store::in_range(rs[k].quantity as int));
                } else {
                    assert(crate::store::in_range(rs[k + 1].quantity as int));
                }
            }
        }
        self.store.reserve_at_level(&res.sku, &res.location_id, -q);
        Ok(res)
    }
}

/// `res` is the reservation that `input` asks for, under `id`, created at `now` and
/// expiring at `expires`.
pub open spec fn is_reservation_for(
    res: Reservation,
    input: ReserveInput,
    id: String,
    now: String,
    expires: Option<String>,
) -> bool {
    &&& res.id == id
    &&& res.sku == input.sku
    &&& res.location_id == input.location_id
    &&& res.quantity == input.quantity
    &&& res.reference == input.reference
    &&& res.expires_at == expires
    &&& res.created_at == now
}

/// Taking the reservation's quantity off what is reserved where it was made keeps
/// that level in range.
pub open spec fn release_fits(s: Seq<crate::types::StockLevel>, res: Reservation) -> bool {
    has_level(s, res.sku@, res.location_id@) ==> in_range(
        reserved_at(s, res.sku@, res.location_id@) - res.quantity,
    )
}

/// The first position with the ID is the one chosen.
pub proof fn lemma_first_reservation(rs: Seq<Reservation>, id: Seq<char>, i: int)
    requires
        is_first_reservation(rs, id, i),
    ensures
        first_reservation(rs, id) == i,
{
    let k = first_reservation(rs, id);
    assert(is_first_reservation(rs, id, k));
    if k < i {
        assert(rs[k].id@ != id);
    } else if i < k {
        assert(rs[i].id@ != id);
    }
}

} // verus!
