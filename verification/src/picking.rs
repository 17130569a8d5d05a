use vstd::prelude::*;
use vstd::string::*;
use crate::external::now;
use crate::inputs::{PickConfirmInput, PickCreateInput, PickIdInput, PickItem, PickedSku, WaveCreateInput, WaveIdInput};
use crate::keyed::{find_key, has_key, key_index, keys_unique, Keyed, lemma_key_index, lemma_update_keyed, lemma_upserted, lookup, upsert, upserted};
use crate::server::InventoryServer;
use crate::stock_ops::text_or_empty;
use crate::store::{
    find_level, in_range, is_prefixed_id, lemma_level_index, lemma_update_same_key, level_in_range,
    level_index, levels_bounded, levels_unique, prefixed_id, withdrawn, QTY_LIMIT, lemma_same_keys, same_but_stamps,
};
use crate::types::{
    clone_strings, InventoryError, LineStatus, MovementType, PickLine, PickOrder, PickStatus, StockLevel,
    StockMovement, Wave, WaveStatus,
};

verus! {

/// `line` is the pick line that `item` asks for: SKU empty, quantity 1 and the
/// order's default location where they are not given; nothing picked yet.
pub open spec fn is_line_for(line: PickLine, item: PickItem, default_location: Seq<char>) -> bool {
    &&& line.sku@ == text_or_empty(item.sku)
    &&& line.quantity == match item.quantity {
        Some(q) => q,
        None => 1000,
    }
    &&& line.from_location@ == match item.location_id {
        Some(l) => l@,
        None => default_location,
    }
    &&& line.picked_qty == 0
    &&& line.status == LineStatus::Pending
}

/// `o` is the pending pick order that `input` asks for, under `id`, created at `now`.
pub open spec fn is_order_for(o: PickOrder, input: PickCreateInput, id: String, now: String) -> bool {
    &&& o.id == id
    &&& o.status == PickStatus::Pending
    &&& o.order_reference == input.order_reference
    &&& o.lines@.len() == input.items@.len()
    &&& forall|i: int|
        0 <= i < o.lines@.len() ==> is_line_for(#[trigger] o.lines@[i], input.items@[i], input.default_location@)
    &&& o.assigned_to == input.assigned_to
    &&& o.wave_id is None
    &&& o.created_at == now
    &&& o.updated_at == now
}

/// `i` is the first picked entry naming the SKU.
pub open spec fn is_first_picked(picked: Seq<PickedSku>, sku: Seq<char>, i: int) -> bool {
    &&& 0 <= i < picked.len()
    &&& picked[i].sku is Some && picked[i].sku.unwrap()@ == sku
    &&& forall|j: int| 0 <= j < i ==> !(#[trigger] picked[j].sku is Some && picked[j].sku.unwrap()@ == sku)
}

/// The position of the first picked entry naming the SKU, or -1.
pub open spec fn first_picked(picked: Seq<PickedSku>, sku: Seq<char>) -> int {
    if exists|i: int| is_first_picked(picked, sku, i) {
        choose|i: int| is_first_picked(picked, sku, i)
    } else {
        -1
    }
}

/// The line after a confirmation: where an entry names its SKU, the first such entry
/// sets the picked quantity (all of the line where it gives none), and the line is
/// picked if that covers its quantity and short otherwise. Other lines stay as they were.
pub open spec fn confirmed_line(line: PickLine, picked: Seq<PickedSku>) -> PickLine {
    let k = first_picked(picked, line.sku@);
    if k >= 0 {
        let q = match picked[k].quantity {
            Some(q) => q,
            None => line.quantity,
        };
        PickLine {
            picked_qty: q,
            status: if q >= line.quantity {
                LineStatus::Picked
            } else {
                LineStatus::Short
            },
            ..line
        }
    } else {
        line
    }
}

/// The stock after shipping the lines in order: each line with a positive picked
/// quantity takes it out of the level of its SKU at its location, where there is one.
/// `None` where some level would leave the range.
pub open spec fn shipped(s: Seq<StockLevel>, lines: Seq<PickLine>, now: String) -> Option<Seq<StockLevel>>
    decreases lines.len(),
{
    if lines.len() == 0 {
        Some(s)
    } else {
        match shipped(s, lines.drop_last(), now) {
            None => None,
            Some(s1) => {
                let l = lines.last();
                let i = level_index(s1, l.sku@, l.from_location@);
                if l.picked_qty > 0 && i >= 0 {
                    if in_range(s1[i].quantity - l.picked_qty) {
                        Some(withdrawn(s1, l.sku@, l.from_location@, l.picked_qty as int, now))
                    } else {
                        None
                    }
                } else {
                    Some(s1)
                }
            },
        }
    }
}

/// Who a shipment is booked to: the order's picker, "system" where none is assigned.
pub open spec fn picker(a: Option<String>) -> Seq<char> {
    match a {
        Some(p) => p@,
        None => "system"@,
    }
}

/// The lines that ship something: those with a positive picked quantity, in order.
pub open spec fn shipped_lines(lines: Seq<PickLine>) -> Seq<PickLine> {
    lines.filter(|l: PickLine| l.picked_qty > 0)
}

/// `m` is the issue movement that shipping line `l` of order `o` records at `now`.
pub open spec fn is_ship_movement(m: StockMovement, l: PickLine, o: PickOrder, now: String) -> bool {
    &&& is_prefixed_id(m.id@, "mov_"@)
    &&& m.movement_type == MovementType::Issue
    &&& m.sku == l.sku
    &&& m.quantity == l.picked_qty
    &&& m.from_location == Some(l.from_location)
    &&& m.to_location is None
    &&& m.reference == o.order_reference
    &&& m.actor@ == picker(o.assigned_to)
    &&& m.lot_number is None
    &&& m.timestamp == now
}

/// `ms` are the movements that shipping `o` records at `now`: one issue for each line
/// that ships something, in line order.
pub open spec fn ship_log(ms: Seq<StockMovement>, o: PickOrder, now: String) -> bool {
    let ls = shipped_lines(o.lines@);
    &&& ms.len() == ls.len()
    &&& forall|i: int| 0 <= i < ms.len() ==> is_ship_movement(#[trigger] ms[i], ls[i], o, now)
}

/// Shipping the lines keeps every level it touches in range (whatever the time
/// the levels are stamped with).
pub open spec fn ships_in_range(s: Seq<StockLevel>, lines: Seq<PickLine>) -> bool {
    exists|now: String| #[trigger] shipped(s, lines, now) is Some
}

/// Whether shipping stays in range does not depend on the time stamped, and levels
/// that differ only in their stamps ship to levels that differ only in theirs.
proof fn lemma_shipped_stamps(a: Seq<StockLevel>, b: Seq<StockLevel>, lines: Seq<PickLine>, n1: String, n2: String)
    requires
        levels_unique(a),
        same_but_stamps(b, a),
    ensures
        shipped(a, lines, n1) is Some <==> shipped(b, lines, n2) is Some,
        shipped(a, lines, n1) is Some ==> levels_unique(shipped(a, lines, n1).unwrap()) && same_but_stamps(
            shipped(b, lines, n2).unwrap(),
            shipped(a, lines, n1).unwrap(),
        ),
    decreases lines.len(),
{
    if lines.len() > 0 {
        let d = lines.drop_last();
        lemma_shipped_stamps(a, b, d, n1, n2);
        if shipped(a, d, n1) is Some {
            let a1 = shipped(a, d, n1).unwrap();
            let b1 = shipped(b, d, n2).unwrap();
            let l = lines.last();
            assert forall|i: int| 0 <= i < a1.len() implies (#[trigger] b1[i]).sku@ == a1[i].sku@
                && b1[i].location_id@ == a1[i].location_id@ by {
                assert(b1[i] == StockLevel { updated_at: b1[i].updated_at, ..a1[i] });
            }
            lemma_same_keys(b1, a1, l.sku@, l.from_location@);
            lemma_level_index(a1, l.sku@, l.from_location@);
            let i = level_index(a1, l.sku@, l.from_location@);
            if l.picked_qty > 0 && i >= 0 {
                assert(b1[i] == StockLevel { updated_at: b1[i].updated_at, ..a1[i] });
                if in_range(a1[i].quantity - l.picked_qty) {
                    let x = StockLevel { quantity: (a1[i].quantity - l.picked_qty) as i64, updated_at: n1, ..a1[i] };
                    let y = StockLevel { quantity: (b1[i].quantity - l.picked_qty) as i64, updated_at: n2, ..b1[i] };
                    lemma_update_same_key(a1, i, x);
                    let a2 = a1.update(i, x);
                    let b2 = b1.update(i, y);
                    assert(shipped(a, lines, n1) == Some(a2));
                    assert(shipped(b, lines, n2) == Some(b2));
                    assert forall|k: int| 0 <= k < b2.len() implies #[trigger] b2[k] == StockLevel {
                        updated_at: b2[k].updated_at,
                        ..a2[k]
                    } by {
                        assert(b1[k] == StockLevel { updated_at: b1[k].updated_at, ..a1[k] });
                    }
                }
            }
        }
    }
}

/// The ID is among the names.
pub open spec fn names(ids: Seq<String>, k: Seq<char>) -> bool {
    exists|j: int| 0 <= j < ids.len() && #[trigger] ids[j]@ == k
}

/// The orders after linking those named in `ids` to the wave.
pub open spec fn linked_to_wave(orders: Seq<PickOrder>, ids: Seq<String>, wave: String) -> Seq<PickOrder> {
    Seq::new(
        orders.len(),
        |i: int|
            if names(ids, orders[i].id@) {
                PickOrder { wave_id: Some(wave), ..orders[i] }
            } else {
                orders[i]
            },
    )
}

/// The orders after moving those named in `ids` to picking.
pub open spec fn released_orders(orders: Seq<PickOrder>, ids: Seq<String>) -> Seq<PickOrder> {
    Seq::new(
        orders.len(),
        |i: int|
            if names(ids, orders[i].id@) {
                PickOrder { status: PickStatus::Picking, ..orders[i] }
            } else {
                orders[i]
            },
    )
}

/// `w` is the wave that `input` asks for, under `id`, created at `now`: planning,
/// with priority "medium" where none is given.
pub open spec fn is_wave_for(w: Wave, input: WaveCreateInput, id: String, now: String) -> bool {
    &&& w.id == id
    &&& w.name == input.name
    &&& w.status == WaveStatus::Planning
    &&& w.pick_ids@ == input.pick_ids@
    &&& w.priority@ == match input.priority {
        Some(p) => p@,
        None => "medium"@,
    }
    &&& w.created_at == now
    &&& w.released_at is None
    &&& w.completed_at is None
}

/// The picked entry names the SKU.
fn names_sku(entry: &PickedSku, sku: &String) -> (b: bool)
    ensures
        b == (entry.sku is Some && entry.sku.unwrap()@ == sku@),
{
    match &entry.sku {
        Some(s) => s.eq(sku),
        None => false,
    }
}

/// Once shipping a prefix of the lines fails, shipping all of them fails.
proof fn lemma_shipped_none_extends(s: Seq<StockLevel>, lines: Seq<PickLine>, j: int, now: String)
    requires
        0 <= j <= lines.len(),
        shipped(s, lines.take(j), now) is None,
    ensures
        shipped(s, lines, now) is None,
    decreases lines.len() - j,
{
    if j < lines.len() {
        assert(lines.take(j + 1).drop_last() =~= lines.take(j));
        lemma_shipped_none_extends(s, lines, j + 1, now);
    } else {
        assert(lines.take(j) =~= lines);
    }
}

/// Copies the stock levels.
fn clone_levels(v: &Vec<StockLevel>) -> (r: Vec<StockLevel>)
    ensures
        r@ == v@,
{
    let mut r: Vec<StockLevel> = Vec::new();
    let mut i: usize = 0;
    while i < v.len()
        invariant
            i <= v.len(),
            r@ == v@.take(i as int),
        decreases v.len() - i,
    {
        r.push(v[i].clone());
        assert(v@.take(i + 1) =~= v@.take(i as int).push(v@[i as int]));
        i = i + 1;
    }
    assert(v@.take(v.len() as int) =~= v@);
    r
}

/// A keyed update that keeps the key keeps the orders unique.
proof fn lemma_orders_update(s: Seq<PickOrder>, i: int, x: PickOrder)
    requires
        keys_unique(s),
        0 <= i < s.len(),
        x.id@ == s[i].id@,
    ensures
        keys_unique(s.update(i, x)),
{
    lemma_update_keyed(s, i, x);
}

/// The pick order with the ID exists and is not shipped yet.
pub open spec fn unshipped_at(picks: Seq<PickOrder>, id: Seq<char>) -> bool {
    has_key(picks, id) && !(lookup(picks, id).unwrap().status is Shipped)
}

/// Some pick order that the IDs name exists and is not shipped yet.
pub open spec fn has_unshipped_pick(picks: Seq<PickOrder>, ids: Seq<String>) -> bool {
    exists|j: int| 0 <= j < ids.len() && #[trigger] unshipped_at(picks, ids[j]@)
}

impl InventoryServer {
    /// Creates a pending pick order under a fresh ID (`pick_` and eight hexadecimal
    /// digits), which it answers.
    pub fn pick_create(&mut self, input: PickCreateInput) -> (r: String)
        requires
            old(self).store.wf(),
        ensures
            final(self).store.wf(),
            is_prefixed_id(r@, "pick_"@),
            lookup(final(self).store.pick_orders@, r@) is Some,
            is_order_for(
                lookup(final(self).store.pick_orders@, r@).unwrap(),
                input,
                r,
                lookup(final(self).store.pick_orders@, r@).unwrap().created_at,
            ),
            final(self).store.pick_orders@ == upserted(
                old(self).store.pick_orders@,
                lookup(final(self).store.pick_orders@, r@).unwrap(),
            ),
            final(self).store.cycle_counts == old(self).store.cycle_counts,
            final(self).store.waves == old(self).store.waves,
            final(self).store.labels == old(self).store.labels,
            final(self).store.keeps_stock(old(self).store),
            final(self).store.keeps_catalog(old(self).store),
            final(self).store.keeps_tracking(old(self).store),
            final(self).same_config(*old(self)),
    {
        let id = prefixed_id("pick_");
        let t = now();
        self.pick_create_at(input, id.clone(), t);
        id
    }

    /// Creates a pending pick order under `id`, created at `now`.
    pub fn pick_create_at(&mut self, input: PickCreateInput, id: String, now: String)
        requires
            old(self).store.wf(),
        ensures
            final(self).store.wf(),
            lookup(final(self).store.pick_orders@, id@) is Some,
            is_order_for(lookup(final(self).store.pick_orders@, id@).unwrap(), input, id, now),
            final(self).store.pick_orders@ == upserted(
                old(self).store.pick_orders@,
                lookup(final(self).store.pick_orders@, id@).unwrap(),
            ),
            final(self).store.cycle_counts == old(self).store.cycle_counts,
            final(self).store.waves == old(self).store.waves,
            final(self).store.labels == old(self).store.labels,
            final(self).store.keeps_stock(old(self).store),
            final(self).store.keeps_catalog(old(self).store),
            final(self).store.keeps_tracking(old(self).store),
            final(self).same_config(*old(self)),
    {
        let mut lines: Vec<PickLine> = Vec::new();
        let mut i: usize = 0;
        while i < input.items.len()
            invariant
                i <= input.items.len(),
                lines@.len() == i,
                forall|k: int|
                    0 <= k < i ==> is_line_for(#[trigger] lines@[k], input.items@[k], input.default_location@),
            decreases input.items.len() - i,
        {
            let item = &input.items[i];
            let sku = match &item.sku {
                Some(s) => s.clone(),
                None => String::new(),
            };
            let quantity = match item.quantity {
                Some(q) => q,
                None => 1000,
            };
            let from_location = match &item.location_id {
                Some(l) => l.clone(),
                None => input.default_location.clone(),
            };
            lines.push(PickLine { sku, quantity, from_location, picked_qty: 0, status: LineStatus::Pending });
            i = i + 1;
        }
        let order = PickOrder {
            id: id,
            status: PickStatus::Pending,
            order_reference: input.order_reference,
            lines: lines,
            assigned_to: input.assigned_to,
            wave_id: None,
            created_at: now.clone(),
            updated_at: now,
        };
        proof {
            lemma_upserted(self.store.pick_orders@, order);
        }
        upsert(&mut self.store.pick_orders, order);
    }

    /// Confirms a pick: updates the lines that the picked entries name and marks the
    /// order packed.
    pub fn pick_confirm(&mut self, input: PickConfirmInput) -> (r: Result<(), InventoryError>)
        requires
            old(self).store.wf(),
        ensures
            final(self).store.wf(),
            r is Err <==> !has_key(old(self).store.pick_orders@, input.pick_id@),
            r is Err ==> r == Err::<(), InventoryError>(InventoryError::PickNotFound) && final(self).store
                == old(self).store,
            r is Ok ==> {
                let i = key_index(old(self).store.pick_orders@, input.pick_id@);
                let o = old(self).store.pick_orders@[i];
                let n = final(self).store.pick_orders@[i];
                &&& final(self).store.pick_orders@ == old(self).store.pick_orders@.update(i, n)
                &&& n.id == o.id && n.order_reference == o.order_reference && n.assigned_to == o.assigned_to
                    && n.wave_id == o.wave_id && n.created_at == o.created_at
                &&& n.status == PickStatus::Packed
                &&& n.lines@.len() == o.lines@.len()
                &&& forall|k: int| 0 <= k < o.lines@.len() ==> #[trigger] n.lines@[k] == confirmed_line(o.lines@[k], input.picked_skus@)
            },
            final(self).store.cycle_counts == old(self).store.cycle_counts,
            final(self).store.waves == old(self).store.waves,
            final(self).store.labels == old(self).store.labels,
            final(self).store.keeps_stock(old(self).store),
            final(self).store.keeps_catalog(old(self).store),
            final(self).store.keeps_tracking(old(self).store),
            final(self).same_config(*old(self)),
    {
        let t = now();
        self.pick_confirm_at(input, t)
    }

    /// Confirms a pick, stamping the order with `now`.
    pub fn pick_confirm_at(&mut self, input: PickConfirmInput, now: String) -> (r: Result<(), InventoryError>)
        requires
            old(self).store.wf(),
        ensures
            final(self).store.wf(),
            r is Err <==> !has_key(old(self).store.pick_orders@, input.pick_id@),
            r is Err ==> r == Err::<(), InventoryError>(InventoryError::PickNotFound) && final(self).store
                == old(self).store,
            r is Ok ==> {
                let i = key_index(old(self).store.pick_orders@, input.pick_id@);
                let o = old(self).store.pick_orders@[i];
                let n = final(self).store.pick_orders@[i];
                &&& final(self).store.pick_orders@ == old(self).store.pick_orders@.update(i, n)
                &&& n.id == o.id && n.order_reference == o.order_reference && n.assigned_to == o.assigned_to
                    && n.wave_id == o.wave_id && n.created_at == o.created_at
                &&& n.status == PickStatus::Packed
                &&& n.updated_at == now
                &&& n.lines@.len() == o.lines@.len()
                &&& forall|k: int| 0 <= k < o.lines@.len() ==> #[trigger] n.lines@[k] == confirmed_line(o.lines@[k], input.picked_skus@)
            },
            final(self).store.cycle_counts == old(self).store.cycle_counts,
            final(self).store.waves == old(self).store.waves,
            final(self).store.labels == old(self).store.labels,
            final(self).store.keeps_stock(old(self).store),
            final(self).store.keeps_catalog(old(self).store),
            final(self).store.keeps_tracking(old(self).store),
            final(self).same_config(*old(self)),
    {
        let idx = match find_key(&self.store.pick_orders, &input.pick_id) {
            Some(i) => i,
            None => {
                return Err(InventoryError::PickNotFound);
            },
        };
        proof {
            lemma_key_index(self.store.pick_orders@, input.pick_id@);
        }
        let ghost s0 = self.store.pick_orders@;
        let mut o = self.store.pick_orders.remove(idx);
        let ghost old_lines = o.lines@;
        let mut lines: Vec<PickLine> = Vec::new();
        let mut k: usize = 0;
        while k < o.lines.len()
            invariant
                k <= o.lines.len(),
                o.lines@ == old_lines,
                lines@.len() == k,
                forall|j: int| 0 <= j < k ==> #[trigger] lines@[j] == confirmed_line(old_lines[j], input.picked_skus@),
            decreases o.lines.len() - k,
        {
            let line = &o.lines[k];
            let mut p: usize = 0;
            while p < input.picked_skus.len() && !names_sku(&input.picked_skus[p], &line.sku)
                invariant
                    p <= input.picked_skus.len(),
                    forall|j: int|
                        0 <= j < p ==> !(#[trigger] input.picked_skus@[j].sku is Some
                            && input.picked_skus@[j].sku.unwrap()@ == line.sku@),
                decreases input.picked_skus.len() - p,
            {
                p = p + 1;
            }
            let new_line = if p < input.picked_skus.len() {
                proof {
                    assert(is_first_picked(input.picked_skus@, line.sku@, p as int));
                    let f = first_picked(input.picked_skus@, line.sku@);
                    assert(is_first_picked(input.picked_skus@, line.sku@, f));
                    if f < p {
                        assert(!(input.picked_skus@[f].sku is Some && input.picked_skus@[f].sku.unwrap()@ == line.sku@));
                    } else if p < f {
                        assert(!(input.picked_skus@[p as int].sku is Some
                            && input.picked_skus@[p as int].sku.unwrap()@ == line.sku@));
                    }
                }
                let q = match input.picked_skus[p].quantity {
                    Some(q) => q,
                    None => line.quantity,
                };
                let status = if q >= line.quantity {
                    LineStatus::Picked
                } else {
                    LineStatus::Short
                };
                PickLine { sku: line.sku.clone(), quantity: line.quantity, from_location: line.from_location.clone(), picked_qty: q, status }
            } else {
                proof {
                    assert forall|f: int| !is_first_picked(input.picked_skus@, line.sku@, f) by {
                        if 0 <= f < input.picked_skus.len() {
                            assert(!(input.picked_skus@[f].sku is Some && input.picked_skus@[f].sku.unwrap()@ == line.sku@));
                        }
                    }
                }
                line.clone()
            };
            lines.push(new_line);
            k = k + 1;
        }
        o.lines = lines;
        o.status = PickStatus::Packed;
        o.updated_at = now;
        proof {
            lemma_orders_update(s0, idx as int, o);
        }
        self.store.pick_orders.insert(idx, o);
        assert(self.store.pick_orders@ =~= s0.update(idx as int, o));
        Ok(())
    }

    /// Ships a pick order: marks it shipped, takes each line's picked quantity out of
    /// the stock at the line's location and records an issue movement for each line
    /// that ships something.
    pub fn pick_ship(&mut self, input: PickIdInput) -> (r: Result<(), InventoryError>)
        requires
            old(self).store.wf(),
        ensures
            final(self).store.wf(),
            !has_key(old(self).store.pick_orders@, input.pick_id@) ==> r == Err::<(), InventoryError>(
                InventoryError::PickNotFound,
            ),
            has_key(old(self).store.pick_orders@, input.pick_id@) ==> (r is Ok <==> ships_in_range(
                old(self).store.stock@,
                old(self).store.pick_orders@[key_index(old(self).store.pick_orders@, input.pick_id@)].lines@,
            )),
            r is Err ==> final(self).store == old(self).store,
            r is Ok ==> has_key(old(self).store.pick_orders@, input.pick_id@),
            r is Ok ==> {
                let i = key_index(old(self).store.pick_orders@, input.pick_id@);
                let o = old(self).store.pick_orders@[i];
                &&& final(self).store.pick_orders@ == old(self).store.pick_orders@.update(
                    i,
                    PickOrder { status: PickStatus::Shipped, updated_at: final(self).store.pick_orders@[i].updated_at, ..o },
                )
                &&& shipped(old(self).store.stock@, o.lines@, final(self).store.pick_orders@[i].updated_at)
                    == Some(final(self).store.stock@)
                &&& final(self).store.movements@.len() >= old(self).store.movements@.len()
                &&& final(self).store.movements@.take(old(self).store.movements@.len() as int)
                    == old(self).store.movements@
                &&& ship_log(
                    final(self).store.movements@.skip(old(self).store.movements@.len() as int),
                    o,
                    final(self).store.pick_orders@[i].updated_at,
                )
            },
            r is Err && has_key(old(self).store.pick_orders@, input.pick_id@) ==> r == Err::<(), InventoryError>(
                InventoryError::QuantityOutOfRange,
            ),
            final(self).store.reservations == old(self).store.reservations,
            final(self).store.cycle_counts == old(self).store.cycle_counts,
            final(self).store.waves == old(self).store.waves,
            final(self).store.labels == old(self).store.labels,
            final(self).store.keeps_catalog(old(self).store),
            final(self).store.keeps_tracking(old(self).store),
            final(self).same_config(*old(self)),
    {
        let t = now();
        let ghost pid = input.pick_id@;
        let r = self.pick_ship_at(input, t);
        proof {
            if has_key(old(self).store.pick_orders@, pid) {
                let s0 = old(self).store.stock@;
                let lines = old(self).store.pick_orders@[key_index(old(self).store.pick_orders@, pid)].lines@;
                if r is Ok {
                    assert(shipped(s0, lines, t) is Some);
                }
                if ships_in_range(s0, lines) {
                    let n = choose|n: String| #[trigger] shipped(s0, lines, n) is Some;
                    assert(same_but_stamps(s0, s0)) by {
                        assert forall|k: int| 0 <= k < s0.len() implies #[trigger] s0[k] == StockLevel {
                            updated_at: s0[k].updated_at,
                            ..s0[k]
                        } by {}
                    }
                    lemma_shipped_stamps(s0, s0, lines, n, t);
                }
            }
        }
        r
    }

    /// Ships a pick order, stamping the order and the levels it touches with `now`.
    pub fn pick_ship_at(&mut self, input: PickIdInput, now: String) -> (r: Result<(), InventoryError>)
        requires
            old(self).store.wf(),
        ensures
            final(self).store.wf(),
            !has_key(old(self).store.pick_orders@, input.pick_id@) ==> r == Err::<(), InventoryError>(
                InventoryError::PickNotFound,
            ),
            has_key(old(self).store.pick_orders@, input.pick_id@) ==> (r is Ok <==> shipped(
                old(self).store.stock@,
                old(self).store.pick_orders@[key_index(old(self).store.pick_orders@, input.pick_id@)].lines@,
                now,
            ) is Some),
            r is Err && has_key(old(self).store.pick_orders@, input.pick_id@) ==> r == Err::<(), InventoryError>(
                InventoryError::QuantityOutOfRange,
            ),
            r is Err ==> final(self).store == old(self).store,
            r is Ok ==> {
                let i = key_index(old(self).store.pick_orders@, input.pick_id@);
                let o = old(self).store.pick_orders@[i];
                &&& final(self).store.pick_orders@ == old(self).store.pick_orders@.update(
                    i,
                    PickOrder { status: PickStatus::Shipped, updated_at: now, ..o },
                )
                &&& shipped(old(self).store.stock@, o.lines@, now) == Some(final(self).store.stock@)
                &&& final(self).store.movements@ == old(self).store.movements@ + final(self).store.movements@.skip(
                    old(self).store.movements@.len() as int,
                )
                &&& ship_log(final(self).store.movements@.skip(old(self).store.movements@.len() as int), o, now)
            },
            final(self).store.reservations == old(self).store.reservations,
            final(self).store.cycle_counts == old(self).store.cycle_counts,
            final(self).store.waves == old(self).store.waves,
            final(self).store.labels == old(self).store.labels,
            final(self).store.keeps_catalog(old(self).store),
            final(self).store.keeps_tracking(old(self).store),
            final(self).same_config(*old(self)),
    {
        let idx = match find_key(&self.store.pick_orders, &input.pick_id) {
            Some(i) => i,
            None => {
                return Err(InventoryError::PickNotFound);
            },
        };
        proof {
            lemma_key_index(self.store.pick_orders@, input.pick_id@);
        }
        let ghost s0 = self.store.stock@;
        let ghost lines0 = self.store.pick_orders@[idx as int].lines@;
        let ghost o0 = self.store.pick_orders@[idx as int];
        let mut stock = clone_levels(&self.store.stock);
        let mut log: Vec<StockMovement> = Vec::new();
        let actor = match &self.store.pick_orders[idx].assigned_to {
            Some(p) => p.clone(),
            None => String::from_str("system"),
        };
        let mut j: usize = 0;
        let n = self.store.pick_orders[idx].lines.len();
        while j < n
            invariant
                j <= n,
                n == lines0.len(),
                lines0 == self.store.pick_orders@[idx as int].lines@,
                idx < self.store.pick_orders@.len(),
                *self == *old(self),
                old(self).store.wf(),
                s0 == old(self).store.stock@,
                has_key(old(self).store.pick_orders@, input.pick_id@),
                idx == key_index(old(self).store.pick_orders@, input.pick_id@),
                shipped(s0, lines0.take(j as int), now) == Some(stock@),
                levels_unique(stock@),
                levels_bounded(stock@),
                o0 == old(self).store.pick_orders@[idx as int],
                lines0 == o0.lines@,
                actor@ == picker(o0.assigned_to),
                log@.len() == shipped_lines(lines0.take(j as int)).len(),
                forall|i: int|
                    0 <= i < log@.len() ==> is_ship_movement(
                        #[trigger] log@[i],
                        shipped_lines(lines0.take(j as int))[i],
                        o0,
                        now,
                    ),
            decreases n - j,
        {
            proof {
                assert(lines0.take(j + 1).drop_last() =~= lines0.take(j as int));
                assert(lines0.take(j + 1).last() == lines0[j as int]);
                reveal_with_fuel(Seq::<_>::filter, 1);
                assert(shipped_lines(lines0.take(j + 1)) == if lines0[j as int].picked_qty > 0 {
                    shipped_lines(lines0.take(j as int)).push(lines0[j as int])
                } else {
                    shipped_lines(lines0.take(j as int))
                });
            }
            let line = &self.store.pick_orders[idx].lines[j];
            if line.picked_qty > 0 {
                let ghost before = stock@;
                proof {
                    lemma_level_index(before, line.sku@, line.from_location@);
                }
                match find_level(&stock, &line.sku, &line.from_location) {
                    Some(k) => {
                        proof {
                            assert(level_in_range(before[k as int]));
                        }
                        if line.picked_qty > 2 * QTY_LIMIT {
                            proof {
                                lemma_shipped_none_extends(s0, lines0, j as int + 1, now);
                            }
                            return Err(InventoryError::QuantityOutOfRange);
                        }
                        let v = stock[k].quantity - line.picked_qty;
                        if v < -QTY_LIMIT || v > QTY_LIMIT {
                            proof {
                                lemma_shipped_none_extends(s0, lines0, j as int + 1, now);
                            }
                            return Err(InventoryError::QuantityOutOfRange);
                        }
                        let mut row = stock[k].clone();
                        row.quantity = v;
                        row.updated_at = now.clone();
                        proof {
                            lemma_update_same_key(before, k as int, row);
                        }
                        stock.set(k, row);
                        proof {
                            assert forall|m: int| 0 <= m < stock@.len() implies #[trigger] level_in_range(stock@[m]) by {
                                assert(level_in_range(before[m]));
                            }
                        }
                    },
                    None => {},
                }
                let m = StockMovement {
                    id: prefixed_id("mov_"),
                    movement_type: MovementType::Issue,
                    sku: line.sku.clone(),
                    quantity: line.picked_qty,
                    from_location: Some(line.from_location.clone()),
                    to_location: None,
                    reference: self.store.pick_orders[idx].order_reference.clone(),
                    actor: actor.clone(),
                    lot_number: None,
                    timestamp: now.clone(),
                };
                log.push(m);
            }
            j = j + 1;
        }
        assert(lines0.take(n as int) =~= lines0);
        let ghost p0 = self.store.pick_orders@;
        let mut o = self.store.pick_orders.remove(idx);
        o.status = PickStatus::Shipped;
        o.updated_at = now;
        proof {
            lemma_orders_update(p0, idx as int, o);
        }
        self.store.pick_orders.insert(idx, o);
        assert(self.store.pick_orders@ =~= p0.update(idx as int, o));
        self.store.stock = stock;
        let ghost m0 = self.store.movements@;
        let ghost lg = log@;
        self.store.movements.append(&mut log);
        assert(self.store.movements@.skip(m0.len() as int) =~= lg);
        assert(self.store.movements@ =~= m0 + lg);
        Ok(())
    }

    /// The pick orders.
    pub fn pick_list(&self) -> (r: Vec<PickOrder>)
        ensures
            r@.len() == self.store.pick_orders@.len(),
            forall|i: int| 0 <= i < r@.len() ==> #[trigger] r@[i].same(self.store.pick_orders@[i]),
    {
        let mut r: Vec<PickOrder> = Vec::new();
        let mut i: usize = 0;
        while i < self.store.pick_orders.len()
            invariant
                i <= self.store.pick_orders.len(),
                r@.len() == i,
                forall|k: int| 0 <= k < i ==> #[trigger] r@[k].same(self.store.pick_orders@[k]),
            decreases self.store.pick_orders.len() - i,
        {
            r.push(self.store.pick_orders[i].clone());
            i = i + 1;
        }
        r
    }

    /// Creates a wave under a fresh ID (`wave_` and eight hexadecimal digits) and links
    /// the named pick orders to it; answers the ID and how many pick IDs were given.
    pub fn wave_create(&mut self, input: WaveCreateInput) -> (r: (String, usize))
        requires
            old(self).store.wf(),
        ensures
            final(self).store.wf(),
            is_prefixed_id(r.0@, "wave_"@),
            r.1 == input.pick_ids@.len(),
            final(self).store.pick_orders@ == linked_to_wave(old(self).store.pick_orders@, input.pick_ids@, r.0),
            lookup(final(self).store.waves@, r.0@) is Some,
            is_wave_for(
                lookup(final(self).store.waves@, r.0@).unwrap(),
                input,
                r.0,
                lookup(final(self).store.waves@, r.0@).unwrap().created_at,
            ),
            final(self).store.waves@ == upserted(old(self).store.waves@, lookup(final(self).store.waves@, r.0@).unwrap()),
            final(self).store.cycle_counts == old(self).store.cycle_counts,
            final(self).store.labels == old(self).store.labels,
            final(self).store.keeps_stock(old(self).store),
            final(self).store.keeps_catalog(old(self).store),
            final(self).store.keeps_tracking(old(self).store),
            final(self).same_config(*old(self)),
    {
        let id = prefixed_id("wave_");
        let t = now();
        let n = self.wave_create_at(input, id.clone(), t);
        (id, n)
    }

    /// Creates a wave under `id`, created at `now`, and links the named pick orders to it.
    pub fn wave_create_at(&mut self, input: WaveCreateInput, id: String, now: String) -> (r: usize)
        requires
            old(self).store.wf(),
        ensures
            final(self).store.wf(),
            r == input.pick_ids@.len(),
            final(self).store.pick_orders@ == linked_to_wave(old(self).store.pick_orders@, input.pick_ids@, id),
            lookup(final(self).store.waves@, id@) is Some,
            is_wave_for(lookup(final(self).store.waves@, id@).unwrap(), input, id, now),
            final(self).store.waves@ == upserted(old(self).store.waves@, lookup(final(self).store.waves@, id@).unwrap()),
            final(self).store.cycle_counts == old(self).store.cycle_counts,
            final(self).store.labels == old(self).store.labels,
            final(self).store.keeps_stock(old(self).store),
            final(self).store.keeps_catalog(old(self).store),
            final(self).store.keeps_tracking(old(self).store),
            final(self).same_config(*old(self)),
    {
        let ghost p0 = self.store.pick_orders@;
        let mut j: usize = 0;
        while j < input.pick_ids.len()
            invariant
                j <= input.pick_ids.len(),
                self.store.wf(),
                p0 == old(self).store.pick_orders@,
                self.store.pick_orders@ == linked_to_wave(p0, input.pick_ids@.take(j as int), id),
                self.store.waves == old(self).store.waves,
                self.store.cycle_counts == old(self).store.cycle_counts,
                self.store.labels == old(self).store.labels,
                self.store.keeps_stock(old(self).store),
                self.store.keeps_catalog(old(self).store),
                self.store.keeps_tracking(old(self).store),
                self.same_config(*old(self)),
            decreases input.pick_ids.len() - j,
        {
            let ghost cur = self.store.pick_orders@;
            let ghost ids_next = input.pick_ids@.take(j + 1);
            let pid = &input.pick_ids[j];
            proof {
                assert forall|k: Seq<char>| names(ids_next, k) == (names(input.pick_ids@.take(j as int), k) || k == pid@) by {
                    if names(ids_next, k) {
                        let m = choose|m: int| 0 <= m < ids_next.len() && #[trigger] ids_next[m]@ == k;
                        if m < j {
                            assert(input.pick_ids@.take(j as int)[m]@ == k);
                        }
                    }
                    if names(input.pick_ids@.take(j as int), k) {
                        let m = choose|m: int| 0 <= m < j && #[trigger] input.pick_ids@.take(j as int)[m]@ == k;
                        assert(ids_next[m]@ == k);
                    }
                    if k == pid@ {
                        assert(ids_next[j as int]@ == k);
                    }
                }
            }
            match find_key(&self.store.pick_orders, pid) {
                Some(i) => {
                    proof {
                        lemma_key_index(cur, pid@);
                    }
                    let mut o = self.store.pick_orders.remove(i);
                    o.wave_id = Some(id.clone());
                    proof {
                        lemma_orders_update(cur, i as int, o);
                    }
                    self.store.pick_orders.insert(i, o);
                    proof {
                        let target = linked_to_wave(p0, ids_next, id);
                        assert(cur[i as int].id@ == pid@);
                        assert forall|m: int| 0 <= m < target.len() implies #[trigger] self.store.pick_orders@[m]
                            == target[m] by {
                            assert(cur[m].id@ == p0[m].id@);
                            if m != i {
                                assert(cur[m].key() != cur[i as int].key());
                            }
                        }
                        assert(self.store.pick_orders@ =~= target);
                    }
                },
                None => {
                    proof {
                        assert forall|m: int| 0 <= m < cur.len() implies #[trigger] cur[m].id@ != pid@ by {
                            if cur[m].id@ == pid@ {
                                assert(cur[m].key() == pid@);
                            }
                        }
                    }
                    proof {
                        let target = linked_to_wave(p0, ids_next, id);
                        assert forall|m: int| 0 <= m < target.len() implies #[trigger] self.store.pick_orders@[m]
                            == target[m] by {
                            assert(cur[m].id@ == p0[m].id@);
                        }
                        assert(self.store.pick_orders@ =~= target);
                    }
                },
            }
            j = j + 1;
        }
        assert(input.pick_ids@.take(input.pick_ids.len() as int) =~= input.pick_ids@);
        let count = input.pick_ids.len();
        let wave = Wave {
            id: id,
            name: input.name,
            status: WaveStatus::Planning,
            pick_ids: input.pick_ids,
            priority: match input.priority {
                Some(p) => p,
                None => String::from_str("medium"),
            },
            created_at: now,
            released_at: None,
            completed_at: None,
        };
        proof {
            lemma_upserted(self.store.waves@, wave);
        }
        upsert(&mut self.store.waves, wave);
        count
    }

    /// Releases a wave: marks it in progress and moves its pick orders to picking;
    /// answers how many pick IDs it holds.
    pub fn wave_release(&mut self, input: WaveIdInput) -> (r: Result<usize, InventoryError>)
        requires
            old(self).store.wf(),
        ensures
            final(self).store.wf(),
            r is Err <==> !has_key(old(self).store.waves@, input.wave_id@),
            r is Err ==> r == Err::<usize, InventoryError>(InventoryError::WaveNotFound) && final(self).store
                == old(self).store,
            r is Ok ==> {
                let i = key_index(old(self).store.waves@, input.wave_id@);
                let w = old(self).store.waves@[i];
                &&& r == Ok::<usize, InventoryError>(w.pick_ids@.len() as usize)
                &&& final(self).store.waves@[i].released_at is Some
                &&& final(self).store.waves@ == old(self).store.waves@.update(
                    i,
                    Wave { status: WaveStatus::InProgress, released_at: final(self).store.waves@[i].released_at, ..w },
                )
                &&& final(self).store.pick_orders@ == released_orders(old(self).store.pick_orders@, w.pick_ids@)
            },
            final(self).store.cycle_counts == old(self).store.cycle_counts,
            final(self).store.labels == old(self).store.labels,
            final(self).store.keeps_stock(old(self).store),
            final(self).store.keeps_catalog(old(self).store),
            final(self).store.keeps_tracking(old(self).store),
            final(self).same_config(*old(self)),
    {
        let t = now();
        self.wave_release_at(input, t)
    }

    /// Releases a wave, stamping it released at `now`.
    pub fn wave_release_at(&mut self, input: WaveIdInput, now: String) -> (r: Result<usize, InventoryError>)
        requires
            old(self).store.wf(),
        ensures
            final(self).store.wf(),
            r is Err <==> !has_key(old(self).store.waves@, input.wave_id@),
            r is Err ==> r == Err::<usize, InventoryError>(InventoryError::WaveNotFound) && final(self).store
                == old(self).store,
            r is Ok ==> {
                let i = key_index(old(self).store.waves@, input.wave_id@);
                let w = old(self).store.waves@[i];
                &&& r == Ok::<usize, InventoryError>(w.pick_ids@.len() as usize)
                &&& final(self).store.waves@ == old(self).store.waves@.update(
                    i,
                    Wave { status: WaveStatus::InProgress, released_at: Some(now), ..w },
                )
                &&& final(self).store.pick_orders@ == released_orders(old(self).store.pick_orders@, w.pick_ids@)
            },
            final(self).store.cycle_counts == old(self).store.cycle_counts,
            final(self).store.labels == old(self).store.labels,
            final(self).store.keeps_stock(old(self).store),
            final(self).store.keeps_catalog(old(self).store),
            final(self).store.keeps_tracking(old(self).store),
            final(self).same_config(*old(self)),
    {
        let wi = match find_key(&self.store.waves, &input.wave_id) {
            Some(i) => i,
            None => {
                return Err(InventoryError::WaveNotFound);
            },
        };
        proof {
            lemma_key_index(self.store.waves@, input.wave_id@);
        }
        let ghost w0 = self.store.waves@;
        let mut w = self.store.waves.remove(wi);
        w.status = WaveStatus::InProgress;
        w.released_at = Some(now);
        let ids = clone_strings(&w.pick_ids);
        proof {
            lemma_update_keyed(w0, wi as int, w);
        }
        self.store.waves.insert(wi, w);
        assert(self.store.waves@ =~= w0.update(wi as int, w));
        let ghost p0 = self.store.pick_orders@;
        let mut j: usize = 0;
        while j < ids.len()
            invariant
                j <= ids.len(),
                self.store.wf(),
                p0 == old(self).store.pick_orders@,
                self.store.pick_orders@ == released_orders(p0, ids@.take(j as int)),
                self.store.waves@ == w0.update(wi as int, w),
                self.store.cycle_counts == old(self).store.cycle_counts,
                self.store.labels == old(self).store.labels,
                self.store.keeps_stock(old(self).store),
                self.store.keeps_catalog(old(self).store),
                self.store.keeps_tracking(old(self).store),
                self.same_config(*old(self)),
            decreases ids.len() - j,
        {
            let ghost cur = self.store.pick_orders@;
            let ghost ids_next = ids@.take(j + 1);
            let pid = &ids[j];
            proof {
                assert forall|k: Seq<char>| names(ids_next, k) == (names(ids@.take(j as int), k) || k == pid@) by {
                    if names(ids_next, k) {
                        let m = choose|m: int| 0 <= m < ids_next.len() && #[trigger] ids_next[m]@ == k;
                        if m < j {
                            assert(ids@.take(j as int)[m]@ == k);
                        }
                    }
                    if names(ids@.take(j as int), k) {
                        let m = choose|m: int| 0 <= m < j && #[trigger] ids@.take(j as int)[m]@ == k;
                        assert(ids_next[m]@ == k);
                    }
                    if k == pid@ {
                        assert(ids_next[j as int]@ == k);
                    }
                }
            }
            match find_key(&self.store.pick_orders, pid) {
                Some(i) => {
                    proof {
                        lemma_key_index(cur, pid@);
                    }
                    let mut o = self.store.pick_orders.remove(i);
                    o.status = PickStatus::Picking;
                    proof {
                        lemma_orders_update(cur, i as int, o);
                    }
                    self.store.pick_orders.insert(i, o);
                    proof {
                        let target = released_orders(p0, ids_next);
                        assert(cur[i as int].id@ == pid@);
                        assert forall|m: int| 0 <= m < target.len() implies #[trigger] self.store.pick_orders@[m]
                            == target[m] by {
                            assert(cur[m].id@ == p0[m].id@);
                            if m != i {
                                assert(cur[m].key() != cur[i as int].key());
                            }
                        }
                        assert(self.store.pick_orders@ =~= target);
                    }
                },
                None => {
                    proof {
                        assert forall|m: int| 0 <= m < cur.len() implies #[trigger] cur[m].id@ != pid@ by {
                            if cur[m].id@ == pid@ {
                                assert(cur[m].key() == pid@);
                            }
                        }
                        let target = released_orders(p0, ids_next);
                        assert forall|m: int| 0 <= m < target.len() implies #[trigger] self.store.pick_orders@[m]
                            == target[m] by {
                            assert(cur[m].id@ == p0[m].id@);
                        }
                        assert(self.store.pick_orders@ =~= target);
                    }
                },
            }
            j = j + 1;
        }
        assert(ids@.take(ids.len() as int) =~= ids@);
        Ok(ids.len())
    }

    /// Completes a wave once every pick order it lists is shipped; refused, with the
    /// wave left open, while one of them is not.
    pub fn wave_complete(&mut self, input: WaveIdInput) -> (r: Result<(), InventoryError>)
        requires
            old(self).store.wf(),
        ensures
            final(self).store.wf(),
            r == Err::<(), InventoryError>(InventoryError::WaveNotFound) <==> !has_key(
                old(self).store.waves@,
                input.wave_id@,
            ),
            r == Err::<(), InventoryError>(InventoryError::WavePicksNotShipped) <==> has_key(
                old(self).store.waves@,
                input.wave_id@,
            ) && has_unshipped_pick(
                old(self).store.pick_orders@,
                old(self).store.waves@[key_index(old(self).store.waves@, input.wave_id@)].pick_ids@,
            ),
            r is Ok <==> has_key(old(self).store.waves@, input.wave_id@) && !has_unshipped_pick(
                old(self).store.pick_orders@,
                old(self).store.waves@[key_index(old(self).store.waves@, input.wave_id@)].pick_ids@,
            ),
            r is Err ==> final(self).store == old(self).store,
            r is Ok ==> {
                let i = key_index(old(self).store.waves@, input.wave_id@);
                &&& final(self).store.waves@[i].completed_at is Some
                &&& final(self).store.waves@ == old(self).store.waves@.update(
                    i,
                    Wave {
                        status: WaveStatus::Completed,
                        completed_at: final(self).store.waves@[i].completed_at,
                        ..old(self).store.waves@[i]
                    },
                )
            },
            final(self).store.pick_orders == old(self).store.pick_orders,
            final(self).store.cycle_counts == old(self).store.cycle_counts,
            final(self).store.labels == old(self).store.labels,
            final(self).store.keeps_stock(old(self).store),
            final(self).store.keeps_catalog(old(self).store),
            final(self).store.keeps_tracking(old(self).store),
            final(self).same_config(*old(self)),
    {
        let t = now();
        self.wave_complete_at(input, t)
    }

    /// Completes a wave, stamping it completed at `now`, once every pick order it
    /// lists is shipped.
    pub fn wave_complete_at(&mut self, input: WaveIdInput, now: String) -> (r: Result<(), InventoryError>)
        requires
            old(self).store.wf(),
        ensures
            final(self).store.wf(),
            r == Err::<(), InventoryError>(InventoryError::WaveNotFound) <==> !has_key(
                old(self).store.waves@,
                input.wave_id@,
            ),
            r == Err::<(), InventoryError>(InventoryError::WavePicksNotShipped) <==> has_key(
                old(self).store.waves@,
                input.wave_id@,
            ) && has_unshipped_pick(
                old(self).store.pick_orders@,
                old(self).store.waves@[key_index(old(self).store.waves@, input.wave_id@)].pick_ids@,
            ),
            r is Ok <==> has_key(old(self).store.waves@, input.wave_id@) && !has_unshipped_pick(
                old(self).store.pick_orders@,
                old(self).store.waves@[key_index(old(self).store.waves@, input.wave_id@)].pick_ids@,
            ),
            r is Err ==> final(self).store == old(self).store,
            r is Ok ==> {
                let i = key_index(old(self).store.waves@, input.wave_id@);
                final(self).store.waves@ == old(self).store.waves@.update(
                    i,
                    Wave { status: WaveStatus::Completed, completed_at: Some(now), ..old(self).store.waves@[i] },
                )
            },
            final(self).store.pick_orders == old(self).store.pick_orders,
            final(self).store.cycle_counts == old(self).store.cycle_counts,
            final(self).store.labels == old(self).store.labels,
            final(self).store.keeps_stock(old(self).store),
            final(self).store.keeps_catalog(old(self).store),
            final(self).store.keeps_tracking(old(self).store),
            final(self).same_config(*old(self)),
    {
        let wi = match find_key(&self.store.waves, &input.wave_id) {
            Some(i) => i,
            None => {
                return Err(InventoryError::WaveNotFound);
            },
        };
        proof {
            lemma_key_index(self.store.waves@, input.wave_id@);
            lemma_key_index(self.store.pick_orders@, input.wave_id@);
        }
        let ids = &self.store.waves[wi].pick_ids;
        let mut k: usize = 0;
        while k < ids.len()
            invariant
                k <= ids.len(),
                *self == *old(self),
                old(self).store.wf(),
                has_key(old(self).store.waves@, input.wave_id@),
                wi as int == key_index(old(self).store.waves@, input.wave_id@),
                wi < self.store.waves@.len(),
                ids@ == self.store.waves@[wi as int].pick_ids@,
                forall|j: int| 0 <= j < k ==> !#[trigger] unshipped_at(self.store.pick_orders@, ids@[j]@),
            decreases ids.len() - k,
        {
            proof {
                lemma_key_index(self.store.pick_orders@, ids@[k as int]@);
            }
            match find_key(&self.store.pick_orders, &ids[k]) {
                Some(p) => {
                    let shipped = match self.store.pick_orders[p].status {
                        PickStatus::Shipped => true,
                        _ => false,
                    };
                    if !shipped {
                        assert(unshipped_at(self.store.pick_orders@, ids@[k as int]@));
                        return Err(InventoryError::WavePicksNotShipped);
                    }
                },
                None => {},
            }
            k = k + 1;
        }
        let ghost w0 = self.store.waves@;
        let mut w = self.store.waves.remove(wi);
        w.status = WaveStatus::Completed;
        w.completed_at = Some(now);
        proof {
            lemma_update_keyed(w0, wi as int, w);
        }
        self.store.waves.insert(wi, w);
        assert(self.store.waves@ =~= w0.update(wi as int, w));
        Ok(())
    }

    /// The waves.
    pub fn wave_list(&self) -> (r: Vec<Wave>)
        ensures
            r@.len() == self.store.waves@.len(),
            forall|i: int| 0 <= i < r@.len() ==> #[trigger] r@[i].same(self.store.waves@[i]),
    {
        let mut r: Vec<Wave> = Vec::new();
        let mut i: usize = 0;
        while i < self.store.waves.len()
            invariant
                i <= self.store.waves.len(),
                r@.len() == i,
                forall|k: int| 0 <= k < i ==> #[trigger] r@[k].same(self.store.waves@[k]),
            decreases self.store.waves.len() - i,
        {
            r.push(self.store.waves[i].clone());
            i = i + 1;
        }
        r
    }
}

} // verus!
