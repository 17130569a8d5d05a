use vstd::prelude::*;
use crate::stock_ops::{first_reservation, is_first_reservation};
use crate::store::{
    available, has_level, in_range, lemma_level_index, lemma_push_new_key, lemma_update_same_key,
    level_index, level_set, levels_bounded, levels_unique, movement_fits, moved, on_hand,
    reserved_at, reserved_more, level_in_range,
};
use crate::catalog::shortages_for;
use crate::counts::discrepancies_for;
use crate::inputs::{CountEntry, PickedSku};
use crate::picking::{confirmed_line, first_picked, ship_log, shipped, shipped_lines};
use crate::totals::{lemma_total_on_hand_push, lemma_total_on_hand_update, total_on_hand, units_at};
use crate::types::{BomEntry, LineStatus, PickLine, PickOrder, Reservation, StockLevel, StockMovement};

verus! {

/// After `t` replaced position `i` of `s` by a level with the same SKU and location,
/// every other pair is looked up as before.
proof fn lemma_others_after_update(s: Seq<StockLevel>, i: int, x: StockLevel, sku: Seq<char>, loc: Seq<char>)
    requires
        levels_unique(s),
        0 <= i < s.len(),
        x.sku@ == s[i].sku@,
        x.location_id@ == s[i].location_id@,
        !(sku == s[i].sku@ && loc == s[i].location_id@),
    ensures
        on_hand(s.update(i, x), sku, loc) == on_hand(s, sku, loc),
        reserved_at(s.update(i, x), sku, loc) == reserved_at(s, sku, loc),
{
    lemma_update_same_key(s, i, x);
    assert(level_index(s.update(i, x), sku, loc) == level_index(s, sku, loc));
    lemma_level_index(s, sku, loc);
    if has_level(s, sku, loc) {
        assert(level_index(s, sku, loc) != i);
    }
}

/// Law: a receipt adds its quantity to what is on hand (and so to what is available)
/// of its SKU at its location, leaves what is reserved there as it was, and leaves
/// every other SKU and location as they were.
pub proof fn law_receipt_adds(s: Seq<StockLevel>, m: StockMovement, now: String, sku: Seq<char>, loc: Seq<char>)
    requires
        levels_unique(s),
        levels_bounded(s),
        m.from_location is None,
        m.to_location is Some,
        movement_fits(s, m),
    ensures
        on_hand(moved(s, m, now), m.sku@, m.to_location.unwrap()@) == on_hand(s, m.sku@, m.to_location.unwrap()@)
            + m.quantity,
        reserved_at(moved(s, m, now), m.sku@, m.to_location.unwrap()@) == reserved_at(
            s,
            m.sku@,
            m.to_location.unwrap()@,
        ),
        available(moved(s, m, now), m.sku@, m.to_location.unwrap()@) == available(
            s,
            m.sku@,
            m.to_location.unwrap()@,
        ) + m.quantity,
        !(sku == m.sku@ && loc == m.to_location.unwrap()@) ==> on_hand(moved(s, m, now), sku, loc) == on_hand(
            s,
            sku,
            loc,
        ) && reserved_at(moved(s, m, now), sku, loc) == reserved_at(s, sku, loc),
{
    let t = m.to_location.unwrap();
    let q = m.quantity as int;
    lemma_level_index(s, m.sku@, t@);
    let i = level_index(s, m.sku@, t@);
    let r = moved(s, m, now);
    if i >= 0 {
        assert(level_in_range(s[i]));
        let x = StockLevel { quantity: (s[i].quantity + q) as i64, updated_at: now, ..s[i] };
        assert(r == s.update(i, x));
        lemma_update_same_key(s, i, x);
        if !(sku == m.sku@ && loc == t@) {
            lemma_others_after_update(s, i, x, sku, loc);
        }
    } else {
        let x = StockLevel {
            sku: m.sku,
            location_id: t,
            quantity: q as i64,
            reserved: 0,
            lot_number: m.lot_number,
            expiry_date: None,
            updated_at: now,
        };
        assert(r == s.push(x));
        lemma_push_new_key(s, x);
        assert(level_index(r, m.sku@, t@) == s.len());
        if !(sku == m.sku@ && loc == t@) {
            assert(level_index(r, sku, loc) == level_index(s, sku, loc));
        }
    }
}

/// Law: an issue from a location where the SKU is kept takes its quantity off what
/// is on hand there and leaves everything else as it was; from a location where it
/// is not kept, it changes nothing.
pub proof fn law_issue_takes(s: Seq<StockLevel>, m: StockMovement, now: String, sku: Seq<char>, loc: Seq<char>)
    requires
        levels_unique(s),
        levels_bounded(s),
        m.from_location is Some,
        m.to_location is None,
        movement_fits(s, m),
    ensures
        has_level(s, m.sku@, m.from_location.unwrap()@) ==> on_hand(
            moved(s, m, now),
            m.sku@,
            m.from_location.unwrap()@,
        ) == on_hand(s, m.sku@, m.from_location.unwrap()@) - m.quantity && reserved_at(
            moved(s, m, now),
            m.sku@,
            m.from_location.unwrap()@,
        ) == reserved_at(s, m.sku@, m.from_location.unwrap()@),
        !has_level(s, m.sku@, m.from_location.unwrap()@) ==> moved(s, m, now) == s,
        !(sku == m.sku@ && loc == m.from_location.unwrap()@) ==> on_hand(moved(s, m, now), sku, loc) == on_hand(
            s,
            sku,
            loc,
        ) && reserved_at(moved(s, m, now), sku, loc) == reserved_at(s, sku, loc),
{
    let f = m.from_location.unwrap();
    let q = m.quantity as int;
    lemma_level_index(s, m.sku@, f@);
    let i = level_index(s, m.sku@, f@);
    let r = moved(s, m, now);
    if i >= 0 {
        assert(level_in_range(s[i]));
        let x = StockLevel { quantity: (s[i].quantity - q) as i64, updated_at: now, ..s[i] };
        assert(r == s.update(i, x));
        lemma_update_same_key(s, i, x);
        if !(sku == m.sku@ && loc == f@) {
            lemma_others_after_update(s, i, x, sku, loc);
        }
    }
}

/// Law: stock is never oversold. An issue that the availability check lets through
/// leaves the available quantity at its location non-negative.
pub proof fn law_issue_never_oversells(s: Seq<StockLevel>, m: StockMovement, now: String)
    requires
        levels_unique(s),
        levels_bounded(s),
        m.from_location is Some,
        m.to_location is None,
        movement_fits(s, m),
        available(s, m.sku@, m.from_location.unwrap()@) >= m.quantity,
    ensures
        available(moved(s, m, now), m.sku@, m.from_location.unwrap()@) >= 0,
{
    law_issue_takes(s, m, now, m.sku@, m.from_location.unwrap()@);
    lemma_level_index(s, m.sku@, m.from_location.unwrap()@);
}

/// Law: a transfer between two locations out of a level that exists moves its
/// quantity from one to the other: the source loses it, the destination gains it,
/// the SKU's total on hand over all locations is unchanged, and every other SKU
/// and location is as it was.
pub proof fn law_transfer_conserves(s: Seq<StockLevel>, m: StockMovement, now: String, sku: Seq<char>, loc: Seq<char>)
    requires
        levels_unique(s),
        levels_bounded(s),
        m.from_location is Some,
        m.to_location is Some,
        m.from_location.unwrap()@ != m.to_location.unwrap()@,
        has_level(s, m.sku@, m.from_location.unwrap()@),
        movement_fits(s, m),
    ensures
        on_hand(moved(s, m, now), m.sku@, m.from_location.unwrap()@) == on_hand(
            s,
            m.sku@,
            m.from_location.unwrap()@,
        ) - m.quantity,
        on_hand(moved(s, m, now), m.sku@, m.to_location.unwrap()@) == on_hand(s, m.sku@, m.to_location.unwrap()@)
            + m.quantity,
        total_on_hand(moved(s, m, now), m.sku@) == total_on_hand(s, m.sku@),
        !(sku == m.sku@ && (loc == m.from_location.unwrap()@ || loc == m.to_location.unwrap()@)) ==> on_hand(
            moved(s, m, now),
            sku,
            loc,
        ) == on_hand(s, sku, loc) && reserved_at(moved(s, m, now), sku, loc) == reserved_at(s, sku, loc),
{
    let f = m.from_location.unwrap();
    let t = m.to_location.unwrap();
    let q = m.quantity as int;
    lemma_level_index(s, m.sku@, f@);
    lemma_level_index(s, m.sku@, t@);
    let i = level_index(s, m.sku@, f@);
    assert(level_in_range(s[i]));
    let x = StockLevel { quantity: (s[i].quantity - q) as i64, updated_at: now, ..s[i] };
    let s1 = s.update(i, x);
    lemma_update_same_key(s, i, x);
    assert(level_index(s1, m.sku@, t@) == level_index(s, m.sku@, t@));
    assert(level_index(s1, m.sku@, f@) == i);
    lemma_total_on_hand_update(s, i, x, m.sku@);
    lemma_level_index(s1, m.sku@, t@);
    let j = level_index(s1, m.sku@, t@);
    let r = moved(s, m, now);
    if !(sku == m.sku@ && loc == f@) {
        lemma_others_after_update(s, i, x, sku, loc);
    }
    if j >= 0 {
        assert(j != i);
        assert(level_in_range(s[j]));
        let y = StockLevel { quantity: (s1[j].quantity + q) as i64, updated_at: now, ..s1[j] };
        assert(r == s1.update(j, y));
        lemma_update_same_key(s1, j, y);
        lemma_total_on_hand_update(s1, j, y, m.sku@);
        assert(level_index(r, m.sku@, f@) == i);
        if !(sku == m.sku@ && loc == t@) {
            lemma_others_after_update(s1, j, y, sku, loc);
        }
    } else {
        let y = StockLevel {
            sku: m.sku,
            location_id: t,
            quantity: q as i64,
            reserved: 0,
            lot_number: m.lot_number,
            expiry_date: None,
            updated_at: now,
        };
        assert(r == s1.push(y));
        lemma_push_new_key(s1, y);
        lemma_total_on_hand_push(s1, y, m.sku@);
        assert(level_index(r, m.sku@, f@) == i);
        if !(sku == m.sku@ && loc == t@) {
            assert(level_index(r, sku, loc) == level_index(s1, sku, loc));
        }
    }
}

/// Law: a reservation takes its quantity off what is available where the SKU is
/// kept, without touching what is on hand; releasing it restores the levels exactly.
pub proof fn law_reserve_release_roundtrip(s: Seq<StockLevel>, sku: Seq<char>, loc: Seq<char>, q: int)
    requires
        levels_unique(s),
        levels_bounded(s),
        in_range(q),
        has_level(s, sku, loc) ==> in_range(reserved_at(s, sku, loc) + q),
    ensures
        on_hand(reserved_more(s, sku, loc, q), sku, loc) == on_hand(s, sku, loc),
        has_level(s, sku, loc) ==> available(reserved_more(s, sku, loc, q), sku, loc) == available(s, sku, loc) - q,
        reserved_more(reserved_more(s, sku, loc, q), sku, loc, -q) == s,
{
    lemma_level_index(s, sku, loc);
    let i = level_index(s, sku, loc);
    if i >= 0 {
        assert(level_in_range(s[i]));
        let x = StockLevel { reserved: (s[i].reserved + q) as i64, ..s[i] };
        let s1 = s.update(i, x);
        lemma_update_same_key(s, i, x);
        assert(level_index(s1, sku, loc) == i);
        let y = StockLevel { reserved: (s1[i].reserved - q) as i64, ..s1[i] };
        assert(y == s[i]);
        assert(s1.update(i, y) =~= s);
    }
}

/// Law: a reservation never oversells. One that the availability check lets
/// through leaves the available quantity at its location non-negative.
pub proof fn law_reserve_never_oversells(s: Seq<StockLevel>, sku: Seq<char>, loc: Seq<char>, q: int)
    requires
        levels_unique(s),
        levels_bounded(s),
        in_range(q),
        has_level(s, sku, loc) ==> in_range(reserved_at(s, sku, loc) + q),
        available(s, sku, loc) >= q,
    ensures
        available(reserved_more(s, sku, loc, q), sku, loc) >= 0,
{
    law_reserve_release_roundtrip(s, sku, loc, q);
    lemma_level_index(s, sku, loc);
}

/// Law: the reservation just made under a fresh ID is the one that a release of
/// that ID finds, and removing it leaves the reservations as they were before.
pub proof fn law_release_finds_new_reservation(rs: Seq<Reservation>, res: Reservation)
    requires
        forall|j: int| 0 <= j < rs.len() ==> #[trigger] rs[j].id@ != res.id@,
    ensures
        first_reservation(rs.push(res), res.id@) == rs.len(),
        rs.push(res).remove(rs.len() as int) == rs,
{
    let t = rs.push(res);
    assert(is_first_reservation(t, res.id@, rs.len() as int)) by {
        assert forall|j: int| 0 <= j < rs.len() implies #[trigger] t[j].id@ != res.id@ by {
            assert(t[j] == rs[j]);
        }
    }
    crate::stock_ops::lemma_first_reservation(t, res.id@, rs.len() as int);
    assert(t.remove(rs.len() as int) =~= rs);
}

/// Law: after an adjustment the level holds exactly the new quantity, and every
/// other SKU and location is as it was.
pub proof fn law_adjust_sets(
    s: Seq<StockLevel>,
    sku: String,
    loc: String,
    q: int,
    expiry: Option<String>,
    now: String,
    sku2: Seq<char>,
    loc2: Seq<char>,
)
    requires
        levels_unique(s),
        in_range(q),
    ensures
        on_hand(level_set(s, sku, loc, q, expiry, now), sku@, loc@) == q,
        !(sku2 == sku@ && loc2 == loc@) ==> on_hand(level_set(s, sku, loc, q, expiry, now), sku2, loc2) == on_hand(
            s,
            sku2,
            loc2,
        ) && reserved_at(level_set(s, sku, loc, q, expiry, now), sku2, loc2) == reserved_at(s, sku2, loc2),
{
    lemma_level_index(s, sku@, loc@);
    let i = level_index(s, sku@, loc@);
    if i >= 0 {
        let x = StockLevel { quantity: q as i64, updated_at: now, ..s[i] };
        lemma_update_same_key(s, i, x);
        if !(sku2 == sku@ && loc2 == loc@) {
            lemma_others_after_update(s, i, x, sku2, loc2);
        }
    } else {
        let x = StockLevel {
            sku: sku,
            location_id: loc,
            quantity: q as i64,
            reserved: 0,
            lot_number: None,
            expiry_date: expiry,
            updated_at: now,
        };
        lemma_push_new_key(s, x);
        if !(sku2 == sku@ && loc2 == loc@) {
            assert(level_index(s.push(x), sku2, loc2) == level_index(s, sku2, loc2));
        }
    }
}

/// The total picked quantity of the lines that ship `sku` from `loc`: those with a
/// positive picked quantity.
pub open spec fn picked_total(lines: Seq<PickLine>, sku: Seq<char>, loc: Seq<char>) -> int
    decreases lines.len(),
{
    if lines.len() == 0 {
        0
    } else {
        picked_total(lines.drop_last(), sku, loc) + if lines.last().sku@ == sku && lines.last().from_location@ == loc
            && lines.last().picked_qty > 0 {
            lines.last().picked_qty as int
        } else {
            0
        }
    }
}

/// Law: shipping takes exactly what was picked. Where the SKU is kept at a location,
/// what is on hand there drops by the total picked quantity of the lines shipping it
/// from there (a short line takes out only what was picked); what is reserved does
/// not change, and no level is added or removed.
pub proof fn law_ship_takes_picked(s: Seq<StockLevel>, lines: Seq<PickLine>, now: String, sku: Seq<char>, loc: Seq<char>)
    requires
        levels_unique(s),
        shipped(s, lines, now) is Some,
    ensures
        levels_unique(shipped(s, lines, now).unwrap()),
        has_level(shipped(s, lines, now).unwrap(), sku, loc) == has_level(s, sku, loc),
        reserved_at(shipped(s, lines, now).unwrap(), sku, loc) == reserved_at(s, sku, loc),
        on_hand(shipped(s, lines, now).unwrap(), sku, loc) == on_hand(s, sku, loc) - (if has_level(s, sku, loc) {
            picked_total(lines, sku, loc)
        } else {
            0
        }),
    decreases lines.len(),
{
    if lines.len() > 0 {
        let d = lines.drop_last();
        let l = lines.last();
        assert(shipped(s, d, now) is Some);
        law_ship_takes_picked(s, d, now, sku, loc);
        law_ship_takes_picked(s, d, now, l.sku@, l.from_location@);
        let s1 = shipped(s, d, now).unwrap();
        let t = shipped(s, lines, now).unwrap();
        lemma_level_index(s1, l.sku@, l.from_location@);
        lemma_level_index(s1, sku, loc);
        let i = level_index(s1, l.sku@, l.from_location@);
        if l.picked_qty > 0 && i >= 0 {
            let x = StockLevel { quantity: (s1[i].quantity - l.picked_qty) as i64, updated_at: now, ..s1[i] };
            assert(t == s1.update(i, x));
            lemma_update_same_key(s1, i, x);
            if sku == l.sku@ && loc == l.from_location@ {
                lemma_level_index(t, sku, loc);
                assert(level_index(t, sku, loc) == i);
            } else {
                lemma_others_after_update(s1, i, x, sku, loc);
                assert(has_level(t, sku, loc) == has_level(s1, sku, loc));
            }
        } else {
            assert(t == s1);
        }
    }
}

/// Law: a pick confirmation marks a line that an entry names as picked exactly when
/// the quantity confirmed for it (the entry's, or the whole line where the entry gives
/// none) covers the line's quantity, and as short otherwise; the line keeps its SKU,
/// quantity and location. A line that no entry names stays as it was.
pub proof fn law_confirm_picked_or_short(line: PickLine, picked: Seq<PickedSku>)
    ensures
        first_picked(picked, line.sku@) >= 0 ==> {
            let n = confirmed_line(line, picked);
            let e = picked[first_picked(picked, line.sku@)];
            &&& n.picked_qty == match e.quantity {
                Some(q) => q,
                None => line.quantity,
            }
            &&& (n.status is Picked <==> n.picked_qty >= line.quantity)
            &&& (n.status is Short <==> n.picked_qty < line.quantity)
            &&& n.sku == line.sku && n.quantity == line.quantity && n.from_location == line.from_location
        },
        first_picked(picked, line.sku@) < 0 ==> confirmed_line(line, picked) == line,
{
}

/// Law: a bill of materials is short exactly where some component's available
/// quantity at the location (on hand less reserved), in thousandths, falls below its
/// quantity per unit times the units to build; each shortage reports that available
/// quantity.
pub proof fn law_bom_short_exactly_when_unavailable(entries: Seq<BomEntry>, stock: Seq<StockLevel>, loc: Seq<char>, qty: i64)
    requires
        levels_unique(stock),
        levels_bounded(stock),
    ensures
        shortages_for(entries, stock, loc, qty as int).len() == 0 <==> forall|j: int|
            0 <= j < entries.len() ==> available(stock, #[trigger] entries[j].component_sku@, loc) * 1000
                >= entries[j].quantity * qty,
        forall|j: int|
            0 <= j < shortages_for(entries, stock, loc, qty as int).len() ==> {
                let x = #[trigger] shortages_for(entries, stock, loc, qty as int)[j];
                &&& x.available as int == available(stock, x.sku@, loc)
                &&& x.available * 1000 < x.needed
                &&& x.shortage == x.needed - x.available * 1000
            },
    decreases entries.len(),
{
    if entries.len() > 0 {
        let d = entries.drop_last();
        let e = entries.last();
        law_bom_short_exactly_when_unavailable(d, stock, loc, qty);
        crate::store::lemma_lookup_in_range(stock, e.component_sku@, loc);
        let prev = shortages_for(d, stock, loc, qty as int);
        let all = shortages_for(entries, stock, loc, qty as int);
        assert forall|j: int| 0 <= j < d.len() implies #[trigger] d[j] == entries[j] by {}
        if all.len() == 0 {
            assert forall|j: int| 0 <= j < entries.len() implies available(stock, #[trigger] entries[j].component_sku@, loc)
                * 1000 >= entries[j].quantity * qty by {
                if j < d.len() {
                    assert(d[j] == entries[j]);
                    assert(available(stock, d[j].component_sku@, loc) * 1000 >= d[j].quantity * qty);
                }
            }
        }
        if forall|j: int| 0 <= j < entries.len() ==> available(stock, #[trigger] entries[j].component_sku@, loc) * 1000
            >= entries[j].quantity * qty {
            assert forall|j: int| 0 <= j < d.len() implies available(stock, #[trigger] d[j].component_sku@, loc) * 1000
                >= d[j].quantity * qty by {
                assert(d[j] == entries[j]);
            }
            assert(available(stock, entries[entries.len() - 1].component_sku@, loc) * 1000 >= e.quantity * qty);
        }
        assert forall|j: int| 0 <= j < all.len() implies {
            let x = #[trigger] all[j];
            &&& x.available as int == available(stock, x.sku@, loc)
            &&& x.available * 1000 < x.needed
            &&& x.shortage == x.needed - x.available * 1000
        } by {
            if j < prev.len() {
                assert(all[j] == prev[j]);
            } else {
                let a = e.quantity as int;
                let b = qty as int;
                assert(-0x4000_0000_0000_0000_0000_0000_0000_0000 <= a * b <= 0x4000_0000_0000_0000_0000_0000_0000_0000)
                    by (nonlinear_arith)
                    requires
                        -0x8000_0000_0000_0000 <= a <= 0x8000_0000_0000_0000,
                        -0x8000_0000_0000_0000 <= b <= 0x8000_0000_0000_0000,
                ;
            }
        }
    }
}

/// Reserving stock changes no on-hand quantity.
proof fn lemma_reserve_keeps_on_hand(s: Seq<StockLevel>, sku: Seq<char>, loc: Seq<char>, q: int, x: Seq<char>, y: Seq<char>)
    requires
        levels_unique(s),
    ensures
        on_hand(reserved_more(s, sku, loc, q), x, y) == on_hand(s, x, y),
{
    lemma_level_index(s, sku, loc);
    lemma_level_index(s, x, y);
    let i = level_index(s, sku, loc);
    if i >= 0 {
        let z = StockLevel { reserved: (s[i].reserved + q) as i64, ..s[i] };
        lemma_update_same_key(s, i, z);
        assert(level_index(s.update(i, z), x, y) == level_index(s, x, y));
    }
}

/// Law: reserving or releasing stock never changes what a cycle count finds: the
/// counts are compared with what is on hand, which a reservation does not touch.
pub proof fn law_reserve_keeps_discrepancies(
    counts: Seq<CountEntry>,
    s: Seq<StockLevel>,
    sku: Seq<char>,
    loc: Seq<char>,
    q: int,
    counted: Seq<char>,
)
    requires
        levels_unique(s),
    ensures
        discrepancies_for(counts, reserved_more(s, sku, loc, q), counted) == discrepancies_for(counts, s, counted),
    decreases counts.len(),
{
    if counts.len() > 0 {
        law_reserve_keeps_discrepancies(counts.drop_last(), s, sku, loc, q, counted);
        let c = counts.last();
        lemma_reserve_keeps_on_hand(s, sku, loc, q, crate::stock_ops::text_or_empty(c.sku), counted);
    }
}

/// The quantity a count entry reports (0 where it gives none).
pub open spec fn counted_qty(c: CountEntry) -> int {
    match c.actual_qty {
        Some(a) => a as int,
        None => 0,
    }
}

/// Law: a cycle count compares each counted SKU with what is on hand of it at the
/// counted location, reserved units included. Every discrepancy it reports carries
/// that on-hand quantity as the system quantity, the counted quantity, and their
/// difference, which exceeds the tolerance; and it reports none exactly when every
/// count is within the tolerance of what is on hand.
pub proof fn law_count_compares_on_hand(counts: Seq<CountEntry>, s: Seq<StockLevel>, counted: Seq<char>)
    ensures
        forall|j: int|
            0 <= j < discrepancies_for(counts, s, counted).len() ==> {
                let d = #[trigger] discrepancies_for(counts, s, counted)[j];
                &&& d.1 == on_hand(s, d.0, counted)
                &&& d.3 == d.2 - d.1
                &&& (d.3 > crate::counts::COUNT_TOLERANCE || d.3 < -crate::counts::COUNT_TOLERANCE)
            },
        discrepancies_for(counts, s, counted).len() == 0 <==> forall|j: int|
            0 <= j < counts.len() ==> -crate::counts::COUNT_TOLERANCE <= counted_qty(#[trigger] counts[j]) - on_hand(
                s,
                crate::stock_ops::text_or_empty(counts[j].sku),
                counted,
            ) <= crate::counts::COUNT_TOLERANCE,
    decreases counts.len(),
{
    if counts.len() > 0 {
        let dl = counts.drop_last();
        law_count_compares_on_hand(dl, s, counted);
        let prev = discrepancies_for(dl, s, counted);
        let all = discrepancies_for(counts, s, counted);
        assert forall|j: int| 0 <= j < all.len() implies {
            let d = #[trigger] all[j];
            &&& d.1 == on_hand(s, d.0, counted)
            &&& d.3 == d.2 - d.1
            &&& (d.3 > crate::counts::COUNT_TOLERANCE || d.3 < -crate::counts::COUNT_TOLERANCE)
        } by {
            if j < prev.len() {
                assert(all[j] == prev[j]);
            }
        }
        assert forall|j: int| 0 <= j < dl.len() implies #[trigger] dl[j] == counts[j] by {}
        if all.len() == 0 {
            assert forall|j: int| 0 <= j < counts.len() implies -crate::counts::COUNT_TOLERANCE <= counted_qty(
                #[trigger] counts[j],
            ) - on_hand(s, crate::stock_ops::text_or_empty(counts[j].sku), counted) <= crate::counts::COUNT_TOLERANCE by {
                if j < dl.len() {
                    assert(dl[j] == counts[j]);
                    assert(-crate::counts::COUNT_TOLERANCE <= counted_qty(dl[j]) - on_hand(
                        s,
                        crate::stock_ops::text_or_empty(dl[j].sku),
                        counted,
                    ) <= crate::counts::COUNT_TOLERANCE);
                }
            }
        }
        if forall|j: int|
            0 <= j < counts.len() ==> -crate::counts::COUNT_TOLERANCE <= counted_qty(#[trigger] counts[j]) - on_hand(
                s,
                crate::stock_ops::text_or_empty(counts[j].sku),
                counted,
            ) <= crate::counts::COUNT_TOLERANCE {
            assert forall|j: int| 0 <= j < dl.len() implies -crate::counts::COUNT_TOLERANCE <= counted_qty(
                #[trigger] dl[j],
            ) - on_hand(s, crate::stock_ops::text_or_empty(dl[j].sku), counted) <= crate::counts::COUNT_TOLERANCE by {
                assert(dl[j] == counts[j]);
            }
            let n = counts.len() - 1;
            assert(-crate::counts::COUNT_TOLERANCE <= counted_qty(counts[n]) - on_hand(
                s,
                crate::stock_ops::text_or_empty(counts[n].sku),
                counted,
            ) <= crate::counts::COUNT_TOLERANCE);
        }
    }
}

/// What a level contributes to the units used at a location.
pub open spec fn units_of_level(l: StockLevel, loc: Seq<char>) -> int {
    if l.location_id@ == loc {
        l.quantity as int
    } else {
        0
    }
}

/// Replacing one level changes the units at a location by the difference of the two.
proof fn lemma_units_at_update(s: Seq<StockLevel>, i: int, x: StockLevel, loc: Seq<char>)
    requires
        0 <= i < s.len(),
    ensures
        units_at(s.update(i, x), loc) == units_at(s, loc) - units_of_level(s[i], loc) + units_of_level(x, loc),
    decreases s.len(),
{
    let t = s.update(i, x);
    if i == s.len() - 1 {
        assert(t.drop_last() =~= s.drop_last());
    } else {
        assert(t.drop_last() =~= s.drop_last().update(i, x));
        lemma_units_at_update(s.drop_last(), i, x, loc);
    }
}

/// Law: reserving or releasing stock never changes the units used at any location:
/// reserved units still occupy it.
pub proof fn law_reserve_keeps_units(s: Seq<StockLevel>, sku: Seq<char>, loc: Seq<char>, q: int, at: Seq<char>)
    ensures
        units_at(reserved_more(s, sku, loc, q), at) == units_at(s, at),
{
    let i = level_index(s, sku, loc);
    if i >= 0 && i < s.len() {
        let z = StockLevel { reserved: (s[i].reserved + q) as i64, ..s[i] };
        lemma_units_at_update(s, i, z, at);
    }
}

/// Law: a receipt of `q` into a location raises the units used there by `q` and
/// leaves every other location as it was.
pub proof fn law_receipt_adds_units(s: Seq<StockLevel>, m: StockMovement, now: String, at: Seq<char>)
    requires
        levels_unique(s),
        levels_bounded(s),
        m.from_location is None,
        m.to_location is Some,
        movement_fits(s, m),
    ensures
        units_at(moved(s, m, now), at) == units_at(s, at) + if m.to_location.unwrap()@ == at {
            m.quantity as int
        } else {
            0
        },
{
    let t = m.to_location.unwrap();
    lemma_level_index(s, m.sku@, t@);
    let i = level_index(s, m.sku@, t@);
    let r = moved(s, m, now);
    if i >= 0 {
        assert(level_in_range(s[i]));
        let x = StockLevel { quantity: (s[i].quantity + m.quantity) as i64, updated_at: now, ..s[i] };
        assert(r == s.update(i, x));
        lemma_units_at_update(s, i, x, at);
    } else {
        let x = StockLevel {
            sku: m.sku,
            location_id: t,
            quantity: (m.quantity as int) as i64,
            reserved: 0,
            lot_number: m.lot_number,
            expiry_date: None,
            updated_at: now,
        };
        assert(r == s.push(x));
        assert(r.drop_last() =~= s);
    }
}

/// The total quantity that the movements issue of `sku` from `loc`.
pub open spec fn issued_total(ms: Seq<StockMovement>, sku: Seq<char>, loc: Seq<char>) -> int
    decreases ms.len(),
{
    if ms.len() == 0 {
        0
    } else {
        issued_total(ms.drop_last(), sku, loc) + if ms.last().sku@ == sku && match ms.last().from_location {
            Some(f) => f@ == loc,
            None => false,
        } {
            ms.last().quantity as int
        } else {
            0
        }
    }
}

/// Movements that issue, one for one, what lines that all ship something pick
/// issue their total picked quantity.
proof fn lemma_issued_matches_lines(ms: Seq<StockMovement>, ls: Seq<PickLine>, sku: Seq<char>, loc: Seq<char>)
    requires
        ms.len() == ls.len(),
        forall|i: int|
            0 <= i < ms.len() ==> (#[trigger] ms[i]).sku == ls[i].sku && ms[i].from_location == Some(ls[i].from_location)
                && ms[i].quantity == ls[i].picked_qty && ls[i].picked_qty > 0,
    ensures
        issued_total(ms, sku, loc) == picked_total(ls, sku, loc),
    decreases ms.len(),
{
    if ms.len() > 0 {
        let n = ms.len() - 1;
        assert(ms[n].sku == ls[n].sku);
        assert forall|i: int| 0 <= i < ms.drop_last().len() implies (#[trigger] ms.drop_last()[i]).sku == ls.drop_last()[i].sku
            && ms.drop_last()[i].from_location == Some(ls.drop_last()[i].from_location) && ms.drop_last()[i].quantity
            == ls.drop_last()[i].picked_qty && ls.drop_last()[i].picked_qty > 0 by {
            assert(ms[i].sku == ls[i].sku);
        }
        lemma_issued_matches_lines(ms.drop_last(), ls.drop_last(), sku, loc);
    }
}

/// Leaving out the lines that pick nothing leaves the picked totals as they are.
proof fn lemma_picked_total_shipped_lines(lines: Seq<PickLine>, sku: Seq<char>, loc: Seq<char>)
    ensures
        picked_total(shipped_lines(lines), sku, loc) == picked_total(lines, sku, loc),
    decreases lines.len(),
{
    reveal_with_fuel(Seq::<_>::filter, 1);
    if lines.len() > 0 {
        lemma_picked_total_shipped_lines(lines.drop_last(), sku, loc);
        let p = |l: PickLine| l.picked_qty > 0;
        assert(lines.filter(p) == if p(lines.last()) {
            lines.drop_last().filter(p).push(lines.last())
        } else {
            lines.drop_last().filter(p)
        });
        if p(lines.last()) {
            assert(lines.filter(p).drop_last() =~= lines.drop_last().filter(p));
        }
    }
}

/// Law: the issue movements that a shipment records add up, for every SKU and
/// location, to exactly the quantities picked from there: the audit trail accounts
/// for every unit that shipping takes off the stock.
pub proof fn law_ship_log_accounts_for_picked(ms: Seq<StockMovement>, o: PickOrder, now: String, sku: Seq<char>, loc: Seq<char>)
    requires
        ship_log(ms, o, now),
    ensures
        issued_total(ms, sku, loc) == picked_total(o.lines@, sku, loc),
{
    let ls = shipped_lines(o.lines@);
    assert forall|i: int| 0 <= i < ms.len() implies (#[trigger] ms[i]).sku == ls[i].sku && ms[i].from_location == Some(
        ls[i].from_location,
    ) && ms[i].quantity == ls[i].picked_qty && ls[i].picked_qty > 0 by {
        o.lines@.lemma_filter_pred(|l: PickLine| l.picked_qty > 0, i);
    }
    lemma_issued_matches_lines(ms, ls, sku, loc);
    lemma_picked_total_shipped_lines(o.lines@, sku, loc);
}

} // verus!
