use vstd::prelude::*;
use vstd::string::*;
use crate::external::{is_lower_hex, now, uuid_v4_text};
use crate::keyed::{keys_unique, Keyed};
use crate::types::{
    clone_opt, BarcodeLabel, BomEntry, CycleCount, InventoryError, Item, Location, Milli, PickOrder,
    PutawayRule, Reservation, RfidTag, SerializedItem, StockLevel, StockMovement, Wave,
};

verus! {

/// Stock quantities and reserved amounts are held within plus or minus this many
/// thousandths (2^60, over a million billion units): within it, what is available
/// (on hand less reserved) fits in `i64`, and a sum over every level, and the
/// difference of two such sums, fits in `i128`.
pub const QTY_LIMIT: i64 = 1152921504606846976;

/// The quantity lies in the range that the store holds.
pub open spec fn in_range(q: int) -> bool {
    -QTY_LIMIT <= q <= QTY_LIMIT
}

/// The level is the one of this SKU at this location.
pub open spec fn level_at(l: StockLevel, sku: Seq<char>, loc: Seq<char>) -> bool {
    l.sku@ == sku && l.location_id@ == loc
}

/// No two stock levels share a SKU and a location.
pub open spec fn levels_unique(s: Seq<StockLevel>) -> bool {
    forall|i: int, j: int|
        #![trigger s[i], s[j]]
        0 <= i < s.len() && 0 <= j < s.len() && i != j ==> !level_at(s[i], s[j].sku@, s[j].location_id@)
}

/// The level's quantity and reservation total lie in range.
pub open spec fn level_in_range(l: StockLevel) -> bool {
    in_range(l.quantity as int) && in_range(l.reserved as int)
}

/// Every quantity and every reservation total lies in range.
pub open spec fn levels_bounded(s: Seq<StockLevel>) -> bool {
    forall|i: int| 0 <= i < s.len() ==> #[trigger] level_in_range(s[i])
}

/// Every reservation's quantity lies in range.
pub open spec fn reservations_bounded(s: Seq<Reservation>) -> bool {
    forall|i: int| 0 <= i < s.len() ==> in_range(#[trigger] s[i].quantity as int)
}

/// Some level is kept for this SKU at this location.
pub open spec fn has_level(s: Seq<StockLevel>, sku: Seq<char>, loc: Seq<char>) -> bool {
    exists|i: int| 0 <= i < s.len() && #[trigger] level_at(s[i], sku, loc)
}

/// The position of the level of this SKU at this location, or -1.
pub open spec fn level_index(s: Seq<StockLevel>, sku: Seq<char>, loc: Seq<char>) -> int {
    if has_level(s, sku, loc) {
        choose|i: int| 0 <= i < s.len() && #[trigger] level_at(s[i], sku, loc)
    } else {
        -1
    }
}

/// On-hand quantity of the SKU at the location (0 where no level is kept).
pub open spec fn on_hand(s: Seq<StockLevel>, sku: Seq<char>, loc: Seq<char>) -> int {
    let i = level_index(s, sku, loc);
    if i >= 0 { s[i].quantity as int } else { 0 }
}

/// Reserved quantity of the SKU at the location (0 where no level is kept).
pub open spec fn reserved_at(s: Seq<StockLevel>, sku: Seq<char>, loc: Seq<char>) -> int {
    let i = level_index(s, sku, loc);
    if i >= 0 { s[i].reserved as int } else { 0 }
}

/// Available quantity (on hand less reserved) of the SKU at the location.
pub open spec fn available(s: Seq<StockLevel>, sku: Seq<char>, loc: Seq<char>) -> int {
    on_hand(s, sku, loc) - reserved_at(s, sku, loc)
}

/// The levels after taking `q` out of the level of `sku` at `loc`, where there is one.
pub open spec fn withdrawn(s: Seq<StockLevel>, sku: Seq<char>, loc: Seq<char>, q: int, now: String) -> Seq<StockLevel> {
    let i = level_index(s, sku, loc);
    if i >= 0 {
        s.update(i, StockLevel { quantity: (s[i].quantity - q) as i64, updated_at: now, ..s[i] })
    } else {
        s
    }
}

/// The levels after putting `q` into the level of `sku` at `loc`, creating the level
/// (with nothing reserved and the given lot) where there is none.
pub open spec fn deposited(
    s: Seq<StockLevel>,
    sku: String,
    loc: String,
    q: int,
    lot: Option<String>,
    now: String,
) -> Seq<StockLevel> {
    let i = level_index(s, sku@, loc@);
    if i >= 0 {
        s.update(i, StockLevel { quantity: (s[i].quantity + q) as i64, updated_at: now, ..s[i] })
    } else {
        s.push(
            StockLevel {
                sku: sku,
                location_id: loc,
                quantity: q as i64,
                reserved: 0,
                lot_number: lot,
                expiry_date: None,
                updated_at: now,
            },
        )
    }
}

/// The levels after the first half of a movement: out of its source, if it has one.
pub open spec fn moved_out(s: Seq<StockLevel>, m: StockMovement, now: String) -> Seq<StockLevel> {
    match m.from_location {
        Some(f) => withdrawn(s, m.sku@, f@, m.quantity as int, now),
        None => s,
    }
}

/// The levels after a movement: out of its source, if it has one, then into its
/// destination, if it has one.
pub open spec fn moved(s: Seq<StockLevel>, m: StockMovement, now: String) -> Seq<StockLevel> {
    let s1 = moved_out(s, m, now);
    match m.to_location {
        Some(t) => deposited(s1, m.sku, t, m.quantity as int, m.lot_number, now),
        None => s1,
    }
}

/// The position of the level that a movement takes out of, or -1.
pub open spec fn source_index(s: Seq<StockLevel>, m: StockMovement) -> int {
    match m.from_location {
        Some(f) => level_index(s, m.sku@, f@),
        None => -1,
    }
}

/// The position of the level that a movement puts into, or -1 (also where the level
/// is yet to be created).
pub open spec fn target_index(s: Seq<StockLevel>, m: StockMovement) -> int {
    match m.to_location {
        Some(t) => level_index(s, m.sku@, t@),
        None => -1,
    }
}

/// A movement is recorded where its quantity, and every level that it changes, stays
/// in range (a movement out of and into the same level leaves it as it was).
pub open spec fn movement_fits(s: Seq<StockLevel>, m: StockMovement) -> bool {
    let q = m.quantity as int;
    let fi = source_index(s, m);
    let ti = target_index(s, m);
    &&& in_range(q)
    &&& (fi >= 0 && fi != ti ==> in_range(s[fi].quantity - q))
    &&& (ti >= 0 && ti != fi ==> in_range(s[ti].quantity + q))
}

/// The levels after setting the quantity of `sku` at `loc` to `q`, creating the level
/// (with nothing reserved, no lot and the given expiry) where there is none.
pub open spec fn level_set(
    s: Seq<StockLevel>,
    sku: String,
    loc: String,
    q: int,
    expiry: Option<String>,
    now: String,
) -> Seq<StockLevel> {
    let i = level_index(s, sku@, loc@);
    if i >= 0 {
        s.update(i, StockLevel { quantity: q as i64, updated_at: now, ..s[i] })
    } else {
        s.push(
            StockLevel {
                sku: sku,
                location_id: loc,
                quantity: q as i64,
                reserved: 0,
                lot_number: None,
                expiry_date: expiry,
                updated_at: now,
            },
        )
    }
}

/// The levels after adding `q` to the reserved quantity of `sku` at `loc`, where a
/// level is kept; nothing changes where none is.
pub open spec fn reserved_more(s: Seq<StockLevel>, sku: Seq<char>, loc: Seq<char>, q: int) -> Seq<StockLevel> {
    let i = level_index(s, sku, loc);
    if i >= 0 {
        s.update(i, StockLevel { reserved: (s[i].reserved + q) as i64, ..s[i] })
    } else {
        s
    }
}

/// The chosen position holds the level, and no other position does.
pub proof fn lemma_level_index(s: Seq<StockLevel>, sku: Seq<char>, loc: Seq<char>)
    requires
        levels_unique(s),
    ensures
        has_level(s, sku, loc) ==> 0 <= level_index(s, sku, loc) < s.len() && level_at(
            s[level_index(s, sku, loc)],
            sku,
            loc,
        ),
        has_level(s, sku, loc) ==> forall|j: int|
            0 <= j < s.len() && #[trigger] level_at(s[j], sku, loc) ==> j == level_index(s, sku, loc),
        !has_level(s, sku, loc) ==> level_index(s, sku, loc) == -1,
{
    if has_level(s, sku, loc) {
        let i = level_index(s, sku, loc);
        assert forall|j: int| 0 <= j < s.len() && #[trigger] level_at(s[j], sku, loc) implies j == i by {
            if j != i {
                assert(level_at(s[j], s[i].sku@, s[i].location_id@));
            }
        }
    }
}

/// The quantities looked up in well-formed levels lie in range.
pub proof fn lemma_lookup_in_range(s: Seq<StockLevel>, sku: Seq<char>, loc: Seq<char>)
    requires
        levels_unique(s),
        levels_bounded(s),
    ensures
        in_range(on_hand(s, sku, loc)),
        in_range(reserved_at(s, sku, loc)),
        -2 * QTY_LIMIT <= available(s, sku, loc) <= 2 * QTY_LIMIT,
{
    lemma_level_index(s, sku, loc);
    if has_level(s, sku, loc) {
        assert(level_in_range(s[level_index(s, sku, loc)]));
    }
}

/// Replacing a level by one with the same SKU and location keeps the lookup of `sku` at `loc`.
pub proof fn lemma_update_same_key_at(s: Seq<StockLevel>, i: int, x: StockLevel, sku: Seq<char>, loc: Seq<char>)
    requires
        levels_unique(s),
        levels_unique(s.update(i, x)),
        0 <= i < s.len(),
        x.sku@ == s[i].sku@,
        x.location_id@ == s[i].location_id@,
    ensures
        has_level(s.update(i, x), sku, loc) == has_level(s, sku, loc),
        level_index(s.update(i, x), sku, loc) == level_index(s, sku, loc),
{
    let t = s.update(i, x);
    lemma_level_index(s, sku, loc);
    lemma_level_index(t, sku, loc);
    if has_level(s, sku, loc) {
        let k = level_index(s, sku, loc);
        assert(level_at(t[k], sku, loc));
    }
    if has_level(t, sku, loc) {
        let k = level_index(t, sku, loc);
        assert(level_at(s[k], sku, loc));
    }
}

/// Replacing a level by one with the same SKU and location keeps every lookup.
pub proof fn lemma_update_same_key(s: Seq<StockLevel>, i: int, x: StockLevel)
    requires
        levels_unique(s),
        0 <= i < s.len(),
        x.sku@ == s[i].sku@,
        x.location_id@ == s[i].location_id@,
    ensures
        levels_unique(s.update(i, x)),
        forall|sku: Seq<char>, loc: Seq<char>|
            #![trigger level_index(s.update(i, x), sku, loc)]
            #![trigger has_level(s.update(i, x), sku, loc)]
            (has_level(s.update(i, x), sku, loc) == has_level(s, sku, loc)) && (level_index(
                s.update(i, x),
                sku,
                loc,
            ) == level_index(s, sku, loc)),
{
    let t = s.update(i, x);
    assert forall|a: int, b: int|
        #![trigger t[a], t[b]]
        0 <= a < t.len() && 0 <= b < t.len() && a != b implies !level_at(t[a], t[b].sku@, t[b].location_id@) by {
        assert(!level_at(s[a], s[b].sku@, s[b].location_id@));
    }
    assert forall|sku: Seq<char>, loc: Seq<char>|
        #![trigger level_index(s.update(i, x), sku, loc)]
        #![trigger has_level(s.update(i, x), sku, loc)]
        (has_level(s.update(i, x), sku, loc) == has_level(s, sku, loc)) && (level_index(s.update(i, x), sku, loc)
            == level_index(s, sku, loc)) by {
        lemma_update_same_key_at(s, i, x, sku, loc);
    }
}

/// Appending a level for a new SKU and location keeps the lookup of any other pair.
pub proof fn lemma_push_new_key_at(s: Seq<StockLevel>, x: StockLevel, sku: Seq<char>, loc: Seq<char>)
    requires
        levels_unique(s),
        levels_unique(s.push(x)),
        !(sku == x.sku@ && loc == x.location_id@),
    ensures
        has_level(s.push(x), sku, loc) == has_level(s, sku, loc),
        level_index(s.push(x), sku, loc) == level_index(s, sku, loc),
{
    let t = s.push(x);
    lemma_level_index(s, sku, loc);
    lemma_level_index(t, sku, loc);
    if has_level(s, sku, loc) {
        let k = level_index(s, sku, loc);
        assert(level_at(t[k], sku, loc));
    }
    if has_level(t, sku, loc) {
        let k = level_index(t, sku, loc);
        assert(level_at(s[k], sku, loc));
    }
}

/// Appending a level for a new SKU and location keeps every other lookup.
pub proof fn lemma_push_new_key(s: Seq<StockLevel>, x: StockLevel)
    requires
        levels_unique(s),
        !has_level(s, x.sku@, x.location_id@),
    ensures
        levels_unique(s.push(x)),
        level_index(s.push(x), x.sku@, x.location_id@) == s.len(),
        forall|sku: Seq<char>, loc: Seq<char>|
            #![trigger level_index(s.push(x), sku, loc)]
            #![trigger has_level(s.push(x), sku, loc)]
            !(sku == x.sku@ && loc == x.location_id@) ==> (has_level(s.push(x), sku, loc) == has_level(
                s,
                sku,
                loc,
            )) && (level_index(s.push(x), sku, loc) == level_index(s, sku, loc)),
{
    let t = s.push(x);
    assert forall|a: int, b: int|
        #![trigger t[a], t[b]]
        0 <= a < t.len() && 0 <= b < t.len() && a != b implies !level_at(t[a], t[b].sku@, t[b].location_id@) by {
        if a < s.len() && b < s.len() {
            assert(!level_at(s[a], s[b].sku@, s[b].location_id@));
        } else if a < s.len() {
            if level_at(s[a], x.sku@, x.location_id@) {
                assert(has_level(s, x.sku@, x.location_id@));
            }
        } else if b < s.len() {
            if level_at(s[b], x.sku@, x.location_id@) {
                assert(has_level(s, x.sku@, x.location_id@));
            }
        }
    }
    assert(level_at(t[s.len() as int], x.sku@, x.location_id@));
    lemma_level_index(t, x.sku@, x.location_id@);
    assert forall|sku: Seq<char>, loc: Seq<char>|
        #![trigger level_index(s.push(x), sku, loc)]
        #![trigger has_level(s.push(x), sku, loc)]
        !(sku == x.sku@ && loc == x.location_id@) implies (has_level(s.push(x), sku, loc) == has_level(s, sku, loc))
            && (level_index(s.push(x), sku, loc) == level_index(s, sku, loc)) by {
        lemma_push_new_key_at(s, x, sku, loc);
    }
}

/// The levels agree in everything but their update times.
pub open spec fn same_but_stamps(a: Seq<StockLevel>, b: Seq<StockLevel>) -> bool {
    &&& a.len() == b.len()
    &&& forall|i: int| 0 <= i < a.len() ==> #[trigger] a[i] == StockLevel { updated_at: a[i].updated_at, ..b[i] }
}

/// Levels with the same SKU and location at every position are looked up alike.
pub proof fn lemma_same_keys(u: Seq<StockLevel>, t: Seq<StockLevel>, sku: Seq<char>, loc: Seq<char>)
    requires
        levels_unique(t),
        u.len() == t.len(),
        forall|i: int| 0 <= i < t.len() ==> (#[trigger] u[i]).sku@ == t[i].sku@ && u[i].location_id@ == t[i].location_id@,
    ensures
        levels_unique(u),
        has_level(u, sku, loc) == has_level(t, sku, loc),
        level_index(u, sku, loc) == level_index(t, sku, loc),
{
    assert forall|a: int, b: int|
        #![trigger u[a], u[b]]
        0 <= a < u.len() && 0 <= b < u.len() && a != b implies !level_at(u[a], u[b].sku@, u[b].location_id@) by {
        assert(!level_at(t[a], t[b].sku@, t[b].location_id@));
    }
    if has_level(t, sku, loc) {
        let k = choose|k: int| 0 <= k < t.len() && #[trigger] level_at(t[k], sku, loc);
        assert(level_at(u[k], sku, loc));
    }
    if has_level(u, sku, loc) {
        let k = choose|k: int| 0 <= k < u.len() && #[trigger] level_at(u[k], sku, loc);
        assert(level_at(t[k], sku, loc));
    }
    lemma_level_index(t, sku, loc);
    lemma_level_index(u, sku, loc);
    if has_level(t, sku, loc) {
        assert(level_at(u[level_index(t, sku, loc)], sku, loc));
    }
}

/// The position of the level of `sku` at `loc`.
pub fn find_level(stock: &Vec<StockLevel>, sku: &String, loc: &String) -> (r: Option<usize>)
    requires
        levels_unique(stock@),
    ensures
        match r {
            Some(i) => i < stock.len() && i == level_index(stock@, sku@, loc@),
            None => !has_level(stock@, sku@, loc@) && level_index(stock@, sku@, loc@) == -1,
        },
{
    let mut i: usize = 0;
    while i < stock.len()
        invariant
            i <= stock.len(),
            levels_unique(stock@),
            forall|j: int| 0 <= j < i ==> !#[trigger] level_at(stock@[j], sku@, loc@),
        decreases stock.len() - i,
    {
        if stock[i].sku.eq(sku) && stock[i].location_id.eq(loc) {
            proof {
                assert(level_at(stock@[i as int], sku@, loc@));
                lemma_level_index(stock@, sku@, loc@);
            }
            return Some(i);
        }
        i = i + 1;
    }
    proof {
        lemma_level_index(stock@, sku@, loc@);
    }
    None
}

/// The in-memory inventory.
pub struct Store {
    pub items: Vec<Item>,
    pub locations: Vec<Location>,
    pub stock: Vec<StockLevel>,
    pub movements: Vec<StockMovement>,
    pub bom: Vec<BomEntry>,
    pub reservations: Vec<Reservation>,
    pub pick_orders: Vec<PickOrder>,
    pub putaway_rules: Vec<PutawayRule>,
    pub cycle_counts: Vec<CycleCount>,
    pub waves: Vec<Wave>,
    pub labels: Vec<BarcodeLabel>,
    pub serialized: Vec<SerializedItem>,
    pub rfid_tags: Vec<RfidTag>,
}

impl Keyed for Item {
    open spec fn key(&self) -> Seq<char> {
        self.sku@
    }

    fn key_ref(&self) -> (k: &String) {
        &self.sku
    }
}

impl Keyed for Location {
    open spec fn key(&self) -> Seq<char> {
        self.id@
    }

    fn key_ref(&self) -> (k: &String) {
        &self.id
    }
}

impl Keyed for PickOrder {
    open spec fn key(&self) -> Seq<char> {
        self.id@
    }

    fn key_ref(&self) -> (k: &String) {
        &self.id
    }
}

impl Keyed for Wave {
    open spec fn key(&self) -> Seq<char> {
        self.id@
    }

    fn key_ref(&self) -> (k: &String) {
        &self.id
    }
}

impl Keyed for SerializedItem {
    open spec fn key(&self) -> Seq<char> {
        self.serial_number@
    }

    fn key_ref(&self) -> (k: &String) {
        &self.serial_number
    }
}

impl Keyed for RfidTag {
    open spec fn key(&self) -> Seq<char> {
        self.epc@
    }

    fn key_ref(&self) -> (k: &String) {
        &self.epc
    }
}

/// Eight lowercase hexadecimal digits, the start of a fresh random UUID.
pub fn uid() -> (s: String)
    ensures
        s@.len() == 8,
        forall|i: int| 0 <= i < 8 ==> is_lower_hex(#[trigger] s@[i]),
{
    let full = uuid_v4_text();
    let t = full.as_str();
    proof {
        assert(is_ascii(t)) by {
            assert forall|i: int| 0 <= i < t@.len() implies '\0' <= #[trigger] t@[i] <= '\u{7f}' by {
                if i == 8 || i == 13 || i == 18 || i == 23 {
                } else {
                    assert(is_lower_hex(t@[i]));
                }
            }
        }
    }
    let head = t.substring_ascii(0, 8);
    let s = head.to_owned();
    proof {
        assert forall|i: int| 0 <= i < 8 implies is_lower_hex(#[trigger] s@[i]) by {
            assert(s@[i] == full@[i]);
        }
    }
    s
}

/// The text is `prefix` followed by eight lowercase hexadecimal digits.
pub open spec fn is_prefixed_id(s: Seq<char>, prefix: Seq<char>) -> bool {
    &&& s.len() == prefix.len() + 8
    &&& s.subrange(0, prefix.len() as int) == prefix
    &&& forall|i: int| prefix.len() <= i < s.len() ==> is_lower_hex(#[trigger] s[i])
}

/// `prefix` followed by a fresh identifier.
pub fn prefixed_id(prefix: &str) -> (s: String)
    ensures
        is_prefixed_id(s@, prefix@),
{
    let mut s = String::from_str(prefix);
    let u = uid();
    s.append(u.as_str());
    assert(s@.subrange(0, prefix@.len() as int) =~= prefix@);
    assert forall|i: int| prefix@.len() <= i < s@.len() implies is_lower_hex(#[trigger] s@[i]) by {
        assert(s@[i] == u@[i - prefix@.len()]);
    }
    s
}

impl Store {
    /// The store's invariant: every keyed collection holds each key once, and the
    /// stock holds one level per SKU and location, every quantity in range.
    pub open spec fn wf(&self) -> bool {
        &&& levels_unique(self.stock@)
        &&& levels_bounded(self.stock@)
        &&& reservations_bounded(self.reservations@)
        &&& keys_unique(self.items@)
        &&& keys_unique(self.locations@)
        &&& keys_unique(self.pick_orders@)
        &&& keys_unique(self.waves@)
        &&& keys_unique(self.serialized@)
        &&& keys_unique(self.rfid_tags@)
    }

    /// Stock, movements and reservations are as in `o`.
    pub open spec fn keeps_stock(&self, o: Store) -> bool {
        &&& self.stock == o.stock
        &&& self.movements == o.movements
        &&& self.reservations == o.reservations
    }

    /// Items, locations, bills of materials and putaway rules are as in `o`.
    pub open spec fn keeps_catalog(&self, o: Store) -> bool {
        &&& self.items == o.items
        &&& self.locations == o.locations
        &&& self.bom == o.bom
        &&& self.putaway_rules == o.putaway_rules
    }

    /// Pick orders, cycle counts, waves and labels are as in `o`.
    pub open spec fn keeps_operations(&self, o: Store) -> bool {
        &&& self.pick_orders == o.pick_orders
        &&& self.cycle_counts == o.cycle_counts
        &&& self.waves == o.waves
        &&& self.labels == o.labels
    }

    /// Serialized units and RFID tags are as in `o`.
    pub open spec fn keeps_tracking(&self, o: Store) -> bool {
        &&& self.serialized == o.serialized
        &&& self.rfid_tags == o.rfid_tags
    }

    /// Every collection of the store is empty.
    pub open spec fn is_empty(&self) -> bool {
        &&& self.items@.len() == 0
        &&& self.locations@.len() == 0
        &&& self.stock@.len() == 0
        &&& self.movements@.len() == 0
        &&& self.bom@.len() == 0
        &&& self.reservations@.len() == 0
        &&& self.pick_orders@.len() == 0
        &&& self.putaway_rules@.len() == 0
        &&& self.cycle_counts@.len() == 0
        &&& self.waves@.len() == 0
        &&& self.labels@.len() == 0
        &&& self.serialized@.len() == 0
        &&& self.rfid_tags@.len() == 0
    }

    /// An empty store.
    pub fn new() -> (s: Self)
        ensures
            s.wf(),
            s.is_empty(),
    {
        Store {
            items: Vec::new(),
            locations: Vec::new(),
            stock: Vec::new(),
            movements: Vec::new(),
            bom: Vec::new(),
            reservations: Vec::new(),
            pick_orders: Vec::new(),
            putaway_rules: Vec::new(),
            cycle_counts: Vec::new(),
            waves: Vec::new(),
            labels: Vec::new(),
            serialized: Vec::new(),
            rfid_tags: Vec::new(),
        }
    }

    /// Applies a movement to the stock levels and appends it to the audit trail, with
    /// `now` as the update time of every level it touches.
    pub fn record_movement_at(&mut self, m: StockMovement, now: &String) -> (r: Result<(), InventoryError>)
        requires
            old(self).wf(),
        ensures
            final(self).wf(),
            r is Ok <==> movement_fits(old(self).stock@, m),
            r is Ok ==> final(self).stock@ == moved(old(self).stock@, m, *now) && final(self).movements@
                == old(self).movements@.push(m),
            r is Err ==> r == Err::<(), InventoryError>(InventoryError::QuantityOutOfRange) && *final(self)
                == *old(self),
            final(self).reservations == old(self).reservations,
            final(self).keeps_catalog(*old(self)),
            final(self).keeps_operations(*old(self)),
            final(self).keeps_tracking(*old(self)),
    {
        let ghost s0 = self.stock@;
        let q = m.quantity;
        if q < -QTY_LIMIT || q > QTY_LIMIT {
            return Err(InventoryError::QuantityOutOfRange);
        }
        let from_idx: Option<usize> = match &m.from_location {
            Some(f) => find_level(&self.stock, &m.sku, f),
            None => None,
        };
        let to_idx: Option<usize> = match &m.to_location {
            Some(t) => find_level(&self.stock, &m.sku, t),
            None => None,
        };
        let same_row = match (from_idx, to_idx) {
            (Some(a), Some(b)) => a == b,
            _ => false,
        };
        let from_val: i64 = match from_idx {
            Some(i) => {
                proof {
                    assert(level_in_range(s0[i as int]));
                }
                self.stock[i].quantity - q
            },
            None => 0,
        };
        let to_val: i64 = match to_idx {
            Some(j) => {
                proof {
                    assert(level_in_range(s0[j as int]));
                }
                self.stock[j].quantity + q
            },
            None => q,
        };
        let from_ok = from_idx.is_none() || same_row || (-QTY_LIMIT <= from_val && from_val <= QTY_LIMIT);
        let to_ok = to_idx.is_none() || same_row || (-QTY_LIMIT <= to_val && to_val <= QTY_LIMIT);
        proof {
            assert(source_index(s0, m) == match from_idx { Some(i) => i as int, None => -1 });
            assert(target_index(s0, m) == match to_idx { Some(j) => j as int, None => -1 });
        }
        if !(from_ok && to_ok) {
            return Err(InventoryError::QuantityOutOfRange);
        }
        // The levels that the movement leaves, step by step.
        let ghost s1 = moved_out(s0, m, *now);
        proof {
            if let Some(i) = from_idx {
                lemma_update_same_key(
                    s0,
                    i as int,
                    StockLevel { quantity: (s0[i as int].quantity - q) as i64, updated_at: *now, ..s0[i as int] },
                );
            }
            assert(levels_unique(s1));
            if m.to_location.is_some() {
                lemma_level_index(s1, m.sku@, m.to_location.unwrap()@);
                lemma_level_index(s0, m.sku@, m.to_location.unwrap()@);
            }
        }
        if let Some(i) = from_idx {
            let mut row = self.stock[i].clone();
            row.quantity = from_val;
            row.updated_at = now.clone();
            self.stock.set(i, row);
        }
        assert(self.stock@ == s1);
        if let Some(t) = &m.to_location {
            match to_idx {
                Some(j) => {
                    let mut row = self.stock[j].clone();
                    row.quantity = if same_row { from_val + q } else { to_val };
                    row.updated_at = now.clone();
                    proof {
                        lemma_update_same_key(s1, j as int, row);
                    }
                    self.stock.set(j, row);
                },
                None => {
                    let row = StockLevel {
                        sku: m.sku.clone(),
                        location_id: t.clone(),
                        quantity: q,
                        reserved: 0,
                        lot_number: clone_opt(&m.lot_number),
                        expiry_date: None,
                        updated_at: now.clone(),
                    };
                    proof {
                        lemma_push_new_key(s1, row);
                    }
                    self.stock.push(row);
                },
            }
        }
        assert(self.stock@ =~= moved(s0, m, *now));
        proof {
            let s2 = moved(s0, m, *now);
            assert(levels_bounded(s0));
            assert forall|k: int| 0 <= k < s2.len() implies #[trigger] level_in_range(s2[k]) by {
                if k < s0.len() {
                    assert(level_in_range(s0[k]));
                }
            }
        }
        self.movements.push(m);
        Ok(())
    }

    /// Applies a movement to the stock levels and appends it to the audit trail,
    /// stamping every level it touches with the current time.
    pub fn record_movement(&mut self, m: StockMovement) -> (r: Result<(), InventoryError>)
        requires
            old(self).wf(),
        ensures
            final(self).wf(),
            r is Ok <==> movement_fits(old(self).stock@, m),
            r is Ok ==> exists|now: String| final(self).stock@ == #[trigger] moved(old(self).stock@, m, now),
            r is Ok ==> final(self).movements@ == old(self).movements@.push(m),
            r is Err ==> *final(self) == *old(self),
            final(self).reservations == old(self).reservations,
            final(self).keeps_catalog(*old(self)),
            final(self).keeps_operations(*old(self)),
            final(self).keeps_tracking(*old(self)),
    {
        let t = now();
        let r = self.record_movement_at(m, &t);
        proof {
            if r is Ok {
                assert(final(self).stock@ == moved(old(self).stock@, m, t));
            }
        }
        r
    }

    /// Sets the quantity of `sku` at `loc` to `q`, creating the level where there is none.
    pub fn set_level_at(&mut self, sku: String, loc: String, q: Milli, expiry: Option<String>, now: &String)
        requires
            old(self).wf(),
            in_range(q as int),
        ensures
            final(self).wf(),
            final(self).stock@ == level_set(old(self).stock@, sku, loc, q as int, expiry, *now),
            final(self).movements == old(self).movements,
            final(self).reservations == old(self).reservations,
            final(self).keeps_catalog(*old(self)),
            final(self).keeps_operations(*old(self)),
            final(self).keeps_tracking(*old(self)),
    {
        let ghost s0 = self.stock@;
        proof {
            lemma_level_index(s0, sku@, loc@);
        }
        match find_level(&self.stock, &sku, &loc) {
            Some(i) => {
                let mut row = self.stock[i].clone();
                row.quantity = q;
                row.updated_at = now.clone();
                proof {
                    lemma_update_same_key(s0, i as int, row);
                }
                self.stock.set(i, row);
            },
            None => {
                let row = StockLevel {
                    sku: sku,
                    location_id: loc,
                    quantity: q,
                    reserved: 0,
                    lot_number: None,
                    expiry_date: expiry,
                    updated_at: now.clone(),
                };
                proof {
                    lemma_push_new_key(s0, row);
                }
                self.stock.push(row);
            },
        }
        proof {
            assert forall|k: int| 0 <= k < self.stock@.len() implies #[trigger] level_in_range(self.stock@[k]) by {
                if k < s0.len() {
                    assert(level_in_range(s0[k]));
                }
            }
        }
    }

    /// Adds `q` to the reserved quantity of `sku` at `loc`, where a level is kept.
    pub fn reserve_at_level(&mut self, sku: &String, loc: &String, q: Milli)
        requires
            old(self).wf(),
            in_range(q as int),
            has_level(old(self).stock@, sku@, loc@) ==> in_range(reserved_at(old(self).stock@, sku@, loc@) + q),
        ensures
            final(self).wf(),
            final(self).stock@ == reserved_more(old(self).stock@, sku@, loc@, q as int),
            final(self).movements == old(self).movements,
            final(self).reservations == old(self).reservations,
            final(self).keeps_catalog(*old(self)),
            final(self).keeps_operations(*old(self)),
            final(self).keeps_tracking(*old(self)),
    {
        let ghost s0 = self.stock@;
        proof {
            lemma_level_index(s0, sku@, loc@);
        }
        match find_level(&self.stock, sku, loc) {
            Some(i) => {
                proof {
                    assert(level_in_range(s0[i as int]));
                }
                let mut row = self.stock[i].clone();
                row.reserved = row.reserved + q;
                proof {
                    lemma_update_same_key(s0, i as int, row);
                }
                self.stock.set(i, row);
            },
            None => {},
        }
        proof {
            assert forall|k: int| 0 <= k < self.stock@.len() implies #[trigger] level_in_range(self.stock@[k]) by {
                assert(level_in_range(s0[k]));
            }
        }
    }

    /// Stock levels of the SKU, at one location or at all of them.
    pub fn get_stock(&self, sku: &str, location_id: Option<&str>) -> (r: Vec<StockLevel>)
        ensures
            r@ == self.stock@.filter(|l: StockLevel| level_selected(l, sku@, opt_view(location_id))),
    {
        let sku_s = sku.to_owned();
        let loc_s: Option<String> = match location_id {
            Some(l) => Some(l.to_owned()),
            None => None,
        };
        let ghost pred = |l: StockLevel| level_selected(l, sku@, opt_view(location_id));
        let mut r: Vec<StockLevel> = Vec::new();
        let mut i: usize = 0;
        while i < self.stock.len()
            invariant
                i <= self.stock.len(),
                sku_s@ == sku@,
                opt_string_view(loc_s) == opt_view(location_id),
                pred == (|l: StockLevel| level_selected(l, sku@, opt_view(location_id))),
                r@ == self.stock@.take(i as int).filter(pred),
            decreases self.stock.len() - i,
        {
            let l = &self.stock[i];
            let keep = l.sku.eq(&sku_s) && match &loc_s {
                Some(x) => l.location_id.eq(x),
                None => true,
            };
            proof {
                reveal_with_fuel(Seq::<_>::filter, 1);
                let t = self.stock@.take(i + 1);
                assert(t.drop_last() =~= self.stock@.take(i as int));
                assert(t.last() == self.stock@[i as int]);
                assert(pred(self.stock@[i as int]) == keep);
                assert(t.filter(pred) == if keep {
                    self.stock@.take(i as int).filter(pred).push(self.stock@[i as int])
                } else {
                    self.stock@.take(i as int).filter(pred)
                });
            }
            if keep {
                r.push(l.clone());
            }
            i = i + 1;
        }
        assert(self.stock@.take(self.stock.len() as int) =~= self.stock@);
        r
    }

    /// Available quantity (on hand less reserved) of the SKU at the location.
    pub fn available_qty(&self, sku: &str, location_id: &str) -> (r: Milli)
        requires
            self.wf(),
        ensures
            r == available(self.stock@, sku@, location_id@),
    {
        let sku_s = sku.to_owned();
        let loc_s = location_id.to_owned();
        match find_level(&self.stock, &sku_s, &loc_s) {
            Some(i) => {
                proof {
                    assert(level_in_range(self.stock@[i as int]));
                }
                self.stock[i].quantity - self.stock[i].reserved
            },
            None => 0,
        }
    }

    /// A fresh movement ID: `mov_` and eight hexadecimal digits.
    pub fn new_movement_id() -> (s: String)
        ensures
            is_prefixed_id(s@, "mov_"@),
    {
        prefixed_id("mov_")
    }

    /// A fresh location ID: `loc_` and eight hexadecimal digits.
    pub fn new_location_id() -> (s: String)
        ensures
            is_prefixed_id(s@, "loc_"@),
    {
        prefixed_id("loc_")
    }

    /// A fresh reservation ID: `res_` and eight hexadecimal digits.
    pub fn new_reservation_id() -> (s: String)
        ensures
            is_prefixed_id(s@, "res_"@),
    {
        prefixed_id("res_")
    }
}

/// The level belongs to the SKU, and to the location where one is given.
pub open spec fn level_selected(l: StockLevel, sku: Seq<char>, loc: Option<Seq<char>>) -> bool {
    l.sku@ == sku && match loc {
        Some(x) => l.location_id@ == x,
        None => true,
    }
}

/// The characters of an optional string slice.
pub open spec fn opt_view(s: Option<&str>) -> Option<Seq<char>> {
    match s {
        Some(x) => Some(x@),
        None => None,
    }
}

/// The characters of an optional string.
pub open spec fn opt_string_view(s: Option<String>) -> Option<Seq<char>> {
    match s {
        Some(x) => Some(x@),
        None => None,
    }
}

} // verus!
