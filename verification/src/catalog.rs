use vstd::prelude::*;
use vstd::string::*;
use crate::inputs::{BomCheckInput, BomComponent, BomInput, ItemInput, LocationInput, PutawayRuleInput, SkuInput};
use crate::keyed::{has_key, lemma_upserted, lookup, upsert, upserted};
use crate::server::InventoryServer;
use crate::store::{available, is_prefixed_id, prefixed_id, Store};
use crate::types::{BomEntry, InventoryError, Item, Location, Milli, PutawayRule, StockLevel};

verus! {

/// `x` is the catalog entry that `input` describes, with its defaults: unit "each",
/// reorder point 10, reorder quantity 50, cost 0, currency "USD", no attributes.
pub open spec fn is_item_from(x: Item, input: ItemInput) -> bool {
    &&& x.sku == input.sku
    &&& x.name == input.name
    &&& x.category == input.category
    &&& x.unit@ == match input.unit {
        Some(u) => u@,
        None => "each"@,
    }
    &&& x.reorder_point == match input.reorder_point {
        Some(p) => p,
        None => 10_000,
    }
    &&& x.reorder_qty == match input.reorder_qty {
        Some(p) => p,
        None => 50_000,
    }
    &&& x.cost == match input.cost {
        Some(c) => c,
        None => 0,
    }
    &&& x.currency@ == match input.currency {
        Some(c) => c@,
        None => "USD"@,
    }
    &&& x.attributes@ == "{}"@
}

/// The location that `input` describes, under `id`, with nothing used yet.
pub open spec fn location_from(input: LocationInput, id: String) -> Location {
    Location {
        id: id,
        name: input.name,
        location_type: input.location_type,
        parent_id: input.parent_id,
        address: input.address,
        capacity_units: input.capacity_units,
        capacity_weight_kg: input.capacity_weight_kg,
        capacity_volume_m3: input.capacity_volume_m3,
        used_units: 0,
        used_weight_kg: 0,
        used_volume_m3: 0,
    }
}

/// The bill of materials entries of the components that give both a SKU and a
/// quantity, in order.
pub open spec fn bom_entries(parent: String, cs: Seq<BomComponent>) -> Seq<BomEntry>
    decreases cs.len(),
{
    if cs.len() == 0 {
        Seq::empty()
    } else {
        let prev = bom_entries(parent, cs.drop_last());
        let c = cs.last();
        if c.sku is Some && c.quantity is Some {
            prev.push(BomEntry { parent_sku: parent, component_sku: c.sku.unwrap(), quantity: c.quantity.unwrap() })
        } else {
            prev
        }
    }
}

/// A component that is short for a build. The quantity per unit and the number of
/// units are both in thousandths, so what is needed, and what is short, is counted
/// in millionths of a unit; what is available is in thousandths.
pub struct Shortage {
    pub sku: String,
    /// Quantity per unit times units to build, in millionths.
    pub needed: i128,
    /// Available at the location, in thousandths.
    pub available: Milli,
    /// Needed less available, in millionths.
    pub shortage: i128,
}

/// What a buildability check reports.
pub struct BomReport {
    /// Every component is available in the quantity needed.
    pub can_build: bool,
    pub shortages: Vec<Shortage>,
}

/// The shortages among `entries` for building `qty` thousandths of a unit from the
/// stock at `loc`, in order: the components of which less is available than the
/// quantity per unit times the units to build.
pub open spec fn shortages_for(entries: Seq<BomEntry>, stock: Seq<StockLevel>, loc: Seq<char>, qty: int) -> Seq<
    Shortage,
>
    decreases entries.len(),
{
    if entries.len() == 0 {
        Seq::empty()
    } else {
        let prev = shortages_for(entries.drop_last(), stock, loc, qty);
        let e = entries.last();
        let needed = e.quantity * qty;
        let avail = available(stock, e.component_sku@, loc);
        if avail * 1000 < needed {
            prev.push(
                Shortage {
                    sku: e.component_sku,
                    needed: needed as i128,
                    available: avail as i64,
                    shortage: (needed - avail * 1000) as i128,
                },
            )
        } else {
            prev
        }
    }
}

/// The rule applies to items of the category: it names the category or "*".
pub open spec fn rule_applies(r: PutawayRule, category: Seq<char>) -> bool {
    r.category@ == category || r.category@ == "*"@
}

/// `s` with `r` inserted after every rule of equal or lower priority at its end,
/// one step of a stable sort by priority.
pub open spec fn insert_by_priority(s: Seq<PutawayRule>, r: PutawayRule) -> Seq<PutawayRule>
    decreases s.len(),
{
    if s.len() == 0 {
        seq![r]
    } else if s.last().priority <= r.priority {
        s.push(r)
    } else {
        insert_by_priority(s.drop_last(), r).push(s.last())
    }
}

/// The rules stably sorted by priority, lowest first: rules of equal priority keep
/// their order.
pub open spec fn sort_by_priority(s: Seq<PutawayRule>) -> Seq<PutawayRule>
    decreases s.len(),
{
    if s.len() == 0 {
        Seq::empty()
    } else {
        insert_by_priority(sort_by_priority(s.drop_last()), s.last())
    }
}

/// The rules are in order of priority, lowest first.
pub open spec fn priority_sorted(s: Seq<PutawayRule>) -> bool {
    forall|i: int, j: int| 0 <= i <= j < s.len() ==> #[trigger] s[i].priority <= #[trigger] s[j].priority
}

/// Inserting at position `j` of a sorted sequence, after the rules of equal or lower
/// priority and before the higher ones, is the insertion step of the sort.
proof fn lemma_insert_at(s: Seq<PutawayRule>, r: PutawayRule, j: int)
    requires
        0 <= j <= s.len(),
        forall|k: int| j <= k < s.len() ==> #[trigger] s[k].priority > r.priority,
        j > 0 ==> s[j - 1].priority <= r.priority,
    ensures
        insert_by_priority(s, r) == s.insert(j, r),
    decreases s.len(),
{
    if s.len() == 0 {
        assert(s.insert(j, r) =~= seq![r]);
    } else if j == s.len() {
        assert(s.insert(j, r) =~= s.push(r));
    } else {
        assert(s.last().priority > r.priority);
        let d = s.drop_last();
        assert forall|k: int| j <= k < d.len() implies #[trigger] d[k].priority > r.priority by {
            assert(d[k] == s[k]);
        }
        lemma_insert_at(d, r, j);
        assert(d.insert(j, r).push(s.last()) =~= s.insert(j, r));
    }
}

/// Law: the putaway order is sorted by priority.
pub proof fn law_sort_by_priority_sorted(s: Seq<PutawayRule>)
    ensures
        priority_sorted(sort_by_priority(s)),
        sort_by_priority(s).len() == s.len(),
    decreases s.len(),
{
    if s.len() > 0 {
        law_sort_by_priority_sorted(s.drop_last());
        lemma_insert_sorted(sort_by_priority(s.drop_last()), s.last());
    }
}

/// The rules of the given priority, in order.
pub open spec fn with_priority(s: Seq<PutawayRule>, p: i32) -> Seq<PutawayRule> {
    s.filter(|r: PutawayRule| r.priority == p)
}

/// The rules of one priority, one step of the sequence further.
proof fn lemma_with_priority_push(s: Seq<PutawayRule>, x: PutawayRule, p: i32)
    ensures
        with_priority(s.push(x), p) == if x.priority == p {
            with_priority(s, p).push(x)
        } else {
            with_priority(s, p)
        },
{
    reveal_with_fuel(Seq::<_>::filter, 1);
    assert(s.push(x).drop_last() =~= s);
}

/// Inserting a rule adds it after every rule of its priority, and leaves the rules of
/// any other priority as they were.
proof fn lemma_insert_with_priority(t: Seq<PutawayRule>, r: PutawayRule, p: i32)
    ensures
        with_priority(insert_by_priority(t, r), p) == if r.priority == p {
            with_priority(t, p).push(r)
        } else {
            with_priority(t, p)
        },
    decreases t.len(),
{
    if t.len() == 0 {
        lemma_with_priority_push(t, r, p);
        assert(t.push(r) =~= seq![r]);
    } else if t.last().priority <= r.priority {
        lemma_with_priority_push(t, r, p);
    } else {
        let d = t.drop_last();
        lemma_insert_with_priority(d, r, p);
        lemma_with_priority_push(insert_by_priority(d, r), t.last(), p);
        lemma_with_priority_push(d, t.last(), p);
        assert(d.push(t.last()) =~= t);
    }
}

/// Law: the putaway order keeps, for every priority, exactly the rules of that
/// priority in the order they were created: sorting by priority is stable and loses
/// or adds no rule.
pub proof fn law_sort_by_priority_stable(s: Seq<PutawayRule>, p: i32)
    ensures
        with_priority(sort_by_priority(s), p) == with_priority(s, p),
    decreases s.len(),
{
    if s.len() > 0 {
        let d = s.drop_last();
        law_sort_by_priority_stable(d, p);
        lemma_insert_with_priority(sort_by_priority(d), s.last(), p);
        lemma_with_priority_push(d, s.last(), p);
        assert(d.push(s.last()) =~= s);
    }
}

/// Inserting into a sorted sequence keeps it sorted; what it holds is `r` and the
/// rules of `s`.
proof fn lemma_insert_sorted(s: Seq<PutawayRule>, r: PutawayRule)
    requires
        priority_sorted(s),
    ensures
        priority_sorted(insert_by_priority(s, r)),
        insert_by_priority(s, r).len() == s.len() + 1,
        forall|k: int|
            0 <= k < insert_by_priority(s, r).len() ==> #[trigger] insert_by_priority(s, r)[k] == r || exists|i: int|
                0 <= i < s.len() && s[i] == insert_by_priority(s, r)[k],
    decreases s.len(),
{
    let t = insert_by_priority(s, r);
    if s.len() == 0 {
    } else if s.last().priority <= r.priority {
        assert forall|k: int| 0 <= k < t.len() implies #[trigger] t[k] == r || exists|i: int|
            0 <= i < s.len() && s[i] == t[k] by {
            if k < s.len() {
                assert(s[k] == t[k]);
            }
        }
    } else {
        let d = s.drop_last();
        assert(priority_sorted(d));
        lemma_insert_sorted(d, r);
        let u = insert_by_priority(d, r);
        assert forall|a: int, b: int| 0 <= a <= b < t.len() implies #[trigger] t[a].priority
            <= #[trigger] t[b].priority by {
            if b == t.len() - 1 && a < b {
                if u[a] == r {
                } else {
                    let i = choose|i: int| 0 <= i < d.len() && d[i] == u[a];
                    assert(s[i] == d[i]);
                    assert(s[i].priority <= s[s.len() - 1].priority);
                }
            }
        }
        assert forall|k: int| 0 <= k < t.len() implies #[trigger] t[k] == r || exists|i: int|
            0 <= i < s.len() && s[i] == t[k] by {
            if k == t.len() - 1 {
                assert(s[s.len() - 1] == t[k]);
            } else if u[k] != r {
                let i = choose|i: int| 0 <= i < d.len() && d[i] == u[k];
                assert(s[i] == t[k]);
            }
        }
    }
}

/// The location's ID or name is the target.
pub open spec fn targets(l: Location, target: Seq<char>) -> bool {
    l.id@ == target || l.name@ == target
}

/// `i` is the first location whose ID or name is the target.
pub open spec fn is_first_target(locs: Seq<Location>, target: Seq<char>, i: int) -> bool {
    &&& 0 <= i < locs.len()
    &&& targets(locs[i], target)
    &&& forall|j: int| 0 <= j < i ==> !targets(#[trigger] locs[j], target)
}

/// The position of the first location whose ID or name is the target, or -1.
pub open spec fn target_location(locs: Seq<Location>, target: Seq<char>) -> int {
    if exists|i: int| is_first_target(locs, target, i) {
        choose|i: int| is_first_target(locs, target, i)
    } else {
        -1
    }
}

/// One suggested putaway location.
pub struct SuggestedLocation {
    pub location_id: String,
    pub name: String,
    pub location_type: String,
    /// Units on hand at the location, over every SKU.
    pub used_units: i128,
    pub capacity_units: Option<Milli>,
}

/// A putaway suggestion for a SKU.
pub struct PutawaySuggestion {
    /// The item's category (empty where the SKU is not in the catalog).
    pub category: String,
    pub suggestions: Vec<SuggestedLocation>,
}

/// The suggestion that a location makes, with the units on hand there.
pub open spec fn suggestion_of(l: Location, stock: Seq<StockLevel>) -> SuggestedLocation {
    SuggestedLocation {
        location_id: l.id,
        name: l.name,
        location_type: l.location_type,
        used_units: crate::totals::units_at(stock, l.id@) as i128,
        capacity_units: l.capacity_units,
    }
}

/// The suggestions for the rules in order: the first location each rule targets,
/// skipping rules that target none.
pub open spec fn suggestions_for(rules: Seq<PutawayRule>, locs: Seq<Location>, stock: Seq<StockLevel>) -> Seq<
    SuggestedLocation,
>
    decreases rules.len(),
{
    if rules.len() == 0 {
        Seq::empty()
    } else {
        let prev = suggestions_for(rules.drop_last(), locs, stock);
        let k = target_location(locs, rules.last().target_zone@);
        if k >= 0 {
            prev.push(suggestion_of(locs[k], stock))
        } else {
            prev
        }
    }
}

/// The space report of one location.
pub struct SpaceReport {
    pub location_id: String,
    pub name: String,
    pub location_type: String,
    /// Units on hand at the location, over every SKU.
    pub units_used: i128,
    pub capacity_units: Option<Milli>,
    /// Weight in use, as recorded on the location.
    pub used_weight_kg: Milli,
    pub capacity_weight_kg: Option<Milli>,
    /// Volume in use, as recorded on the location.
    pub used_volume_m3: Milli,
    pub capacity_volume_m3: Option<Milli>,
}

/// The space reports of the locations, in order.
pub open spec fn space_reports(locs: Seq<Location>, stock: Seq<StockLevel>) -> Seq<SpaceReport>
    decreases locs.len(),
{
    if locs.len() == 0 {
        Seq::empty()
    } else {
        let l = locs.last();
        space_reports(locs.drop_last(), stock).push(
            SpaceReport {
                location_id: l.id,
                name: l.name,
                location_type: l.location_type,
                units_used: crate::totals::units_at(stock, l.id@) as i128,
                capacity_units: l.capacity_units,
                used_weight_kg: l.used_weight_kg,
                capacity_weight_kg: l.capacity_weight_kg,
                used_volume_m3: l.used_volume_m3,
                capacity_volume_m3: l.capacity_volume_m3,
            },
        )
    }
}

/// The first position of a location whose ID or name is `target`.
fn find_target(locs: &Vec<Location>, target: &String) -> (r: Option<usize>)
    ensures
        match r {
            Some(i) => i as int == target_location(locs@, target@) && i < locs.len(),
            None => target_location(locs@, target@) == -1,
        },
{
    let mut i: usize = 0;
    while i < locs.len()
        invariant
            i <= locs.len(),
            forall|j: int| 0 <= j < i ==> !targets(#[trigger] locs@[j], target@),
        decreases locs.len() - i,
    {
        if locs[i].id.eq(target) || locs[i].name.eq(target) {
            proof {
                assert(is_first_target(locs@, target@, i as int));
                let k = target_location(locs@, target@);
                assert(is_first_target(locs@, target@, k));
                if k < i {
                    assert(!targets(locs@[k], target@));
                } else if i < k {
                    assert(!targets(locs@[i as int], target@));
                }
            }
            return Some(i);
        }
        i = i + 1;
    }
    proof {
        assert forall|k: int| !is_first_target(locs@, target@, k) by {
            if 0 <= k < locs.len() {
                assert(!targets(locs@[k], target@));
            }
        }
    }
    None
}

/// The space report has a line for the location named in the suggestion, with the
/// same units on hand and unit capacity.
pub open spec fn agrees_with_report(x: SuggestedLocation, reps: Seq<SpaceReport>) -> bool {
    exists|k: int|
        0 <= k < reps.len() && #[trigger] reps[k].location_id == x.location_id && reps[k].units_used == x.used_units
            && reps[k].capacity_units == x.capacity_units
}

/// The space report has one line per location, in order.
proof fn lemma_space_reports(locs: Seq<Location>, stock: Seq<StockLevel>)
    ensures
        space_reports(locs, stock).len() == locs.len(),
        forall|k: int|
            0 <= k < locs.len() ==> {
                let rep = #[trigger] space_reports(locs, stock)[k];
                &&& rep.location_id == locs[k].id
                &&& rep.units_used == crate::totals::units_at(stock, locs[k].id@) as i128
                &&& rep.capacity_units == locs[k].capacity_units
            },
    decreases locs.len(),
{
    if locs.len() > 0 {
        lemma_space_reports(locs.drop_last(), stock);
        assert forall|k: int| 0 <= k < locs.len() - 1 implies #[trigger] locs.drop_last()[k] == locs[k] by {}
    }
}

/// Law: every putaway suggestion agrees with the space report on the location it
/// names: the same units on hand and the same unit capacity.
pub proof fn law_suggestions_agree_with_space_report(rules: Seq<PutawayRule>, locs: Seq<Location>, stock: Seq<StockLevel>)
    ensures
        forall|j: int|
            0 <= j < suggestions_for(rules, locs, stock).len() ==> agrees_with_report(
                #[trigger] suggestions_for(rules, locs, stock)[j],
                space_reports(locs, stock),
            ),
    decreases rules.len(),
{
    if rules.len() > 0 {
        law_suggestions_agree_with_space_report(rules.drop_last(), locs, stock);
        lemma_space_reports(locs, stock);
        let prev = suggestions_for(rules.drop_last(), locs, stock);
        let all = suggestions_for(rules, locs, stock);
        let k = target_location(locs, rules.last().target_zone@);
        assert forall|j: int| 0 <= j < all.len() implies agrees_with_report(#[trigger] all[j], space_reports(locs, stock)) by {
            if j < prev.len() {
                assert(all[j] == prev[j]);
            } else {
                assert(is_first_target(locs, rules.last().target_zone@, k));
                let rep = space_reports(locs, stock)[k];
                assert(rep.location_id == all[j].location_id);
            }
        }
    }
}

impl InventoryServer {
    /// Adds an item to the catalog, or replaces the item with the same SKU.
    pub fn item_upsert(&mut self, input: ItemInput)
        requires
            old(self).store.wf(),
        ensures
            final(self).store.wf(),
            has_key(final(self).store.items@, input.sku@),
            is_item_from(lookup(final(self).store.items@, input.sku@).unwrap(), input),
            final(self).store.items@ == upserted(
                old(self).store.items@,
                lookup(final(self).store.items@, input.sku@).unwrap(),
            ),
            forall|k: Seq<char>|
                k != input.sku@ ==> #[trigger] lookup(final(self).store.items@, k) == lookup(
                    old(self).store.items@,
                    k,
                ),
            final(self).store.locations == old(self).store.locations,
            final(self).store.bom == old(self).store.bom,
            final(self).store.putaway_rules == old(self).store.putaway_rules,
            final(self).store.keeps_stock(old(self).store),
            final(self).store.keeps_operations(old(self).store),
            final(self).store.keeps_tracking(old(self).store),
            final(self).same_config(*old(self)),
    {
        let item = Item {
            sku: input.sku,
            name: input.name,
            category: input.category,
            unit: match input.unit {
                Some(u) => u,
                None => String::from_str("each"),
            },
            reorder_point: match input.reorder_point {
                Some(p) => p,
                None => 10_000,
            },
            reorder_qty: match input.reorder_qty {
                Some(p) => p,
                None => 50_000,
            },
            cost: match input.cost {
                Some(c) => c,
                None => 0,
            },
            currency: match input.currency {
                Some(c) => c,
                None => String::from_str("USD"),
            },
            attributes: String::from_str("{}"),
        };
        proof {
            lemma_upserted(self.store.items@, item);
        }
        upsert(&mut self.store.items, item);
    }

    /// The items of the catalog.
    pub fn item_list(&self) -> (r: Vec<Item>)
        ensures
            r@ == self.store.items@,
    {
        let mut r: Vec<Item> = Vec::new();
        let mut i: usize = 0;
        while i < self.store.items.len()
            invariant
                i <= self.store.items.len(),
                r@ == self.store.items@.take(i as int),
            decreases self.store.items.len() - i,
        {
            r.push(self.store.items[i].clone());
            assert(self.store.items@.take(i + 1) =~= self.store.items@.take(i as int).push(self.store.items@[i as int]));
            i = i + 1;
        }
        assert(self.store.items@.take(self.store.items.len() as int) =~= self.store.items@);
        r
    }

    /// Creates a location under a fresh ID (`loc_` and eight hexadecimal digits),
    /// which it answers.
    pub fn location_create(&mut self, input: LocationInput) -> (r: String)
        requires
            old(self).store.wf(),
        ensures
            final(self).store.wf(),
            is_prefixed_id(r@, "loc_"@),
            final(self).store.locations@ == upserted(old(self).store.locations@, location_from(input, r)),
            final(self).store.items == old(self).store.items,
            final(self).store.bom == old(self).store.bom,
            final(self).store.putaway_rules == old(self).store.putaway_rules,
            final(self).store.keeps_stock(old(self).store),
            final(self).store.keeps_operations(old(self).store),
            final(self).store.keeps_tracking(old(self).store),
            final(self).same_config(*old(self)),
    {
        let id = Store::new_location_id();
        self.location_create_with_id(input, id.clone());
        id
    }

    /// Creates a location under `id`.
    pub fn location_create_with_id(&mut self, input: LocationInput, id: String)
        requires
            old(self).store.wf(),
        ensures
            final(self).store.wf(),
            final(self).store.locations@ == upserted(old(self).store.locations@, location_from(input, id)),
            final(self).store.items == old(self).store.items,
            final(self).store.bom == old(self).store.bom,
            final(self).store.putaway_rules == old(self).store.putaway_rules,
            final(self).store.keeps_stock(old(self).store),
            final(self).store.keeps_operations(old(self).store),
            final(self).store.keeps_tracking(old(self).store),
            final(self).same_config(*old(self)),
    {
        let loc = Location {
            id: id,
            name: input.name,
            location_type: input.location_type,
            parent_id: input.parent_id,
            address: input.address,
            capacity_units: input.capacity_units,
            capacity_weight_kg: input.capacity_weight_kg,
            capacity_volume_m3: input.capacity_volume_m3,
            used_units: 0,
            used_weight_kg: 0,
            used_volume_m3: 0,
        };
        upsert(&mut self.store.locations, loc);
    }

    /// The locations.
    pub fn location_list(&self) -> (r: Vec<Location>)
        ensures
            r@ == self.store.locations@,
    {
        let mut r: Vec<Location> = Vec::new();
        let mut i: usize = 0;
        while i < self.store.locations.len()
            invariant
                i <= self.store.locations.len(),
                r@ == self.store.locations@.take(i as int),
            decreases self.store.locations.len() - i,
        {
            r.push(self.store.locations[i].clone());
            assert(self.store.locations@.take(i + 1) =~= self.store.locations@.take(i as int).push(
                self.store.locations@[i as int],
            ));
            i = i + 1;
        }
        assert(self.store.locations@.take(self.store.locations.len() as int) =~= self.store.locations@);
        r
    }

    /// Defines the bill of materials of a parent item, replacing any earlier one;
    /// answers how many components were submitted.
    pub fn bom_set(&mut self, input: BomInput) -> (r: usize)
        requires
            old(self).store.wf(),
        ensures
            final(self).store.wf(),
            r == input.components@.len(),
            final(self).store.bom@ == old(self).store.bom@.filter(
                |b: BomEntry| b.parent_sku@ != input.parent_sku@,
            ) + bom_entries(input.parent_sku, input.components@),
            final(self).store.items == old(self).store.items,
            final(self).store.locations == old(self).store.locations,
            final(self).store.putaway_rules == old(self).store.putaway_rules,
            final(self).store.keeps_stock(old(self).store),
            final(self).store.keeps_operations(old(self).store),
            final(self).store.keeps_tracking(old(self).store),
            final(self).same_config(*old(self)),
    {
        let ghost pred = |b: BomEntry| b.parent_sku@ != input.parent_sku@;
        let mut kept: Vec<BomEntry> = Vec::new();
        let mut i: usize = 0;
        while i < self.store.bom.len()
            invariant
                i <= self.store.bom.len(),
                pred == (|b: BomEntry| b.parent_sku@ != input.parent_sku@),
                kept@ == self.store.bom@.take(i as int).filter(pred),
            decreases self.store.bom.len() - i,
        {
            proof {
                reveal_with_fuel(Seq::<_>::filter, 1);
                let t = self.store.bom@.take(i + 1);
                assert(t.drop_last() =~= self.store.bom@.take(i as int));
                assert(t.last() == self.store.bom@[i as int]);
            }
            if !self.store.bom[i].parent_sku.eq(&input.parent_sku) {
                kept.push(self.store.bom[i].clone());
            }
            i = i + 1;
        }
        assert(self.store.bom@.take(self.store.bom.len() as int) =~= self.store.bom@);
        let ghost base = kept@;
        let mut j: usize = 0;
        while j < input.components.len()
            invariant
                j <= input.components.len(),
                kept@ == base + bom_entries(input.parent_sku, input.components@.take(j as int)),
            decreases input.components.len() - j,
        {
            proof {
                assert(input.components@.take(j + 1).drop_last() =~= input.components@.take(j as int));
            }
            let c = &input.components[j];
            match (&c.sku, c.quantity) {
                (Some(sku), Some(q)) => {
                    kept.push(BomEntry { parent_sku: input.parent_sku.clone(), component_sku: sku.clone(), quantity: q });
                },
                _ => {},
            }
            j = j + 1;
        }
        assert(input.components@.take(input.components.len() as int) =~= input.components@);
        self.store.bom = kept;
        input.components.len()
    }

    /// Checks whether `quantity` units of a parent item can be built from the stock at
    /// a location, listing the components that are short.
    pub fn bom_check(&self, input: BomCheckInput) -> (r: Result<BomReport, InventoryError>)
        requires
            self.store.wf(),
        ensures
            self.store.bom@.filter(|b: BomEntry| b.parent_sku@ == input.parent_sku@).len() == 0 <==> r
                == Err::<BomReport, InventoryError>(InventoryError::BomNotFound),
            r is Err ==> r == Err::<BomReport, InventoryError>(InventoryError::BomNotFound),
            r matches Ok(rep) ==> rep.shortages@ == shortages_for(
                self.store.bom@.filter(|b: BomEntry| b.parent_sku@ == input.parent_sku@),
                self.store.stock@,
                input.location_id@,
                input.quantity as int,
            ) && rep.can_build == (rep.shortages@.len() == 0),
    {
        let ghost pred = |b: BomEntry| b.parent_sku@ == input.parent_sku@;
        let ghost entries = self.store.bom@.filter(pred);
        let mut shortages: Vec<Shortage> = Vec::new();
        let mut count: usize = 0;
        let mut i: usize = 0;
        while i < self.store.bom.len()
            invariant
                i <= self.store.bom.len(),
                self.store.wf(),
                pred == (|b: BomEntry| b.parent_sku@ == input.parent_sku@),
                count == self.store.bom@.take(i as int).filter(pred).len(),
                shortages@ == shortages_for(
                    self.store.bom@.take(i as int).filter(pred),
                    self.store.stock@,
                    input.location_id@,
                    input.quantity as int,
                ),
            decreases self.store.bom.len() - i,
        {
            proof {
                reveal_with_fuel(Seq::<_>::filter, 1);
                let t = self.store.bom@.take(i + 1);
                assert(t.drop_last() =~= self.store.bom@.take(i as int));
                assert(t.last() == self.store.bom@[i as int]);
                assert(self.store.bom@.take(i as int).filter(pred).len() <= i) by {
                    self.store.bom@.take(i as int).lemma_filter_len(pred);
                }
            }
            let e = &self.store.bom[i];
            if e.parent_sku.eq(&input.parent_sku) {
                let a: i128 = e.quantity as i128;
                let b: i128 = input.quantity as i128;
                proof {
                    assert(-0x4000_0000_0000_0000_0000_0000_0000_0000 <= a * b <= 0x4000_0000_0000_0000_0000_0000_0000_0000)
                        by (nonlinear_arith)
                        requires
                            -0x8000_0000_0000_0000 <= a <= 0x8000_0000_0000_0000,
                            -0x8000_0000_0000_0000 <= b <= 0x8000_0000_0000_0000,
                    ;
                }
                let needed: i128 = a * b;
                let avail = self.store.available_qty(e.component_sku.as_str(), input.location_id.as_str());
                proof {
                    crate::store::lemma_lookup_in_range(self.store.stock@, e.component_sku@, input.location_id@);
                    let x = self.store.bom@.take(i as int).filter(pred);
                    assert(x.push(*e).drop_last() =~= x);
                }
                let avail_micro: i128 = avail as i128 * 1000;
                if avail_micro < needed {
                    shortages.push(
                        Shortage {
                            sku: e.component_sku.clone(),
                            needed,
                            available: avail,
                            shortage: needed - avail_micro,
                        },
                    );
                }
                count = count + 1;
            }
            i = i + 1;
        }
        assert(self.store.bom@.take(self.store.bom.len() as int) =~= self.store.bom@);
        if count == 0 {
            return Err(InventoryError::BomNotFound);
        }
        let can_build = shortages.len() == 0;
        Ok(BomReport { can_build, shortages })
    }

    /// Creates a putaway rule under a fresh ID (`put_` and eight hexadecimal digits),
    /// which it answers.
    pub fn putaway_rule_create(&mut self, input: PutawayRuleInput) -> (r: String)
        requires
            old(self).store.wf(),
        ensures
            final(self).store.wf(),
            is_prefixed_id(r@, "put_"@),
            final(self).store.putaway_rules@ == old(self).store.putaway_rules@.push(
                PutawayRule {
                    id: r,
                    category: input.category,
                    target_zone: input.target_zone,
                    priority: match input.priority {
                        Some(p) => p,
                        None => 100,
                    },
                },
            ),
            final(self).store.items == old(self).store.items,
            final(self).store.locations == old(self).store.locations,
            final(self).store.bom == old(self).store.bom,
            final(self).store.keeps_stock(old(self).store),
            final(self).store.keeps_operations(old(self).store),
            final(self).store.keeps_tracking(old(self).store),
            final(self).same_config(*old(self)),
    {
        let id = prefixed_id("put_");
        let rule = PutawayRule {
            id: id.clone(),
            category: input.category,
            target_zone: input.target_zone,
            priority: match input.priority {
                Some(p) => p,
                None => 100,
            },
        };
        self.store.putaway_rules.push(rule);
        id
    }

    /// Suggests putaway locations for a SKU: the rules for its category (or "*"), by
    /// priority, each giving the first location whose ID or name it targets, with the
    /// units on hand there against its capacity.
    pub fn putaway_suggest(&self, input: SkuInput) -> (r: PutawaySuggestion)
        requires
            self.store.wf(),
        ensures
            r.category@ == match lookup(self.store.items@, input.sku@) {
                Some(item) => item.category@,
                None => Seq::<char>::empty(),
            },
            r.suggestions@ == suggestions_for(
                sort_by_priority(
                    self.store.putaway_rules@.filter(|p: PutawayRule| rule_applies(p, r.category@)),
                ),
                self.store.locations@,
                self.store.stock@,
            ),
    {
        proof {
            crate::keyed::lemma_key_index(self.store.items@, input.sku@);
        }
        let category = match crate::keyed::find_key(&self.store.items, &input.sku) {
            Some(i) => self.store.items[i].category.clone(),
            None => String::new(),
        };
        let star = String::from_str("*");
        let ghost pred = |p: PutawayRule| rule_applies(p, category@);
        // Stable insertion sort of the applicable rules by priority.
        let mut sorted: Vec<PutawayRule> = Vec::new();
        let mut i: usize = 0;
        while i < self.store.putaway_rules.len()
            invariant
                i <= self.store.putaway_rules.len(),
                star@ == "*"@,
                pred == (|p: PutawayRule| rule_applies(p, category@)),
                sorted@ == sort_by_priority(self.store.putaway_rules@.take(i as int).filter(pred)),
                priority_sorted(sorted@),
            decreases self.store.putaway_rules.len() - i,
        {
            proof {
                reveal_with_fuel(Seq::<_>::filter, 1);
                let t = self.store.putaway_rules@.take(i + 1);
                assert(t.drop_last() =~= self.store.putaway_rules@.take(i as int));
                assert(t.last() == self.store.putaway_rules@[i as int]);
            }
            let rule = &self.store.putaway_rules[i];
            if rule.category.eq(&category) || rule.category.eq(&star) {
                let ghost before = sorted@;
                let mut j: usize = sorted.len();
                while j > 0 && sorted[j - 1].priority > rule.priority
                    invariant
                        j <= sorted.len(),
                        sorted@ == before,
                        forall|k: int| j <= k < sorted.len() ==> #[trigger] sorted@[k].priority > rule.priority,
                    decreases j,
                {
                    j = j - 1;
                }
                proof {
                    lemma_insert_at(before, *rule, j as int);
                    law_sort_by_priority_sorted(self.store.putaway_rules@.take(i + 1).filter(pred));
                    let x = self.store.putaway_rules@.take(i as int).filter(pred);
                    assert(x.push(*rule).drop_last() =~= x);
                    assert(self.store.putaway_rules@.take(i + 1).filter(pred) == x.push(*rule));
                }
                sorted.insert(j, rule.clone());
            }
            i = i + 1;
        }
        assert(self.store.putaway_rules@.take(self.store.putaway_rules.len() as int) =~= self.store.putaway_rules@);
        let mut suggestions: Vec<SuggestedLocation> = Vec::new();
        let mut k: usize = 0;
        while k < sorted.len()
            invariant
                k <= sorted.len(),
                self.store.wf(),
                suggestions@ == suggestions_for(sorted@.take(k as int), self.store.locations@, self.store.stock@),
            decreases sorted.len() - k,
        {
            proof {
                assert(sorted@.take(k + 1).drop_last() =~= sorted@.take(k as int));
            }
            match find_target(&self.store.locations, &sorted[k].target_zone) {
                Some(li) => {
                    let l = &self.store.locations[li];
                    let units = crate::totals::location_units(&self.store.stock, &l.id);
                    suggestions.push(
                        SuggestedLocation {
                            location_id: l.id.clone(),
                            name: l.name.clone(),
                            location_type: l.location_type.clone(),
                            used_units: units,
                            capacity_units: l.capacity_units,
                        },
                    );
                },
                None => {},
            }
            k = k + 1;
        }
        assert(sorted@.take(sorted.len() as int) =~= sorted@);
        PutawaySuggestion { category, suggestions }
    }

    /// Space report for every location: units on hand against its capacities.
    pub fn space_utilization(&self) -> (r: Vec<SpaceReport>)
        requires
            self.store.wf(),
        ensures
            r@ == space_reports(self.store.locations@, self.store.stock@),
    {
        let mut r: Vec<SpaceReport> = Vec::new();
        let mut i: usize = 0;
        while i < self.store.locations.len()
            invariant
                i <= self.store.locations.len(),
                self.store.wf(),
                r@ == space_reports(self.store.locations@.take(i as int), self.store.stock@),
            decreases self.store.locations.len() - i,
        {
            proof {
                assert(self.store.locations@.take(i + 1).drop_last() =~= self.store.locations@.take(i as int));
            }
            let l = &self.store.locations[i];
            let units = crate::totals::location_units(&self.store.stock, &l.id);
            r.push(
                SpaceReport {
                    location_id: l.id.clone(),
                    name: l.name.clone(),
                    location_type: l.location_type.clone(),
                    units_used: units,
                    capacity_units: l.capacity_units,
                    used_weight_kg: l.used_weight_kg,
                    capacity_weight_kg: l.capacity_weight_kg,
                    used_volume_m3: l.used_volume_m3,
                    capacity_volume_m3: l.capacity_volume_m3,
                },
            );
            i = i + 1;
        }
        assert(self.store.locations@.take(self.store.locations.len() as int) =~= self.store.locations@);
        r
    }
}

} // verus!
