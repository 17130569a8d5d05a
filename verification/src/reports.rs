use vstd::prelude::*;
use crate::inputs::{SkuInput, StockQuery};
use crate::keyed::{find_key, has_key, key_index, keys_unique, Keyed, lemma_key_index, lookup};
use crate::server::InventoryServer;
use crate::store::{level_in_range, level_selected, levels_bounded, opt_string_view};
use crate::totals::{available_total, sum_levels, sum_quantity, sum_reserved, total_available};
use crate::types::{Item, Milli, StockLevel, StockMovement};

verus! {

/// What a stock enquiry reports.
pub struct StockReport {
    /// The levels of the SKU, at the location asked for or at all of them.
    pub levels: Vec<StockLevel>,
    pub total_quantity: i128,
    pub total_reserved: i128,
    /// Total quantity less total reserved.
    pub available: i128,
    /// The item is in the catalog and what is available is at or below its reorder point.
    pub below_reorder_point: bool,
}

/// An item at or below its reorder point.
pub struct ReorderAlert {
    pub sku: String,
    pub name: String,
    /// Available quantity of the SKU over every location.
    pub available: i128,
    pub reorder_point: Milli,
    pub suggested_order_qty: Milli,
}

/// The alerts for the items, in catalog order: one for each item whose available
/// quantity over every location is at or below its reorder point.
pub open spec fn alerts_for(items: Seq<Item>, stock: Seq<StockLevel>) -> Seq<ReorderAlert>
    decreases items.len(),
{
    if items.len() == 0 {
        Seq::empty()
    } else {
        let prev = alerts_for(items.drop_last(), stock);
        let it = items.last();
        let a = total_available(stock, it.sku@);
        if a <= it.reorder_point {
            prev.push(
                ReorderAlert {
                    sku: it.sku,
                    name: it.name,
                    available: a as i128,
                    reorder_point: it.reorder_point,
                    suggested_order_qty: it.reorder_qty,
                },
            )
        } else {
            prev
        }
    }
}

/// Whatever is kept of bounded levels is bounded.
pub proof fn lemma_filter_bounded(s: Seq<StockLevel>, p: spec_fn(StockLevel) -> bool)
    requires
        levels_bounded(s),
    ensures
        levels_bounded(s.filter(p)),
    decreases s.len(),
{
    reveal_with_fuel(Seq::<_>::filter, 1);
    if s.len() > 0 {
        assert(levels_bounded(s.drop_last())) by {
            assert forall|i: int| 0 <= i < s.drop_last().len() implies #[trigger] level_in_range(s.drop_last()[i]) by {
                assert(level_in_range(s[i]));
            }
        }
        lemma_filter_bounded(s.drop_last(), p);
        assert(level_in_range(s[s.len() - 1]));
    }
}

/// Some alert is for the SKU.
pub open spec fn alerted(alerts: Seq<ReorderAlert>, sku: Seq<char>) -> bool {
    exists|j: int| 0 <= j < alerts.len() && #[trigger] alerts[j].sku@ == sku
}

/// The levels of the SKU at every location, as a stock check over all locations
/// selects them.
pub open spec fn levels_of(stock: Seq<StockLevel>, sku: Seq<char>) -> Seq<StockLevel> {
    stock.filter(|l: StockLevel| level_selected(l, sku, None::<Seq<char>>))
}

/// An alert is raised for the SKU exactly where some item of it is at or below its
/// reorder point.
proof fn lemma_alerted(items: Seq<Item>, stock: Seq<StockLevel>, sku: Seq<char>)
    ensures
        alerted(alerts_for(items, stock), sku) <==> exists|i: int|
            0 <= i < items.len() && #[trigger] items[i].sku@ == sku && total_available(stock, sku)
                <= items[i].reorder_point,
    decreases items.len(),
{
    if items.len() > 0 {
        let d = items.drop_last();
        lemma_alerted(d, stock, sku);
        let prev = alerts_for(d, stock);
        let a = alerts_for(items, stock);
        let last = items.len() - 1;
        if alerted(a, sku) {
            let j = choose|j: int| 0 <= j < a.len() && #[trigger] a[j].sku@ == sku;
            if j < prev.len() {
                assert(a[j] == prev[j]);
                assert(alerted(prev, sku));
                let i = choose|i: int|
                    0 <= i < d.len() && #[trigger] d[i].sku@ == sku && total_available(stock, sku) <= d[i].reorder_point;
                assert(items[i] == d[i]);
            } else {
                assert(items[last].sku@ == sku);
            }
        }
        if exists|i: int|
            0 <= i < items.len() && #[trigger] items[i].sku@ == sku && total_available(stock, sku)
                <= items[i].reorder_point {
            let i = choose|i: int|
                0 <= i < items.len() && #[trigger] items[i].sku@ == sku && total_available(stock, sku)
                    <= items[i].reorder_point;
            if i < last {
                assert(d[i] == items[i]);
                assert(alerted(prev, sku));
                let j = choose|j: int| 0 <= j < prev.len() && #[trigger] prev[j].sku@ == sku;
                assert(a[j] == prev[j]);
            } else {
                assert(a[prev.len() as int].sku@ == sku);
            }
        }
    }
}

/// What a stock check over every location finds available is the SKU's total available.
proof fn lemma_levels_of_available(stock: Seq<StockLevel>, sku: Seq<char>)
    ensures
        sum_quantity(levels_of(stock, sku)) - sum_reserved(levels_of(stock, sku)) == total_available(stock, sku),
    decreases stock.len(),
{
    reveal_with_fuel(Seq::<_>::filter, 1);
    if stock.len() > 0 {
        lemma_levels_of_available(stock.drop_last(), sku);
        let p = |l: StockLevel| level_selected(l, sku, None::<Seq<char>>);
        assert(stock.filter(p) == if p(stock.last()) {
            stock.drop_last().filter(p).push(stock.last())
        } else {
            stock.drop_last().filter(p)
        });
        if p(stock.last()) {
            assert(stock.filter(p).drop_last() =~= stock.drop_last().filter(p));
        }
    }
}

/// Law: the reorder alerts are for exactly the catalogued SKUs whose stock check over
/// every location flags them at or below their reorder point.
pub proof fn law_alerts_match_stock_check(items: Seq<Item>, stock: Seq<StockLevel>, sku: Seq<char>)
    requires
        keys_unique(items),
    ensures
        alerted(alerts_for(items, stock), sku) <==> match lookup(items, sku) {
            Some(it) => sum_quantity(levels_of(stock, sku)) - sum_reserved(levels_of(stock, sku)) <= it.reorder_point,
            None => false,
        },
{
    lemma_alerted(items, stock, sku);
    lemma_levels_of_available(stock, sku);
    lemma_key_index(items, sku);
    if exists|i: int|
        0 <= i < items.len() && #[trigger] items[i].sku@ == sku && total_available(stock, sku)
            <= items[i].reorder_point {
        let i = choose|i: int|
            0 <= i < items.len() && #[trigger] items[i].sku@ == sku && total_available(stock, sku)
                <= items[i].reorder_point;
        assert(items[i].key() == sku);
        assert(has_key(items, sku));
        assert(i == key_index(items, sku));
    }
    if has_key(items, sku) {
        let k = key_index(items, sku);
        assert(items[k].key() == sku);
        assert(items[k].sku@ == sku);
    }
}

impl InventoryServer {
    /// Checks the stock of a SKU, at one location or at all of them: totals, what is
    /// reserved and available, and whether it is at or below its reorder point.
    pub fn stock_check(&self, input: StockQuery) -> (r: StockReport)
        requires
            self.store.wf(),
        ensures
            r.levels@ == self.store.stock@.filter(
                |l: StockLevel| level_selected(l, input.sku@, opt_string_view(input.location_id)),
            ),
            r.total_quantity == sum_quantity(r.levels@),
            r.total_reserved == sum_reserved(r.levels@),
            r.available == r.total_quantity - r.total_reserved,
            r.below_reorder_point == match lookup(self.store.items@, input.sku@) {
                Some(item) => r.available <= item.reorder_point,
                None => false,
            },
    {
        let levels = match &input.location_id {
            Some(l) => self.store.get_stock(input.sku.as_str(), Some(l.as_str())),
            None => self.store.get_stock(input.sku.as_str(), None),
        };
        proof {
            lemma_filter_bounded(
                self.store.stock@,
                |l: StockLevel| level_selected(l, input.sku@, opt_string_view(input.location_id)),
            );
        }
        let (tq, tr) = sum_levels(&levels);
        let available = tq - tr;
        proof {
            lemma_key_index(self.store.items@, input.sku@);
        }
        let below = match find_key(&self.store.items, &input.sku) {
            Some(i) => available <= self.store.items[i].reorder_point as i128,
            None => false,
        };
        StockReport {
            levels,
            total_quantity: tq,
            total_reserved: tr,
            available,
            below_reorder_point: below,
        }
    }

    /// Items at or below their reorder point, with suggested order quantities.
    pub fn reorder_alerts(&self) -> (r: Vec<ReorderAlert>)
        requires
            self.store.wf(),
        ensures
            r@ == alerts_for(self.store.items@, self.store.stock@),
    {
        let mut r: Vec<ReorderAlert> = Vec::new();
        let mut i: usize = 0;
        while i < self.store.items.len()
            invariant
                i <= self.store.items.len(),
                self.store.wf(),
                r@ == alerts_for(self.store.items@.take(i as int), self.store.stock@),
            decreases self.store.items.len() - i,
        {
            let item = &self.store.items[i];
            let total = available_total(&self.store.stock, &item.sku);
            proof {
                assert(self.store.items@.take(i + 1).drop_last() =~= self.store.items@.take(i as int));
            }
            if total <= item.reorder_point as i128 {
                r.push(
                    ReorderAlert {
                        sku: item.sku.clone(),
                        name: item.name.clone(),
                        available: total,
                        reorder_point: item.reorder_point,
                        suggested_order_qty: item.reorder_qty,
                    },
                );
            }
            i = i + 1;
        }
        assert(self.store.items@.take(self.store.items.len() as int) =~= self.store.items@);
        r
    }

    /// The movement audit trail of a SKU, oldest first.
    pub fn movement_history(&self, input: SkuInput) -> (r: Vec<StockMovement>)
        ensures
            r@ == self.store.movements@.filter(|m: StockMovement| m.sku@ == input.sku@),
    {
        let ghost pred = |m: StockMovement| m.sku@ == input.sku@;
        let mut r: Vec<StockMovement> = Vec::new();
        let mut i: usize = 0;
        while i < self.store.movements.len()
            invariant
                i <= self.store.movements.len(),
                pred == (|m: StockMovement| m.sku@ == input.sku@),
                r@ == self.store.movements@.take(i as int).filter(pred),
            decreases self.store.movements.len() - i,
        {
            let m = &self.store.movements[i];
            proof {
                reveal_with_fuel(Seq::<_>::filter, 1);
                let t = self.store.movements@.take(i + 1);
                assert(t.drop_last() =~= self.store.movements@.take(i as int));
                assert(t.last() == self.store.movements@[i as int]);
            }
            if m.sku.eq(&input.sku) {
                r.push(m.clone());
            }
            i = i + 1;
        }
        assert(self.store.movements@.take(self.store.movements.len() as int) =~= self.store.movements@);
        r
    }
}

} // verus!
