use vstd::prelude::*;
use crate::external::now;
use crate::inputs::{CountEntry, CycleCountCompleteInput, CycleCountInput};
use crate::server::InventoryServer;
use crate::stock_ops::text_or_empty;
use crate::store::{find_level, is_prefixed_id, lemma_level_index, lemma_lookup_in_range, on_hand, prefixed_id};
use crate::types::{clone_discrepancies, CountStatus, CycleCount, Discrepancy, InventoryError, StockLevel};

verus! {

/// Counts that differ from the books by no more than this (in thousandths) match.
pub const COUNT_TOLERANCE: i128 = 10;

/// A discrepancy taken as plain values: SKU, system quantity, actual quantity, variance.
pub open spec fn discrepancy_view(d: Discrepancy) -> (Seq<char>, int, int, int) {
    (d.sku@, d.system_qty as int, d.actual_qty as int, d.variance as int)
}

/// The discrepancies that the counts show at the location, in order: one for each
/// entry whose actual quantity (0 where none is given) differs from what is on hand
/// of its SKU (empty where none is given) by more than the tolerance.
pub open spec fn discrepancies_for(counts: Seq<CountEntry>, stock: Seq<StockLevel>, loc: Seq<char>) -> Seq<
    (Seq<char>, int, int, int),
>
    decreases counts.len(),
{
    if counts.len() == 0 {
        Seq::empty()
    } else {
        let prev = discrepancies_for(counts.drop_last(), stock, loc);
        let c = counts.last();
        let sku = text_or_empty(c.sku);
        let actual: int = match c.actual_qty {
            Some(a) => a as int,
            None => 0,
        };
        let system = on_hand(stock, sku, loc);
        let variance = actual - system;
        if variance > COUNT_TOLERANCE || variance < -COUNT_TOLERANCE {
            prev.push((sku, system, actual, variance))
        } else {
            prev
        }
    }
}

/// `i` is the first cycle count with the ID.
pub open spec fn is_first_count(cs: Seq<CycleCount>, id: Seq<char>, i: int) -> bool {
    0 <= i < cs.len() && cs[i].id@ == id && forall|j: int| 0 <= j < i ==> #[trigger] cs[j].id@ != id
}

/// The position of the first cycle count with the ID, or -1.
pub open spec fn first_count(cs: Seq<CycleCount>, id: Seq<char>) -> int {
    if exists|i: int| is_first_count(cs, id, i) {
        choose|i: int| is_first_count(cs, id, i)
    } else {
        -1
    }
}

impl InventoryServer {
    /// Schedules a cycle count for a location under a fresh ID (`cc_` and eight
    /// hexadecimal digits), which it answers.
    pub fn cycle_count_schedule(&mut self, input: CycleCountInput) -> (r: String)
        requires
            old(self).store.wf(),
        ensures
            final(self).store.wf(),
            is_prefixed_id(r@, "cc_"@),
            final(self).store.cycle_counts@.len() == old(self).store.cycle_counts@.len() + 1,
            final(self).store.cycle_counts@.drop_last() == old(self).store.cycle_counts@,
            final(self).store.cycle_counts@.last().id == r,
            final(self).store.cycle_counts@.last().location_id == input.location_id,
            final(self).store.cycle_counts@.last().status == CountStatus::Scheduled,
            final(self).store.cycle_counts@.last().scheduled_date == input.scheduled_date,
            final(self).store.cycle_counts@.last().counted_by is None,
            final(self).store.cycle_counts@.last().discrepancies@.len() == 0,
            final(self).store.cycle_counts@.last().completed_at is None,
            final(self).store.pick_orders == old(self).store.pick_orders,
            final(self).store.waves == old(self).store.waves,
            final(self).store.labels == old(self).store.labels,
            final(self).store.keeps_stock(old(self).store),
            final(self).store.keeps_catalog(old(self).store),
            final(self).store.keeps_tracking(old(self).store),
            final(self).same_config(*old(self)),
    {
        let id = prefixed_id("cc_");
        let cc = CycleCount {
            id: id.clone(),
            location_id: input.location_id,
            status: CountStatus::Scheduled,
            scheduled_date: input.scheduled_date,
            counted_by: None,
            discrepancies: Vec::new(),
            completed_at: None,
        };
        let ghost c0 = self.store.cycle_counts@;
        self.store.cycle_counts.push(cc);
        assert(self.store.cycle_counts@.drop_last() =~= c0);
        id
    }

    /// Completes a cycle count: records who counted and when, and the discrepancies
    /// between the counts submitted and the books, which it answers.
    pub fn cycle_count_complete(&mut self, input: CycleCountCompleteInput) -> (r: Result<Vec<Discrepancy>, InventoryError>)
        requires
            old(self).store.wf(),
        ensures
            final(self).store.wf(),
            r is Err <==> first_count(old(self).store.cycle_counts@, input.cycle_count_id@) < 0,
            r is Err ==> r == Err::<Vec<Discrepancy>, InventoryError>(InventoryError::CycleCountNotFound)
                && final(self).store == old(self).store,
            r matches Ok(ds) ==> {
                let i = first_count(old(self).store.cycle_counts@, input.cycle_count_id@);
                let c = old(self).store.cycle_counts@[i];
                let n = final(self).store.cycle_counts@[i];
                let expected = discrepancies_for(input.counts@, old(self).store.stock@, c.location_id@);
                &&& ds@.len() == expected.len()
                &&& forall|k: int| 0 <= k < ds@.len() ==> #[trigger] discrepancy_view(ds@[k]) == expected[k]
                &&& n.discrepancies@ == ds@
                &&& n.id == c.id && n.location_id == c.location_id && n.scheduled_date == c.scheduled_date
                &&& n.status == CountStatus::Completed
                &&& n.counted_by == Some(input.counted_by)
                &&& n.completed_at is Some
                &&& final(self).store.cycle_counts@.len() == old(self).store.cycle_counts@.len()
                &&& forall|k: int|
                    0 <= k < old(self).store.cycle_counts@.len() && k != i ==> #[trigger] final(self).store.cycle_counts@[k]
                        == old(self).store.cycle_counts@[k]
            },
            final(self).store.pick_orders == old(self).store.pick_orders,
            final(self).store.waves == old(self).store.waves,
            final(self).store.labels == old(self).store.labels,
            final(self).store.keeps_stock(old(self).store),
            final(self).store.keeps_catalog(old(self).store),
            final(self).store.keeps_tracking(old(self).store),
            final(self).same_config(*old(self)),
    {
        let t = now();
        self.cycle_count_complete_at(input, t)
    }

    /// Completes a cycle count at time `now`.
    pub fn cycle_count_complete_at(&mut self, input: CycleCountCompleteInput, now: String) -> (r: Result<
        Vec<Discrepancy>,
        InventoryError,
    >)
        requires
            old(self).store.wf(),
        ensures
            final(self).store.wf(),
            r is Err <==> first_count(old(self).store.cycle_counts@, input.cycle_count_id@) < 0,
            r is Err ==> r == Err::<Vec<Discrepancy>, InventoryError>(InventoryError::CycleCountNotFound)
                && final(self).store == old(self).store,
            r matches Ok(ds) ==> {
                let i = first_count(old(self).store.cycle_counts@, input.cycle_count_id@);
                let c = old(self).store.cycle_counts@[i];
                let n = final(self).store.cycle_counts@[i];
                let expected = discrepancies_for(input.counts@, old(self).store.stock@, c.location_id@);
                &&& ds@.len() == expected.len()
                &&& forall|k: int| 0 <= k < ds@.len() ==> #[trigger] discrepancy_view(ds@[k]) == expected[k]
                &&& n.discrepancies@ == ds@
                &&& n.id == c.id && n.location_id == c.location_id && n.scheduled_date == c.scheduled_date
                &&& n.status == CountStatus::Completed
                &&& n.counted_by == Some(input.counted_by)
                &&& n.completed_at == Some(now)
                &&& final(self).store.cycle_counts@.len() == old(self).store.cycle_counts@.len()
                &&& forall|k: int|
                    0 <= k < old(self).store.cycle_counts@.len() && k != i ==> #[trigger] final(self).store.cycle_counts@[k]
                        == old(self).store.cycle_counts@[k]
            },
            final(self).store.pick_orders == old(self).store.pick_orders,
            final(self).store.waves == old(self).store.waves,
            final(self).store.labels == old(self).store.labels,
            final(self).store.keeps_stock(old(self).store),
            final(self).store.keeps_catalog(old(self).store),
            final(self).store.keeps_tracking(old(self).store),
            final(self).same_config(*old(self)),
    {
        let n = self.store.cycle_counts.len();
        let mut i: usize = 0;
        while i < n && !self.store.cycle_counts[i].id.eq(&input.cycle_count_id)
            invariant
                i <= n,
                n == self.store.cycle_counts@.len(),
                forall|j: int| 0 <= j < i ==> #[trigger] self.store.cycle_counts@[j].id@ != input.cycle_count_id@,
            decreases n - i,
        {
            i = i + 1;
        }
        let ghost cs = self.store.cycle_counts@;
        proof {
            if i < n {
                assert(is_first_count(cs, input.cycle_count_id@, i as int));
                let k = first_count(cs, input.cycle_count_id@);
                assert(is_first_count(cs, input.cycle_count_id@, k));
                if k < i {
                    assert(cs[k].id@ != input.cycle_count_id@);
                } else if i < k {
                    assert(cs[i as int].id@ != input.cycle_count_id@);
                }
            } else {
                assert forall|k: int| !is_first_count(cs, input.cycle_count_id@, k) by {
                    if 0 <= k < n {
                        assert(cs[k].id@ != input.cycle_count_id@);
                    }
                }
            }
        }
        if i >= n {
            return Err(InventoryError::CycleCountNotFound);
        }
        let ghost s0 = self.store.stock@;
        let loc = self.store.cycle_counts[i].location_id.clone();
        let mut ds: Vec<Discrepancy> = Vec::new();
        let mut k: usize = 0;
        while k < input.counts.len()
            invariant
                k <= input.counts.len(),
                self.store.wf(),
                s0 == self.store.stock@,
                ds@.len() == discrepancies_for(input.counts@.take(k as int), s0, loc@).len(),
                forall|m: int|
                    0 <= m < ds@.len() ==> #[trigger] discrepancy_view(ds@[m]) == discrepancies_for(
                        input.counts@.take(k as int),
                        s0,
                        loc@,
                    )[m],
            decreases input.counts.len() - k,
        {
            proof {
                assert(input.counts@.take(k + 1).drop_last() =~= input.counts@.take(k as int));
            }
            let c = &input.counts[k];
            let sku = match &c.sku {
                Some(s) => s.clone(),
                None => String::new(),
            };
            let actual: i64 = match c.actual_qty {
                Some(a) => a,
                None => 0,
            };
            proof {
                lemma_level_index(s0, sku@, loc@);
                lemma_lookup_in_range(s0, sku@, loc@);
            }
            let system: i64 = match find_level(&self.store.stock, &sku, &loc) {
                Some(j) => self.store.stock[j].quantity,
                None => 0,
            };
            let variance: i128 = actual as i128 - system as i128;
            if variance > COUNT_TOLERANCE || variance < -COUNT_TOLERANCE {
                ds.push(Discrepancy { sku, system_qty: system, actual_qty: actual, variance });
            }
            k = k + 1;
        }
        assert(input.counts@.take(input.counts.len() as int) =~= input.counts@);
        let ghost c0 = self.store.cycle_counts@;
        let mut cc = self.store.cycle_counts.remove(i);
        cc.status = CountStatus::Completed;
        cc.counted_by = Some(input.counted_by);
        cc.completed_at = Some(now);
        cc.discrepancies = clone_discrepancies(&ds);
        self.store.cycle_counts.insert(i, cc);
        assert(self.store.cycle_counts@ =~= c0.update(i as int, cc));
        Ok(ds)
    }
}

} // verus!
