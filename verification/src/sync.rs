use vstd::prelude::*;
use vstd::string::*;
use crate::external::now;
use crate::inputs::{GrocySyncInput, PancakeSyncInput, ShopifySyncInput};
use crate::keyed::{has_key, lemma_key_index, lemma_upserted, lookup, upsert};
use crate::labels::{cat, is_text};
use crate::server::InventoryServer;
use crate::store::{
    has_level, in_range, lemma_level_index, lemma_push_new_key, lemma_same_keys, lemma_update_same_key, level_at,
    level_index, level_set, levels_unique, same_but_stamps, QTY_LIMIT,
};
use crate::totals::{available_total, total_available};
use crate::types::{InventoryError, Item, Milli, StockLevel};

verus! {

/// What a sync request leads to before any network traffic.
pub enum SyncPlan {
    /// The backend's settings are missing.
    NotConfigured,
    /// Fetch `url`, authenticating with `auth`.
    Pull { url: String, auth: String },
    /// Send the SKU's available stock, in whole units, to `url`.
    Push { url: String, auth: String, location_id: String, sku: String, quantity: i128, units: i128 },
    /// The backend does not take pushes yet.
    PushNotSupported,
    /// A push needs a SKU.
    SkuRequired,
    /// A push needs the backend's location ID.
    LocationRequired,
    /// The direction is neither "pull" nor "push".
    InvalidDirection,
}

/// One stock level fetched from a backend, to be written into the local store.
pub struct PulledLevel {
    pub sku: String,
    pub location_id: String,
    pub quantity: Milli,
    pub expiry_date: Option<String>,
}

/// One entry of Grocy's stock list.
pub struct GrocyStockEntry {
    /// The product's name (empty where the entry has none).
    pub product_name: String,
    pub amount: Option<Milli>,
    pub min_stock_amount: Option<Milli>,
    pub best_before_date: Option<String>,
}

/// One inventory level from Shopify, its IDs as JSON text.
pub struct ShopifyLevel {
    pub inventory_item_id: String,
    pub available: Option<Milli>,
    pub location_id: String,
}

/// One inventory item from Pancake POS, its IDs as JSON text.
pub struct PancakeItem {
    pub product_id: String,
    pub quantity: Option<Milli>,
    pub warehouse_id: String,
}

/// The stock after writing the fetched levels in order.
pub open spec fn levels_pulled(s: Seq<StockLevel>, pulled: Seq<PulledLevel>, now: String) -> Seq<StockLevel>
    decreases pulled.len(),
{
    if pulled.len() == 0 {
        s
    } else {
        let p = pulled.last();
        level_set(
            levels_pulled(s, pulled.drop_last(), now),
            p.sku,
            p.location_id,
            p.quantity as int,
            p.expiry_date,
            now,
        )
    }
}

/// Every fetched quantity lies in range.
pub open spec fn pulled_in_range(pulled: Seq<PulledLevel>) -> bool {
    forall|i: int| 0 <= i < pulled.len() ==> in_range(#[trigger] pulled[i].quantity as int)
}

/// A quantity fetched from a backend, 0 where none was given.
pub open spec fn amount_or_zero(a: Option<Milli>) -> Milli {
    match a {
        Some(q) => q,
        None => 0,
    }
}

/// The whole units in a quantity of thousandths, the fraction dropped.
pub open spec fn whole_units(q: int) -> int {
    if q >= 0 {
        q / 1000
    } else {
        -((-q) / 1000)
    }
}

/// `p` writes the Shopify level into location "shopify_" and the Shopify location ID.
pub open spec fn is_shopify_pull(p: PulledLevel, l: ShopifyLevel) -> bool {
    &&& p.sku == l.inventory_item_id
    &&& p.location_id@ == "shopify_"@ + l.location_id@
    &&& p.quantity == amount_or_zero(l.available)
    &&& p.expiry_date is None
}

/// `p` writes the Pancake POS item into location "pancake_" and the warehouse ID.
pub open spec fn is_pancake_pull(p: PulledLevel, l: PancakeItem) -> bool {
    &&& p.sku == l.product_id
    &&& p.location_id@ == "pancake_"@ + l.warehouse_id@
    &&& p.quantity == amount_or_zero(l.quantity)
    &&& p.expiry_date is None
}

/// The Grocy entry passes the SKU filter.
pub open spec fn grocy_selected(e: GrocyStockEntry, filter: Option<String>) -> bool {
    match filter {
        Some(f) => f@ == e.product_name@,
        None => true,
    }
}

/// `x` is the item that a Grocy pull adds for an unknown product: named by it, in
/// category "grocy", unit "each", its minimum stock as reorder point (0 where none),
/// reorder quantity 10, cost 0, currency "USD".
pub open spec fn is_grocy_item(x: Item, e: GrocyStockEntry) -> bool {
    &&& x.sku == e.product_name
    &&& x.name == e.product_name
    &&& x.category@ == "grocy"@
    &&& x.unit@ == "each"@
    &&& x.reorder_point == amount_or_zero(e.min_stock_amount)
    &&& x.reorder_qty == 10_000
    &&& x.cost == 0
    &&& x.currency@ == "USD"@
    &&& x.attributes@ == "{}"@
}

/// `p` writes the Grocy entry into location "grocy".
pub open spec fn is_grocy_pull(p: PulledLevel, e: GrocyStockEntry) -> bool {
    &&& p.sku == e.product_name
    &&& p.location_id@ == "grocy"@
    &&& p.quantity == amount_or_zero(e.amount)
    &&& p.expiry_date == e.best_before_date
}

/// The Grocy entries that pass the filter, in order.
pub open spec fn grocy_selection(es: Seq<GrocyStockEntry>, filter: Option<String>) -> Seq<GrocyStockEntry> {
    es.filter(|e: GrocyStockEntry| grocy_selected(e, filter))
}

/// `j` is the first selected entry that names the product.
pub open spec fn is_first_named(sel: Seq<GrocyStockEntry>, key: Seq<char>, j: int) -> bool {
    &&& 0 <= j < sel.len()
    &&& sel[j].product_name@ == key
    &&& forall|m: int| 0 <= m < j ==> #[trigger] sel[m].product_name@ != key
}

/// Builds the plan for a Grocy sync.
pub open spec fn grocy_plan_spec(url: Option<String>, key: Option<String>, direction: Seq<char>, plan: SyncPlan) -> bool {
    if url is None || key is None {
        plan is NotConfigured
    } else if direction == "pull"@ {
        plan matches SyncPlan::Pull { url: u, auth } && u@ == url.unwrap()@ + "/api/stock"@ && auth == key.unwrap()
    } else if direction == "push"@ {
        plan is PushNotSupported
    } else {
        plan is InvalidDirection
    }
}

impl InventoryServer {
    /// Writes fetched stock levels into the store in order, setting the quantity of
    /// each level (creating it where there is none); refused, with nothing written,
    /// where a quantity lies out of range.
    pub fn pull_levels(&mut self, pulled: Vec<PulledLevel>, now: &String) -> (r: Result<usize, InventoryError>)
        requires
            old(self).store.wf(),
        ensures
            final(self).store.wf(),
            r is Ok <==> pulled_in_range(pulled@),
            r is Err ==> r == Err::<usize, InventoryError>(InventoryError::QuantityOutOfRange) && final(self).store
                == old(self).store,
            r is Ok ==> r == Ok::<usize, InventoryError>(pulled@.len() as usize) && final(self).store.stock@
                == levels_pulled(old(self).store.stock@, pulled@, *now),
            final(self).store.movements == old(self).store.movements,
            final(self).store.reservations == old(self).store.reservations,
            final(self).store.keeps_catalog(old(self).store),
            final(self).store.keeps_operations(old(self).store),
            final(self).store.keeps_tracking(old(self).store),
            final(self).same_config(*old(self)),
    {
        let mut i: usize = 0;
        while i < pulled.len()
            invariant
                i <= pulled.len(),
                *self == *old(self),
                old(self).store.wf(),
                forall|j: int| 0 <= j < i ==> in_range(#[trigger] pulled@[j].quantity as int),
            decreases pulled.len() - i,
        {
            let q = pulled[i].quantity;
            if q < -QTY_LIMIT || q > QTY_LIMIT {
                return Err(InventoryError::QuantityOutOfRange);
            }
            i = i + 1;
        }
        let n = pulled.len();
        let mut k: usize = 0;
        while k < n
            invariant
                k <= n,
                n == pulled@.len(),
                pulled_in_range(pulled@),
                self.store.wf(),
                self.store.stock@ == levels_pulled(old(self).store.stock@, pulled@.take(k as int), *now),
                self.store.movements == old(self).store.movements,
                self.store.reservations == old(self).store.reservations,
                self.store.keeps_catalog(old(self).store),
                self.store.keeps_operations(old(self).store),
                self.store.keeps_tracking(old(self).store),
                self.same_config(*old(self)),
            decreases n - k,
        {
            proof {
                assert(pulled@.take(k + 1).drop_last() =~= pulled@.take(k as int));
                assert(in_range(pulled@[k as int].quantity as int));
            }
            let p = &pulled[k];
            self.store.set_level_at(
                p.sku.clone(),
                p.location_id.clone(),
                p.quantity,
                crate::types::clone_opt(&p.expiry_date),
                now,
            );
            k = k + 1;
        }
        assert(pulled@.take(n as int) =~= pulled@);
        Ok(n)
    }

    /// The plan of a Grocy sync: "pull" fetches the stock list, "push" is not supported.
    pub fn grocy_plan(&self, input: &GrocySyncInput) -> (r: SyncPlan)
        ensures
            grocy_plan_spec(self.grocy_url, self.grocy_key, input.direction@, r),
    {
        let (url, key) = match (&self.grocy_url, &self.grocy_key) {
            (Some(u), Some(k)) => (u, k),
            _ => {
                return SyncPlan::NotConfigured;
            },
        };
        if is_text(&input.direction, "pull") {
            SyncPlan::Pull { url: cat(url.as_str(), "/api/stock"), auth: key.clone() }
        } else if is_text(&input.direction, "push") {
            SyncPlan::PushNotSupported
        } else {
            SyncPlan::InvalidDirection
        }
    }

    /// Imports Grocy's stock list: for each entry that passes the SKU filter, adds the
    /// product to the catalog where it is unknown (from the first entry that names
    /// it) and sets its stock at location "grocy"; answers how many entries were
    /// imported.
    pub fn grocy_pull(&mut self, entries: Vec<GrocyStockEntry>, sku: Option<String>) -> (r: Result<usize, InventoryError>)
        requires
            old(self).store.wf(),
        ensures
            final(self).store.wf(),
            r is Ok <==> forall|i: int|
                0 <= i < grocy_selection(entries@, sku).len() ==> in_range(
                    amount_or_zero(#[trigger] grocy_selection(entries@, sku)[i].amount) as int,
                ),
            r is Err ==> r == Err::<usize, InventoryError>(InventoryError::QuantityOutOfRange) && final(self).store
                == old(self).store,
            r matches Ok(n) ==> n == grocy_selection(entries@, sku).len(),
            r is Ok ==> exists|pulled: Seq<PulledLevel>, now: String|
                {
                    &&& pulled.len() == grocy_selection(entries@, sku).len()
                    &&& forall|i: int|
                        0 <= i < pulled.len() ==> is_grocy_pull(#[trigger] pulled[i], grocy_selection(entries@, sku)[i])
                    &&& final(self).store.stock@ == #[trigger] levels_pulled(old(self).store.stock@, pulled, now)
                },
            r is Ok ==> forall|k: Seq<char>|
                #![trigger lookup(final(self).store.items@, k)]
                has_key(old(self).store.items@, k) ==> lookup(final(self).store.items@, k) == lookup(
                    old(self).store.items@,
                    k,
                ),
            r is Ok ==> forall|i: int|
                #![trigger grocy_selection(entries@, sku)[i]]
                0 <= i < grocy_selection(entries@, sku).len() ==> has_key(
                    final(self).store.items@,
                    grocy_selection(entries@, sku)[i].product_name@,
                ),
            r is Ok ==> forall|k: Seq<char>|
                #![trigger has_key(final(self).store.items@, k)]
                has_key(final(self).store.items@, k) && !has_key(old(self).store.items@, k) ==> exists|i: int|
                    #[trigger] is_first_named(grocy_selection(entries@, sku), k, i) && is_grocy_item(
                        lookup(final(self).store.items@, k).unwrap(),
                        grocy_selection(entries@, sku)[i],
                    ),
            final(self).store.locations == old(self).store.locations,
            final(self).store.bom == old(self).store.bom,
            final(self).store.putaway_rules == old(self).store.putaway_rules,
            final(self).store.movements == old(self).store.movements,
            final(self).store.reservations == old(self).store.reservations,
            final(self).store.keeps_operations(old(self).store),
            final(self).store.keeps_tracking(old(self).store),
            final(self).same_config(*old(self)),
    {
        let ghost sel = grocy_selection(entries@, sku);
        let ghost pred = |e: GrocyStockEntry| grocy_selected(e, sku);
        // Pick out the selected entries, checking their quantities first.
        let mut chosen: Vec<usize> = Vec::new();
        let mut i: usize = 0;
        while i < entries.len()
            invariant
                i <= entries.len(),
                *self == *old(self),
                old(self).store.wf(),
                pred == (|e: GrocyStockEntry| grocy_selected(e, sku)),
                chosen@.len() == entries@.take(i as int).filter(pred).len(),
                forall|j: int|
                    0 <= j < chosen@.len() ==> #[trigger] chosen@[j] < entries@.len() && entries@[chosen@[j] as int]
                        == entries@.take(i as int).filter(pred)[j],
                forall|j: int|
                    0 <= j < entries@.take(i as int).filter(pred).len() ==> in_range(
                        amount_or_zero(#[trigger] entries@.take(i as int).filter(pred)[j].amount) as int,
                    ),
            decreases entries.len() - i,
        {
            proof {
                reveal_with_fuel(Seq::<_>::filter, 1);
                let t = entries@.take(i + 1);
                assert(t.drop_last() =~= entries@.take(i as int));
                assert(t.last() == entries@[i as int]);
            }
            let e = &entries[i];
            let selected = match &sku {
                Some(f) => f.eq(&e.product_name),
                None => true,
            };
            if selected {
                let q = match e.amount {
                    Some(q) => q,
                    None => 0,
                };
                if q < -QTY_LIMIT || q > QTY_LIMIT {
                    proof {
                        let t = entries@.take(i + 1).filter(pred);
                        assert(t.last() == entries@[i as int]);
                        lemma_filter_prefix_out_of_range(entries@, pred, i as int + 1, sku);
                    }
                    return Err(InventoryError::QuantityOutOfRange);
                }
                chosen.push(i);
            }
            i = i + 1;
        }
        assert(entries@.take(entries.len() as int) =~= entries@);
        let now = now();
        let grocy = String::from_str("grocy");
        let mut pulled: Vec<PulledLevel> = Vec::new();
        let mut k: usize = 0;
        while k < chosen.len()
            invariant
                k <= chosen.len(),
                chosen@.len() == sel.len(),
                sel == entries@.filter(pred),
                forall|j: int|
                    0 <= j < chosen@.len() ==> #[trigger] chosen@[j] < entries@.len() && entries@[chosen@[j] as int]
                        == sel[j],
                grocy@ == "grocy"@,
                self.store.wf(),
                pulled@.len() == k,
                forall|j: int| 0 <= j < k ==> is_grocy_pull(#[trigger] pulled@[j], sel[j]),
                forall|j: int| 0 <= j < k ==> has_key(self.store.items@, #[trigger] sel[j].product_name@),
                forall|key: Seq<char>|
                    #![trigger lookup(self.store.items@, key)]
                    has_key(old(self).store.items@, key) ==> lookup(self.store.items@, key) == lookup(
                        old(self).store.items@,
                        key,
                    ),
                forall|key: Seq<char>|
                    #![trigger has_key(self.store.items@, key)]
                    has_key(self.store.items@, key) && !has_key(old(self).store.items@, key) ==> exists|j: int|
                        0 <= j < k && #[trigger] is_first_named(sel, key, j) && is_grocy_item(
                            lookup(self.store.items@, key).unwrap(),
                            sel[j],
                        ),
                self.store.stock == old(self).store.stock,
                self.store.locations == old(self).store.locations,
                self.store.bom == old(self).store.bom,
                self.store.putaway_rules == old(self).store.putaway_rules,
                self.store.movements == old(self).store.movements,
                self.store.reservations == old(self).store.reservations,
                self.store.keeps_operations(old(self).store),
                self.store.keeps_tracking(old(self).store),
                self.same_config(*old(self)),
            decreases chosen.len() - k,
        {
            let e = &entries[chosen[k]];
            let ghost items0 = self.store.items@;
            proof {
                lemma_key_index(items0, e.product_name@);
            }
            match crate::keyed::find_key(&self.store.items, &e.product_name) {
                Some(_) => {},
                None => {
                    let item = Item {
                        sku: e.product_name.clone(),
                        name: e.product_name.clone(),
                        category: String::from_str("grocy"),
                        unit: String::from_str("each"),
                        reorder_point: match e.min_stock_amount {
                            Some(m) => m,
                            None => 0,
                        },
                        reorder_qty: 10_000,
                        cost: 0,
                        currency: String::from_str("USD"),
                        attributes: String::from_str("{}"),
                    };
                    proof {
                        lemma_upserted(items0, item);
                    }
                    upsert(&mut self.store.items, item);
                },
            }
            pulled.push(
                PulledLevel {
                    sku: e.product_name.clone(),
                    location_id: grocy.clone(),
                    quantity: match e.amount {
                        Some(q) => q,
                        None => 0,
                    },
                    expiry_date: crate::types::clone_opt(&e.best_before_date),
                },
            );
            proof {
                assert forall|j: int| 0 <= j < k + 1 implies has_key(self.store.items@, #[trigger] sel[j].product_name@) by {
                    let key = sel[j].product_name@;
                    if j < k {
                        assert(has_key(items0, key));
                        if key != e.product_name@ {
                            assert(lookup(self.store.items@, key) == lookup(items0, key));
                        }
                    }
                    assert(lookup(self.store.items@, key) is Some);
                }
                assert forall|key: Seq<char>|
                    has_key(self.store.items@, key) && !has_key(old(self).store.items@, key) implies exists|j: int|
                        0 <= j < k + 1 && #[trigger] is_first_named(sel, key, j) && is_grocy_item(
                            lookup(self.store.items@, key).unwrap(),
                            sel[j],
                        ) by {
                    if key == e.product_name@ && !has_key(items0, key) {
                        assert forall|m: int| 0 <= m < k implies #[trigger] sel[m].product_name@ != key by {
                            assert(has_key(items0, sel[m].product_name@));
                        }
                        assert(is_first_named(sel, key, k as int));
                    } else {
                        assert(has_key(items0, key));
                        let j = choose|j: int|
                            0 <= j < k && #[trigger] is_first_named(sel, key, j) && is_grocy_item(
                                lookup(items0, key).unwrap(),
                                sel[j],
                            );
                    }
                }
            }
            k = k + 1;
        }
        let r = self.pull_levels(pulled, &now);
        proof {
            assert forall|j: int| 0 <= j < pulled@.len() implies in_range(#[trigger] pulled@[j].quantity as int) by {
                assert(in_range(amount_or_zero(sel[j].amount) as int));
            }
        }
        r
    }
}

/// The whole units of a quantity of thousandths, the fraction dropped.
pub fn units_of(q: i128) -> (r: i128)
    requires
        -crate::totals::sum_limit() <= q <= crate::totals::sum_limit(),
    ensures
        r == whole_units(q as int),
{
    if q >= 0 {
        q / 1000
    } else {
        -((-q) / 1000)
    }
}

/// A push succeeded where the backend answered with an HTTP status below 400.
pub fn push_succeeded(status: u16) -> (r: bool)
    ensures
        r == (status < 400),
{
    status < 400
}

/// Builds the plan for a Shopify sync over the given stock.
pub open spec fn shopify_plan_spec(
    store: Option<String>,
    token: Option<String>,
    input: ShopifySyncInput,
    stock: Seq<StockLevel>,
    plan: SyncPlan,
) -> bool {
    let base = "https://"@ + store.unwrap()@ + ".myshopify.com/admin/api/2024-01"@;
    if store is None || token is None {
        plan is NotConfigured
    } else if input.direction@ == "pull"@ {
        plan matches SyncPlan::Pull { url, auth } && url@ == base + "/inventory_levels.json?limit=50"@ && auth
            == token.unwrap()
    } else if input.direction@ == "push"@ {
        match input.sku {
            None => plan is SkuRequired,
            Some(sku) => match input.location_id {
                None => plan is LocationRequired,
                Some(l) => plan matches SyncPlan::Push { url, auth, location_id, sku: s, quantity, units } && url@
                    == base + "/inventory_levels/set.json"@ && auth == token.unwrap() && location_id == l && s == sku
                    && quantity == total_available(stock, sku@) && units == whole_units(quantity as int),
            },
        }
    } else {
        plan is InvalidDirection
    }
}

/// Builds the plan for a Pancake POS sync.
pub open spec fn pancake_plan_spec(key: Option<String>, shop: Option<String>, input: PancakeSyncInput, plan: SyncPlan) -> bool {
    let base = "https://pos.pages.fm/api/v1/shops/"@ + shop.unwrap()@;
    if key is None || shop is None {
        plan is NotConfigured
    } else if input.direction@ == "pull"@ {
        plan matches SyncPlan::Pull { url, auth } && url@ == base + "/inventory?warehouse_id="@ + match input.warehouse_id {
            Some(w) => w@,
            None => "all"@,
        } && auth@ == "Bearer "@ + key.unwrap()@
    } else if input.direction@ == "push"@ {
        plan is PushNotSupported
    } else {
        plan is InvalidDirection
    }
}

impl InventoryServer {
    /// The plan of a Shopify sync: "pull" fetches the inventory levels, "push" sends a
    /// SKU's available stock, in whole units, to a Shopify location; a push needs both
    /// the SKU and the location ID.
    pub fn shopify_plan(&self, input: &ShopifySyncInput) -> (r: SyncPlan)
        requires
            self.store.wf(),
        ensures
            shopify_plan_spec(self.shopify_store, self.shopify_token, *input, self.store.stock@, r),
    {
        let (store, token) = match (&self.shopify_store, &self.shopify_token) {
            (Some(s), Some(t)) => (s, t),
            _ => {
                return SyncPlan::NotConfigured;
            },
        };
        let mut base = cat("https://", store.as_str());
        base.append(".myshopify.com/admin/api/2024-01");
        if is_text(&input.direction, "pull") {
            SyncPlan::Pull { url: cat(base.as_str(), "/inventory_levels.json?limit=50"), auth: token.clone() }
        } else if is_text(&input.direction, "push") {
            match &input.sku {
                None => SyncPlan::SkuRequired,
                Some(sku) => {
                    let location_id = match &input.location_id {
                        Some(l) => l.clone(),
                        None => {
                            return SyncPlan::LocationRequired;
                        },
                    };
                    let quantity = available_total(&self.store.stock, sku);
                    SyncPlan::Push {
                        url: cat(base.as_str(), "/inventory_levels/set.json"),
                        auth: token.clone(),
                        location_id,
                        sku: sku.clone(),
                        quantity,
                        units: units_of(quantity),
                    }
                },
            }
        } else {
            SyncPlan::InvalidDirection
        }
    }

    /// Imports Shopify inventory levels, each at location "shopify_" and its Shopify
    /// location ID; answers how many were imported.
    pub fn shopify_pull(&mut self, levels: Vec<ShopifyLevel>) -> (r: Result<usize, InventoryError>)
        requires
            old(self).store.wf(),
        ensures
            final(self).store.wf(),
            r is Ok <==> forall|i: int| 0 <= i < levels@.len() ==> in_range(amount_or_zero(#[trigger] levels@[i].available) as int),
            r is Err ==> r == Err::<usize, InventoryError>(InventoryError::QuantityOutOfRange) && final(self).store
                == old(self).store,
            r is Ok ==> r == Ok::<usize, InventoryError>(levels@.len() as usize) && exists|pulled: Seq<PulledLevel>, now: String|
                {
                    &&& pulled.len() == levels@.len()
                    &&& forall|i: int| 0 <= i < pulled.len() ==> is_shopify_pull(#[trigger] pulled[i], levels@[i])
                    &&& final(self).store.stock@ == #[trigger] levels_pulled(old(self).store.stock@, pulled, now)
                },
            final(self).store.movements == old(self).store.movements,
            final(self).store.reservations == old(self).store.reservations,
            final(self).store.keeps_catalog(old(self).store),
            final(self).store.keeps_operations(old(self).store),
            final(self).store.keeps_tracking(old(self).store),
            final(self).same_config(*old(self)),
    {
        let mut pulled: Vec<PulledLevel> = Vec::new();
        let mut i: usize = 0;
        while i < levels.len()
            invariant
                i <= levels.len(),
                pulled@.len() == i,
                forall|j: int| 0 <= j < i ==> is_shopify_pull(#[trigger] pulled@[j], levels@[j]),
            decreases levels.len() - i,
        {
            let l = &levels[i];
            pulled.push(
                PulledLevel {
                    sku: l.inventory_item_id.clone(),
                    location_id: cat("shopify_", l.location_id.as_str()),
                    quantity: match l.available {
                        Some(q) => q,
                        None => 0,
                    },
                    expiry_date: None,
                },
            );
            i = i + 1;
        }
        let t = now();
        let ghost pv = pulled@;
        let r = self.pull_levels(pulled, &t);
        proof {
            assert(pulled_in_range(pv) <==> forall|i: int|
                0 <= i < levels@.len() ==> in_range(amount_or_zero(#[trigger] levels@[i].available) as int)) by {
                if pulled_in_range(pv) {
                    assert forall|i: int| 0 <= i < levels@.len() implies in_range(
                        amount_or_zero(#[trigger] levels@[i].available) as int,
                    ) by {
                        assert(in_range(pv[i].quantity as int));
                    }
                }
            }
            if r is Ok {
                assert(final(self).store.stock@ == levels_pulled(old(self).store.stock@, pv, t));
            }
        }
        r
    }

    /// The plan of a Pancake POS sync: "pull" fetches the inventory (of one warehouse,
    /// or "all"), "push" is not supported.
    pub fn pancake_plan(&self, input: &PancakeSyncInput) -> (r: SyncPlan)
        ensures
            pancake_plan_spec(self.pancake_key, self.pancake_shop, *input, r),
    {
        let (key, shop) = match (&self.pancake_key, &self.pancake_shop) {
            (Some(k), Some(s)) => (k, s),
            _ => {
                return SyncPlan::NotConfigured;
            },
        };
        let base = cat("https://pos.pages.fm/api/v1/shops/", shop.as_str());
        if is_text(&input.direction, "pull") {
            let mut url = cat(base.as_str(), "/inventory?warehouse_id=");
            match &input.warehouse_id {
                Some(w) => url.append(w.as_str()),
                None => url.append("all"),
            }
            SyncPlan::Pull { url, auth: cat("Bearer ", key.as_str()) }
        } else if is_text(&input.direction, "push") {
            SyncPlan::PushNotSupported
        } else {
            SyncPlan::InvalidDirection
        }
    }

    /// Imports Pancake POS inventory, each item at location "pancake_" and its
    /// warehouse ID; answers how many were imported.
    pub fn pancake_pull(&mut self, items: Vec<PancakeItem>) -> (r: Result<usize, InventoryError>)
        requires
            old(self).store.wf(),
        ensures
            final(self).store.wf(),
            r is Ok <==> forall|i: int| 0 <= i < items@.len() ==> in_range(amount_or_zero(#[trigger] items@[i].quantity) as int),
            r is Err ==> r == Err::<usize, InventoryError>(InventoryError::QuantityOutOfRange) && final(self).store
                == old(self).store,
            r is Ok ==> r == Ok::<usize, InventoryError>(items@.len() as usize) && exists|pulled: Seq<PulledLevel>, now: String|
                {
                    &&& pulled.len() == items@.len()
                    &&& forall|i: int| 0 <= i < pulled.len() ==> is_pancake_pull(#[trigger] pulled[i], items@[i])
                    &&& final(self).store.stock@ == #[trigger] levels_pulled(old(self).store.stock@, pulled, now)
                },
            final(self).store.movements == old(self).store.movements,
            final(self).store.reservations == old(self).store.reservations,
            final(self).store.keeps_catalog(old(self).store),
            final(self).store.keeps_operations(old(self).store),
            final(self).store.keeps_tracking(old(self).store),
            final(self).same_config(*old(self)),
    {
        let mut pulled: Vec<PulledLevel> = Vec::new();
        let mut i: usize = 0;
        while i < items.len()
            invariant
                i <= items.len(),
                pulled@.len() == i,
                forall|j: int| 0 <= j < i ==> is_pancake_pull(#[trigger] pulled@[j], items@[j]),
            decreases items.len() - i,
        {
            let l = &items[i];
            pulled.push(
                PulledLevel {
                    sku: l.product_id.clone(),
                    location_id: cat("pancake_", l.warehouse_id.as_str()),
                    quantity: match l.quantity {
                        Some(q) => q,
                        None => 0,
                    },
                    expiry_date: None,
                },
            );
            i = i + 1;
        }
        let t = now();
        let ghost pv = pulled@;
        let r = self.pull_levels(pulled, &t);
        proof {
            assert(pulled_in_range(pv) <==> forall|i: int|
                0 <= i < items@.len() ==> in_range(amount_or_zero(#[trigger] items@[i].quantity) as int)) by {
                if pulled_in_range(pv) {
                    assert forall|i: int| 0 <= i < items@.len() implies in_range(
                        amount_or_zero(#[trigger] items@[i].quantity) as int,
                    ) by {
                        assert(in_range(pv[i].quantity as int));
                    }
                }
            }
            if r is Ok {
                assert(final(self).store.stock@ == levels_pulled(old(self).store.stock@, pv, t));
            }
        }
        r
    }
}

/// Where a selected entry of a prefix has an out-of-range amount, not every selected
/// entry of the whole list is in range.
proof fn lemma_filter_prefix_out_of_range(
    es: Seq<GrocyStockEntry>,
    pred: spec_fn(GrocyStockEntry) -> bool,
    n: int,
    sku: Option<String>,
)
    requires
        0 < n <= es.len(),
        pred == (|e: GrocyStockEntry| grocy_selected(e, sku)),
        pred(es[n - 1]),
        !in_range(amount_or_zero(es[n - 1].amount) as int),
    ensures
        !(forall|i: int|
            0 <= i < grocy_selection(es, sku).len() ==> in_range(
                amount_or_zero(#[trigger] grocy_selection(es, sku)[i].amount) as int,
            )),
{
    assert(es.take(n) + es.skip(n) =~= es);
    es.take(n).lemma_filter_len(pred);
    Seq::filter_distributes_over_add(es.take(n), es.skip(n), pred);
    reveal_with_fuel(Seq::<_>::filter, 1);
    assert(es.take(n).drop_last().filter(pred).push(es[n - 1]) == es.take(n).filter(pred)) by {
        assert(es.take(n).last() == es[n - 1]);
    }
    let k = es.take(n).filter(pred).len() - 1;
    assert(grocy_selection(es, sku)[k] == es[n - 1]);
}

/// The quantity that the last fetched level of `sku` at `loc` writes, if any does.
pub open spec fn last_pulled(ps: Seq<PulledLevel>, sku: Seq<char>, loc: Seq<char>) -> Option<Milli>
    decreases ps.len(),
{
    if ps.len() == 0 {
        None
    } else if ps.last().sku@ == sku && ps.last().location_id@ == loc {
        Some(ps.last().quantity)
    } else {
        last_pulled(ps.drop_last(), sku, loc)
    }
}

/// Every fetched level has a stock level.
pub open spec fn pulled_present(t: Seq<StockLevel>, ps: Seq<PulledLevel>) -> bool {
    forall|m: int| 0 <= m < ps.len() ==> has_level(t, #[trigger] ps[m].sku@, ps[m].location_id@)
}

/// Every stock level that a fetched level names holds the last quantity fetched for
/// it, stamped `now`.
pub open spec fn pulled_fresh(t: Seq<StockLevel>, ps: Seq<PulledLevel>, now: String) -> bool {
    forall|i: int|
        0 <= i < t.len() ==> match last_pulled(ps, #[trigger] t[i].sku@, t[i].location_id@) {
            Some(q) => t[i].quantity == q && t[i].updated_at == now,
            None => true,
        }
}

/// `u` is `t` with every level that a fetched level names set to the last quantity
/// fetched for it, stamped `now`.
pub open spec fn refreshes(u: Seq<StockLevel>, t: Seq<StockLevel>, ps: Seq<PulledLevel>, now: String) -> bool {
    &&& u.len() == t.len()
    &&& forall|i: int|
        0 <= i < t.len() ==> #[trigger] u[i] == match last_pulled(ps, t[i].sku@, t[i].location_id@) {
            Some(q) => StockLevel { quantity: q, updated_at: now, ..t[i] },
            None => t[i],
        }
}

/// A pull leaves the levels unique, every fetched level present and holding the last
/// quantity fetched for it.
proof fn lemma_pull_fresh(s: Seq<StockLevel>, ps: Seq<PulledLevel>, now: String)
    requires
        levels_unique(s),
    ensures
        levels_unique(levels_pulled(s, ps, now)),
        pulled_present(levels_pulled(s, ps, now), ps),
        pulled_fresh(levels_pulled(s, ps, now), ps, now),
    decreases ps.len(),
{
    if ps.len() > 0 {
        let p0 = ps.drop_last();
        let x = ps.last();
        lemma_pull_fresh(s, p0, now);
        let v = levels_pulled(s, p0, now);
        let r = levels_pulled(s, ps, now);
        lemma_level_index(v, x.sku@, x.location_id@);
        let i0 = level_index(v, x.sku@, x.location_id@);
        if i0 >= 0 {
            let y = StockLevel { quantity: (x.quantity as int) as i64, updated_at: now, ..v[i0] };
            assert(r == v.update(i0, y));
            lemma_update_same_key(v, i0, y);
            assert forall|m: int| 0 <= m < ps.len() implies has_level(r, #[trigger] ps[m].sku@, ps[m].location_id@) by {
                if m < p0.len() {
                    assert(p0[m] == ps[m]);
                    assert(has_level(v, p0[m].sku@, p0[m].location_id@));
                } else {
                    assert(level_at(r[i0], x.sku@, x.location_id@));
                }
            }
            assert forall|i: int| 0 <= i < r.len() implies match last_pulled(ps, #[trigger] r[i].sku@, r[i].location_id@) {
                Some(q) => r[i].quantity == q && r[i].updated_at == now,
                None => true,
            } by {
                if i != i0 {
                    assert(r[i] == v[i]);
                    assert(!level_at(v[i], v[i0].sku@, v[i0].location_id@));
                    assert(last_pulled(ps, r[i].sku@, r[i].location_id@) == last_pulled(p0, v[i].sku@, v[i].location_id@)) by {
                        assert(!(x.sku@ == v[i].sku@ && x.location_id@ == v[i].location_id@));
                    }
                    assert(match last_pulled(p0, #[trigger] v[i].sku@, v[i].location_id@) {
                        Some(q) => v[i].quantity == q && v[i].updated_at == now,
                        None => true,
                    });
                }
            }
        } else {
            let y = StockLevel {
                sku: x.sku,
                location_id: x.location_id,
                quantity: (x.quantity as int) as i64,
                reserved: 0,
                lot_number: None,
                expiry_date: x.expiry_date,
                updated_at: now,
            };
            assert(r == v.push(y));
            lemma_push_new_key(v, y);
            assert forall|m: int| 0 <= m < ps.len() implies has_level(r, #[trigger] ps[m].sku@, ps[m].location_id@) by {
                if m < p0.len() {
                    assert(p0[m] == ps[m]);
                    let k = choose|k: int| 0 <= k < v.len() && #[trigger] level_at(v[k], p0[m].sku@, p0[m].location_id@);
                    assert(level_at(r[k], ps[m].sku@, ps[m].location_id@));
                } else {
                    assert(level_at(r[v.len() as int], x.sku@, x.location_id@));
                }
            }
            assert forall|i: int| 0 <= i < r.len() implies match last_pulled(ps, #[trigger] r[i].sku@, r[i].location_id@) {
                Some(q) => r[i].quantity == q && r[i].updated_at == now,
                None => true,
            } by {
                if i < v.len() {
                    assert(r[i] == v[i]);
                    if x.sku@ == v[i].sku@ && x.location_id@ == v[i].location_id@ {
                        assert(level_at(v[i], x.sku@, x.location_id@));
                    }
                    assert(match last_pulled(p0, #[trigger] v[i].sku@, v[i].location_id@) {
                        Some(q) => v[i].quantity == q && v[i].updated_at == now,
                        None => true,
                    });
                }
            }
        }
    }
}

/// A pull over levels that are all present sets each to the last quantity fetched
/// for it and leaves the rest alone.
proof fn lemma_pull_refreshes(t: Seq<StockLevel>, ps: Seq<PulledLevel>, now: String)
    requires
        levels_unique(t),
        pulled_present(t, ps),
    ensures
        refreshes(levels_pulled(t, ps, now), t, ps, now),
    decreases ps.len(),
{
    if ps.len() == 0 {
        assert(levels_pulled(t, ps, now) =~= t);
    } else {
        let p0 = ps.drop_last();
        let x = ps.last();
        assert(pulled_present(t, p0)) by {
            assert forall|m: int| 0 <= m < p0.len() implies has_level(t, #[trigger] p0[m].sku@, p0[m].location_id@) by {
                assert(p0[m] == ps[m]);
            }
        }
        lemma_pull_refreshes(t, p0, now);
        let v = levels_pulled(t, p0, now);
        let r = levels_pulled(t, ps, now);
        assert forall|i: int| 0 <= i < t.len() implies (#[trigger] v[i]).sku@ == t[i].sku@ && v[i].location_id@
            == t[i].location_id@ by {
            assert(v[i] == match last_pulled(p0, t[i].sku@, t[i].location_id@) {
                Some(q) => StockLevel { quantity: q, updated_at: now, ..t[i] },
                None => t[i],
            });
        }
        lemma_same_keys(v, t, x.sku@, x.location_id@);
        assert(has_level(t, ps[ps.len() - 1].sku@, ps[ps.len() - 1].location_id@));
        lemma_level_index(t, x.sku@, x.location_id@);
        let i0 = level_index(t, x.sku@, x.location_id@);
        let y = StockLevel { quantity: (x.quantity as int) as i64, updated_at: now, ..v[i0] };
        assert(r == v.update(i0, y));
        assert forall|i: int| 0 <= i < t.len() implies #[trigger] r[i] == match last_pulled(ps, t[i].sku@, t[i].location_id@) {
            Some(q) => StockLevel { quantity: q, updated_at: now, ..t[i] },
            None => t[i],
        } by {
            assert(v[i] == match last_pulled(p0, t[i].sku@, t[i].location_id@) {
                Some(q) => StockLevel { quantity: q, updated_at: now, ..t[i] },
                None => t[i],
            });
            if i != i0 {
                assert(!level_at(t[i], t[i0].sku@, t[i0].location_id@));
            }
        }
    }
}

/// Law: repeating a pull with the same fetched levels changes nothing further: the
/// stock after two pulls is the stock after one.
pub proof fn law_pull_repeat_idempotent(s: Seq<StockLevel>, ps: Seq<PulledLevel>, now: String)
    requires
        levels_unique(s),
    ensures
        levels_pulled(levels_pulled(s, ps, now), ps, now) == levels_pulled(s, ps, now),
{
    let t = levels_pulled(s, ps, now);
    lemma_pull_fresh(s, ps, now);
    lemma_pull_refreshes(t, ps, now);
    let u = levels_pulled(t, ps, now);
    assert forall|i: int| 0 <= i < t.len() implies #[trigger] u[i] == t[i] by {
        assert(u[i] == match last_pulled(ps, t[i].sku@, t[i].location_id@) {
            Some(q) => StockLevel { quantity: q, updated_at: now, ..t[i] },
            None => t[i],
        });
        assert(match last_pulled(ps, t[i].sku@, t[i].location_id@) {
            Some(q) => t[i].quantity == q && t[i].updated_at == now,
            None => true,
        });
    }
    assert(u =~= t);
}

/// Law: repeating a pull with the same fetched levels at a later time changes no
/// quantity, nor anything else but the update times: the stock after the second pull
/// agrees with the stock after the first in everything but those.
pub proof fn law_pull_repeat_keeps_quantities(s: Seq<StockLevel>, ps: Seq<PulledLevel>, first: String, second: String)
    requires
        levels_unique(s),
    ensures
        same_but_stamps(levels_pulled(levels_pulled(s, ps, first), ps, second), levels_pulled(s, ps, first)),
{
    let t = levels_pulled(s, ps, first);
    lemma_pull_fresh(s, ps, first);
    lemma_pull_refreshes(t, ps, second);
    let u = levels_pulled(t, ps, second);
    assert forall|i: int| 0 <= i < u.len() implies #[trigger] u[i] == StockLevel { updated_at: u[i].updated_at, ..t[i] } by {
        assert(u[i] == match last_pulled(ps, t[i].sku@, t[i].location_id@) {
            Some(q) => StockLevel { quantity: q, updated_at: second, ..t[i] },
            None => t[i],
        });
        assert(match last_pulled(ps, t[i].sku@, t[i].location_id@) {
            Some(q) => t[i].quantity == q && t[i].updated_at == first,
            None => true,
        });
    }
}

} // verus!
