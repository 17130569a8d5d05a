use vstd::prelude::*;
use crate::store::Store;

verus! {

/// The inventory with the settings of the external backends it syncs with.
pub struct InventoryServer {
    pub store: Store,
    pub grocy_url: Option<String>,
    pub grocy_key: Option<String>,
    pub shopify_store: Option<String>,
    pub shopify_token: Option<String>,
    pub pancake_key: Option<String>,
    pub pancake_shop: Option<String>,
}

impl InventoryServer {
    /// The backend settings are as in `o`.
    pub open spec fn same_config(&self, o: InventoryServer) -> bool {
        &&& self.grocy_url == o.grocy_url
        &&& self.grocy_key == o.grocy_key
        &&& self.shopify_store == o.shopify_store
        &&& self.shopify_token == o.shopify_token
        &&& self.pancake_key == o.pancake_key
        &&& self.pancake_shop == o.pancake_shop
    }

    /// An empty inventory with the given backend settings.
    pub fn new(
        grocy_url: Option<String>,
        grocy_key: Option<String>,
        shopify_store: Option<String>,
        shopify_token: Option<String>,
        pancake_key: Option<String>,
        pancake_shop: Option<String>,
    ) -> (s: Self)
        ensures
            s.store.wf(),
            s.store.is_empty(),
            s.grocy_url == grocy_url,
            s.grocy_key == grocy_key,
            s.shopify_store == shopify_store,
            s.shopify_token == shopify_token,
            s.pancake_key == pancake_key,
            s.pancake_shop == pancake_shop,
    {
        InventoryServer {
            store: Store::new(),
            grocy_url,
            grocy_key,
            shopify_store,
            shopify_token,
            pancake_key,
            pancake_shop,
        }
    }
}

} // verus!
