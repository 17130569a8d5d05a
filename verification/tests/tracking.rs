use mcp_inventory::inputs::{
    GrocySyncInput, ItemInput, LabelBatchInput, LabelInput, LocationInput, PancakeSyncInput, QrGenerateInput,
    RfidQueryInput, RfidReadInput, RfidRegisterInput, SerialMoveInput, SerialQueryInput, SerialRegisterInput,
    SerialScanInput, ShopifySyncInput, ReceiveInput,
};
use mcp_inventory::server::InventoryServer;
use mcp_inventory::sync::{push_succeeded, units_of, GrocyStockEntry, PancakeItem, ShopifyLevel, SyncPlan};
use mcp_inventory::types::{InventoryError, SerialStatus};

fn server() -> InventoryServer {
    InventoryServer::new(None, None, None, None, None, None)
}

fn s(x: &str) -> String {
    x.to_string()
}

fn register(srv: &mut InventoryServer, sn: &str, loc: &str, tag: Option<&str>) -> String {
    srv.serial_register(SerialRegisterInput {
        serial_number: s(sn),
        sku: s("LAPTOP-PRO"),
        location_id: s(loc),
        lot_number: Some(s("LOT-2026Q2")),
        manufacture_date: None,
        expiry_date: None,
        rfid_tag: tag.map(s),
    })
}

#[test]
fn serial_register_answers_qr_and_links_tag() {
    let mut srv = server();
    let qr = register(&mut srv, "SN-2026-00142", "loc_abc123", Some("E200001234567890"));
    assert_eq!(qr, "QR:SN=SN-2026-00142&SKU=LAPTOP-PRO&LOC=loc_abc123");
    let unit = srv.serial_lookup(SerialQueryInput { serial_number: s("SN-2026-00142") }).unwrap();
    assert_eq!(unit.status, SerialStatus::InStock);
    assert_eq!(unit.history.len(), 1);
    assert_eq!(unit.history[0].event_type, "received");
    assert_eq!(unit.history[0].actor, "system");
    assert_eq!(unit.qr_code, Some(qr));
    let tag = srv.rfid_lookup(RfidQueryInput { epc: s("E200001234567890") }).unwrap();
    assert_eq!(tag.serial_number, Some(s("SN-2026-00142")));
    assert_eq!(tag.location_id, "loc_abc123");
    assert_eq!(tag.status, "active");
    assert_eq!(tag.read_count, 0);
}

#[test]
fn a_registered_unit_that_is_not_scanned_is_reported_missing() {
    let mut srv = server();
    register(&mut srv, "SN-1", "bin1", Some("E1"));
    register(&mut srv, "SN-2", "bin1", Some("E2"));
    let rep = srv.rfid_bulk_read(RfidReadInput { location_id: s("bin1"), epcs: vec![s("E1")] });
    assert_eq!(rep.found.len(), 1);
    assert_eq!(rep.missing.len(), 1);
    assert_eq!(rep.missing[0].epc, "E2");
    assert_eq!(rep.missing[0].serial, Some(s("SN-2")));
}

#[test]
fn grocy_pull_takes_a_new_item_from_the_first_entry_naming_it() {
    let mut srv = server();
    let n = srv
        .grocy_pull(
            vec![
                GrocyStockEntry { product_name: s("Rice"), amount: Some(2_000), min_stock_amount: Some(5_000), best_before_date: None },
                GrocyStockEntry { product_name: s("Rice"), amount: Some(7_000), min_stock_amount: Some(9_000), best_before_date: None },
            ],
            None,
        )
        .unwrap();
    assert_eq!(n, 2);
    assert_eq!(srv.store.items.len(), 1);
    assert_eq!(srv.store.items[0].reorder_point, 5_000);
    // the last entry sets the quantity
    assert_eq!(srv.store.available_qty("Rice", "grocy"), 7_000);
}

#[test]
fn serial_move_tracks_chain_of_custody() {
    let mut srv = server();
    register(&mut srv, "SN1", "bin1", None);
    let (ev, len) = srv
        .serial_move(SerialMoveInput { serial_number: s("SN1"), to_location: s("DOCK"), actor: s("john"), event_type: Some(s("shipped")), reference: Some(s("ORD-1")) })
        .unwrap();
    assert_eq!(ev, "shipped");
    assert_eq!(len, 2);
    let unit = srv.serial_lookup(SerialQueryInput { serial_number: s("SN1") }).unwrap();
    assert_eq!(unit.status, SerialStatus::Shipped);
    assert_eq!(unit.location_id, "DOCK");
    assert_eq!(unit.history[1].reference, Some(s("ORD-1")));
    let (ev, _) = srv
        .serial_move(SerialMoveInput { serial_number: s("SN1"), to_location: s("bin2"), actor: s("ann"), event_type: None, reference: None })
        .unwrap();
    assert_eq!(ev, "moved");
    srv.serial_move(SerialMoveInput { serial_number: s("SN1"), to_location: s("trash"), actor: s("ann"), event_type: Some(s("scrapped")), reference: None })
        .unwrap();
    let unit = srv.serial_lookup(SerialQueryInput { serial_number: s("SN1") }).unwrap();
    assert_eq!(unit.status, SerialStatus::Scrapped);
    assert_eq!(unit.history.len(), 4);
    assert!(matches!(
        srv.serial_move(SerialMoveInput { serial_number: s("SN9"), to_location: s("x"), actor: s("a"), event_type: None, reference: None }),
        Err(InventoryError::SerialNotFound)
    ));
    assert!(matches!(srv.serial_lookup(SerialQueryInput { serial_number: s("SN9") }), Err(InventoryError::SerialNotFound)));
}

#[test]
fn serial_scan_lists_units_at_location() {
    let mut srv = server();
    register(&mut srv, "SN1", "bin1", Some("E1"));
    register(&mut srv, "SN2", "bin2", None);
    register(&mut srv, "SN3", "bin1", None);
    let found = srv.serial_scan_location(SerialScanInput { location_id: s("bin1") });
    let serials: Vec<&str> = found.iter().map(|u| u.serial.as_str()).collect();
    assert_eq!(serials, vec!["SN1", "SN3"]);
    assert_eq!(found[0].rfid, Some(s("E1")));
    assert_eq!(found[0].lot, Some(s("LOT-2026Q2")));
}

#[test]
fn rfid_bulk_read_finds_unknown_and_missing_tags() {
    let mut srv = server();
    srv.rfid_register(RfidRegisterInput { epc: s("E1"), serial_number: Some(s("SN1")), sku: None, location_id: s("bin1") });
    srv.rfid_register(RfidRegisterInput { epc: s("E2"), serial_number: None, sku: Some(s("A")), location_id: s("bin1") });
    srv.rfid_register(RfidRegisterInput { epc: s("E3"), serial_number: None, sku: None, location_id: s("bin2") });
    let rep = srv.rfid_bulk_read(RfidReadInput { location_id: s("bin1"), epcs: vec![s("E1"), s("E9"), s("E3"), s("E1")] });
    assert_eq!(rep.found.len(), 3);
    assert_eq!(rep.found[0].serial, Some(s("SN1")));
    assert_eq!(rep.unknown, vec![s("E9")]);
    assert_eq!(rep.missing.len(), 1);
    assert_eq!(rep.missing[0].epc, "E2");
    let e1 = srv.rfid_lookup(RfidQueryInput { epc: s("E1") }).unwrap();
    assert_eq!(e1.read_count, 2);
    let e3 = srv.rfid_lookup(RfidQueryInput { epc: s("E3") }).unwrap();
    assert_eq!(e3.location_id, "bin1");
    assert_eq!(e3.read_count, 1);
    assert!(matches!(srv.rfid_lookup(RfidQueryInput { epc: s("E7") }), Err(InventoryError::RfidNotFound)));
}

#[test]
fn label_generate_prefixes_and_context() {
    let mut srv = server();
    srv.item_upsert(ItemInput {
        sku: s("LAPTOP-PRO"),
        name: s("Laptop Pro"),
        category: s("electronics"),
        unit: None,
        reorder_point: None,
        reorder_qty: None,
        cost: None,
        currency: None,
    });
    let lbl = srv.label_generate(LabelInput {
        barcode_type: s("sku"),
        entity_id: s("LAPTOP-PRO"),
        barcode_format: None,
        extra_text: Some(vec![s("Fragile")]),
    });
    assert!(lbl.label_id.starts_with("lbl_"));
    assert_eq!(lbl.barcode_value, "SKU-LAPTOP-PRO");
    assert_eq!(lbl.barcode_format, "code128");
    assert_eq!(lbl.label_text, vec![s("SKU-LAPTOP-PRO"), s("Laptop Pro"), s("Cat: electronics"), s("Fragile")]);
    let loc = srv.location_create(LocationInput {
        name: s("Dock 1"),
        location_type: s("dock"),
        parent_id: None,
        address: None,
        capacity_units: None,
        capacity_weight_kg: None,
        capacity_volume_m3: None,
    });
    let lbl = srv.label_generate(LabelInput { barcode_type: s("location"), entity_id: loc.clone(), barcode_format: Some(s("qr")), extra_text: None });
    assert_eq!(lbl.barcode_value, format!("LOC-{}", loc));
    assert_eq!(lbl.label_text, vec![format!("LOC-{}", loc), s("Dock 1"), s("Type: dock")]);
    for (t, p) in [("lot", "LOT-"), ("shipment", "SHP-"), ("receipt", "RCV-"), ("pallet", "ID-")] {
        let lbl = srv.label_generate(LabelInput { barcode_type: s(t), entity_id: s("X1"), barcode_format: None, extra_text: None });
        assert_eq!(lbl.barcode_value, format!("{}X1", p));
        assert_eq!(lbl.label_text.len(), 1);
    }
    assert_eq!(srv.store.labels.len(), 6);
    assert_eq!(srv.store.labels[0].barcode_value, "SKU-LAPTOP-PRO");
}

#[test]
fn label_batch_uses_the_label_prefixes() {
    let mut srv = server();
    let (fmt, labels) = srv.label_batch(LabelBatchInput { barcode_type: s("shipment"), entity_ids: vec![s("S1"), s("S2")], barcode_format: None });
    assert_eq!(fmt, "code128");
    assert_eq!(labels.len(), 2);
    assert_eq!(labels[0].barcode_value, "SHP-S1");
    assert_eq!(labels[1].entity_id, "S2");
    assert_ne!(labels[0].label_id, labels[1].label_id);
    let (_, labels) = srv.label_batch(LabelBatchInput { barcode_type: s("lot"), entity_ids: vec![s("L7")], barcode_format: Some(s("ean13")) });
    assert_eq!(labels[0].barcode_value, "LOT-L7");
    assert_eq!(srv.store.labels.len(), 3);
    assert_eq!(srv.store.labels[2].barcode_format, "ean13");
    let (_, labels) = srv.label_batch(LabelBatchInput { barcode_type: s("receipt"), entity_ids: vec![s("R1")], barcode_format: None });
    assert_eq!(labels[0].barcode_value, "RCV-R1");
    let (_, labels) = srv.label_batch(LabelBatchInput { barcode_type: s("pallet"), entity_ids: vec![s("P1")], barcode_format: None });
    assert_eq!(labels[0].barcode_value, "ID-P1");
}

#[test]
fn qr_generate_payloads() {
    let mut srv = server();
    register(&mut srv, "SN-1", "bin1", None);
    let q = srv.qr_generate(QrGenerateInput { entity_type: s("serial"), entity_id: s("SN-1"), extra_data: Some(s("{\"order\":\"ORD-1\"}")) });
    assert_eq!(q.payload, "SN=SN-1&SKU=LAPTOP-PRO&LOT=LOT-2026Q2&LOC=bin1&DATA={\"order\":\"ORD-1\"}");
    let q = srv.qr_generate(QrGenerateInput { entity_type: s("serial"), entity_id: s("SN-9"), extra_data: None });
    assert_eq!(q.payload, "SN=SN-9");
    let q = srv.qr_generate(QrGenerateInput { entity_type: s("shipment"), entity_id: s("S1"), extra_data: None });
    assert_eq!(q.payload, "SHP=S1");
    let q = srv.qr_generate(QrGenerateInput { entity_type: s("other"), entity_id: s("S1"), extra_data: None });
    assert_eq!(q.payload, "ID=S1");
    assert_eq!(srv.store.labels.len(), 4);
    assert_eq!(srv.store.labels[0].barcode_format, "qr");
}

#[test]
fn sync_plans_need_configuration_and_a_valid_direction() {
    let srv = server();
    assert!(matches!(srv.grocy_plan(&GrocySyncInput { direction: s("pull"), sku: None }), SyncPlan::NotConfigured));
    assert!(matches!(srv.shopify_plan(&ShopifySyncInput { direction: s("pull"), sku: None, location_id: None }), SyncPlan::NotConfigured));
    assert!(matches!(srv.pancake_plan(&PancakeSyncInput { direction: s("pull"), warehouse_id: None }), SyncPlan::NotConfigured));
    let srv = InventoryServer::new(
        Some(s("http://grocy.local")),
        Some(s("gk")),
        Some(s("myshop")),
        Some(s("tok")),
        Some(s("pk")),
        Some(s("42")),
    );
    match srv.grocy_plan(&GrocySyncInput { direction: s("pull"), sku: None }) {
        SyncPlan::Pull { url, auth } => {
            assert_eq!(url, "http://grocy.local/api/stock");
            assert_eq!(auth, "gk");
        },
        _ => panic!("expected a pull"),
    }
    assert!(matches!(srv.grocy_plan(&GrocySyncInput { direction: s("push"), sku: None }), SyncPlan::PushNotSupported));
    assert!(matches!(srv.grocy_plan(&GrocySyncInput { direction: s("sideways"), sku: None }), SyncPlan::InvalidDirection));
    match srv.shopify_plan(&ShopifySyncInput { direction: s("pull"), sku: None, location_id: None }) {
        SyncPlan::Pull { url, auth } => {
            assert_eq!(url, "https://myshop.myshopify.com/admin/api/2024-01/inventory_levels.json?limit=50");
            assert_eq!(auth, "tok");
        },
        _ => panic!("expected a pull"),
    }
    assert!(matches!(srv.shopify_plan(&ShopifySyncInput { direction: s("push"), sku: None, location_id: None }), SyncPlan::SkuRequired));
    match srv.pancake_plan(&PancakeSyncInput { direction: s("pull"), warehouse_id: Some(s("7")) }) {
        SyncPlan::Pull { url, auth } => {
            assert_eq!(url, "https://pos.pages.fm/api/v1/shops/42/inventory?warehouse_id=7");
            assert_eq!(auth, "Bearer pk");
        },
        _ => panic!("expected a pull"),
    }
    assert!(matches!(srv.pancake_plan(&PancakeSyncInput { direction: s("push"), warehouse_id: None }), SyncPlan::PushNotSupported));
}

#[test]
fn shopify_push_sends_whole_available_units() {
    let mut srv = InventoryServer::new(None, None, Some(s("shop")), Some(s("t")), None, None);
    srv.stock_receive(ReceiveInput { sku: s("A"), quantity: 7_900, location_id: s("x"), reference: None, actor: s("a"), lot_number: None }).unwrap();
    srv.stock_receive(ReceiveInput { sku: s("A"), quantity: 1_000, location_id: s("y"), reference: None, actor: s("a"), lot_number: None }).unwrap();
    assert!(matches!(
        srv.shopify_plan(&ShopifySyncInput { direction: s("push"), sku: Some(s("A")), location_id: None }),
        SyncPlan::LocationRequired
    ));
    match srv.shopify_plan(&ShopifySyncInput { direction: s("push"), sku: Some(s("A")), location_id: Some(s("77")) }) {
        SyncPlan::Push { url, location_id, sku, quantity, units, .. } => {
            assert_eq!(url, "https://shop.myshopify.com/admin/api/2024-01/inventory_levels/set.json");
            assert_eq!(location_id, "77");
            assert_eq!(sku, "A");
            assert_eq!(quantity, 8_900);
            assert_eq!(units, 8);
        },
        _ => panic!("expected a push"),
    }
    assert_eq!(units_of(-2_500), -2);
    assert!(push_succeeded(200));
    assert!(!push_succeeded(404));
}

#[test]
fn pulls_write_levels_into_the_store() {
    let mut srv = server();
    srv.stock_receive(ReceiveInput { sku: s("Milk"), quantity: 1_000, location_id: s("grocy"), reference: None, actor: s("a"), lot_number: None }).unwrap();
    let n = srv
        .grocy_pull(
            vec![
                GrocyStockEntry { product_name: s("Milk"), amount: Some(4_000), min_stock_amount: Some(2_000), best_before_date: None },
                GrocyStockEntry { product_name: s("Eggs"), amount: None, min_stock_amount: None, best_before_date: Some(s("2026-07-01")) },
                GrocyStockEntry { product_name: s("Tea"), amount: Some(1_000), min_stock_amount: None, best_before_date: None },
            ],
            None,
        )
        .unwrap();
    assert_eq!(n, 3);
    assert_eq!(srv.store.available_qty("Milk", "grocy"), 4_000);
    assert_eq!(srv.store.available_qty("Eggs", "grocy"), 0);
    let eggs = srv.store.stock.iter().find(|l| l.sku == "Eggs").unwrap();
    assert_eq!(eggs.expiry_date, Some(s("2026-07-01")));
    let items = srv.item_list();
    assert_eq!(items.len(), 3);
    assert_eq!(items[0].category, "grocy");
    assert_eq!(items[0].reorder_point, 2_000);
    assert_eq!(items[0].reorder_qty, 10_000);
    // the same pull again changes nothing but the update times
    let before: Vec<(String, String, i64, i64, Option<String>)> = srv
        .store
        .stock
        .iter()
        .map(|l| (l.sku.clone(), l.location_id.clone(), l.quantity, l.reserved, l.expiry_date.clone()))
        .collect();
    let items_before = srv.store.items.len();
    let again = vec![
        GrocyStockEntry { product_name: s("Milk"), amount: Some(4_000), min_stock_amount: Some(2_000), best_before_date: None },
        GrocyStockEntry { product_name: s("Eggs"), amount: None, min_stock_amount: None, best_before_date: Some(s("2026-07-01")) },
        GrocyStockEntry { product_name: s("Tea"), amount: Some(1_000), min_stock_amount: None, best_before_date: None },
    ];
    assert_eq!(srv.grocy_pull(again, None), Ok(3));
    let after: Vec<(String, String, i64, i64, Option<String>)> = srv
        .store
        .stock
        .iter()
        .map(|l| (l.sku.clone(), l.location_id.clone(), l.quantity, l.reserved, l.expiry_date.clone()))
        .collect();
    assert_eq!(before, after);
    assert_eq!(srv.store.items.len(), items_before);
    let n = srv
        .grocy_pull(vec![GrocyStockEntry { product_name: s("Tea"), amount: Some(9_000), min_stock_amount: None, best_before_date: None }], Some(s("Milk")))
        .unwrap();
    assert_eq!(n, 0);
    assert_eq!(srv.store.available_qty("Tea", "grocy"), 1_000);
    assert_eq!(srv.shopify_pull(vec![ShopifyLevel { inventory_item_id: s("123"), available: Some(5_000), location_id: s("9") }]), Ok(1));
    assert_eq!(srv.store.available_qty("123", "shopify_9"), 5_000);
    assert_eq!(srv.pancake_pull(vec![PancakeItem { product_id: s("\"p1\""), quantity: None, warehouse_id: s("3") }]), Ok(1));
    assert_eq!(srv.store.available_qty("\"p1\"", "pancake_3"), 0);
    assert_eq!(
        srv.shopify_pull(vec![ShopifyLevel { inventory_item_id: s("1"), available: Some(i64::MAX), location_id: s("9") }]),
        Err(InventoryError::QuantityOutOfRange)
    );
}
