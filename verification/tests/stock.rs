use mcp_inventory::inputs::{
    AdjustInput, IssueInput, ReceiveInput, ReserveIdInput, ReserveInput, SkuInput, StockQuery, TransferInput,
};
use mcp_inventory::server::InventoryServer;
use mcp_inventory::stock_ops::AdjustOutcome;
use mcp_inventory::store::{Store, QTY_LIMIT};
use mcp_inventory::types::{InventoryError, MovementType, StockMovement};

fn server() -> InventoryServer {
    InventoryServer::new(None, None, None, None, None, None)
}

fn s(x: &str) -> String {
    x.to_string()
}

fn receive(srv: &mut InventoryServer, sku: &str, qty: i64, loc: &str) -> Result<(), InventoryError> {
    srv.stock_receive(ReceiveInput {
        sku: s(sku),
        quantity: qty,
        location_id: s(loc),
        reference: Some(s("PO-1")),
        actor: s("clerk"),
        lot_number: Some(s("LOT-A")),
    })
}

fn is_hex_id(id: &str, prefix: &str) -> bool {
    id.len() == prefix.len() + 8
        && id.starts_with(prefix)
        && id[prefix.len()..].chars().all(|c| c.is_ascii_digit() || ('a'..='f').contains(&c))
}

#[test]
fn new_store_is_empty() {
    let st = Store::new();
    assert!(st.items.is_empty());
    assert!(st.stock.is_empty());
    assert!(st.movements.is_empty());
    assert!(st.reservations.is_empty());
    assert!(st.labels.is_empty());
}

#[test]
fn fresh_ids_have_prefix_and_eight_hex_digits() {
    let a = Store::new_movement_id();
    let b = Store::new_movement_id();
    assert!(is_hex_id(&a, "mov_"), "{}", a);
    assert!(is_hex_id(&Store::new_location_id(), "loc_"));
    assert!(is_hex_id(&Store::new_reservation_id(), "res_"));
    assert_ne!(a, b);
}

#[test]
fn receive_creates_level_and_logs_movement() {
    let mut srv = server();
    assert_eq!(receive(&mut srv, "LAPTOP", 30_000, "bin1"), Ok(()));
    assert_eq!(srv.store.available_qty("LAPTOP", "bin1"), 30_000);
    assert_eq!(srv.store.stock.len(), 1);
    assert_eq!(srv.store.stock[0].lot_number, Some(s("LOT-A")));
    assert_eq!(srv.store.stock[0].reserved, 0);
    let m = &srv.store.movements[0];
    assert!(is_hex_id(&m.id, "mov_"));
    assert_eq!(m.movement_type, MovementType::Receive);
    assert_eq!(m.to_location, Some(s("bin1")));
    assert_eq!(m.from_location, None);
    assert_eq!(m.reference, "PO-1");
    // a second receipt adds to the same level
    assert_eq!(receive(&mut srv, "LAPTOP", 5_500, "bin1"), Ok(()));
    assert_eq!(srv.store.stock.len(), 1);
    assert_eq!(srv.store.available_qty("LAPTOP", "bin1"), 35_500);
    assert_eq!(srv.store.movements.len(), 2);
}

#[test]
fn issue_refuses_overselling() {
    let mut srv = server();
    receive(&mut srv, "A", 10_000, "bin1").unwrap();
    let r = srv.stock_issue(IssueInput {
        sku: s("A"),
        quantity: 12_000,
        location_id: s("bin1"),
        reference: None,
        actor: s("x"),
    });
    assert_eq!(r, Err(InventoryError::InsufficientStock { available: 10_000, requested: 12_000 }));
    assert_eq!(srv.store.movements.len(), 1);
    assert_eq!(srv.store.available_qty("A", "bin1"), 10_000);
}

#[test]
fn issue_takes_stock_and_answers_remaining() {
    let mut srv = server();
    receive(&mut srv, "A", 10_000, "bin1").unwrap();
    let r = srv.stock_issue(IssueInput {
        sku: s("A"),
        quantity: 4_000,
        location_id: s("bin1"),
        reference: None,
        actor: s("x"),
    });
    assert_eq!(r, Ok(6_000));
    assert_eq!(srv.store.available_qty("A", "bin1"), 6_000);
    let m: &StockMovement = &srv.store.movements[1];
    assert_eq!(m.movement_type, MovementType::Issue);
    assert_eq!(m.reference, "");
    assert_eq!(m.from_location, Some(s("bin1")));
    // receive then issue the same quantity restores the level
    receive(&mut srv, "A", 2_500, "bin1").unwrap();
    srv.stock_issue(IssueInput { sku: s("A"), quantity: 2_500, location_id: s("bin1"), reference: None, actor: s("x") })
        .unwrap();
    assert_eq!(srv.store.available_qty("A", "bin1"), 6_000);
}

#[test]
fn issue_of_nothing_where_nothing_is_kept_changes_no_level() {
    let mut srv = server();
    let r = srv.stock_issue(IssueInput { sku: s("Z"), quantity: 0, location_id: s("nowhere"), reference: None, actor: s("x") });
    assert_eq!(r, Ok(0));
    assert!(srv.store.stock.is_empty());
    assert_eq!(srv.store.movements.len(), 1);
}

#[test]
fn transfer_moves_quantity_and_conserves_total() {
    let mut srv = server();
    receive(&mut srv, "A", 10_000, "wh").unwrap();
    receive(&mut srv, "A", 1_000, "store").unwrap();
    let r = srv.stock_transfer(TransferInput {
        sku: s("A"),
        quantity: 3_000,
        from_location: s("wh"),
        to_location: s("store"),
        actor: s("x"),
    });
    assert_eq!(r, Ok(()));
    assert_eq!(srv.store.available_qty("A", "wh"), 7_000);
    assert_eq!(srv.store.available_qty("A", "store"), 4_000);
    let total: i64 = srv.store.stock.iter().filter(|l| l.sku == "A").map(|l| l.quantity).sum();
    assert_eq!(total, 11_000);
    // into a new location creates the level
    srv.stock_transfer(TransferInput { sku: s("A"), quantity: 500, from_location: s("wh"), to_location: s("dock"), actor: s("x") })
        .unwrap();
    assert_eq!(srv.store.available_qty("A", "dock"), 500);
    let m = srv.store.movements.last().unwrap();
    assert_eq!(m.movement_type, MovementType::Transfer);
    let r = srv.stock_transfer(TransferInput {
        sku: s("A"),
        quantity: 99_000,
        from_location: s("wh"),
        to_location: s("store"),
        actor: s("x"),
    });
    assert_eq!(r, Err(InventoryError::InsufficientStock { available: 6_500, requested: 99_000 }));
}

#[test]
fn adjust_sets_or_creates_a_level() {
    let mut srv = server();
    receive(&mut srv, "A", 10_000, "bin1").unwrap();
    let r = srv.stock_adjust(AdjustInput {
        sku: s("A"),
        location_id: s("bin1"),
        new_quantity: 8_000,
        reason: s("damage"),
        actor: s("x"),
    });
    assert!(matches!(r, Ok(AdjustOutcome::Adjusted { old_qty: 10_000 })));
    assert_eq!(srv.store.available_qty("A", "bin1"), 8_000);
    let r = srv.stock_adjust(AdjustInput {
        sku: s("B"),
        location_id: s("bin2"),
        new_quantity: 3_000,
        reason: s("count"),
        actor: s("x"),
    });
    assert!(matches!(r, Ok(AdjustOutcome::Created)));
    assert_eq!(srv.store.available_qty("B", "bin2"), 3_000);
    // each adjustment records the difference as an adjust movement
    assert_eq!(srv.store.movements.len(), 3);
    let m = &srv.store.movements[1];
    assert_eq!(m.movement_type, MovementType::Adjust);
    assert_eq!(m.quantity, -2_000);
    assert_eq!(m.to_location, Some(s("bin1")));
    assert_eq!(m.reference, "damage");
    assert!(is_hex_id(&m.id, "mov_"));
    let m = &srv.store.movements[2];
    assert_eq!(m.quantity, 3_000);
    assert_eq!(m.sku, "B");
    assert_eq!(m.reference, "count");
}

#[test]
fn quantities_out_of_range_are_refused() {
    let mut srv = server();
    assert_eq!(receive(&mut srv, "A", QTY_LIMIT + 1, "bin1"), Err(InventoryError::QuantityOutOfRange));
    assert!(srv.store.stock.is_empty());
    assert!(srv.store.movements.is_empty());
    receive(&mut srv, "A", QTY_LIMIT, "bin1").unwrap();
    assert_eq!(receive(&mut srv, "A", 1, "bin1"), Err(InventoryError::QuantityOutOfRange));
    let r = srv.stock_adjust(AdjustInput {
        sku: s("A"),
        location_id: s("bin1"),
        new_quantity: -QTY_LIMIT - 1,
        reason: s("x"),
        actor: s("x"),
    });
    assert!(matches!(r, Err(InventoryError::QuantityOutOfRange)));
    assert_eq!(srv.store.available_qty("A", "bin1"), QTY_LIMIT);
}

#[test]
fn reserve_then_release_restores_levels() {
    let mut srv = server();
    receive(&mut srv, "A", 10_000, "bin1").unwrap();
    let before: Vec<(i64, i64)> = srv.store.stock.iter().map(|l| (l.quantity, l.reserved)).collect();
    let id = srv
        .stock_reserve(ReserveInput {
            sku: s("A"),
            location_id: s("bin1"),
            quantity: 4_000,
            reference: s("ORD-1"),
            expires_hours: Some(24),
        })
        .unwrap();
    assert!(is_hex_id(&id, "res_"));
    assert_eq!(srv.store.available_qty("A", "bin1"), 6_000);
    assert_eq!(srv.store.stock[0].quantity, 10_000);
    assert_eq!(srv.store.reservations.len(), 1);
    assert!(srv.store.reservations[0].expires_at.is_some());
    let released = srv.stock_release(ReserveIdInput { reservation_id: id }).unwrap();
    assert_eq!(released.sku, "A");
    assert_eq!(released.quantity, 4_000);
    let after: Vec<(i64, i64)> = srv.store.stock.iter().map(|l| (l.quantity, l.reserved)).collect();
    assert_eq!(before, after);
    assert!(srv.store.reservations.is_empty());
}

#[test]
fn reserve_refuses_overselling_and_release_unknown_id() {
    let mut srv = server();
    receive(&mut srv, "A", 1_000, "bin1").unwrap();
    let r = srv.stock_reserve(ReserveInput {
        sku: s("A"),
        location_id: s("bin1"),
        quantity: 2_000,
        reference: s("ORD-1"),
        expires_hours: None,
    });
    assert_eq!(r, Err(InventoryError::InsufficientStock { available: 1_000, requested: 2_000 }));
    assert_eq!(
        srv.stock_release(ReserveIdInput { reservation_id: s("res_nope") }).map(|r| r.id),
        Err(InventoryError::ReservationNotFound)
    );
}

#[test]
fn reserving_all_that_is_available_leaves_nothing_to_oversell() {
    let mut srv = server();
    receive(&mut srv, "A", 3_000, "bin1").unwrap();
    srv.stock_reserve(ReserveInput { sku: s("A"), location_id: s("bin1"), quantity: 3_000, reference: s("o1"), expires_hours: None })
        .unwrap();
    assert_eq!(srv.store.available_qty("A", "bin1"), 0);
    let again = srv.stock_reserve(ReserveInput { sku: s("A"), location_id: s("bin1"), quantity: 1, reference: s("o2"), expires_hours: None });
    assert_eq!(again, Err(InventoryError::InsufficientStock { available: 0, requested: 1 }));
    let issue = srv.stock_issue(IssueInput { sku: s("A"), quantity: 1, location_id: s("bin1"), reference: None, actor: s("clerk") });
    assert_eq!(issue, Err(InventoryError::InsufficientStock { available: 0, requested: 1 }));
}

#[test]
fn reserve_with_expiry_beyond_the_calendar_is_refused() {
    let mut srv = server();
    receive(&mut srv, "A", 1_000, "bin1").unwrap();
    let r = srv.stock_reserve(ReserveInput {
        sku: s("A"),
        location_id: s("bin1"),
        quantity: 500,
        reference: s("ORD-1"),
        expires_hours: Some(u32::MAX),
    });
    assert_eq!(r, Err(InventoryError::ExpiryOutOfRange));
    assert!(srv.store.reservations.is_empty());
    assert_eq!(srv.store.available_qty("A", "bin1"), 1_000);
}

#[test]
fn stock_check_reports_totals_and_reorder_state() {
    let mut srv = server();
    srv.item_upsert(mcp_inventory::inputs::ItemInput {
        sku: s("A"),
        name: s("Widget"),
        category: s("parts"),
        unit: None,
        reorder_point: Some(12_000),
        reorder_qty: None,
        cost: None,
        currency: None,
    });
    receive(&mut srv, "A", 10_000, "bin1").unwrap();
    receive(&mut srv, "A", 5_000, "bin2").unwrap();
    srv.stock_reserve(ReserveInput { sku: s("A"), location_id: s("bin2"), quantity: 4_000, reference: s("o"), expires_hours: None })
        .unwrap();
    let rep = srv.stock_check(StockQuery { sku: s("A"), location_id: None });
    assert_eq!(rep.levels.len(), 2);
    assert_eq!(rep.total_quantity, 15_000);
    assert_eq!(rep.total_reserved, 4_000);
    assert_eq!(rep.available, 11_000);
    assert!(rep.below_reorder_point);
    let rep = srv.stock_check(StockQuery { sku: s("A"), location_id: Some(s("bin1")) });
    assert_eq!(rep.levels.len(), 1);
    assert_eq!(rep.available, 10_000);
    assert!(rep.below_reorder_point);
    let rep = srv.stock_check(StockQuery { sku: s("unknown"), location_id: None });
    assert_eq!(rep.levels.len(), 0);
    assert!(!rep.below_reorder_point);
}

#[test]
fn reorder_alerts_list_items_at_or_below_reorder_point() {
    let mut srv = server();
    for (sku, rp) in [("A", 10_000), ("B", 1_000), ("C", 5_000)] {
        srv.item_upsert(mcp_inventory::inputs::ItemInput {
            sku: s(sku),
            name: format!("name {}", sku),
            category: s("c"),
            unit: None,
            reorder_point: Some(rp),
            reorder_qty: Some(70_000),
            cost: None,
            currency: None,
        });
    }
    receive(&mut srv, "A", 10_000, "bin1").unwrap();
    receive(&mut srv, "B", 3_000, "bin1").unwrap();
    let alerts = srv.reorder_alerts();
    let skus: Vec<&str> = alerts.iter().map(|a| a.sku.as_str()).collect();
    assert_eq!(skus, vec!["A", "C"]);
    assert_eq!(alerts[0].available, 10_000);
    assert_eq!(alerts[0].suggested_order_qty, 70_000);
    assert_eq!(alerts[1].available, 0);
    // the alerts are exactly the SKUs whose stock check over every location flags reorder
    for sku in ["A", "B", "C", "Z"] {
        let flagged = srv.stock_check(StockQuery { sku: s(sku), location_id: None }).below_reorder_point;
        assert_eq!(flagged, skus.contains(&sku), "{}", sku);
    }
}

#[test]
fn movement_history_filters_by_sku() {
    let mut srv = server();
    receive(&mut srv, "A", 1_000, "bin1").unwrap();
    receive(&mut srv, "B", 1_000, "bin1").unwrap();
    receive(&mut srv, "A", 2_000, "bin2").unwrap();
    let h = srv.movement_history(SkuInput { sku: s("A") });
    assert_eq!(h.len(), 2);
    assert_eq!(h[0].quantity, 1_000);
    assert_eq!(h[1].quantity, 2_000);
    assert!(srv.movement_history(SkuInput { sku: s("none") }).is_empty());
}

#[test]
fn get_stock_filters_by_sku_and_location() {
    let mut srv = server();
    receive(&mut srv, "A", 1_000, "bin1").unwrap();
    receive(&mut srv, "A", 2_000, "bin2").unwrap();
    receive(&mut srv, "B", 3_000, "bin1").unwrap();
    assert_eq!(srv.store.get_stock("A", None).len(), 2);
    let one = srv.store.get_stock("A", Some("bin2"));
    assert_eq!(one.len(), 1);
    assert_eq!(one[0].quantity, 2_000);
    assert_eq!(srv.store.available_qty("B", "bin2"), 0);
}

#[test]
fn record_movement_applies_out_then_in() {
    let mut st = Store::new();
    let m = StockMovement {
        id: s("m1"),
        movement_type: MovementType::Receive,
        sku: s("A"),
        quantity: 7_000,
        from_location: None,
        to_location: Some(s("x")),
        reference: s(""),
        actor: s("a"),
        lot_number: None,
        timestamp: s("t"),
    };
    assert_eq!(st.record_movement(m), Ok(()));
    let m = StockMovement {
        id: s("m2"),
        movement_type: MovementType::Transfer,
        sku: s("A"),
        quantity: 2_000,
        from_location: Some(s("x")),
        to_location: Some(s("x")),
        reference: s(""),
        actor: s("a"),
        lot_number: None,
        timestamp: s("t"),
    };
    assert_eq!(st.record_movement(m), Ok(()));
    assert_eq!(st.available_qty("A", "x"), 7_000);
    assert_eq!(st.movements.len(), 2);
}
