use mcp_inventory::inputs::{
    BomCheckInput, BomComponent, BomInput, CountEntry, CycleCountCompleteInput, CycleCountInput, ItemInput,
    LocationInput, PickConfirmInput, PickCreateInput, PickIdInput, PickItem, PickedSku, PutawayRuleInput,
    ReceiveInput, SkuInput, WaveCreateInput, WaveIdInput,
};
use mcp_inventory::server::InventoryServer;
use mcp_inventory::types::{CountStatus, InventoryError, LineStatus, MovementType, PickStatus, WaveStatus};

fn server() -> InventoryServer {
    InventoryServer::new(None, None, None, None, None, None)
}

fn s(x: &str) -> String {
    x.to_string()
}

fn receive(srv: &mut InventoryServer, sku: &str, qty: i64, loc: &str) {
    srv.stock_receive(ReceiveInput {
        sku: s(sku),
        quantity: qty,
        location_id: s(loc),
        reference: None,
        actor: s("clerk"),
        lot_number: None,
    })
    .unwrap();
}

fn item(sku: &str, category: &str) -> ItemInput {
    ItemInput {
        sku: s(sku),
        name: format!("{} name", sku),
        category: s(category),
        unit: None,
        reorder_point: None,
        reorder_qty: None,
        cost: None,
        currency: None,
    }
}

fn location(name: &str, cap: Option<i64>) -> LocationInput {
    LocationInput {
        name: s(name),
        location_type: s("bin"),
        parent_id: None,
        address: None,
        capacity_units: cap,
        capacity_weight_kg: None,
        capacity_volume_m3: None,
    }
}

#[test]
fn item_upsert_fills_defaults_and_replaces() {
    let mut srv = server();
    srv.item_upsert(item("A", "parts"));
    let items = srv.item_list();
    assert_eq!(items.len(), 1);
    assert_eq!(items[0].unit, "each");
    assert_eq!(items[0].reorder_point, 10_000);
    assert_eq!(items[0].reorder_qty, 50_000);
    assert_eq!(items[0].cost, 0);
    assert_eq!(items[0].currency, "USD");
    assert_eq!(items[0].attributes, "{}");
    let mut again = item("A", "tools");
    again.unit = Some(s("box"));
    again.currency = Some(s("EUR"));
    srv.item_upsert(again);
    srv.item_upsert(item("B", "parts"));
    let items = srv.item_list();
    assert_eq!(items.len(), 2);
    assert_eq!(items[0].category, "tools");
    assert_eq!(items[0].unit, "box");
    assert_eq!(items[0].currency, "EUR");
    assert_eq!(items[1].sku, "B");
}

#[test]
fn location_create_answers_fresh_id() {
    let mut srv = server();
    let id = srv.location_create(location("Bin A1", Some(50_000)));
    assert!(id.starts_with("loc_") && id.len() == 12);
    let locs = srv.location_list();
    assert_eq!(locs.len(), 1);
    assert_eq!(locs[0].id, id);
    assert_eq!(locs[0].name, "Bin A1");
    assert_eq!(locs[0].capacity_units, Some(50_000));
    assert_eq!(locs[0].used_units, 0);
}

#[test]
fn bom_set_replaces_and_skips_incomplete_components() {
    let mut srv = server();
    let n = srv.bom_set(BomInput {
        parent_sku: s("BIKE"),
        components: vec![
            BomComponent { sku: Some(s("WHEEL")), quantity: Some(2_000) },
            BomComponent { sku: None, quantity: Some(1_000) },
            BomComponent { sku: Some(s("FRAME")), quantity: Some(1_000) },
        ],
    });
    assert_eq!(n, 3);
    assert_eq!(srv.store.bom.len(), 2);
    srv.bom_set(BomInput { parent_sku: s("CAR"), components: vec![BomComponent { sku: Some(s("WHEEL")), quantity: Some(4_000) }] });
    srv.bom_set(BomInput { parent_sku: s("BIKE"), components: vec![BomComponent { sku: Some(s("SEAT")), quantity: None }, BomComponent { sku: Some(s("FRAME")), quantity: Some(1_000) }] });
    assert_eq!(srv.store.bom.len(), 2);
    assert_eq!(srv.store.bom[0].parent_sku, "CAR");
    assert_eq!(srv.store.bom[1].component_sku, "FRAME");
}

#[test]
fn bom_check_reports_shortages() {
    let mut srv = server();
    assert!(matches!(
        srv.bom_check(BomCheckInput { parent_sku: s("BIKE"), quantity: 1_000, location_id: s("wh") }),
        Err(InventoryError::BomNotFound)
    ));
    srv.bom_set(BomInput {
        parent_sku: s("BIKE"),
        components: vec![
            BomComponent { sku: Some(s("WHEEL")), quantity: Some(2_000) },
            BomComponent { sku: Some(s("FRAME")), quantity: Some(1_000) },
        ],
    });
    receive(&mut srv, "WHEEL", 10_000, "wh");
    receive(&mut srv, "FRAME", 3_000, "wh");
    // 3 bikes need 6 wheels and 3 frames: buildable.
    let rep = srv.bom_check(BomCheckInput { parent_sku: s("BIKE"), quantity: 3_000, location_id: s("wh") }).unwrap();
    assert!(rep.can_build);
    assert!(rep.shortages.is_empty());
    // 4 bikes need 8 wheels (10 on hand) and 4 frames (3 on hand): only frames are short.
    let rep = srv.bom_check(BomCheckInput { parent_sku: s("BIKE"), quantity: 4_000, location_id: s("wh") }).unwrap();
    assert!(!rep.can_build);
    assert_eq!(rep.shortages.len(), 1);
    assert_eq!(rep.shortages[0].sku, "FRAME");
    assert_eq!(rep.shortages[0].needed, 4_000_000);
    assert_eq!(rep.shortages[0].available, 3_000);
    assert_eq!(rep.shortages[0].shortage, 1_000_000);
    // 6 bikes need 12 wheels and 6 frames: both are short (needed and shortage in millionths).
    let rep = srv.bom_check(BomCheckInput { parent_sku: s("BIKE"), quantity: 6_000, location_id: s("wh") }).unwrap();
    assert!(!rep.can_build);
    assert_eq!(rep.shortages.len(), 2);
    assert_eq!(rep.shortages[0].sku, "WHEEL");
    assert_eq!(rep.shortages[0].needed, 12_000_000);
    assert_eq!(rep.shortages[0].available, 10_000);
    assert_eq!(rep.shortages[0].shortage, 2_000_000);
    assert_eq!(rep.shortages[1].sku, "FRAME");
    assert_eq!(rep.shortages[1].shortage, 3_000_000);
}

#[test]
fn putaway_suggestions_follow_priority_then_rule_order() {
    let mut srv = server();
    srv.item_upsert(item("TV", "electronics"));
    let a = srv.location_create(location("Zone A", Some(100_000)));
    let _b = srv.location_create(location("Zone B", None));
    receive(&mut srv, "TV", 40_000, &a);
    let r1 = srv.putaway_rule_create(PutawayRuleInput { category: s("*"), target_zone: s("Zone B"), priority: None });
    assert!(r1.starts_with("put_"));
    srv.putaway_rule_create(PutawayRuleInput { category: s("electronics"), target_zone: a.clone(), priority: Some(5) });
    srv.putaway_rule_create(PutawayRuleInput { category: s("food"), target_zone: s("Zone B"), priority: Some(1) });
    srv.putaway_rule_create(PutawayRuleInput { category: s("electronics"), target_zone: s("missing"), priority: Some(5) });
    srv.putaway_rule_create(PutawayRuleInput { category: s("electronics"), target_zone: s("Zone B"), priority: Some(5) });
    let sug = srv.putaway_suggest(SkuInput { sku: s("TV") });
    assert_eq!(sug.category, "electronics");
    let names: Vec<&str> = sug.suggestions.iter().map(|x| x.name.as_str()).collect();
    assert_eq!(names, vec!["Zone A", "Zone B", "Zone B"]);
    assert_eq!(sug.suggestions[0].location_id, a);
    assert_eq!(sug.suggestions[0].capacity_units, Some(100_000));
    assert_eq!(sug.suggestions[0].used_units, 40_000);
    assert_eq!(sug.suggestions[1].used_units, 0);
    let sug = srv.putaway_suggest(SkuInput { sku: s("unknown") });
    assert_eq!(sug.category, "");
    assert_eq!(sug.suggestions.len(), 1);
}

#[test]
fn space_utilization_counts_units_per_location() {
    let mut srv = server();
    let a = srv.location_create(location("A", Some(50_000)));
    let b = srv.location_create(location("B", None));
    receive(&mut srv, "X", 10_000, &a);
    receive(&mut srv, "Y", 15_000, &a);
    let rep = srv.space_utilization();
    assert_eq!(rep.len(), 2);
    assert_eq!(rep[0].location_id, a);
    assert_eq!(rep[0].units_used, 25_000);
    assert_eq!(rep[0].capacity_units, Some(50_000));
    assert_eq!(rep[0].used_weight_kg, 0);
    assert_eq!(rep[0].used_volume_m3, 0);
    assert_eq!(rep[1].location_id, b);
    assert_eq!(rep[1].units_used, 0);
}

fn pick_input() -> PickCreateInput {
    PickCreateInput {
        order_reference: s("ORD-8821"),
        items: vec![
            PickItem { sku: Some(s("A")), quantity: Some(2_000), location_id: Some(s("bin1")) },
            PickItem { sku: Some(s("B")), quantity: None, location_id: None },
            PickItem { sku: None, quantity: Some(1_000), location_id: None },
        ],
        default_location: s("bin9"),
        assigned_to: Some(s("john")),
    }
}

#[test]
fn pick_create_applies_defaults() {
    let mut srv = server();
    let id = srv.pick_create(pick_input());
    assert!(id.starts_with("pick_") && id.len() == 13);
    let picks = srv.pick_list();
    assert_eq!(picks.len(), 1);
    let p = &picks[0];
    assert_eq!(p.id, id);
    assert_eq!(p.status, PickStatus::Pending);
    assert_eq!(p.lines.len(), 3);
    assert_eq!(p.lines[1].quantity, 1_000);
    assert_eq!(p.lines[1].from_location, "bin9");
    assert_eq!(p.lines[2].sku, "");
    assert_eq!(p.lines[0].status, LineStatus::Pending);
    assert_eq!(p.created_at, p.updated_at);
}

#[test]
fn pick_confirm_marks_picked_and_short_lines() {
    let mut srv = server();
    let id = srv.pick_create(pick_input());
    srv.pick_confirm(PickConfirmInput {
        pick_id: id.clone(),
        picked_skus: vec![
            PickedSku { sku: Some(s("A")), quantity: Some(1_500) },
            PickedSku { sku: Some(s("B")), quantity: None },
            PickedSku { sku: Some(s("A")), quantity: Some(9_000) },
        ],
    })
    .unwrap();
    let p = &srv.store.pick_orders[0];
    assert_eq!(p.status, PickStatus::Packed);
    assert_eq!(p.lines[0].picked_qty, 1_500);
    assert_eq!(p.lines[0].status, LineStatus::Short);
    assert_eq!(p.lines[1].picked_qty, 1_000);
    assert_eq!(p.lines[1].status, LineStatus::Picked);
    assert_eq!(p.lines[2].status, LineStatus::Pending);
    assert_eq!(
        srv.pick_confirm(PickConfirmInput { pick_id: s("pick_nope"), picked_skus: vec![] }),
        Err(InventoryError::PickNotFound)
    );
}

#[test]
fn pick_ship_issues_picked_quantities() {
    let mut srv = server();
    receive(&mut srv, "A", 10_000, "bin1");
    receive(&mut srv, "B", 5_000, "bin9");
    let id = srv.pick_create(pick_input());
    srv.pick_confirm(PickConfirmInput {
        pick_id: id.clone(),
        picked_skus: vec![PickedSku { sku: Some(s("A")), quantity: Some(2_000) }, PickedSku { sku: Some(s("B")), quantity: None }],
    })
    .unwrap();
    assert_eq!(srv.pick_ship(PickIdInput { pick_id: id.clone() }), Ok(()));
    assert_eq!(srv.store.pick_orders[0].status, PickStatus::Shipped);
    assert_eq!(srv.store.available_qty("A", "bin1"), 8_000);
    assert_eq!(srv.store.available_qty("B", "bin9"), 4_000);
    // two receipts, then one issue for each line that shipped something
    assert_eq!(srv.store.movements.len(), 4);
    let m = &srv.store.movements[2];
    assert_eq!(m.movement_type, MovementType::Issue);
    assert_eq!(m.sku, "A");
    assert_eq!(m.quantity, 2_000);
    assert_eq!(m.from_location, Some(s("bin1")));
    assert_eq!(m.reference, "ORD-8821");
    assert_eq!(srv.store.movements[3].sku, "B");
    assert_eq!(srv.store.movements[3].quantity, 1_000);
    let history = srv.movement_history(SkuInput { sku: s("A") });
    assert_eq!(history.len(), 2);
    assert_eq!(srv.pick_ship(PickIdInput { pick_id: s("none") }), Err(InventoryError::PickNotFound));
}

#[test]
fn waves_link_release_and_complete() {
    let mut srv = server();
    let p1 = srv.pick_create(pick_input());
    let p2 = srv.pick_create(pick_input());
    let (w, n) = srv.wave_create(WaveCreateInput { name: s("Morning"), pick_ids: vec![p1.clone(), s("pick_ghost")], priority: None });
    assert_eq!(n, 2);
    assert!(w.starts_with("wave_"));
    let waves = srv.wave_list();
    assert_eq!(waves.len(), 1);
    assert_eq!(waves[0].priority, "medium");
    assert_eq!(waves[0].status, WaveStatus::Planning);
    let o1 = srv.store.pick_orders.iter().find(|o| o.id == p1).unwrap();
    assert_eq!(o1.wave_id, Some(w.clone()));
    let o2 = srv.store.pick_orders.iter().find(|o| o.id == p2).unwrap();
    assert_eq!(o2.wave_id, None);
    assert_eq!(srv.wave_release(WaveIdInput { wave_id: w.clone() }), Ok(2));
    assert_eq!(srv.store.waves[0].status, WaveStatus::InProgress);
    assert!(srv.store.waves[0].released_at.is_some());
    let o1 = srv.store.pick_orders.iter().find(|o| o.id == p1).unwrap();
    assert_eq!(o1.status, PickStatus::Picking);
    let o2 = srv.store.pick_orders.iter().find(|o| o.id == p2).unwrap();
    assert_eq!(o2.status, PickStatus::Pending);
    assert_eq!(srv.wave_complete(WaveIdInput { wave_id: w.clone() }), Err(InventoryError::WavePicksNotShipped));
    assert_eq!(srv.store.waves[0].status, WaveStatus::InProgress);
    assert_eq!(srv.pick_ship(PickIdInput { pick_id: p1.clone() }), Ok(()));
    assert_eq!(srv.wave_complete(WaveIdInput { wave_id: w.clone() }), Ok(()));
    assert_eq!(srv.store.waves[0].status, WaveStatus::Completed);
    assert_eq!(srv.wave_release(WaveIdInput { wave_id: s("x") }), Err(InventoryError::WaveNotFound));
    assert_eq!(srv.wave_complete(WaveIdInput { wave_id: s("x") }), Err(InventoryError::WaveNotFound));
}

#[test]
fn cycle_count_flags_differences_beyond_tolerance() {
    let mut srv = server();
    receive(&mut srv, "A", 10_000, "bin1");
    receive(&mut srv, "B", 5_000, "bin1");
    let id = srv.cycle_count_schedule(CycleCountInput { location_id: s("bin1"), scheduled_date: s("2026-06-01") });
    assert!(id.starts_with("cc_"));
    assert_eq!(srv.store.cycle_counts[0].status, CountStatus::Scheduled);
    let ds = srv
        .cycle_count_complete(CycleCountCompleteInput {
            cycle_count_id: id.clone(),
            counted_by: s("ann"),
            counts: vec![
                CountEntry { sku: Some(s("A")), actual_qty: Some(10_010) },
                CountEntry { sku: Some(s("B")), actual_qty: Some(4_000) },
                CountEntry { sku: Some(s("C")), actual_qty: None },
                CountEntry { sku: Some(s("D")), actual_qty: Some(11) },
            ],
        })
        .unwrap();
    assert_eq!(ds.len(), 2);
    assert_eq!(ds[0].sku, "B");
    assert_eq!(ds[0].system_qty, 5_000);
    assert_eq!(ds[0].variance, -1_000);
    assert_eq!(ds[1].sku, "D");
    assert_eq!(ds[1].variance, 11);
    let cc = &srv.store.cycle_counts[0];
    assert_eq!(cc.status, CountStatus::Completed);
    assert_eq!(cc.counted_by, Some(s("ann")));
    assert_eq!(cc.discrepancies.len(), 2);
    assert!(cc.completed_at.is_some());
    assert!(matches!(
        srv.cycle_count_complete(CycleCountCompleteInput { cycle_count_id: s("cc_x"), counted_by: s("a"), counts: vec![] }),
        Err(InventoryError::CycleCountNotFound)
    ));
}
