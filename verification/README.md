# mcp_inventory

Inventory and warehouse management behind an MCP server: item catalog, locations,
stock movements with an audit trail, reservations, bills of materials, pick/pack/ship,
waves, putaway, cycle counts, labels and QR payloads, serialized units, RFID scans,
and pulls from Grocy, Shopify and Pancake POS.

The library under `src/` is written in Verus and verified: every public operation
states in its contract what it does to the store and what it answers, and the store
keeps its invariant (one stock level per SKU and location, every quantity within
range, every keyed collection free of duplicate keys) across all of them.

- `src/store.rs` — the store, its invariant, and the model of stock levels
  (on hand, reserved, available) that the contracts speak of.
- `src/stock_ops.rs`, `src/reports.rs`, `src/totals.rs` — receipts, issues,
  transfers, adjustments, reservations and the reports over them.
- `src/catalog.rs`, `src/picking.rs`, `src/counts.rs`, `src/labels.rs`,
  `src/tracking.rs`, `src/sync.rs` — the remaining tool groups.
- `src/laws.rs` — properties that span operations (receipts add, issues and
  reservations never oversell, transfers conserve stock, reservations round-trip,
  ...); `src/reports.rs` and `src/sync.rs` hold the laws of reorder alerts and of
  repeated pulls.
- `src/external.rs` — the calls into `uuid` and `chrono`, with what is claimed of them.
- `app/` — the MCP server itself: environment, JSON arguments and answers, HTTP to
  the external backends. Quantities travel as decimals there and as thousandths
  of a unit in the library.
- `tests/` — the library exercised on concrete values.
