use vstd::prelude::*;
use crate::types::Milli;

verus! {

/// An item to add to, or update in, the catalog.
pub struct ItemInput {
    pub sku: String,
    pub name: String,
    pub category: String,
    pub unit: Option<String>,
    pub reorder_point: Option<Milli>,
    pub reorder_qty: Option<Milli>,
    pub cost: Option<Milli>,
    pub currency: Option<String>,
}

/// A location to create.
pub struct LocationInput {
    pub name: String,
    pub location_type: String,
    pub parent_id: Option<String>,
    pub address: Option<String>,
    /// Max units capacity.
    pub capacity_units: Option<Milli>,
    /// Max weight in kg.
    pub capacity_weight_kg: Option<Milli>,
    /// Max volume in cubic metres.
    pub capacity_volume_m3: Option<Milli>,
}

/// A goods receipt.
pub struct ReceiveInput {
    pub sku: String,
    pub quantity: Milli,
    pub location_id: String,
    pub reference: Option<String>,
    pub actor: String,
    pub lot_number: Option<String>,
}

/// An issue of stock.
pub struct IssueInput {
    pub sku: String,
    pub quantity: Milli,
    pub location_id: String,
    pub reference: Option<String>,
    pub actor: String,
}

/// A transfer between locations.
pub struct TransferInput {
    pub sku: String,
    pub quantity: Milli,
    pub from_location: String,
    pub to_location: String,
    pub actor: String,
}

/// A correction of a stock level.
pub struct AdjustInput {
    pub sku: String,
    pub location_id: String,
    pub new_quantity: Milli,
    pub reason: String,
    pub actor: String,
}

/// A stock enquiry.
pub struct StockQuery {
    pub sku: String,
    pub location_id: Option<String>,
}

/// A reservation request.
pub struct ReserveInput {
    pub sku: String,
    pub location_id: String,
    pub quantity: Milli,
    pub reference: String,
    pub expires_hours: Option<u32>,
}

/// Names a reservation.
pub struct ReserveIdInput {
    pub reservation_id: String,
}

/// One component of a bill of materials as submitted; a component without a SKU
/// or without a quantity is skipped.
pub struct BomComponent {
    pub sku: Option<String>,
    pub quantity: Option<Milli>,
}

/// A bill of materials to define.
pub struct BomInput {
    pub parent_sku: String,
    pub components: Vec<BomComponent>,
}

/// A buildability check.
pub struct BomCheckInput {
    pub parent_sku: String,
    pub quantity: Milli,
    pub location_id: String,
}

/// Names a SKU.
pub struct SkuInput {
    pub sku: String,
}

/// One item of a pick order as submitted; missing fields take defaults.
pub struct PickItem {
    pub sku: Option<String>,
    pub quantity: Option<Milli>,
    pub location_id: Option<String>,
}

/// A pick order to create.
pub struct PickCreateInput {
    /// Order reference (e.g. "ORD-1234").
    pub order_reference: String,
    /// Items to pick.
    pub items: Vec<PickItem>,
    /// Default location if not specified per item.
    pub default_location: String,
    /// Assign to picker.
    pub assigned_to: Option<String>,
}

/// One picked SKU as submitted.
pub struct PickedSku {
    pub sku: Option<String>,
    pub quantity: Option<Milli>,
}

/// A pick confirmation.
pub struct PickConfirmInput {
    /// Pick order ID.
    pub pick_id: String,
    /// Picked items.
    pub picked_skus: Vec<PickedSku>,
}

/// Names a pick order.
pub struct PickIdInput {
    pub pick_id: String,
}

/// A putaway rule to create.
pub struct PutawayRuleInput {
    /// Item category this rule applies to (or "*" for all).
    pub category: String,
    /// Target zone/location ID or name.
    pub target_zone: String,
    /// Priority (lower = preferred).
    pub priority: Option<i32>,
}

/// A cycle count to schedule.
pub struct CycleCountInput {
    /// Location to count.
    pub location_id: String,
    /// Scheduled date (ISO).
    pub scheduled_date: String,
}

/// One counted SKU as submitted; missing fields take defaults.
pub struct CountEntry {
    pub sku: Option<String>,
    pub actual_qty: Option<Milli>,
}

/// The result of a cycle count.
pub struct CycleCountCompleteInput {
    /// Cycle count ID.
    pub cycle_count_id: String,
    /// Who performed the count.
    pub counted_by: String,
    /// Actual counts.
    pub counts: Vec<CountEntry>,
}

/// A wave to create.
pub struct WaveCreateInput {
    /// Wave name (e.g. "Morning Wave", "Priority Rush").
    pub name: String,
    /// Pick order IDs to include in this wave.
    pub pick_ids: Vec<String>,
    /// Priority: low, medium, high, critical.
    pub priority: Option<String>,
}

/// Names a wave.
pub struct WaveIdInput {
    pub wave_id: String,
}

/// A barcode label to generate.
pub struct LabelInput {
    /// Type: sku, location, lot, shipment, receipt.
    pub barcode_type: String,
    /// Entity ID (SKU code, location ID, lot number, etc.).
    pub entity_id: String,
    /// Barcode format: code128, ean13, qr, datamatrix (default: code128).
    pub barcode_format: Option<String>,
    /// Extra text lines to print on label.
    pub extra_text: Option<Vec<String>>,
}

/// A batch of barcode labels to generate.
pub struct LabelBatchInput {
    /// Type: sku, location, lot, shipment.
    pub barcode_type: String,
    /// Entity IDs to generate labels for.
    pub entity_ids: Vec<String>,
    /// Barcode format (default: code128).
    pub barcode_format: Option<String>,
}

/// A serialized unit to register.
pub struct SerialRegisterInput {
    /// Serial number (unique identifier for this individual unit).
    pub serial_number: String,
    /// SKU this serial belongs to.
    pub sku: String,
    /// Location where the item is stored.
    pub location_id: String,
    /// Lot/batch number.
    pub lot_number: Option<String>,
    /// Manufacture date.
    pub manufacture_date: Option<String>,
    /// Expiry date.
    pub expiry_date: Option<String>,
    /// RFID EPC tag (if tagged).
    pub rfid_tag: Option<String>,
}

/// A move of a serialized unit.
pub struct SerialMoveInput {
    /// Serial number.
    pub serial_number: String,
    /// New location.
    pub to_location: String,
    /// Actor.
    pub actor: String,
    /// Event type: moved, picked, shipped, returned, scrapped.
    pub event_type: Option<String>,
    /// Reference (order ID, etc.).
    pub reference: Option<String>,
}

/// Names a serial number.
pub struct SerialQueryInput {
    /// Serial number to look up.
    pub serial_number: String,
}

/// Names a location to scan.
pub struct SerialScanInput {
    /// Location ID to scan.
    pub location_id: String,
}

/// An RFID tag to register.
pub struct RfidRegisterInput {
    /// EPC (Electronic Product Code, 96-bit hex string).
    pub epc: String,
    /// Serial number to link (optional).
    pub serial_number: Option<String>,
    /// SKU to link (optional).
    pub sku: Option<String>,
    /// Location where the tag is.
    pub location_id: String,
}

/// One scan of an RFID reader.
pub struct RfidReadInput {
    /// Location ID where the reader is scanning.
    pub location_id: String,
    /// EPCs detected by the reader.
    pub epcs: Vec<String>,
}

/// Names an RFID tag.
pub struct RfidQueryInput {
    /// EPC to look up.
    pub epc: String,
}

/// A QR payload to generate.
pub struct QrGenerateInput {
    /// Entity type: serial, sku, location, shipment.
    pub entity_type: String,
    /// Entity ID.
    pub entity_id: String,
    /// Extra data to encode, as JSON text.
    pub extra_data: Option<String>,
}

/// A Grocy sync request.
pub struct GrocySyncInput {
    /// Direction: pull (Grocy to local) or push (local to Grocy).
    pub direction: String,
    /// SKU filter (optional, sync all if omitted).
    pub sku: Option<String>,
}

/// A Shopify sync request.
pub struct ShopifySyncInput {
    /// Direction: pull (Shopify to local) or push (local to Shopify).
    pub direction: String,
    /// SKU filter (optional).
    pub sku: Option<String>,
    /// Shopify location ID (required for push).
    pub location_id: Option<String>,
}

/// A Pancake POS sync request.
pub struct PancakeSyncInput {
    /// Direction: pull (Pancake to local) or push (local to Pancake).
    pub direction: String,
    /// Warehouse ID filter (optional).
    pub warehouse_id: Option<String>,
}

} // verus!
