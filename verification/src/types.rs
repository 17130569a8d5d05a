use vstd::prelude::*;

verus! {

/// A decimal amount held as a whole number of thousandths (of a unit, a kilogram,
/// a cubic metre or a unit of currency).
pub type Milli = i64;

/// Copies an optional string.
pub fn clone_opt(s: &Option<String>) -> (r: Option<String>)
    ensures
        r == *s,
{
    match s {
        Some(v) => Some(v.clone()),
        None => None,
    }
}

/// Copies a list of strings.
pub fn clone_strings(v: &Vec<String>) -> (r: Vec<String>)
    ensures
        r@ == v@,
{
    let r = v.clone();
    assert(r@ =~= v@);
    r
}

/// A catalog entry.
pub struct Item {
    pub sku: String,
    pub name: String,
    pub category: String,
    /// each, kg, litre, box, pallet
    pub unit: String,
    pub reorder_point: Milli,
    pub reorder_qty: Milli,
    pub cost: Milli,
    pub currency: String,
    /// Free-form attributes as JSON text.
    pub attributes: String,
}

impl Clone for Item {
    fn clone(&self) -> (r: Self)
        ensures
            r == *self,
    {
        Item {
            sku: self.sku.clone(),
            name: self.name.clone(),
            category: self.category.clone(),
            unit: self.unit.clone(),
            reorder_point: self.reorder_point,
            reorder_qty: self.reorder_qty,
            cost: self.cost,
            currency: self.currency.clone(),
            attributes: self.attributes.clone(),
        }
    }
}

/// A warehouse, zone, aisle, rack, bin, staging area or dock.
pub struct Location {
    pub id: String,
    pub name: String,
    /// warehouse, zone, aisle, rack, bin, staging, dock
    pub location_type: String,
    pub parent_id: Option<String>,
    pub address: Option<String>,
    /// Max units this location can hold.
    pub capacity_units: Option<Milli>,
    /// Max weight in kilograms.
    pub capacity_weight_kg: Option<Milli>,
    /// Max volume in cubic metres.
    pub capacity_volume_m3: Option<Milli>,
    pub used_units: Milli,
    pub used_weight_kg: Milli,
    pub used_volume_m3: Milli,
}

impl Clone for Location {
    fn clone(&self) -> (r: Self)
        ensures
            r == *self,
    {
        Location {
            id: self.id.clone(),
            name: self.name.clone(),
            location_type: self.location_type.clone(),
            parent_id: clone_opt(&self.parent_id),
            address: clone_opt(&self.address),
            capacity_units: self.capacity_units,
            capacity_weight_kg: self.capacity_weight_kg,
            capacity_volume_m3: self.capacity_volume_m3,
            used_units: self.used_units,
            used_weight_kg: self.used_weight_kg,
            used_volume_m3: self.used_volume_m3,
        }
    }
}

/// Where a pick order stands.
#[derive(PartialEq, Eq, Structural, Clone, Copy, Debug)]
pub enum PickStatus {
    Pending,
    Picking,
    Packed,
    Shipped,
    Cancelled,
}

/// Where a pick line stands.
#[derive(PartialEq, Eq, Structural, Clone, Copy, Debug)]
pub enum LineStatus {
    Pending,
    Picked,
    Short,
}

/// One line of a pick order.
pub struct PickLine {
    pub sku: String,
    pub quantity: Milli,
    pub from_location: String,
    pub picked_qty: Milli,
    pub status: LineStatus,
}

impl Clone for PickLine {
    fn clone(&self) -> (r: Self)
        ensures
            r == *self,
    {
        PickLine {
            sku: self.sku.clone(),
            quantity: self.quantity,
            from_location: self.from_location.clone(),
            picked_qty: self.picked_qty,
            status: self.status,
        }
    }
}

/// Copies a list of pick lines.
pub fn clone_lines(v: &Vec<PickLine>) -> (r: Vec<PickLine>)
    ensures
        r@ == v@,
{
    let mut r: Vec<PickLine> = Vec::new();
    let mut i: usize = 0;
    while i < v.len()
        invariant
            i <= v.len(),
            r@ == v@.take(i as int),
        decreases v.len() - i,
    {
        r.push(v[i].clone());
        assert(v@.take(i + 1) =~= v@.take(i as int).push(v@[i as int]));
        i = i + 1;
    }
    assert(v@.take(v.len() as int) =~= v@);
    r
}

/// A fulfilment order.
pub struct PickOrder {
    pub id: String,
    pub status: PickStatus,
    pub order_reference: String,
    pub lines: Vec<PickLine>,
    pub assigned_to: Option<String>,
    pub wave_id: Option<String>,
    pub created_at: String,
    pub updated_at: String,
}

impl PickOrder {
    /// The order with its lines taken as a sequence.
    pub open spec fn same(self, other: PickOrder) -> bool {
        &&& self.id == other.id
        &&& self.status == other.status
        &&& self.order_reference == other.order_reference
        &&& self.lines@ == other.lines@
        &&& self.assigned_to == other.assigned_to
        &&& self.wave_id == other.wave_id
        &&& self.created_at == other.created_at
        &&& self.updated_at == other.updated_at
    }
}

impl Clone for PickOrder {
    fn clone(&self) -> (r: Self)
        ensures
            r.same(*self),
    {
        PickOrder {
            id: self.id.clone(),
            status: self.status,
            order_reference: self.order_reference.clone(),
            lines: clone_lines(&self.lines),
            assigned_to: clone_opt(&self.assigned_to),
            wave_id: clone_opt(&self.wave_id),
            created_at: self.created_at.clone(),
            updated_at: self.updated_at.clone(),
        }
    }
}

/// A preferred target for items of a category.
pub struct PutawayRule {
    pub id: String,
    /// Item category this rule applies to, or "*" for all.
    pub category: String,
    /// Preferred zone or location (its ID or its name).
    pub target_zone: String,
    /// Lower is preferred.
    pub priority: i32,
}

impl Clone for PutawayRule {
    fn clone(&self) -> (r: Self)
        ensures
            r == *self,
    {
        PutawayRule {
            id: self.id.clone(),
            category: self.category.clone(),
            target_zone: self.target_zone.clone(),
            priority: self.priority,
        }
    }
}

/// Where a cycle count stands.
#[derive(PartialEq, Eq, Structural, Clone, Copy, Debug)]
pub enum CountStatus {
    Scheduled,
    InProgress,
    Completed,
}

/// A difference found by a cycle count between the books and the shelf.
pub struct Discrepancy {
    pub sku: String,
    pub system_qty: Milli,
    pub actual_qty: Milli,
    pub variance: i128,
}

impl Clone for Discrepancy {
    fn clone(&self) -> (r: Self)
        ensures
            r == *self,
    {
        Discrepancy {
            sku: self.sku.clone(),
            system_qty: self.system_qty,
            actual_qty: self.actual_qty,
            variance: self.variance,
        }
    }
}

/// Copies a list of discrepancies.
pub fn clone_discrepancies(v: &Vec<Discrepancy>) -> (r: Vec<Discrepancy>)
    ensures
        r@ == v@,
{
    let mut r: Vec<Discrepancy> = Vec::new();
    let mut i: usize = 0;
    while i < v.len()
        invariant
            i <= v.len(),
            r@ == v@.take(i as int),
        decreases v.len() - i,
    {
        r.push(v[i].clone());
        assert(v@.take(i + 1) =~= v@.take(i as int).push(v@[i as int]));
        i = i + 1;
    }
    assert(v@.take(v.len() as int) =~= v@);
    r
}

/// A count of the stock at one location.
pub struct CycleCount {
    pub id: String,
    pub location_id: String,
    pub status: CountStatus,
    pub scheduled_date: String,
    pub counted_by: Option<String>,
    pub discrepancies: Vec<Discrepancy>,
    pub completed_at: Option<String>,
}

impl CycleCount {
    /// The count with its discrepancies taken as a sequence.
    pub open spec fn same(self, other: CycleCount) -> bool {
        &&& self.id == other.id
        &&& self.location_id == other.location_id
        &&& self.status == other.status
        &&& self.scheduled_date == other.scheduled_date
        &&& self.counted_by == other.counted_by
        &&& self.discrepancies@ == other.discrepancies@
        &&& self.completed_at == other.completed_at
    }
}

impl Clone for CycleCount {
    fn clone(&self) -> (r: Self)
        ensures
            r.same(*self),
    {
        CycleCount {
            id: self.id.clone(),
            location_id: self.location_id.clone(),
            status: self.status,
            scheduled_date: self.scheduled_date.clone(),
            counted_by: clone_opt(&self.counted_by),
            discrepancies: clone_discrepancies(&self.discrepancies),
            completed_at: clone_opt(&self.completed_at),
        }
    }
}

/// Where a wave stands.
#[derive(PartialEq, Eq, Structural, Clone, Copy, Debug)]
pub enum WaveStatus {
    Planning,
    Released,
    InProgress,
    Completed,
}

/// A batch of pick orders picked together.
pub struct Wave {
    pub id: String,
    pub name: String,
    pub status: WaveStatus,
    pub pick_ids: Vec<String>,
    pub priority: String,
    pub created_at: String,
    pub released_at: Option<String>,
    pub completed_at: Option<String>,
}

impl Wave {
    /// The wave with its pick IDs taken as a sequence.
    pub open spec fn same(self, other: Wave) -> bool {
        &&& self.id == other.id
        &&& self.name == other.name
        &&& self.status == other.status
        &&& self.pick_ids@ == other.pick_ids@
        &&& self.priority == other.priority
        &&& self.created_at == other.created_at
        &&& self.released_at == other.released_at
        &&& self.completed_at == other.completed_at
    }
}

impl Clone for Wave {
    fn clone(&self) -> (r: Self)
        ensures
            r.same(*self),
    {
        Wave {
            id: self.id.clone(),
            name: self.name.clone(),
            status: self.status,
            pick_ids: clone_strings(&self.pick_ids),
            priority: self.priority.clone(),
            created_at: self.created_at.clone(),
            released_at: clone_opt(&self.released_at),
            completed_at: clone_opt(&self.completed_at),
        }
    }
}

/// A printable barcode label.
pub struct BarcodeLabel {
    pub id: String,
    /// sku, location, lot, shipment, receipt
    pub barcode_type: String,
    pub entity_id: String,
    /// code128, ean13, qr, datamatrix
    pub barcode_format: String,
    pub barcode_value: String,
    pub label_text: Vec<String>,
    pub generated_at: String,
}

/// Stock of one SKU at one location.
pub struct StockLevel {
    pub sku: String,
    pub location_id: String,
    pub quantity: Milli,
    pub reserved: Milli,
    pub lot_number: Option<String>,
    pub expiry_date: Option<String>,
    pub updated_at: String,
}

impl Clone for StockLevel {
    fn clone(&self) -> (r: Self)
        ensures
            r == *self,
    {
        StockLevel {
            sku: self.sku.clone(),
            location_id: self.location_id.clone(),
            quantity: self.quantity,
            reserved: self.reserved,
            lot_number: clone_opt(&self.lot_number),
            expiry_date: clone_opt(&self.expiry_date),
            updated_at: self.updated_at.clone(),
        }
    }
}

/// The kind of a stock movement.
#[derive(PartialEq, Eq, Structural, Clone, Copy, Debug)]
pub enum MovementType {
    Receive,
    Issue,
    Transfer,
    Adjust,
}

/// One entry of the movement audit trail.
pub struct StockMovement {
    pub id: String,
    pub movement_type: MovementType,
    pub sku: String,
    pub quantity: Milli,
    pub from_location: Option<String>,
    pub to_location: Option<String>,
    pub reference: String,
    pub actor: String,
    pub lot_number: Option<String>,
    pub timestamp: String,
}

impl Clone for StockMovement {
    fn clone(&self) -> (r: Self)
        ensures
            r == *self,
    {
        StockMovement {
            id: self.id.clone(),
            movement_type: self.movement_type,
            sku: self.sku.clone(),
            quantity: self.quantity,
            from_location: clone_opt(&self.from_location),
            to_location: clone_opt(&self.to_location),
            reference: self.reference.clone(),
            actor: self.actor.clone(),
            lot_number: clone_opt(&self.lot_number),
            timestamp: self.timestamp.clone(),
        }
    }
}

/// One component of a bill of materials.
pub struct BomEntry {
    pub parent_sku: String,
    pub component_sku: String,
    pub quantity: Milli,
}

impl Clone for BomEntry {
    fn clone(&self) -> (r: Self)
        ensures
            r == *self,
    {
        BomEntry {
            parent_sku: self.parent_sku.clone(),
            component_sku: self.component_sku.clone(),
            quantity: self.quantity,
        }
    }
}

/// Stock held back for an order.
pub struct Reservation {
    pub id: String,
    pub sku: String,
    pub location_id: String,
    pub quantity: Milli,
    /// Order or work order ID.
    pub reference: String,
    pub expires_at: Option<String>,
    pub created_at: String,
}

/// Where a serialized unit stands.
#[derive(PartialEq, Eq, Structural, Clone, Copy, Debug)]
pub enum SerialStatus {
    InStock,
    Shipped,
    Scrapped,
}

/// One step in the chain of custody of a serialized unit.
pub struct SerialEvent {
    pub event_type: String,
    pub location: String,
    pub actor: String,
    pub timestamp: String,
    pub reference: Option<String>,
}

impl Clone for SerialEvent {
    fn clone(&self) -> (r: Self)
        ensures
            r == *self,
    {
        SerialEvent {
            event_type: self.event_type.clone(),
            location: self.location.clone(),
            actor: self.actor.clone(),
            timestamp: self.timestamp.clone(),
            reference: clone_opt(&self.reference),
        }
    }
}

/// Copies a list of serial events.
pub fn clone_events(v: &Vec<SerialEvent>) -> (r: Vec<SerialEvent>)
    ensures
        r@ == v@,
{
    let mut r: Vec<SerialEvent> = Vec::new();
    let mut i: usize = 0;
    while i < v.len()
        invariant
            i <= v.len(),
            r@ == v@.take(i as int),
        decreases v.len() - i,
    {
        r.push(v[i].clone());
        assert(v@.take(i + 1) =~= v@.take(i as int).push(v@[i as int]));
        i = i + 1;
    }
    assert(v@.take(v.len() as int) =~= v@);
    r
}

/// An individually tracked unit.
pub struct SerializedItem {
    pub serial_number: String,
    pub sku: String,
    pub status: SerialStatus,
    pub location_id: String,
    pub lot_number: Option<String>,
    pub manufacture_date: Option<String>,
    pub expiry_date: Option<String>,
    pub rfid_tag: Option<String>,
    pub qr_code: Option<String>,
    pub history: Vec<SerialEvent>,
    /// Free-form metadata as JSON text.
    pub metadata: String,
}

impl SerializedItem {
    /// The unit with its history taken as a sequence.
    pub open spec fn same(self, other: SerializedItem) -> bool {
        &&& self.serial_number == other.serial_number
        &&& self.sku == other.sku
        &&& self.status == other.status
        &&& self.location_id == other.location_id
        &&& self.lot_number == other.lot_number
        &&& self.manufacture_date == other.manufacture_date
        &&& self.expiry_date == other.expiry_date
        &&& self.rfid_tag == other.rfid_tag
        &&& self.qr_code == other.qr_code
        &&& self.history@ == other.history@
        &&& self.metadata == other.metadata
    }
}

impl Clone for SerializedItem {
    fn clone(&self) -> (r: Self)
        ensures
            r.same(*self),
    {
        SerializedItem {
            serial_number: self.serial_number.clone(),
            sku: self.sku.clone(),
            status: self.status,
            location_id: self.location_id.clone(),
            lot_number: clone_opt(&self.lot_number),
            manufacture_date: clone_opt(&self.manufacture_date),
            expiry_date: clone_opt(&self.expiry_date),
            rfid_tag: clone_opt(&self.rfid_tag),
            qr_code: clone_opt(&self.qr_code),
            history: clone_events(&self.history),
            metadata: self.metadata.clone(),
        }
    }
}

/// An RFID tag known to the system.
pub struct RfidTag {
    pub epc: String,
    pub serial_number: Option<String>,
    pub sku: Option<String>,
    pub location_id: String,
    pub last_read_at: String,
    pub read_count: u64,
    pub status: String,
}


/// Why an operation on the inventory was refused.
#[derive(PartialEq, Eq, Structural, Clone, Copy, Debug)]
pub enum InventoryError {
    /// Not enough available stock for the operation.
    InsufficientStock { available: Milli, requested: Milli },
    /// A quantity, or a stock level that the operation would produce, lies outside
    /// the range that the store holds exactly.
    QuantityOutOfRange,
    /// The reservation ID does not exist.
    ReservationNotFound,
    /// No bill of materials is defined for the parent SKU.
    BomNotFound,
    /// The pick order ID does not exist.
    PickNotFound,
    /// The wave ID does not exist.
    WaveNotFound,
    /// The wave lists a pick order that is not shipped yet.
    WavePicksNotShipped,
    /// The cycle count ID does not exist.
    CycleCountNotFound,
    /// The serial number is not registered.
    SerialNotFound,
    /// The EPC tag is not in the system.
    RfidNotFound,
    /// The expiry time lies outside the range of representable dates.
    ExpiryOutOfRange,
}

impl Clone for RfidTag {
    fn clone(&self) -> (r: Self)
        ensures
            r == *self,
    {
        RfidTag {
            epc: self.epc.clone(),
            serial_number: clone_opt(&self.serial_number),
            sku: clone_opt(&self.sku),
            location_id: self.location_id.clone(),
            last_read_at: self.last_read_at.clone(),
            read_count: self.read_count,
            status: self.status.clone(),
        }
    }
}

} // verus!
