use vstd::prelude::*;
use vstd::string::*;
use crate::external::now;
use crate::inputs::{
    RfidQueryInput, RfidReadInput, RfidRegisterInput, SerialMoveInput, SerialQueryInput, SerialRegisterInput,
    SerialScanInput,
};
use crate::keyed::{
    find_key, has_key, key_index, keys_unique, lemma_key_index, lemma_update_keyed, lemma_upserted, lookup, upsert,
    upserted, Keyed,
};
use crate::labels::{cat, is_text};
use crate::picking::names;
use crate::server::InventoryServer;
use crate::types::{clone_opt, RfidTag, SerialEvent, SerialStatus, SerializedItem};

verus! {

/// The QR code of a newly registered unit: "QR:SN=", serial, "&SKU=", SKU, "&LOC=", location.
pub open spec fn serial_qr(input: SerialRegisterInput) -> Seq<char> {
    "QR:SN="@ + input.serial_number@ + "&SKU="@ + input.sku@ + "&LOC="@ + input.location_id@
}

/// `x` is the unit that `input` registers at `now`: in stock where it is received, with
/// its QR code and one "received" event by "system".
pub open spec fn is_registered_unit(x: SerializedItem, input: SerialRegisterInput, now: String) -> bool {
    &&& x.serial_number == input.serial_number
    &&& x.sku == input.sku
    &&& x.status == SerialStatus::InStock
    &&& x.location_id == input.location_id
    &&& x.lot_number == input.lot_number
    &&& x.manufacture_date == input.manufacture_date
    &&& x.expiry_date == input.expiry_date
    &&& x.rfid_tag == input.rfid_tag
    &&& x.qr_code is Some && x.qr_code.unwrap()@ == serial_qr(input)
    &&& x.history@.len() == 1
    &&& x.history@[0].event_type@ == "received"@
    &&& x.history@[0].location == input.location_id
    &&& x.history@[0].actor@ == "system"@
    &&& x.history@[0].timestamp == now
    &&& x.history@[0].reference is None
    &&& x.metadata@ == "{}"@
}

/// `t` is an active tag for `epc`, linked to the serial number, read at `now` and never counted.
pub open spec fn is_new_tag(t: RfidTag, epc: String, serial: Option<String>, sku: Option<String>, now: String) -> bool {
    &&& t.epc == epc
    &&& t.serial_number == serial
    &&& t.sku == sku
    &&& t.last_read_at == now
    &&& t.read_count == 0
    &&& t.status@ == "active"@
}

/// The status a unit takes after an event: shipped, scrapped, or otherwise in stock.
pub open spec fn status_after(event: Seq<char>) -> SerialStatus {
    if event == "shipped"@ {
        SerialStatus::Shipped
    } else if event == "scrapped"@ {
        SerialStatus::Scrapped
    } else {
        SerialStatus::InStock
    }
}

/// A summary of a unit found by a scan.
pub struct SerialSummary {
    pub serial: String,
    pub sku: String,
    pub status: SerialStatus,
    pub rfid: Option<String>,
    pub lot: Option<String>,
}

/// The summaries of the units at the location, in order.
pub open spec fn units_at(items: Seq<SerializedItem>, loc: Seq<char>) -> Seq<SerialSummary>
    decreases items.len(),
{
    if items.len() == 0 {
        Seq::empty()
    } else {
        let prev = units_at(items.drop_last(), loc);
        let i = items.last();
        if i.location_id@ == loc {
            prev.push(SerialSummary { serial: i.serial_number, sku: i.sku, status: i.status, rfid: i.rfid_tag, lot: i.lot_number })
        } else {
            prev
        }
    }
}

/// A tag found by a reader scan.
pub struct FoundTag {
    pub epc: String,
    pub serial: Option<String>,
    pub sku: Option<String>,
}

/// A tag expected at the location but not scanned.
pub struct MissingTag {
    pub epc: String,
    pub serial: Option<String>,
}

/// What a reader scan reports.
pub struct RfidScanReport {
    pub found: Vec<FoundTag>,
    pub unknown: Vec<String>,
    pub missing: Vec<MissingTag>,
}

/// The read count after one more read (it stays at its maximum).
pub open spec fn one_more(c: u64) -> u64 {
    if c < u64::MAX {
        (c + 1) as u64
    } else {
        c
    }
}

/// The tags after the reader at `loc` read the EPCs in order at `now`: each known
/// tag read moves there, is stamped and counted once per read.
pub open spec fn read_tags(tags: Seq<RfidTag>, epcs: Seq<String>, loc: String, now: String) -> Seq<RfidTag>
    decreases epcs.len(),
{
    if epcs.len() == 0 {
        tags
    } else {
        let t1 = read_tags(tags, epcs.drop_last(), loc, now);
        let e = epcs.last();
        if has_key(t1, e@) {
            let i = key_index(t1, e@);
            t1.update(i, RfidTag { location_id: loc, last_read_at: now, read_count: one_more(t1[i].read_count), ..t1[i] })
        } else {
            t1
        }
    }
}

/// The tags found among the EPCs, in scan order.
pub open spec fn found_tags(tags: Seq<RfidTag>, epcs: Seq<String>) -> Seq<FoundTag>
    decreases epcs.len(),
{
    if epcs.len() == 0 {
        Seq::empty()
    } else {
        let prev = found_tags(tags, epcs.drop_last());
        let e = epcs.last();
        if has_key(tags, e@) {
            let t = lookup(tags, e@).unwrap();
            prev.push(FoundTag { epc: e, serial: t.serial_number, sku: t.sku })
        } else {
            prev
        }
    }
}

/// The EPCs that match no known tag, in scan order.
pub open spec fn unknown_epcs(tags: Seq<RfidTag>, epcs: Seq<String>) -> Seq<String>
    decreases epcs.len(),
{
    if epcs.len() == 0 {
        Seq::empty()
    } else {
        let prev = unknown_epcs(tags, epcs.drop_last());
        let e = epcs.last();
        if has_key(tags, e@) {
            prev
        } else {
            prev.push(e)
        }
    }
}

/// The active tags at the location that the scan did not see, in order.
pub open spec fn missing_tags(tags: Seq<RfidTag>, epcs: Seq<String>, loc: Seq<char>) -> Seq<MissingTag>
    decreases tags.len(),
{
    if tags.len() == 0 {
        Seq::empty()
    } else {
        let prev = missing_tags(tags.drop_last(), epcs, loc);
        let t = tags.last();
        if t.location_id@ == loc && t.status@ == "active"@ && !names(epcs, t.epc@) {
            prev.push(MissingTag { epc: t.epc, serial: t.serial_number })
        } else {
            prev
        }
    }
}

/// The EPC is among the scanned ones.
fn scanned(epcs: &Vec<String>, epc: &String) -> (b: bool)
    ensures
        b == names(epcs@, epc@),
{
    let mut i: usize = 0;
    while i < epcs.len()
        invariant
            i <= epcs.len(),
            forall|j: int| 0 <= j < i ==> #[trigger] epcs@[j]@ != epc@,
        decreases epcs.len() - i,
    {
        if epcs[i].eq(epc) {
            return true;
        }
        i = i + 1;
    }
    false
}

impl InventoryServer {
    /// Registers a serialized unit, in stock where it is received, and answers its QR
    /// code; where it carries an RFID tag, registers the tag too, linked to it and
    /// expected at the unit's location.
    pub fn serial_register(&mut self, input: SerialRegisterInput) -> (r: String)
        requires
            old(self).store.wf(),
        ensures
            final(self).store.wf(),
            r@ == serial_qr(input),
            has_key(final(self).store.serialized@, input.serial_number@),
            is_registered_unit(
                lookup(final(self).store.serialized@, input.serial_number@).unwrap(),
                input,
                lookup(final(self).store.serialized@, input.serial_number@).unwrap().history@[0].timestamp,
            ),
            final(self).store.serialized@ == upserted(
                old(self).store.serialized@,
                lookup(final(self).store.serialized@, input.serial_number@).unwrap(),
            ),
            input.rfid_tag is None ==> final(self).store.rfid_tags == old(self).store.rfid_tags,
            input.rfid_tag matches Some(epc) ==> has_key(final(self).store.rfid_tags@, epc@) && is_new_tag(
                lookup(final(self).store.rfid_tags@, epc@).unwrap(),
                epc,
                Some(input.serial_number),
                None,
                lookup(final(self).store.serialized@, input.serial_number@).unwrap().history@[0].timestamp,
            ) && lookup(final(self).store.rfid_tags@, epc@).unwrap().location_id == input.location_id
                && final(self).store.rfid_tags@ == upserted(
                old(self).store.rfid_tags@,
                lookup(final(self).store.rfid_tags@, epc@).unwrap(),
            ),
            final(self).store.keeps_stock(old(self).store),
            final(self).store.keeps_catalog(old(self).store),
            final(self).store.keeps_operations(old(self).store),
            final(self).same_config(*old(self)),
    {
        let t = now();
        self.serial_register_at(input, t)
    }

    /// Registers a serialized unit at time `now`.
    pub fn serial_register_at(&mut self, input: SerialRegisterInput, now: String) -> (r: String)
        requires
            old(self).store.wf(),
        ensures
            final(self).store.wf(),
            r@ == serial_qr(input),
            has_key(final(self).store.serialized@, input.serial_number@),
            is_registered_unit(lookup(final(self).store.serialized@, input.serial_number@).unwrap(), input, now),
            final(self).store.serialized@ == upserted(
                old(self).store.serialized@,
                lookup(final(self).store.serialized@, input.serial_number@).unwrap(),
            ),
            input.rfid_tag is None ==> final(self).store.rfid_tags == old(self).store.rfid_tags,
            input.rfid_tag matches Some(epc) ==> has_key(final(self).store.rfid_tags@, epc@) && is_new_tag(
                lookup(final(self).store.rfid_tags@, epc@).unwrap(),
                epc,
                Some(input.serial_number),
                None,
                now,
            ) && lookup(final(self).store.rfid_tags@, epc@).unwrap().location_id == input.location_id
                && final(self).store.rfid_tags@ == upserted(
                old(self).store.rfid_tags@,
                lookup(final(self).store.rfid_tags@, epc@).unwrap(),
            ),
            final(self).store.keeps_stock(old(self).store),
            final(self).store.keeps_catalog(old(self).store),
            final(self).store.keeps_operations(old(self).store),
            final(self).same_config(*old(self)),
    {
        let mut qr = cat("QR:SN=", input.serial_number.as_str());
        qr.append("&SKU=");
        qr.append(input.sku.as_str());
        qr.append("&LOC=");
        qr.append(input.location_id.as_str());
        let mut history: Vec<SerialEvent> = Vec::new();
        history.push(
            SerialEvent {
                event_type: String::from_str("received"),
                location: input.location_id.clone(),
                actor: String::from_str("system"),
                timestamp: now.clone(),
                reference: None,
            },
        );
        let item = SerializedItem {
            serial_number: input.serial_number.clone(),
            sku: input.sku,
            status: SerialStatus::InStock,
            location_id: input.location_id.clone(),
            lot_number: input.lot_number,
            manufacture_date: input.manufacture_date,
            expiry_date: input.expiry_date,
            rfid_tag: clone_opt(&input.rfid_tag),
            qr_code: Some(qr.clone()),
            history,
            metadata: String::from_str("{}"),
        };
        proof {
            lemma_upserted(self.store.serialized@, item);
        }
        upsert(&mut self.store.serialized, item);
        match input.rfid_tag {
            Some(epc) => {
                let tag = RfidTag {
                    epc: epc,
                    serial_number: Some(input.serial_number),
                    sku: None,
                    location_id: input.location_id,
                    last_read_at: now,
                    read_count: 0,
                    status: String::from_str("active"),
                };
                proof {
                    lemma_upserted(self.store.rfid_tags@, tag);
                }
                upsert(&mut self.store.rfid_tags, tag);
            },
            None => {},
        }
        qr
    }

    /// Moves a serialized unit to a new location and appends the event ("moved" where
    /// none is given) to its chain of custody; answers the event and the history's
    /// new length.
    pub fn serial_move(&mut self, input: SerialMoveInput) -> (r: Result<(String, usize), crate::types::InventoryError>)
        requires
            old(self).store.wf(),
        ensures
            final(self).store.wf(),
            r is Err <==> !has_key(old(self).store.serialized@, input.serial_number@),
            r is Err ==> r == Err::<(String, usize), crate::types::InventoryError>(
                crate::types::InventoryError::SerialNotFound,
            ) && final(self).store == old(self).store,
            r matches Ok((ev, len)) ==> {
                let i = key_index(old(self).store.serialized@, input.serial_number@);
                let o = old(self).store.serialized@[i];
                let n = final(self).store.serialized@[i];
                &&& ev@ == match input.event_type {
                    Some(e) => e@,
                    None => "moved"@,
                }
                &&& final(self).store.serialized@ == old(self).store.serialized@.update(i, n)
                &&& n.location_id == input.to_location
                &&& n.status == status_after(ev@)
                &&& n.history@.len() == o.history@.len() + 1 && len == n.history@.len()
                &&& n.history@.drop_last() == o.history@
                &&& n.history@.last().event_type == ev
                &&& n.history@.last().location == input.to_location
                &&& n.history@.last().actor == input.actor
                &&& n.history@.last().reference == input.reference
                &&& n.serial_number == o.serial_number && n.sku == o.sku && n.lot_number == o.lot_number
                    && n.manufacture_date == o.manufacture_date && n.expiry_date == o.expiry_date && n.rfid_tag
                    == o.rfid_tag && n.qr_code == o.qr_code && n.metadata == o.metadata
            },
            final(self).store.rfid_tags == old(self).store.rfid_tags,
            final(self).store.keeps_stock(old(self).store),
            final(self).store.keeps_catalog(old(self).store),
            final(self).store.keeps_operations(old(self).store),
            final(self).same_config(*old(self)),
    {
        let idx = match find_key(&self.store.serialized, &input.serial_number) {
            Some(i) => i,
            None => {
                return Err(crate::types::InventoryError::SerialNotFound);
            },
        };
        proof {
            lemma_key_index(self.store.serialized@, input.serial_number@);
        }
        let t = now();
        let event = match input.event_type {
            Some(e) => e,
            None => String::from_str("moved"),
        };
        let status = if is_text(&event, "shipped") {
            SerialStatus::Shipped
        } else if is_text(&event, "scrapped") {
            SerialStatus::Scrapped
        } else {
            SerialStatus::InStock
        };
        let ghost s0 = self.store.serialized@;
        let mut item = self.store.serialized.remove(idx);
        let ghost h0 = item.history@;
        item.location_id = input.to_location.clone();
        item.status = status;
        item.history.push(
            SerialEvent {
                event_type: event.clone(),
                location: input.to_location,
                actor: input.actor,
                timestamp: t,
                reference: input.reference,
            },
        );
        assert(item.history@.drop_last() =~= h0);
        let len = item.history.len();
        proof {
            lemma_update_keyed(s0, idx as int, item);
        }
        self.store.serialized.insert(idx, item);
        assert(self.store.serialized@ =~= s0.update(idx as int, item));
        Ok((event, len))
    }

    /// Looks up a serialized unit: its history, location and status.
    pub fn serial_lookup(&self, input: SerialQueryInput) -> (r: Result<SerializedItem, crate::types::InventoryError>)
        requires
            self.store.wf(),
        ensures
            r is Ok <==> has_key(self.store.serialized@, input.serial_number@),
            r is Err ==> r == Err::<SerializedItem, crate::types::InventoryError>(
                crate::types::InventoryError::SerialNotFound,
            ),
            r matches Ok(x) ==> x.same(lookup(self.store.serialized@, input.serial_number@).unwrap()),
    {
        proof {
            lemma_key_index(self.store.serialized@, input.serial_number@);
        }
        match find_key(&self.store.serialized, &input.serial_number) {
            Some(i) => Ok(self.store.serialized[i].clone()),
            None => Err(crate::types::InventoryError::SerialNotFound),
        }
    }

    /// The serialized units at a location.
    pub fn serial_scan_location(&self, input: SerialScanInput) -> (r: Vec<SerialSummary>)
        ensures
            r@ == units_at(self.store.serialized@, input.location_id@),
    {
        let mut r: Vec<SerialSummary> = Vec::new();
        let mut i: usize = 0;
        while i < self.store.serialized.len()
            invariant
                i <= self.store.serialized.len(),
                r@ == units_at(self.store.serialized@.take(i as int), input.location_id@),
            decreases self.store.serialized.len() - i,
        {
            proof {
                assert(self.store.serialized@.take(i + 1).drop_last() =~= self.store.serialized@.take(i as int));
            }
            let it = &self.store.serialized[i];
            if it.location_id.eq(&input.location_id) {
                r.push(
                    SerialSummary {
                        serial: it.serial_number.clone(),
                        sku: it.sku.clone(),
                        status: it.status,
                        rfid: clone_opt(&it.rfid_tag),
                        lot: clone_opt(&it.lot_number),
                    },
                );
            }
            i = i + 1;
        }
        assert(self.store.serialized@.take(self.store.serialized.len() as int) =~= self.store.serialized@);
        r
    }

    /// Registers an RFID tag and links it to a serial number or SKU.
    pub fn rfid_register(&mut self, input: RfidRegisterInput)
        requires
            old(self).store.wf(),
        ensures
            final(self).store.wf(),
            has_key(final(self).store.rfid_tags@, input.epc@),
            is_new_tag(
                lookup(final(self).store.rfid_tags@, input.epc@).unwrap(),
                input.epc,
                input.serial_number,
                input.sku,
                lookup(final(self).store.rfid_tags@, input.epc@).unwrap().last_read_at,
            ),
            lookup(final(self).store.rfid_tags@, input.epc@).unwrap().location_id == input.location_id,
            final(self).store.rfid_tags@ == upserted(
                old(self).store.rfid_tags@,
                lookup(final(self).store.rfid_tags@, input.epc@).unwrap(),
            ),
            final(self).store.serialized == old(self).store.serialized,
            final(self).store.keeps_stock(old(self).store),
            final(self).store.keeps_catalog(old(self).store),
            final(self).store.keeps_operations(old(self).store),
            final(self).same_config(*old(self)),
    {
        let tag = RfidTag {
            epc: input.epc,
            serial_number: input.serial_number,
            sku: input.sku,
            location_id: input.location_id,
            last_read_at: now(),
            read_count: 0,
            status: String::from_str("active"),
        };
        proof {
            lemma_upserted(self.store.rfid_tags@, tag);
        }
        upsert(&mut self.store.rfid_tags, tag);
    }

    /// Processes a reader scan at a location: moves and counts the known tags read,
    /// and reports them, the EPCs that match no tag, and the active tags at the
    /// location that were not read.
    pub fn rfid_bulk_read(&mut self, input: RfidReadInput) -> (r: RfidScanReport)
        requires
            old(self).store.wf(),
        ensures
            final(self).store.wf(),
            exists|now: String|
                final(self).store.rfid_tags@ == #[trigger] read_tags(
                    old(self).store.rfid_tags@,
                    input.epcs@,
                    input.location_id,
                    now,
                ),
            r.found@ == found_tags(old(self).store.rfid_tags@, input.epcs@),
            r.unknown@ == unknown_epcs(old(self).store.rfid_tags@, input.epcs@),
            r.missing@ == missing_tags(final(self).store.rfid_tags@, input.epcs@, input.location_id@),
            final(self).store.serialized == old(self).store.serialized,
            final(self).store.keeps_stock(old(self).store),
            final(self).store.keeps_catalog(old(self).store),
            final(self).store.keeps_operations(old(self).store),
            final(self).same_config(*old(self)),
    {
        let t = now();
        let r = self.rfid_bulk_read_at(input, t);
        assert(final(self).store.rfid_tags@ == read_tags(old(self).store.rfid_tags@, input.epcs@, input.location_id, t));
        r
    }

    /// Processes a reader scan at time `now`.
    pub fn rfid_bulk_read_at(&mut self, input: RfidReadInput, now: String) -> (r: RfidScanReport)
        requires
            old(self).store.wf(),
        ensures
            final(self).store.wf(),
            final(self).store.rfid_tags@ == read_tags(old(self).store.rfid_tags@, input.epcs@, input.location_id, now),
            r.found@ == found_tags(old(self).store.rfid_tags@, input.epcs@),
            r.unknown@ == unknown_epcs(old(self).store.rfid_tags@, input.epcs@),
            r.missing@ == missing_tags(final(self).store.rfid_tags@, input.epcs@, input.location_id@),
            final(self).store.serialized == old(self).store.serialized,
            final(self).store.keeps_stock(old(self).store),
            final(self).store.keeps_catalog(old(self).store),
            final(self).store.keeps_operations(old(self).store),
            final(self).same_config(*old(self)),
    {
        let ghost t0 = self.store.rfid_tags@;
        let mut found: Vec<FoundTag> = Vec::new();
        let mut unknown: Vec<String> = Vec::new();
        let mut k: usize = 0;
        while k < input.epcs.len()
            invariant
                k <= input.epcs.len(),
                self.store.wf(),
                t0 == old(self).store.rfid_tags@,
                keys_unique(t0),
                self.store.rfid_tags@ == read_tags(t0, input.epcs@.take(k as int), input.location_id, now),
                self.store.rfid_tags@.len() == t0.len(),
                forall|m: int| 0 <= m < t0.len() ==> #[trigger] self.store.rfid_tags@[m].key() == t0[m].key()
                    && self.store.rfid_tags@[m].serial_number == t0[m].serial_number && self.store.rfid_tags@[m].sku
                    == t0[m].sku,
                found@ == found_tags(t0, input.epcs@.take(k as int)),
                unknown@ == unknown_epcs(t0, input.epcs@.take(k as int)),
                self.store.serialized == old(self).store.serialized,
                self.store.keeps_stock(old(self).store),
                self.store.keeps_catalog(old(self).store),
                self.store.keeps_operations(old(self).store),
                self.same_config(*old(self)),
            decreases input.epcs.len() - k,
        {
            let ghost cur = self.store.rfid_tags@;
            proof {
                assert(input.epcs@.take(k + 1).drop_last() =~= input.epcs@.take(k as int));
                assert(input.epcs@.take(k + 1).last() == input.epcs@[k as int]);
            }
            let epc = &input.epcs[k];
            proof {
                lemma_key_index(cur, epc@);
                lemma_key_index(t0, epc@);
                if has_key(cur, epc@) {
                    let i = key_index(cur, epc@);
                    assert(t0[i].key() == epc@);
                }
                if has_key(t0, epc@) {
                    let i = key_index(t0, epc@);
                    assert(cur[i].key() == epc@);
                }
            }
            match find_key(&self.store.rfid_tags, epc) {
                Some(i) => {
                    let mut tag = self.store.rfid_tags.remove(i);
                    tag.location_id = input.location_id.clone();
                    tag.last_read_at = now.clone();
                    tag.read_count = tag.read_count.saturating_add(1);
                    found.push(FoundTag { epc: epc.clone(), serial: clone_opt(&tag.serial_number), sku: clone_opt(&tag.sku) });
                    proof {
                        lemma_update_keyed(cur, i as int, tag);
                    }
                    self.store.rfid_tags.insert(i, tag);
                    assert(self.store.rfid_tags@ =~= cur.update(i as int, tag));
                },
                None => {
                    unknown.push(epc.clone());
                },
            }
            k = k + 1;
        }
        assert(input.epcs@.take(input.epcs.len() as int) =~= input.epcs@);
        let mut missing: Vec<MissingTag> = Vec::new();
        let active = String::from_str("active");
        let mut m: usize = 0;
        while m < self.store.rfid_tags.len()
            invariant
                m <= self.store.rfid_tags.len(),
                active@ == "active"@,
                missing@ == missing_tags(self.store.rfid_tags@.take(m as int), input.epcs@, input.location_id@),
            decreases self.store.rfid_tags.len() - m,
        {
            proof {
                assert(self.store.rfid_tags@.take(m + 1).drop_last() =~= self.store.rfid_tags@.take(m as int));
            }
            let tag = &self.store.rfid_tags[m];
            if tag.location_id.eq(&input.location_id) && tag.status.eq(&active) && !scanned(&input.epcs, &tag.epc) {
                missing.push(MissingTag { epc: tag.epc.clone(), serial: clone_opt(&tag.serial_number) });
            }
            m = m + 1;
        }
        assert(self.store.rfid_tags@.take(self.store.rfid_tags.len() as int) =~= self.store.rfid_tags@);
        RfidScanReport { found, unknown, missing }
    }

    /// Looks up an RFID tag by EPC.
    pub fn rfid_lookup(&self, input: RfidQueryInput) -> (r: Result<RfidTag, crate::types::InventoryError>)
        requires
            self.store.wf(),
        ensures
            r is Ok <==> has_key(self.store.rfid_tags@, input.epc@),
            r is Err ==> r == Err::<RfidTag, crate::types::InventoryError>(crate::types::InventoryError::RfidNotFound),
            r matches Ok(t) ==> Some(t) == lookup(self.store.rfid_tags@, input.epc@),
    {
        proof {
            lemma_key_index(self.store.rfid_tags@, input.epc@);
        }
        match find_key(&self.store.rfid_tags, &input.epc) {
            Some(i) => Ok(self.store.rfid_tags[i].clone()),
            None => Err(crate::types::InventoryError::RfidNotFound),
        }
    }

}

/// Law: every EPC a reader scan reports is either found or unknown, never both: the
/// two lists together are as long as the scan.
pub proof fn law_scan_partition(tags: Seq<RfidTag>, epcs: Seq<String>)
    ensures
        found_tags(tags, epcs).len() + unknown_epcs(tags, epcs).len() == epcs.len(),
    decreases epcs.len(),
{
    if epcs.len() > 0 {
        law_scan_partition(tags, epcs.drop_last());
    }
}


/// Law: after a reader scan, every known tag that the scan saw is at the reader's
/// location, every other tag is where it was, and no tag is added or lost.
pub proof fn law_scan_moves_seen_tags(tags: Seq<RfidTag>, epcs: Seq<String>, loc: String, now: String, k: Seq<char>)
    requires
        keys_unique(tags),
    ensures
        keys_unique(read_tags(tags, epcs, loc, now)),
        has_key(read_tags(tags, epcs, loc, now), k) == has_key(tags, k),
        has_key(tags, k) && names(epcs, k) ==> lookup(read_tags(tags, epcs, loc, now), k).unwrap().location_id == loc,
        has_key(tags, k) && !names(epcs, k) ==> lookup(read_tags(tags, epcs, loc, now), k) == lookup(tags, k),
    decreases epcs.len(),
{
    if epcs.len() > 0 {
        let d = epcs.drop_last();
        let e = epcs.last();
        law_scan_moves_seen_tags(tags, d, loc, now, k);
        law_scan_moves_seen_tags(tags, d, loc, now, e@);
        let t1 = read_tags(tags, d, loc, now);
        lemma_key_index(t1, e@);
        if names(d, k) {
            let j = choose|j: int| 0 <= j < d.len() && #[trigger] d[j]@ == k;
            assert(epcs[j] == d[j]);
        }
        if names(epcs, k) && k != e@ {
            let j = choose|j: int| 0 <= j < epcs.len() && #[trigger] epcs[j]@ == k;
            assert(d[j] == epcs[j]);
        }
        if !names(epcs, k) {
            if names(d, k) {
                let j = choose|j: int| 0 <= j < d.len() && #[trigger] d[j]@ == k;
                assert(epcs[j] == d[j]);
            }
        }
        if k == e@ {
            assert(epcs[epcs.len() - 1]@ == k);
        }
        if has_key(t1, e@) {
            let i = key_index(t1, e@);
            let x = RfidTag { location_id: loc, last_read_at: now, read_count: one_more(t1[i].read_count), ..t1[i] };
            lemma_update_keyed(t1, i, x);
            assert(has_key(t1.update(i, x), k) == has_key(t1, k));
        }
    }
}

/// Law: a scan reports as missing only active tags expected at the reader's location
/// that it did not see; a tag the scan saw is never reported missing.
pub proof fn law_missing_not_seen(tags: Seq<RfidTag>, epcs: Seq<String>, loc: Seq<char>)
    ensures
        forall|j: int|
            0 <= j < missing_tags(tags, epcs, loc).len() ==> !names(epcs, (#[trigger] missing_tags(tags, epcs, loc)[j]).epc@)
                && exists|i: int|
                0 <= i < tags.len() && #[trigger] tags[i].epc == missing_tags(tags, epcs, loc)[j].epc
                    && tags[i].location_id@ == loc && tags[i].status@ == "active"@,
    decreases tags.len(),
{
    if tags.len() > 0 {
        let d = tags.drop_last();
        law_missing_not_seen(d, epcs, loc);
        let prev = missing_tags(d, epcs, loc);
        let all = missing_tags(tags, epcs, loc);
        assert forall|j: int| 0 <= j < all.len() implies !names(epcs, (#[trigger] all[j]).epc@) && exists|i: int|
            0 <= i < tags.len() && #[trigger] tags[i].epc == all[j].epc && tags[i].location_id@ == loc && tags[i].status@
                == "active"@ by {
            if j < prev.len() {
                assert(all[j] == prev[j]);
                let i = choose|i: int|
                    0 <= i < d.len() && #[trigger] d[i].epc == prev[j].epc && d[i].location_id@ == loc && d[i].status@
                        == "active"@;
                assert(tags[i] == d[i]);
            } else {
                assert(tags[tags.len() - 1].epc == all[j].epc);
            }
        }
    }
}

} // verus!
