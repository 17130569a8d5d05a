use vstd::prelude::*;
use vstd::string::*;
use crate::external::now;
use crate::inputs::{LabelBatchInput, LabelInput, QrGenerateInput};
use crate::keyed::{find_key, lemma_key_index, lookup};
use crate::server::InventoryServer;
use crate::stock_ops::text_or_empty;
use crate::store::{is_prefixed_id, prefixed_id};
use crate::types::{clone_strings, BarcodeLabel};

verus! {

/// The text is the literal.
pub fn is_text(s: &String, lit: &str) -> (b: bool)
    ensures
        b == (s@ == lit@),
{
    s.eq(&String::from_str(lit))
}

/// `a` followed by `b`.
pub fn cat(a: &str, b: &str) -> (r: String)
    ensures
        r@ == a@ + b@,
{
    let mut r = String::from_str(a);
    r.append(b);
    r
}

/// The characters of each string.
pub open spec fn texts(v: Seq<String>) -> Seq<Seq<char>> {
    v.map_values(|s: String| s@)
}

/// The prefix of a barcode value for the barcode type.
pub open spec fn label_prefix(t: Seq<char>) -> Seq<char> {
    if t == "sku"@ {
        "SKU-"@
    } else if t == "location"@ {
        "LOC-"@
    } else if t == "lot"@ {
        "LOT-"@
    } else if t == "shipment"@ {
        "SHP-"@
    } else if t == "receipt"@ {
        "RCV-"@
    } else {
        "ID-"@
    }
}

/// The barcode format asked for, "code128" where none is.
pub open spec fn format_or_default(f: Option<String>) -> Seq<char> {
    match f {
        Some(x) => x@,
        None => "code128"@,
    }
}

/// A generated label as the caller sees it.
pub struct LabelOutcome {
    pub label_id: String,
    pub barcode_value: String,
    pub barcode_format: String,
    pub label_text: Vec<String>,
}

/// One label of a batch.
pub struct BatchLabel {
    pub label_id: String,
    pub entity_id: String,
    pub barcode_value: String,
}

/// A generated QR payload.
pub struct QrOutcome {
    pub label_id: String,
    pub payload: String,
}

/// The label records the outcome: its ID, type and entity as asked, its format, value
/// and text as answered, generated at `now`.
pub open spec fn records(l: BarcodeLabel, o: LabelOutcome, input: LabelInput, now: String) -> bool {
    &&& l.id == o.label_id
    &&& l.barcode_type == input.barcode_type
    &&& l.entity_id == input.entity_id
    &&& l.barcode_format == o.barcode_format
    &&& l.barcode_value == o.barcode_value
    &&& l.label_text@ == o.label_text@
    &&& l.generated_at == now
}

impl InventoryServer {
    /// The lines of text a label carries: its barcode value; for a SKU in the catalog
    /// its name and "Cat: " and category; for a known location its name and "Type: " and
    /// type; then the extra lines asked for.
    pub open spec fn label_lines(&self, input: LabelInput, value: Seq<char>) -> Seq<Seq<char>> {
        let context: Seq<Seq<char>> = if input.barcode_type@ == "sku"@ {
            match lookup(self.store.items@, input.entity_id@) {
                Some(item) => seq![item.name@, "Cat: "@ + item.category@],
                None => Seq::empty(),
            }
        } else if input.barcode_type@ == "location"@ {
            match lookup(self.store.locations@, input.entity_id@) {
                Some(loc) => seq![loc.name@, "Type: "@ + loc.location_type@],
                None => Seq::empty(),
            }
        } else {
            Seq::empty()
        };
        let extra: Seq<Seq<char>> = match input.extra_text {
            Some(v) => texts(v@),
            None => Seq::empty(),
        };
        seq![value] + context + extra
    }

    /// Generates a barcode label for a SKU, location, lot, shipment or receipt under a
    /// fresh ID (`lbl_` and eight hexadecimal digits), and records it.
    pub fn label_generate(&mut self, input: LabelInput) -> (r: LabelOutcome)
        requires
            old(self).store.wf(),
        ensures
            final(self).store.wf(),
            is_prefixed_id(r.label_id@, "lbl_"@),
            r.barcode_value@ == label_prefix(input.barcode_type@) + input.entity_id@,
            r.barcode_format@ == format_or_default(input.barcode_format),
            texts(r.label_text@) == old(self).label_lines(input, r.barcode_value@),
            final(self).store.labels@.len() == old(self).store.labels@.len() + 1,
            final(self).store.labels@.drop_last() == old(self).store.labels@,
            records(
                final(self).store.labels@.last(),
                r,
                input,
                final(self).store.labels@.last().generated_at,
            ),
            final(self).store.pick_orders == old(self).store.pick_orders,
            final(self).store.cycle_counts == old(self).store.cycle_counts,
            final(self).store.waves == old(self).store.waves,
            final(self).store.keeps_stock(old(self).store),
            final(self).store.keeps_catalog(old(self).store),
            final(self).store.keeps_tracking(old(self).store),
            final(self).same_config(*old(self)),
    {
        let id = prefixed_id("lbl_");
        let t = now();
        self.label_generate_at(input, id, t)
    }

    /// Generates a barcode label under `id` at time `now`.
    pub fn label_generate_at(&mut self, input: LabelInput, id: String, now: String) -> (r: LabelOutcome)
        requires
            old(self).store.wf(),
        ensures
            final(self).store.wf(),
            r.label_id == id,
            r.barcode_value@ == label_prefix(input.barcode_type@) + input.entity_id@,
            r.barcode_format@ == format_or_default(input.barcode_format),
            texts(r.label_text@) == old(self).label_lines(input, r.barcode_value@),
            final(self).store.labels@ == old(self).store.labels@.push(final(self).store.labels@.last()),
            records(final(self).store.labels@.last(), r, input, now),
            final(self).store.pick_orders == old(self).store.pick_orders,
            final(self).store.cycle_counts == old(self).store.cycle_counts,
            final(self).store.waves == old(self).store.waves,
            final(self).store.keeps_stock(old(self).store),
            final(self).store.keeps_catalog(old(self).store),
            final(self).store.keeps_tracking(old(self).store),
            final(self).same_config(*old(self)),
    {
        let t = &input.barcode_type;
        let prefix: &str = if is_text(t, "sku") {
            "SKU-"
        } else if is_text(t, "location") {
            "LOC-"
        } else if is_text(t, "lot") {
            "LOT-"
        } else if is_text(t, "shipment") {
            "SHP-"
        } else if is_text(t, "receipt") {
            "RCV-"
        } else {
            "ID-"
        };
        let value = cat(prefix, input.entity_id.as_str());
        let format = match &input.barcode_format {
            Some(f) => f.clone(),
            None => String::from_str("code128"),
        };
        let mut text: Vec<String> = Vec::new();
        text.push(value.clone());
        if is_text(t, "sku") {
            proof {
                lemma_key_index(self.store.items@, input.entity_id@);
            }
            match find_key(&self.store.items, &input.entity_id) {
                Some(i) => {
                    text.push(self.store.items[i].name.clone());
                    text.push(cat("Cat: ", self.store.items[i].category.as_str()));
                },
                None => {},
            }
        } else if is_text(t, "location") {
            proof {
                lemma_key_index(self.store.locations@, input.entity_id@);
            }
            match find_key(&self.store.locations, &input.entity_id) {
                Some(i) => {
                    text.push(self.store.locations[i].name.clone());
                    text.push(cat("Type: ", self.store.locations[i].location_type.as_str()));
                },
                None => {},
            }
        }
        let ghost before_extra = text@;
        match &input.extra_text {
            Some(extra) => {
                let mut k: usize = 0;
                while k < extra.len()
                    invariant
                        k <= extra.len(),
                        text@ == before_extra + extra@.take(k as int),
                    decreases extra.len() - k,
                {
                    text.push(extra[k].clone());
                    assert(extra@.take(k + 1) =~= extra@.take(k as int).push(extra@[k as int]));
                    k = k + 1;
                }
                assert(extra@.take(extra.len() as int) =~= extra@);
            },
            None => {},
        }
        assert(texts(text@) =~= self.label_lines(input, value@));
        let label = BarcodeLabel {
            id: id.clone(),
            barcode_type: input.barcode_type.clone(),
            entity_id: input.entity_id.clone(),
            barcode_format: format.clone(),
            barcode_value: value.clone(),
            label_text: clone_strings(&text),
            generated_at: now,
        };
        self.store.labels.push(label);
        LabelOutcome { label_id: id, barcode_value: value, barcode_format: format, label_text: text }
    }

    /// Generates labels for several entities at once, each under a fresh ID (`lbl_`
    /// and eight hexadecimal digits); answers the format and the labels in order.
    pub fn label_batch(&mut self, input: LabelBatchInput) -> (r: (String, Vec<BatchLabel>))
        requires
            old(self).store.wf(),
        ensures
            final(self).store.wf(),
            r.0@ == format_or_default(input.barcode_format),
            r.1@.len() == input.entity_ids@.len(),
            forall|i: int|
                0 <= i < r.1@.len() ==> is_prefixed_id(#[trigger] r.1@[i].label_id@, "lbl_"@) && r.1@[i].entity_id
                    == input.entity_ids@[i] && r.1@[i].barcode_value@ == label_prefix(input.barcode_type@)
                    + input.entity_ids@[i]@,
            final(self).store.labels@.len() == old(self).store.labels@.len() + input.entity_ids@.len(),
            final(self).store.labels@.take(old(self).store.labels@.len() as int) == old(self).store.labels@,
            forall|i: int|
                0 <= i < r.1@.len() ==> {
                    let l = #[trigger] final(self).store.labels@[old(self).store.labels@.len() + i];
                    &&& l.id == r.1@[i].label_id
                    &&& l.barcode_type == input.barcode_type
                    &&& l.entity_id == input.entity_ids@[i]
                    &&& l.barcode_format == r.0
                    &&& l.barcode_value == r.1@[i].barcode_value
                    &&& l.label_text@ == seq![r.1@[i].barcode_value]
                },
            final(self).store.pick_orders == old(self).store.pick_orders,
            final(self).store.cycle_counts == old(self).store.cycle_counts,
            final(self).store.waves == old(self).store.waves,
            final(self).store.keeps_stock(old(self).store),
            final(self).store.keeps_catalog(old(self).store),
            final(self).store.keeps_tracking(old(self).store),
            final(self).same_config(*old(self)),
    {
        let format = match &input.barcode_format {
            Some(f) => f.clone(),
            None => String::from_str("code128"),
        };
        let t = &input.barcode_type;
        let prefix: &str = if is_text(t, "sku") {
            "SKU-"
        } else if is_text(t, "location") {
            "LOC-"
        } else if is_text(t, "lot") {
            "LOT-"
        } else if is_text(t, "shipment") {
            "SHP-"
        } else if is_text(t, "receipt") {
            "RCV-"
        } else {
            "ID-"
        };
        let ghost l0 = self.store.labels@;
        let mut out: Vec<BatchLabel> = Vec::new();
        let mut k: usize = 0;
        while k < input.entity_ids.len()
            invariant
                k <= input.entity_ids.len(),
                self.store.wf(),
                prefix@ == label_prefix(input.barcode_type@),
                format@ == format_or_default(input.barcode_format),
                l0 == old(self).store.labels@,
                out@.len() == k,
                self.store.labels@.len() == l0.len() + k,
                self.store.labels@.take(l0.len() as int) == l0,
                forall|i: int|
                    0 <= i < k ==> is_prefixed_id(#[trigger] out@[i].label_id@, "lbl_"@) && out@[i].entity_id
                        == input.entity_ids@[i] && out@[i].barcode_value@ == label_prefix(input.barcode_type@)
                        + input.entity_ids@[i]@,
                forall|i: int|
                    0 <= i < k ==> {
                        let l = #[trigger] self.store.labels@[l0.len() + i];
                        &&& l.id == out@[i].label_id
                        &&& l.barcode_type == input.barcode_type
                        &&& l.entity_id == input.entity_ids@[i]
                        &&& l.barcode_format == format
                        &&& l.barcode_value == out@[i].barcode_value
                        &&& l.label_text@ == seq![out@[i].barcode_value]
                    },
                self.store.pick_orders == old(self).store.pick_orders,
                self.store.cycle_counts == old(self).store.cycle_counts,
                self.store.waves == old(self).store.waves,
                self.store.keeps_stock(old(self).store),
                self.store.keeps_catalog(old(self).store),
                self.store.keeps_tracking(old(self).store),
                self.same_config(*old(self)),
            decreases input.entity_ids.len() - k,
        {
            let entity = &input.entity_ids[k];
            let value = cat(prefix, entity.as_str());
            let id = prefixed_id("lbl_");
            let stamp = now();
            let mut text: Vec<String> = Vec::new();
            text.push(value.clone());
            let ghost before = self.store.labels@;
            self.store.labels.push(
                BarcodeLabel {
                    id: id.clone(),
                    barcode_type: input.barcode_type.clone(),
                    entity_id: entity.clone(),
                    barcode_format: format.clone(),
                    barcode_value: value.clone(),
                    label_text: text,
                    generated_at: stamp,
                },
            );
            assert(self.store.labels@.take(l0.len() as int) =~= before.take(l0.len() as int));
            out.push(BatchLabel { label_id: id, entity_id: entity.clone(), barcode_value: value });
            k = k + 1;
        }
        (format, out)
    }

    /// The QR payload for an entity: for a registered serial, its serial number, SKU,
    /// lot (empty where none) and location; for other serials, SKUs, locations and
    /// shipments their ID under "SN=", "SKU=", "LOC=", "SHP="; anything else under
    /// "ID="; then "&DATA=" and the extra data, where there is any.
    pub open spec fn qr_payload(&self, input: QrGenerateInput) -> Seq<char> {
        let e = input.entity_id@;
        let t = input.entity_type@;
        let base = if t == "serial"@ {
            match lookup(self.store.serialized@, e) {
                Some(i) => "SN="@ + i.serial_number@ + "&SKU="@ + i.sku@ + "&LOT="@ + text_or_empty(i.lot_number)
                    + "&LOC="@ + i.location_id@,
                None => "SN="@ + e,
            }
        } else if t == "sku"@ {
            "SKU="@ + e
        } else if t == "location"@ {
            "LOC="@ + e
        } else if t == "shipment"@ {
            "SHP="@ + e
        } else {
            "ID="@ + e
        };
        match input.extra_data {
            Some(x) => base + "&DATA="@ + x@,
            None => base,
        }
    }

    /// Generates a QR payload for a serial, SKU, location or shipment and records it
    /// as a "qr" label under a fresh ID (`lbl_` and eight hexadecimal digits).
    pub fn qr_generate(&mut self, input: QrGenerateInput) -> (r: QrOutcome)
        requires
            old(self).store.wf(),
        ensures
            final(self).store.wf(),
            is_prefixed_id(r.label_id@, "lbl_"@),
            r.payload@ == old(self).qr_payload(input),
            final(self).store.labels@.len() == old(self).store.labels@.len() + 1,
            final(self).store.labels@.drop_last() == old(self).store.labels@,
            final(self).store.labels@.last().id == r.label_id,
            final(self).store.labels@.last().barcode_type == input.entity_type,
            final(self).store.labels@.last().entity_id == input.entity_id,
            final(self).store.labels@.last().barcode_format@ == "qr"@,
            final(self).store.labels@.last().barcode_value == r.payload,
            final(self).store.labels@.last().label_text@ == seq![r.payload],
            final(self).store.pick_orders == old(self).store.pick_orders,
            final(self).store.cycle_counts == old(self).store.cycle_counts,
            final(self).store.waves == old(self).store.waves,
            final(self).store.keeps_stock(old(self).store),
            final(self).store.keeps_catalog(old(self).store),
            final(self).store.keeps_tracking(old(self).store),
            final(self).same_config(*old(self)),
    {
        let t = &input.entity_type;
        let e = input.entity_id.as_str();
        let base = if is_text(t, "serial") {
            proof {
                lemma_key_index(self.store.serialized@, input.entity_id@);
            }
            match find_key(&self.store.serialized, &input.entity_id) {
                Some(i) => {
                    let it = &self.store.serialized[i];
                    let mut b = cat("SN=", it.serial_number.as_str());
                    b.append("&SKU=");
                    b.append(it.sku.as_str());
                    b.append("&LOT=");
                    match &it.lot_number {
                        Some(l) => b.append(l.as_str()),
                        None => {},
                    }
                    b.append("&LOC=");
                    b.append(it.location_id.as_str());
                    b
                },
                None => cat("SN=", e),
            }
        } else if is_text(t, "sku") {
            cat("SKU=", e)
        } else if is_text(t, "location") {
            cat("LOC=", e)
        } else if is_text(t, "shipment") {
            cat("SHP=", e)
        } else {
            cat("ID=", e)
        };
        let payload = match &input.extra_data {
            Some(x) => {
                let mut p = base;
                p.append("&DATA=");
                p.append(x.as_str());
                p
            },
            None => base,
        };
        assert(payload@ =~= self.qr_payload(input));
        let id = prefixed_id("lbl_");
        let stamp = now();
        let mut text: Vec<String> = Vec::new();
        text.push(payload.clone());
        let ghost l0 = self.store.labels@;
        self.store.labels.push(
            BarcodeLabel {
                id: id.clone(),
                barcode_type: input.entity_type.clone(),
                entity_id: input.entity_id.clone(),
                barcode_format: String::from_str("qr"),
                barcode_value: payload.clone(),
                label_text: text,
                generated_at: stamp,
            },
        );
        assert(self.store.labels@.drop_last() =~= l0);
        QrOutcome { label_id: id, payload }
    }
}

} // verus!
