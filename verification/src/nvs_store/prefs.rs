//! Records kept beside the seeds: touch calibration, GUI theme, seed labels
//! and the device address book.
use vstd::prelude::*;
use vstd::slice::slice_to_vec;
use crate::bytes::{ff_vec, write_at, splice, lemma_splice_read};
use crate::limits::{MAX_DEVICE_ADDRESS_BOOK_ENTRIES, MAX_SEED_SLOTS};
use crate::types::{DeviceAddressBookEntry, SeedSlotLabel, TouchCalibration, CheetahPub};
use super::flash::rel;
use super::layout::{
    ADDRESS_BOOK_ADDR, ADDRESS_BOOK_SIZE, ADDRESS_BOOK_STORAGE_SIZE, ADDRESS_BOOK_STORAGE_END, CALIBRATION_ADDR,
    CALIBRATION_SIZE, GUI_PREFS_ADDR, GUI_PREFS_SIZE, LABELS_ADDR, LABELS_SIZE, NVS_BASE_ADDR, NVS_IMAGE_LEN,
    ADDRESS_BOOK_HEADER_SIZE, ADDRESS_BOOK_RECORD_SIZE,
};
use super::records::{
    AddressBookEncodeError, address_book_from_bytes, address_book_parse, address_book_table, address_book_storable,
    calibration_parse, device_address_book_bytes, entry_view, gui_prefs_from_bytes, gui_prefs_parse,
    gui_prefs_to_bytes, header_is_initialized, header_view_initialized, label_table, label_view, labels_from_table,
    labels_parse, labels_storable, labels_table_bytes, lemma_calibration_roundtrip, lemma_gui_prefs_roundtrip,
    spec_touch_calibration_valid, touch_calibration_bytes, touch_calibration_from_bytes, seed_label_valid,
    spec_seed_label_valid, lemma_label_table_len, label_for, last_label, labels_in_table, labels_table_readable,
    label_entry_stored, lemma_label_table_head, lemma_label_table_reads, lemma_labels_in_table_entries, stored_label,
};
use super::store::{NvsError, NvsStore, img_region, stored_header, stored_slot};

verus! {

/// The calibration stored in the image, if a valid one is.
pub open spec fn stored_calibration(img: Seq<u8>) -> Option<TouchCalibration> {
    calibration_parse(img_region(img, CALIBRATION_ADDR as int, CALIBRATION_SIZE as int))
}

/// The theme number stored in the image, if one is.
pub open spec fn stored_theme(img: Seq<u8>) -> Option<u8> {
    gui_prefs_parse(img_region(img, GUI_PREFS_ADDR as int, GUI_PREFS_SIZE as int))
}

/// The labels of the used slots, in slot order.
pub open spec fn stored_labels(img: Seq<u8>) -> Seq<(u8, Seq<u8>)> {
    match stored_header(img) {
        Some(h) => if header_view_initialized(h) {
            labels_parse(img_region(img, LABELS_ADDR as int, LABELS_SIZE as int), h.slot_count as nat)
        } else {
            Seq::empty()
        },
        None => Seq::empty(),
    }
}

/// The address book stored in the image.
pub open spec fn stored_address_book(img: Seq<u8>) -> Seq<(Seq<u8>, Seq<u8>)> {
    address_book_parse(img_region(img, ADDRESS_BOOK_ADDR as int, ADDRESS_BOOK_SIZE as int))
}

/// The root keys of the used slots that hold a record, with their slot numbers.
pub open spec fn stored_pubs(img: Seq<u8>, n: nat) -> Seq<(u8, Seq<u64>, Seq<u64>)>
    decreases n,
{
    if n == 0 {
        Seq::empty()
    } else {
        let prev = stored_pubs(img, (n - 1) as nat);
        match stored_slot(img, n - 1) {
            Some(s) => prev.push(((n - 1) as u8, s.pub_x, s.pub_y)),
            None => prev,
        }
    }
}

pub open spec fn pub_view(p: CheetahPub) -> (u8, Seq<u64>, Seq<u64>) {
    (p.slot, p.x@, p.y@)
}

impl NvsStore {
    pub fn read_touch_calibration(&self) -> (r: Result<Option<TouchCalibration>, NvsError>)
        requires
            self.wf(),
        ensures
            r == Ok::<Option<TouchCalibration>, NvsError>(stored_calibration(self@)),
    {
        let buf = self.read_bytes(CALIBRATION_ADDR, CALIBRATION_SIZE);
        Ok(touch_calibration_from_bytes(buf.as_slice()))
    }

    /// Store a calibration; a calibration with an empty raw range is refused.
    /// A stored calibration reads back unchanged.
    pub fn write_touch_calibration(&mut self, c: &TouchCalibration) -> (r: Result<(), NvsError>)
        requires
            old(self).wf(),
        ensures
            final(self).wf(),
            final(self).flash_view() == old(self).flash_view(),
            spec_touch_calibration_valid(*c) ==> r is Ok && stored_calibration(final(self)@) == Some(*c),
            !spec_touch_calibration_valid(*c) ==> r == Err::<(), NvsError>(NvsError::InvalidCalibration)
                && final(self)@ == old(self)@,
    {
        let buf = match touch_calibration_bytes(c) {
            Some(b) => b,
            None => return Err(NvsError::InvalidCalibration),
        };
        proof { self.lemma_wf(); lemma_calibration_roundtrip(*c); }
        let r = self.write_seed_core_bytes(CALIBRATION_ADDR, buf.as_slice());
        proof {
            lemma_splice_read(old(self)@, rel(CALIBRATION_ADDR as int), buf@);
            assert(img_region(self@, CALIBRATION_ADDR as int, CALIBRATION_SIZE as int) =~= buf@);
        }
        r
    }

    pub fn read_gui_theme(&self) -> (r: Result<Option<u8>, NvsError>)
        requires
            self.wf(),
        ensures
            r == Ok::<Option<u8>, NvsError>(stored_theme(self@)),
    {
        let buf = self.read_bytes(GUI_PREFS_ADDR, GUI_PREFS_SIZE);
        Ok(gui_prefs_from_bytes(buf.as_slice()))
    }

    /// Store the theme number. It reads back, except the erased value 0xFF,
    /// which reads as no theme.
    pub fn write_gui_theme(&mut self, theme_id: u8) -> (r: Result<(), NvsError>)
        requires
            old(self).wf(),
        ensures
            final(self).wf(),
            final(self).flash_view() == old(self).flash_view(),
            r is Ok,
            stored_theme(final(self)@) == if theme_id == 0xFFu8 { None } else { Some(theme_id) },
    {
        let buf = gui_prefs_to_bytes(theme_id);
        proof { self.lemma_wf(); lemma_gui_prefs_roundtrip(theme_id); }
        let r = self.write_seed_core_bytes(GUI_PREFS_ADDR, buf.as_slice());
        proof {
            lemma_splice_read(old(self)@, rel(GUI_PREFS_ADDR as int), buf@);
            assert(img_region(self@, GUI_PREFS_ADDR as int, GUI_PREFS_SIZE as int) =~= buf@);
        }
        r
    }

    /// The labels of the used slots; none for an uninitialized store.
    pub fn read_seed_labels(&self) -> (r: Result<Vec<SeedSlotLabel>, NvsError>)
        requires
            self.wf(),
        ensures
            r matches Ok(labels) && labels@.map_values(|l: SeedSlotLabel| label_view(l)) == stored_labels(self@),
    {
        let h = match self.read_header() {
            Some(h) => h,
            None => {
                let v: Vec<SeedSlotLabel> = Vec::new();
                assert(v@.map_values(|l: SeedSlotLabel| label_view(l)) =~= Seq::empty());
                return Ok(v);
            },
        };
        if !header_is_initialized(&h) {
            let v: Vec<SeedSlotLabel> = Vec::new();
            assert(v@.map_values(|l: SeedSlotLabel| label_view(l)) =~= Seq::empty());
            return Ok(v);
        }
        let buf = self.read_bytes(LABELS_ADDR, LABELS_SIZE);
        Ok(labels_from_table(buf.as_slice(), h.slot_count as usize))
    }

    /// Write the label table built from `labels`; a label that would be
    /// stored but is not printable ASCII within the length limit is refused.
    pub fn write_seed_label_records(&mut self, labels: &[SeedSlotLabel]) -> (r: Result<(), NvsError>)
        requires
            old(self).wf(),
        ensures
            final(self).wf(),
            final(self).flash_view() == old(self).flash_view(),
            labels_storable(labels@) ==> r is Ok
                && img_region(final(self)@, LABELS_ADDR as int, LABELS_SIZE as int) == label_table(labels@)
                && stored_header(final(self)@) == stored_header(old(self)@),
            !labels_storable(labels@) ==> r == Err::<(), NvsError>(NvsError::InvalidLabel) && final(self)@ == old(self)@,
    {
        let buf = match labels_table_bytes(labels) {
            Some(b) => b,
            None => return Err(NvsError::InvalidLabel),
        };
        proof { self.lemma_wf(); lemma_label_table_len(labels@); }
        let r = self.write_seed_core_bytes(LABELS_ADDR, buf.as_slice());
        proof {
            lemma_splice_read(old(self)@, rel(LABELS_ADDR as int), buf@);
            assert(img_region(self@, LABELS_ADDR as int, LABELS_SIZE as int) =~= buf@);
            crate::bytes::lemma_splice_outside(old(self)@, rel(LABELS_ADDR as int), buf@, 0, 64);
            assert(img_region(self@, NVS_BASE_ADDR as int, 64) =~= img_region(old(self)@, NVS_BASE_ADDR as int, 64));
        }
        r
    }

    /// Set or clear (with an empty label) the label of a used slot; the
    /// labels of the other used slots stay as they read before.
    pub fn write_seed_label(&mut self, slot_index: usize, label: &[u8]) -> (r: Result<(), NvsError>)
        requires
            old(self).wf(),
        ensures
            final(self).wf(),
            final(self).flash_view() == old(self).flash_view(),
            !spec_seed_label_valid(label@) ==> r == Err::<(), NvsError>(NvsError::InvalidLabel) && final(self)@ == old(self)@,
            spec_seed_label_valid(label@) ==> match stored_header(old(self)@) {
                None => r == Err::<(), NvsError>(NvsError::NotInitialized),
                Some(h) => if !header_view_initialized(h) {
                    r == Err::<(), NvsError>(NvsError::NotInitialized)
                } else if slot_index >= h.slot_count {
                    r == Err::<(), NvsError>(NvsError::InvalidSlot)
                } else {
                    &&& r is Ok
                    &&& stored_header(final(self)@) == Some(h)
                    &&& label_for(stored_labels(final(self)@), slot_index as int)
                        == (if label@.len() > 0 { Some(label@) } else { None::<Seq<u8>> })
                    &&& forall|s: int| 0 <= s < h.slot_count && s != slot_index
                        ==> #[trigger] label_for(stored_labels(final(self)@), s) == label_for(stored_labels(old(self)@), s)
                },
            },
            r is Err ==> final(self)@ == old(self)@,
    {
        if !seed_label_valid(label) {
            return Err(NvsError::InvalidLabel);
        }
        let h = match self.read_header() {
            Some(h) => h,
            None => return Err(NvsError::NotInitialized),
        };
        if !header_is_initialized(&h) {
            return Err(NvsError::NotInitialized);
        }
        if slot_index >= h.slot_count as usize {
            return Err(NvsError::InvalidSlot);
        }
        let current = match self.read_seed_labels() {
            Ok(l) => l,
            Err(_) => Vec::new(),
        };
        let ghost count = h.slot_count as nat;
        let ghost old_table = img_region(self@, LABELS_ADDR as int, LABELS_SIZE as int);
        let ghost read = stored_labels(self@);
        proof {
            lemma_labels_in_table_entries(old_table, count);
            assert(current@.map_values(|l: SeedSlotLabel| label_view(l)) == read);
        }
        let mut labels: Vec<SeedSlotLabel> = Vec::new();
        let mut i: usize = 0;
        while i < current.len()
            invariant
                i <= current@.len(),
                current@.map_values(|l: SeedSlotLabel| label_view(l)) == read,
                count <= MAX_SEED_SLOTS,
                slot_index < count,
                forall|k: int| 0 <= k < read.len() ==> {
                    let e = #[trigger] read[k];
                    &&& (e.0 as int) < count
                    &&& e.1.len() > 0
                    &&& spec_seed_label_valid(e.1)
                },
                labels_storable(labels@),
                last_label(labels@, slot_index as int) is None,
                forall|s: int| 0 <= s < MAX_SEED_SLOTS && s != slot_index
                    ==> #[trigger] last_label(labels@, s) == label_for(read.subrange(0, i as int), s),
            decreases current@.len() - i,
        {
            let ghost prev = labels@;
            proof {
                assert(read[i as int] == label_view(current@[i as int]));
                assert(read.subrange(0, i + 1).drop_last() =~= read.subrange(0, i as int));
            }
            if current[i].slot as usize != slot_index {
                let entry = SeedSlotLabel { slot: current[i].slot, label: slice_to_vec(current[i].label.as_slice()) };
                labels.push(entry);
                proof {
                    assert(labels@.last() == entry);
                    assert(label_view(entry) == label_view(current@[i as int]));
                    assert(labels@.drop_last() =~= prev);
                    assert forall|k: int| 0 <= k < labels@.len() && label_entry_stored(#[trigger] labels@[k])
                        implies spec_seed_label_valid(labels@[k].label@) by {
                        if k < prev.len() {
                            assert(labels@[k] == prev[k]);
                        }
                    }
                }
            }
            proof {
                let ii = i as int;
                let e = read[ii];
                assert(read.subrange(0, ii + 1).last() == e);
                assert((e.0 as int) < count && e.1.len() > 0);
                assert forall|t: int| 0 <= t < MAX_SEED_SLOTS && t != slot_index
                    implies #[trigger] last_label(labels@, t) == label_for(read.subrange(0, ii + 1), t) by {
                    assert(label_for(read.subrange(0, ii + 1), t)
                        == if e.0 as int == t { Some(e.1) } else { label_for(read.subrange(0, ii), t) });
                    assert(last_label(prev, t) == label_for(read.subrange(0, ii), t));
                    if labels@.len() > prev.len() {
                        assert(labels@.drop_last() =~= prev);
                        assert(label_view(labels@.last()) == e);
                    }
                }
            }
            i += 1;
        }
        proof {
            assert(read.subrange(0, read.len() as int) =~= read);
        }
        let ghost kept = labels@;
        if label.len() > 0 {
            labels.push(SeedSlotLabel { slot: slot_index as u8, label: slice_to_vec(label) });
            proof {
                assert(labels@.drop_last() =~= kept);
                assert forall|k: int| 0 <= k < labels@.len() && label_entry_stored(#[trigger] labels@[k])
                    implies spec_seed_label_valid(labels@[k].label@) by {
                    if k < kept.len() {
                        assert(labels@[k] == kept[k]);
                    }
                }
            }
        }
        let r = self.write_seed_label_records(labels.as_slice());
        proof {
            let new_table = img_region(self@, LABELS_ADDR as int, LABELS_SIZE as int);
            lemma_label_table_head(labels@);
            lemma_labels_in_table_entries(new_table, count);
            assert(stored_labels(self@) == labels_in_table(new_table, count));
            lemma_label_table_reads(labels@, slot_index as int);
            assert forall|s: int| 0 <= s < h.slot_count && s != slot_index
                implies #[trigger] label_for(stored_labels(self@), s) == label_for(read, s) by {
                lemma_label_table_reads(labels@, s);
                assert(label_for(labels_in_table(new_table, count), s) == stored_label(new_table, s));
                if label@.len() > 0 {
                    assert(labels@.drop_last() =~= kept);
                    assert(last_label(labels@, s) == last_label(kept, s));
                }
                assert(last_label(kept, s) == label_for(read, s));
                if labels_table_readable(old_table) {
                    assert(read == labels_in_table(old_table, count));
                } else {
                    assert(read.len() == 0);
                }
            }
        }
        r
    }

    pub fn read_device_address_book(&self) -> (r: Result<Vec<DeviceAddressBookEntry>, NvsError>)
        requires
            self.wf(),
        ensures
            r matches Ok(entries) && entries@.map_values(|e: DeviceAddressBookEntry| entry_view(e)) == stored_address_book(self@),
    {
        let buf = self.read_bytes(ADDRESS_BOOK_ADDR, ADDRESS_BOOK_SIZE);
        Ok(address_book_from_bytes(buf.as_slice()))
    }

    /// Store the address book: more entries than fit is `Full`, an invalid
    /// entry `InvalidLabel`; otherwise its sector holds the encoded book.
    pub fn write_device_address_book(&mut self, entries: &[DeviceAddressBookEntry]) -> (r: Result<(), NvsError>)
        requires
            old(self).wf(),
        ensures
            final(self).wf(),
            final(self).flash_view() == old(self).flash_view(),
            entries@.len() > MAX_DEVICE_ADDRESS_BOOK_ENTRIES ==> r == Err::<(), NvsError>(NvsError::Full),
            entries@.len() <= MAX_DEVICE_ADDRESS_BOOK_ENTRIES && !address_book_storable(entries@)
                ==> r == Err::<(), NvsError>(NvsError::InvalidLabel),
            r is Err ==> final(self)@ == old(self)@,
            address_book_storable(entries@) ==> r is Ok
                && img_region(final(self)@, ADDRESS_BOOK_ADDR as int, ADDRESS_BOOK_SIZE as int)
                    == address_book_written(address_book_table(entries@)),
            address_book_storable(entries@) ==> stored_address_book(final(self)@)
                == entries@.map_values(|e: DeviceAddressBookEntry| entry_view(e)),
    {
        let buf = match device_address_book_bytes(entries) {
            Ok(b) => b,
            Err(AddressBookEncodeError::Full) => return Err(NvsError::Full),
            Err(AddressBookEncodeError::InvalidEntry) => return Err(NvsError::InvalidLabel),
        };
        let r = self.write_address_book_region(buf.as_slice());
        proof {
            lemma_address_book_roundtrip(entries@);
        }
        r
    }

    /// Write the used part of an encoded address book over its erased sector.
    pub fn write_address_book_region(&mut self, book: &[u8]) -> (r: Result<(), NvsError>)
        requires
            old(self).wf(),
            book@.len() == ADDRESS_BOOK_SIZE,
        ensures
            final(self).wf(),
            final(self).flash_view() == old(self).flash_view(),
            r is Ok,
            img_region(final(self)@, ADDRESS_BOOK_ADDR as int, ADDRESS_BOOK_SIZE as int)
                == address_book_written(book@),
    {
        let count: usize = if (book[5] as usize) < MAX_DEVICE_ADDRESS_BOOK_ENTRIES { book[5] as usize } else { MAX_DEVICE_ADDRESS_BOOK_ENTRIES };
        assert(count * ADDRESS_BOOK_RECORD_SIZE <= 32 * 96) by (nonlinear_arith)
            requires count <= 32, ADDRESS_BOOK_RECORD_SIZE == 96;
        let used_len = ADDRESS_BOOK_HEADER_SIZE + count * ADDRESS_BOOK_RECORD_SIZE;
        let mut region = ff_vec(ADDRESS_BOOK_STORAGE_SIZE);
        let used = vstd::slice::slice_subrange(book, 0, used_len);
        write_at(&mut region, 0, used);
        proof { self.lemma_wf(); }
        let r = self.write_flash_region(ADDRESS_BOOK_ADDR, ADDRESS_BOOK_STORAGE_END, region.as_slice());
        proof {
            lemma_splice_read(old(self)@, rel(ADDRESS_BOOK_ADDR as int), region@);
            assert(img_region(self@, ADDRESS_BOOK_ADDR as int, ADDRESS_BOOK_SIZE as int)
                =~= region@.subrange(0, ADDRESS_BOOK_SIZE as int));
            assert(region@.subrange(0, ADDRESS_BOOK_SIZE as int) =~= address_book_written(book@));
        }
        r
    }

    /// The root keys of the used slots; none for an uninitialized store.
    pub fn list_seed_pubs(&self) -> (r: Result<Vec<CheetahPub>, NvsError>)
        requires
            self.wf(),
        ensures
            r matches Ok(pubs) && pubs@.map_values(|p: CheetahPub| pub_view(p)) == match stored_header(self@) {
                Some(h) => if header_view_initialized(h) { stored_pubs(self@, h.slot_count as nat) } else { Seq::empty() },
                None => Seq::empty(),
            },
    {
        let mut pubs: Vec<CheetahPub> = Vec::new();
        let h = match self.read_header() {
            Some(h) => h,
            None => {
                assert(pubs@.map_values(|p: CheetahPub| pub_view(p)) =~= Seq::empty());
                return Ok(pubs);
            },
        };
        if !header_is_initialized(&h) {
            assert(pubs@.map_values(|p: CheetahPub| pub_view(p)) =~= Seq::empty());
            return Ok(pubs);
        }
        let mut i: usize = 0;
        while i < h.slot_count as usize
            invariant
                self.wf(),
                i <= h.slot_count,
                h.slot_count <= MAX_SEED_SLOTS,
                pubs@.map_values(|p: CheetahPub| pub_view(p)) == stored_pubs(self@, i as nat),
            decreases h.slot_count - i,
        {
            if let Some(rec) = self.read_slot(i) {
                pubs.push(CheetahPub { slot: i as u8, x: rec.pub_x, y: rec.pub_y });
            }
            proof {
                assert(pubs@.map_values(|p: CheetahPub| pub_view(p)) =~= stored_pubs(self@, (i + 1) as nat));
            }
            i += 1;
        }
        Ok(pubs)
    }
}

/// The address-book sector after writing `book`: its used part, then erased bytes.
pub open spec fn address_book_written(book: Seq<u8>) -> Seq<u8> {
    let count = if (book[5] as int) < MAX_DEVICE_ADDRESS_BOOK_ENTRIES { book[5] as int } else { MAX_DEVICE_ADDRESS_BOOK_ENTRIES as int };
    let used = ADDRESS_BOOK_HEADER_SIZE + count * ADDRESS_BOOK_RECORD_SIZE;
    book.subrange(0, used) + crate::bytes::ff_seq((ADDRESS_BOOK_SIZE - used) as nat)
}

/// Record `j` of `t` begins with the entry's label and key hash fields.
pub open spec fn record_written(t: Seq<u8>, j: int, e: DeviceAddressBookEntry) -> bool {
    let off = super::records::address_book_record_offset(j);
    let fl = super::records::field_bytes(e.label@, crate::limits::MAX_ADDRESS_BOOK_LABEL_LEN as nat);
    let fp = super::records::field_bytes(e.pkh@, crate::limits::MAX_ADDRESS_BOOK_PKH_LEN as nat);
    &&& t.subrange(off, off + fl.len()) == fl
    &&& t.subrange(off + crate::limits::MAX_ADDRESS_BOOK_LABEL_LEN, off + crate::limits::MAX_ADDRESS_BOOK_LABEL_LEN + fp.len()) == fp
}

proof fn lemma_field_bytes_len(text: Seq<u8>, width: nat)
    requires
        text.len() <= width,
    ensures
        super::records::field_bytes(text, width).len() <= width,
        super::records::field_bytes(text, width).len() >= text.len(),
{
}

/// The first `k` entries of a storable book are in place in the table
/// being built, after an unchanged header.
proof fn lemma_address_book_prefix(entries: Seq<DeviceAddressBookEntry>, k: nat)
    requires
        address_book_storable(entries),
        k <= entries.len(),
    ensures
        super::records::address_book_prefix(entries, k).len() == ADDRESS_BOOK_SIZE,
        super::records::address_book_prefix(entries, k).subrange(0, ADDRESS_BOOK_HEADER_SIZE as int)
            == super::records::address_book_base(entries.len() as u8).subrange(0, ADDRESS_BOOK_HEADER_SIZE as int),
        forall|j: int| 0 <= j < k ==> #[trigger] record_written(super::records::address_book_prefix(entries, k), j, entries[j]),
    decreases k,
{
    let base = super::records::address_book_base(entries.len() as u8);
    if k == 0 {
        assert(base.len() == ADDRESS_BOOK_SIZE);
    } else {
        lemma_address_book_prefix(entries, (k - 1) as nat);
        let prev = super::records::address_book_prefix(entries, (k - 1) as nat);
        let e = entries[k - 1];
        assert(super::records::spec_address_book_entry_valid(e));
        let start = super::records::address_book_record_offset(k - 1);
        let fl = super::records::field_bytes(e.label@, crate::limits::MAX_ADDRESS_BOOK_LABEL_LEN as nat);
        let fp = super::records::field_bytes(e.pkh@, crate::limits::MAX_ADDRESS_BOOK_PKH_LEN as nat);
        lemma_field_bytes_len(e.label@, crate::limits::MAX_ADDRESS_BOOK_LABEL_LEN as nat);
        lemma_field_bytes_len(e.pkh@, crate::limits::MAX_ADDRESS_BOOK_PKH_LEN as nat);
        assert(8 <= start && start + 96 <= ADDRESS_BOOK_SIZE) by (nonlinear_arith)
            requires
                start == 8 + (k - 1) * 96,
                1 <= k <= 32;
        let w1 = splice(prev, start, fl);
        let w2 = splice(w1, start + 32, fp);
        lemma_splice_read(prev, start, fl);
        lemma_splice_read(w1, start + 32, fp);
        assert(w2 == super::records::address_book_prefix(entries, k));
        crate::bytes::lemma_splice_outside(prev, start, fl, 0, 8);
        crate::bytes::lemma_splice_outside(w1, start + 32, fp, 0, 8);
        crate::bytes::lemma_splice_outside(w1, start + 32, fp, start, start + fl.len());
        assert forall|j: int| 0 <= j < k implies #[trigger] record_written(w2, j, entries[j]) by {
            if j < k - 1 {
                let off = super::records::address_book_record_offset(j);
                assert(off + 96 <= start) by (nonlinear_arith)
                    requires
                        off == 8 + j * 96,
                        start == 8 + (k - 1) * 96,
                        0 <= j < k - 1;
                assert(0 <= off) by (nonlinear_arith)
                    requires off == 8 + j * 96, 0 <= j;
                assert(record_written(prev, j, entries[j]));
                let a = super::records::field_bytes(entries[j].label@, 32);
                let b = super::records::field_bytes(entries[j].pkh@, 64);
                assert(super::records::spec_address_book_entry_valid(entries[j]));
                lemma_field_bytes_len(entries[j].label@, 32);
                lemma_field_bytes_len(entries[j].pkh@, 64);
                crate::bytes::lemma_splice_outside(prev, start, fl, off, off + a.len());
                crate::bytes::lemma_splice_outside(w1, start + 32, fp, off, off + a.len());
                crate::bytes::lemma_splice_outside(prev, start, fl, off + 32, off + 32 + b.len());
                crate::bytes::lemma_splice_outside(w1, start + 32, fp, off + 32, off + 32 + b.len());
            }
        }
    }
}

/// The address book reads back as written: storing a storable book and
/// reading it again gives its entries, in order.
pub proof fn lemma_address_book_roundtrip(entries: Seq<DeviceAddressBookEntry>)
    requires
        address_book_storable(entries),
    ensures
        address_book_parse(address_book_written(address_book_table(entries)))
            == entries.map_values(|e: DeviceAddressBookEntry| entry_view(e)),
{
    let n = entries.len();
    let t = address_book_table(entries);
    lemma_address_book_prefix(entries, n);
    let base = super::records::address_book_base(n as u8);
    assert(t.subrange(0, 8) == base.subrange(0, 8));
    assert(t[0] == base[0] && t[4] == base[4] && t[5] == base[5]) by {
        assert(t[0] == t.subrange(0, 8)[0]);
        assert(t[4] == t.subrange(0, 8)[4]);
        assert(t[5] == t.subrange(0, 8)[5]);
    }
    assert(base[5] == n as u8);
    let w = address_book_written(t);
    let used: int = (8 + n * 96) as int;
    assert(used <= ADDRESS_BOOK_SIZE) by (nonlinear_arith)
        requires used == 8 + n * 96, n <= 32;
    assert(w.subrange(0, used) =~= t.subrange(0, used));
    assert(w.len() == ADDRESS_BOOK_SIZE);
    assert(w[0] == t[0]);
    assert(!crate::bytes::all_ff(w));
    assert(w.subrange(0, 4) =~= super::records::spec_address_book_magic()) by {
        assert forall|i: int| 0 <= i < 4 implies w.subrange(0, 4)[i] == super::records::spec_address_book_magic()[i] by {
            assert(w[i] == t[i]);
            assert(t[i] == t.subrange(0, 8)[i]);
        }
    }
    assert(w[4] == t[4] && w[5] == t[5]);
    assert(super::records::address_book_count(w) == n);
    let ev = entries.map_values(|e: DeviceAddressBookEntry| entry_view(e));
    assert forall|k: nat| k <= n implies #[trigger] super::records::address_book_records(w, k) == ev.take(k as int) by {
        lemma_address_book_records_prefix(entries, w, t, k);
    }
    assert(super::records::address_book_records(w, n) == ev.take(n as int));
    assert(ev.take(n as int) =~= ev);
}

proof fn lemma_address_book_records_prefix(
    entries: Seq<DeviceAddressBookEntry>,
    w: Seq<u8>,
    t: Seq<u8>,
    k: nat,
)
    requires
        address_book_storable(entries),
        t == address_book_table(entries),
        w == address_book_written(t),
        t.len() == ADDRESS_BOOK_SIZE,
        t[5] == entries.len() as u8,
        w.subrange(0, (8 + entries.len() * 96) as int) == t.subrange(0, (8 + entries.len() * 96) as int),
        forall|j: int| 0 <= j < entries.len() ==> #[trigger] record_written(t, j, entries[j]),
        k <= entries.len(),
    ensures
        super::records::address_book_records(w, k) == entries.map_values(|e: DeviceAddressBookEntry| entry_view(e)).take(k as int),
    decreases k,
{
    let ev = entries.map_values(|e: DeviceAddressBookEntry| entry_view(e));
    if k == 0 {
        assert(ev.take(0) =~= Seq::<(Seq<u8>, Seq<u8>)>::empty());
    } else {
        lemma_address_book_records_prefix(entries, w, t, (k - 1) as nat);
        let j = k - 1;
        let e = entries[j];
        let n = entries.len();
        assert(super::records::spec_address_book_entry_valid(e));
        let off = super::records::address_book_record_offset(j);
        assert(8 <= off && off + 96 <= 8 + n * 96) by (nonlinear_arith)
            requires off == 8 + j * 96, 0 <= j < n;
        assert(record_written(t, j, e));
        let label_raw = w.subrange(off, off + 32);
        let pkh_raw = w.subrange(off + 32, off + 96);
        assert(label_raw =~= t.subrange(off, off + 32)) by {
            assert forall|i: int| 0 <= i < 32 implies label_raw[i] == t.subrange(off, off + 32)[i] by {
                assert(w[off + i] == w.subrange(0, (8 + n * 96) as int)[off + i]);
                assert(t[off + i] == t.subrange(0, (8 + n * 96) as int)[off + i]);
            }
        }
        assert(pkh_raw =~= t.subrange(off + 32, off + 96)) by {
            assert forall|i: int| 0 <= i < 64 implies pkh_raw[i] == t.subrange(off + 32, off + 96)[i] by {
                assert(w[off + 32 + i] == w.subrange(0, (8 + n * 96) as int)[off + 32 + i]);
                assert(t[off + 32 + i] == t.subrange(0, (8 + n * 96) as int)[off + 32 + i]);
            }
        }
        let fl = super::records::field_bytes(e.label@, 32);
        let fp = super::records::field_bytes(e.pkh@, 64);
        lemma_field_bytes_len(e.label@, 32);
        lemma_field_bytes_len(e.pkh@, 64);
        assert(label_raw.subrange(0, fl.len() as int) =~= t.subrange(off, off + fl.len()));
        assert(pkh_raw.subrange(0, fp.len() as int) =~= t.subrange(off + 32, off + 32 + fp.len()));
        assert(super::records::all_printable(e.pkh@)) by {
            assert forall|i: int| 0 <= i < e.pkh@.len() implies super::records::printable_ascii(#[trigger] e.pkh@[i]) by {
                assert(super::records::base58_byte(e.pkh@[i]));
            }
        }
        super::records::lemma_field_read_back(label_raw, e.label@, 32);
        super::records::lemma_field_read_back(pkh_raw, e.pkh@, 64);
        assert(super::records::stored_address_book_entry(w, j) == Some(entry_view(e)));
        assert(ev.take(k as int) =~= ev.take(j).push(entry_view(e)));
    }
}

} // verus!
