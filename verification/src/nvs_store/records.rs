//! Byte formats of the records kept in the NVS partition.
use vstd::prelude::*;
use vstd::bytes::{
    spec_u64_from_le_bytes, spec_u64_to_le_bytes, u64_from_le_bytes, u64_to_le_bytes,
    lemma_auto_spec_u64_to_from_le_bytes,
};
use vstd::slice::slice_subrange;
use crate::bytes::{all_ff, all_zero, ff_seq, ff_vec, is_all_ff, is_all_zero, seq_eq, write_at, copy_range, splice, lemma_splice_read, lemma_splice_outside};
use crate::limits::{
    MAX_ADDRESS_BOOK_LABEL_LEN, MAX_ADDRESS_BOOK_PKH_LEN, MAX_DEVICE_ADDRESS_BOOK_ENTRIES,
    MAX_SEED_LABEL_LEN, MAX_SEED_SLOTS,
};
use crate::types::{DeviceAddressBookEntry, SeedSlotLabel, TouchCalibration};
use vstd::bytes::{spec_u16_from_le_bytes, spec_u16_to_le_bytes, u16_from_le_bytes, u16_to_le_bytes, lemma_auto_spec_u16_to_from_le_bytes};
use super::layout::{
    ADDRESS_BOOK_HEADER_SIZE, ADDRESS_BOOK_RECORD_SIZE, ADDRESS_BOOK_SIZE, ADDRESS_BOOK_VERSION,
    CALIBRATION_MIRROR_X, CALIBRATION_MIRROR_Y, CALIBRATION_SIZE, CALIBRATION_VERSION,
    FLAG_INITIALIZED, GUI_PREFS_SIZE, GUI_PREFS_VERSION, HEADER_SIZE, LABELS_HEADER_SIZE,
    LABELS_SIZE, LABELS_VERSION, MAX_PIN_ATTEMPTS, SLOT_SIZE, SLOT_USED, VERSION_V1, VERSION_V2,
};

verus! {

// ---------------------------------------------------------------------------
// Magic numbers
// ---------------------------------------------------------------------------

/// "NCK1": current header magic.
pub open spec fn spec_magic() -> Seq<u8> { seq![0x4Eu8, 0x43u8, 0x4Bu8, 0x31u8] }
/// "SGR1": header magic of the first firmware generation.
pub open spec fn spec_legacy_magic() -> Seq<u8> { seq![0x53u8, 0x47u8, 0x52u8, 0x31u8] }
/// "NCTC": touch calibration magic.
pub open spec fn spec_calibration_magic() -> Seq<u8> { seq![0x4Eu8, 0x43u8, 0x54u8, 0x43u8] }
/// "SGTC": legacy touch calibration magic.
pub open spec fn spec_legacy_calibration_magic() -> Seq<u8> { seq![0x53u8, 0x47u8, 0x54u8, 0x43u8] }
/// "NCLB": seed label table magic.
pub open spec fn spec_labels_magic() -> Seq<u8> { seq![0x4Eu8, 0x43u8, 0x4Cu8, 0x42u8] }
/// "SGLB": legacy seed label table magic.
pub open spec fn spec_legacy_labels_magic() -> Seq<u8> { seq![0x53u8, 0x47u8, 0x4Cu8, 0x42u8] }
/// "NCUI": GUI preferences magic.
pub open spec fn spec_gui_prefs_magic() -> Seq<u8> { seq![0x4Eu8, 0x43u8, 0x55u8, 0x49u8] }
/// "NCAB": address book magic.
pub open spec fn spec_address_book_magic() -> Seq<u8> { seq![0x4Eu8, 0x43u8, 0x41u8, 0x42u8] }

/// Magic identifiers of the records.
#[derive(Clone, Copy, PartialEq, Eq, Structural)]
pub enum Magic {
    Header,
    LegacyHeader,
    Calibration,
    LegacyCalibration,
    Labels,
    LegacyLabels,
    GuiPrefs,
    AddressBook,
}

pub open spec fn magic_seq(m: Magic) -> Seq<u8> {
    match m {
        Magic::Header => spec_magic(),
        Magic::LegacyHeader => spec_legacy_magic(),
        Magic::Calibration => spec_calibration_magic(),
        Magic::LegacyCalibration => spec_legacy_calibration_magic(),
        Magic::Labels => spec_labels_magic(),
        Magic::LegacyLabels => spec_legacy_labels_magic(),
        Magic::GuiPrefs => spec_gui_prefs_magic(),
        Magic::AddressBook => spec_address_book_magic(),
    }
}

pub fn magic_bytes(m: Magic) -> (r: Vec<u8>)
    ensures
        r@ == magic_seq(m),
{
    let r = match m {
        Magic::Header => vec![0x4Eu8, 0x43, 0x4B, 0x31],
        Magic::LegacyHeader => vec![0x53u8, 0x47, 0x52, 0x31],
        Magic::Calibration => vec![0x4Eu8, 0x43, 0x54, 0x43],
        Magic::LegacyCalibration => vec![0x53u8, 0x47, 0x54, 0x43],
        Magic::Labels => vec![0x4Eu8, 0x43, 0x4C, 0x42],
        Magic::LegacyLabels => vec![0x53u8, 0x47, 0x4C, 0x42],
        Magic::GuiPrefs => vec![0x4Eu8, 0x43, 0x55, 0x49],
        Magic::AddressBook => vec![0x4Eu8, 0x43, 0x41, 0x42],
    };
    assert(r@ =~= magic_seq(m));
    r
}

/// The first four bytes of `buf` are `magic`.
pub open spec fn has_magic(buf: Seq<u8>, m: Magic) -> bool {
    buf.len() >= 4 && buf.subrange(0, 4) == magic_seq(m)
}

pub fn starts_with_magic(buf: &[u8], m: Magic) -> (r: bool)
    requires
        buf@.len() >= 4,
    ensures
        r == has_magic(buf@, m),
{
    let expected = magic_bytes(m);
    let stored = slice_subrange(buf, 0, 4);
    seq_eq(stored, expected.as_slice())
}

/// `buf` starts with the current or the legacy magic.
pub fn matches_magic(buf: &[u8], current: Magic, legacy: Magic) -> (r: bool)
    requires
        buf@.len() >= 4,
    ensures
        r == (has_magic(buf@, current) || has_magic(buf@, legacy)),
{
    starts_with_magic(buf, current) || starts_with_magic(buf, legacy)
}

// ---------------------------------------------------------------------------
// Store header
// ---------------------------------------------------------------------------

/// The store header: schema version, flags, persisted failed-attempt count,
/// number of used seed slots and the KDF salt.
#[derive(Clone, Copy)]
pub struct Header {
    pub version: u8,
    pub flags: u8,
    pub attempts: u8,
    pub slot_count: u8,
    pub salt: [u8; 32],
}

pub open spec fn header_initialized(h: Header) -> bool {
    h.flags & FLAG_INITIALIZED != 0
}

/// The field checks that reject obviously corrupt headers.
pub open spec fn header_fields_ok(version: u8, flags: u8, attempts: u8, slot_count: u8, salt: Seq<u8>) -> bool {
    &&& version == VERSION_V1 || version == VERSION_V2
    &&& flags & !FLAG_INITIALIZED == 0
    &&& attempts <= MAX_PIN_ATTEMPTS
    &&& slot_count <= MAX_SEED_SLOTS
    &&& flags & FLAG_INITIALIZED != 0 ==> slot_count != 0 && !all_ff(salt)
}

/// A header that `header_from_bytes` accepts after `header_to_bytes`.
pub open spec fn header_valid(h: Header) -> bool {
    header_fields_ok(h.version, h.flags, h.attempts, h.slot_count, h.salt@)
}

/// Serialized header: magic, the four fields, the salt, erased padding.
pub open spec fn header_bytes(h: Header) -> Seq<u8> {
    header_view_bytes(h@)
}

/// `buf` is a header that the firmware accepts.
pub open spec fn header_bytes_valid(buf: Seq<u8>) -> bool {
    &&& buf.len() == HEADER_SIZE
    &&& has_magic(buf, Magic::Header) || (has_magic(buf, Magic::LegacyHeader) && buf[4] == VERSION_V1)
    &&& header_fields_ok(buf[4], buf[5], buf[6], buf[7], buf.subrange(8, 40))
}

/// Plain-value form of a header.
pub struct HeaderView {
    pub version: u8,
    pub flags: u8,
    pub attempts: u8,
    pub slot_count: u8,
    pub salt: Seq<u8>,
}

impl View for Header {
    type V = HeaderView;

    open spec fn view(&self) -> HeaderView {
        HeaderView {
            version: self.version,
            flags: self.flags,
            attempts: self.attempts,
            slot_count: self.slot_count,
            salt: self.salt@,
        }
    }
}

pub open spec fn header_view_initialized(h: HeaderView) -> bool {
    h.flags & FLAG_INITIALIZED != 0
}

/// The header fields stored in `buf`.
pub open spec fn header_view_of(buf: Seq<u8>) -> HeaderView {
    HeaderView { version: buf[4], flags: buf[5], attempts: buf[6], slot_count: buf[7], salt: buf.subrange(8, 40) }
}

/// `h` holds the fields stored in `buf`.
pub open spec fn header_fields_of(buf: Seq<u8>, h: Header) -> bool {
    h@ == header_view_of(buf)
}

/// Serialized form of a header view.
pub open spec fn header_view_bytes(h: HeaderView) -> Seq<u8> {
    spec_magic() + seq![h.version, h.flags, h.attempts, h.slot_count] + h.salt + ff_seq(24)
}

pub fn header_new_uninitialized(version: u8) -> (h: Header)
    ensures
        h.version == version,
        h.flags == 0,
        h.attempts == 0,
        h.slot_count == 0,
        h.salt@ == Seq::new(32, |i: int| 0u8),
{
    let h = Header { version, flags: 0, attempts: 0, slot_count: 0, salt: [0u8; 32] };
    assert(h.salt@ =~= Seq::new(32, |i: int| 0u8));
    h
}

pub fn header_is_initialized(h: &Header) -> (r: bool)
    ensures
        r == header_initialized(*h),
{
    h.flags & FLAG_INITIALIZED != 0
}

pub fn header_set_initialized(h: &mut Header)
    ensures
        *final(h) == (Header { flags: old(h).flags | FLAG_INITIALIZED, ..*old(h) }),
        header_initialized(*final(h)),
{
    let f = h.flags;
    h.flags = f | FLAG_INITIALIZED;
    assert((f | 1u8) & 1u8 != 0) by (bit_vector);
}

pub fn header_to_bytes(h: &Header) -> (r: Vec<u8>)
    ensures
        r@ == header_bytes(*h),
        r@.len() == HEADER_SIZE,
{
    let mut out = ff_vec(HEADER_SIZE);
    let magic = magic_bytes(Magic::Header);
    write_at(&mut out, 0, magic.as_slice());
    out[4] = h.version;
    out[5] = h.flags;
    out[6] = h.attempts;
    out[7] = h.slot_count;
    write_at(&mut out, 8, h.salt.as_slice());
    assert(out@ =~= header_bytes(*h));
    out
}

pub fn header_from_bytes(buf: &[u8]) -> (r: Option<Header>)
    requires
        buf@.len() == HEADER_SIZE,
    ensures
        match r {
            Some(h) => header_bytes_valid(buf@) && header_fields_of(buf@, h),
            None => !header_bytes_valid(buf@),
        },
{
    if !matches_magic(buf, Magic::Header, Magic::LegacyHeader) {
        return None;
    }
    let version = buf[4];
    if version != VERSION_V1 && version != VERSION_V2 {
        return None;
    }
    let is_legacy_magic = starts_with_magic(buf, Magic::LegacyHeader);
    if is_legacy_magic && version != VERSION_V1 {
        proof {
            assert(spec_magic() != spec_legacy_magic()) by {
                assert(spec_magic()[0] != spec_legacy_magic()[0]);
            }
        }
        return None;
    }
    let mut salt = [0u8; 32];
    let mut i: usize = 0;
    while i < 32
        invariant
            buf@.len() == HEADER_SIZE,
            i <= 32,
            forall|j: int| 0 <= j < i ==> salt@[j] == buf@[8 + j],
        decreases 32 - i,
    {
        salt[i] = buf[8 + i];
        i += 1;
    }
    assert(salt@ =~= buf@.subrange(8, 40));
    let header = Header { version, flags: buf[5], attempts: buf[6], slot_count: buf[7], salt };
    if header.flags & !FLAG_INITIALIZED != 0 {
        return None;
    }
    if header.attempts > MAX_PIN_ATTEMPTS {
        return None;
    }
    if header.slot_count as usize > MAX_SEED_SLOTS {
        return None;
    }
    if header_is_initialized(&header) {
        if header.slot_count == 0 {
            return None;
        }
        if is_all_ff(header.salt.as_slice()) {
            return None;
        }
    }
    Some(header)
}

/// A valid header survives a write and a read: decoding the encoded header
/// yields the same header.
pub proof fn lemma_header_roundtrip(h: Header)
    requires
        header_valid(h),
    ensures
        header_bytes_valid(header_bytes(h)),
        header_fields_of(header_bytes(h), h),
{
    let b = header_bytes(h);
    assert(b.subrange(0, 4) =~= spec_magic());
    assert(b.subrange(8, 40) =~= h.salt@);
}

// ---------------------------------------------------------------------------
// Little-endian u64 arrays
// ---------------------------------------------------------------------------

/// Little-endian encoding of a sequence of u64 words.
pub open spec fn u64s_le(s: Seq<u64>) -> Seq<u8>
    decreases s.len(),
{
    if s.len() == 0 {
        Seq::empty()
    } else {
        u64s_le(s.drop_last()) + spec_u64_to_le_bytes(s.last())
    }
}

/// The `n` little-endian words stored in `b`.
pub open spec fn u64s_from_le(b: Seq<u8>, n: nat) -> Seq<u64> {
    Seq::new(n, |k: int| spec_u64_from_le_bytes(b.subrange(8 * k, 8 * k + 8)))
}

/// Each word takes eight bytes.
pub proof fn lemma_u64s_le_len(s: Seq<u64>)
    ensures
        u64s_le(s).len() == 8 * s.len(),
    decreases s.len(),
{
    lemma_auto_spec_u64_to_from_le_bytes();
    if s.len() > 0 {
        lemma_u64s_le_len(s.drop_last());
    }
}

/// Word `k` of the encoding is the encoding of word `k`.
pub proof fn lemma_u64s_le_word(s: Seq<u64>, k: int)
    requires
        0 <= k < s.len(),
    ensures
        u64s_le(s).subrange(8 * k, 8 * k + 8) == spec_u64_to_le_bytes(s[k]),
    decreases s.len(),
{
    lemma_auto_spec_u64_to_from_le_bytes();
    lemma_u64s_le_len(s.drop_last());
    if k == s.len() - 1 {
        assert(u64s_le(s).subrange(8 * k, 8 * k + 8) =~= spec_u64_to_le_bytes(s[k]));
    } else {
        lemma_u64s_le_word(s.drop_last(), k);
        assert(u64s_le(s).subrange(8 * k, 8 * k + 8) =~= u64s_le(s.drop_last()).subrange(8 * k, 8 * k + 8));
    }
}

/// Decoding an encoded word sequence gives it back.
pub proof fn lemma_u64s_roundtrip(s: Seq<u64>)
    ensures
        u64s_from_le(u64s_le(s), s.len()) == s,
{
    lemma_auto_spec_u64_to_from_le_bytes();
    assert forall|k: int| 0 <= k < s.len() implies u64s_from_le(u64s_le(s), s.len())[k] == s[k] by {
        lemma_u64s_le_word(s, k);
    }
    assert(u64s_from_le(u64s_le(s), s.len()) =~= s);
}

pub fn write_u64_array(dst: &mut Vec<u8>, off: usize, values: &[u64; 6])
    requires
        off + 48 <= old(dst)@.len(),
    ensures
        final(dst)@ == splice(old(dst)@, off as int, u64s_le(values@)),
        final(dst)@.len() == old(dst)@.len(),
{
    let ghost start = dst@;
    let n = dst.len();
    let mut i: usize = 0;
    while i < 6
        invariant
            i <= 6,
            n == start.len(),
            off + 48 <= start.len(),
            dst@.len() == start.len(),
            dst@ == splice(start, off as int, u64s_le(values@.subrange(0, i as int))),
        decreases 6 - i,
    {
        proof {
            lemma_u64s_le_len(values@.subrange(0, i as int));
            lemma_auto_spec_u64_to_from_le_bytes();
        }
        let bytes = u64_to_le_bytes(values[i]);
        write_at(dst, off + 8 * i, bytes.as_slice());
        proof {
            let pre = values@.subrange(0, i as int);
            let post = values@.subrange(0, i + 1);
            assert(post.drop_last() =~= pre);
            assert(post.last() == values@[i as int]);
            lemma_u64s_le_len(post);
            assert(dst@ =~= splice(start, off as int, u64s_le(post)));
        }
        i += 1;
    }
    assert(values@.subrange(0, 6) =~= values@);
}

pub fn read_u64_array(src: &[u8], off: usize) -> (r: [u64; 6])
    requires
        off + 48 <= src@.len(),
    ensures
        r@ == u64s_from_le(src@.subrange(off as int, off + 48), 6),
{
    let mut out = [0u64; 6];
    let n = src.len();
    let mut i: usize = 0;
    while i < 6
        invariant
            i <= 6,
            n == src@.len(),
            off + 48 <= src@.len(),
            forall|k: int| 0 <= k < i ==> out@[k] == u64s_from_le(src@.subrange(off as int, off + 48), 6)[k],
        decreases 6 - i,
    {
        let chunk = slice_subrange(src, off + 8 * i, off + 8 * i + 8);
        out[i] = u64_from_le_bytes(chunk);
        assert(src@.subrange(off as int, off + 48).subrange(8 * i, 8 * i + 8) =~= chunk@);
        i += 1;
    }
    assert(out@ =~= u64s_from_le(src@.subrange(off as int, off + 48), 6));
    out
}

// ---------------------------------------------------------------------------
// Seed slot record
// ---------------------------------------------------------------------------

/// One encrypted seed slot: AES-GCM nonce, ciphertext with tag, and the root
/// public key of the seed, kept in clear for listing and for checking an
/// unlock.
#[derive(Clone, Copy)]
pub struct SlotRecord {
    pub nonce: [u8; 12],
    pub enc_seed: [u8; 80],
    pub pub_x: [u64; 6],
    pub pub_y: [u64; 6],
}

pub open spec fn all_words(s: Seq<u64>, w: u64) -> bool {
    forall|i: int| 0 <= i < s.len() ==> s[i] == w
}

/// A record that decodes again after encoding.
pub open spec fn slot_fields_ok(nonce: Seq<u8>, enc_seed: Seq<u8>, pub_x: Seq<u64>, pub_y: Seq<u64>) -> bool {
    &&& !all_ff(nonce)
    &&& !all_ff(enc_seed)
    &&& !all_words(pub_x, u64::MAX)
    &&& !all_words(pub_y, u64::MAX)
    &&& !(all_words(pub_x, 0) && all_words(pub_y, 0))
}

pub open spec fn slot_record_valid(r: SlotRecord) -> bool {
    slot_fields_ok(r.nonce@, r.enc_seed@, r.pub_x@, r.pub_y@)
}

pub open spec fn slot_bytes(r: SlotRecord) -> Seq<u8> {
    slot_view_bytes(r@)
}

pub open spec fn slot_pub_x(buf: Seq<u8>) -> Seq<u64> {
    u64s_from_le(buf.subrange(96, 144), 6)
}

pub open spec fn slot_pub_y(buf: Seq<u8>) -> Seq<u64> {
    u64s_from_le(buf.subrange(144, 192), 6)
}

/// `buf` holds a used, plausible slot.
pub open spec fn slot_bytes_valid(buf: Seq<u8>) -> bool {
    &&& buf.len() == SLOT_SIZE
    &&& buf[0] == SLOT_USED
    &&& slot_fields_ok(buf.subrange(4, 16), buf.subrange(16, 96), slot_pub_x(buf), slot_pub_y(buf))
}

/// Plain-value form of a slot record.
pub struct SlotView {
    pub nonce: Seq<u8>,
    pub enc_seed: Seq<u8>,
    pub pub_x: Seq<u64>,
    pub pub_y: Seq<u64>,
}

impl View for SlotRecord {
    type V = SlotView;

    open spec fn view(&self) -> SlotView {
        SlotView { nonce: self.nonce@, enc_seed: self.enc_seed@, pub_x: self.pub_x@, pub_y: self.pub_y@ }
    }
}

/// The slot fields stored in `buf`.
pub open spec fn slot_view_of(buf: Seq<u8>) -> SlotView {
    SlotView { nonce: buf.subrange(4, 16), enc_seed: buf.subrange(16, 96), pub_x: slot_pub_x(buf), pub_y: slot_pub_y(buf) }
}

pub open spec fn slot_view_bytes(r: SlotView) -> Seq<u8> {
    seq![SLOT_USED, 0xFFu8, 0xFFu8, 0xFFu8] + r.nonce + r.enc_seed + u64s_le(r.pub_x) + u64s_le(r.pub_y)
}

pub open spec fn slot_fields_of(buf: Seq<u8>, r: SlotRecord) -> bool {
    r@ == slot_view_of(buf)
}

fn all_u64_eq(a: &[u64; 6], w: u64) -> (r: bool)
    ensures
        r == all_words(a@, w),
{
    let mut i: usize = 0;
    while i < 6
        invariant
            i <= 6,
            forall|j: int| 0 <= j < i ==> a@[j] == w,
        decreases 6 - i,
    {
        if a[i] != w {
            return false;
        }
        i += 1;
    }
    true
}

pub fn slot_to_bytes(r: &SlotRecord) -> (out: Vec<u8>)
    ensures
        out@ == slot_bytes(*r),
        out@.len() == SLOT_SIZE,
{
    proof {
        lemma_u64s_le_len(r.pub_x@);
        lemma_u64s_le_len(r.pub_y@);
    }
    let mut out = ff_vec(SLOT_SIZE);
    out[0] = SLOT_USED;
    write_at(&mut out, 4, r.nonce.as_slice());
    write_at(&mut out, 16, r.enc_seed.as_slice());
    write_u64_array(&mut out, 96, &r.pub_x);
    write_u64_array(&mut out, 144, &r.pub_y);
    assert(out@ =~= slot_bytes(*r));
    out
}

pub fn slot_from_bytes(buf: &[u8]) -> (r: Option<SlotRecord>)
    requires
        buf@.len() == SLOT_SIZE,
    ensures
        match r {
            Some(rec) => slot_bytes_valid(buf@) && slot_fields_of(buf@, rec),
            None => !slot_bytes_valid(buf@),
        },
{
    if buf[0] != SLOT_USED {
        return None;
    }
    let mut nonce = [0u8; 12];
    let mut i: usize = 0;
    while i < 12
        invariant
            buf@.len() == SLOT_SIZE,
            i <= 12,
            forall|j: int| 0 <= j < i ==> nonce@[j] == buf@[4 + j],
        decreases 12 - i,
    {
        nonce[i] = buf[4 + i];
        i += 1;
    }
    assert(nonce@ =~= buf@.subrange(4, 16));
    let mut enc_seed = [0u8; 80];
    let mut i: usize = 0;
    while i < 80
        invariant
            buf@.len() == SLOT_SIZE,
            i <= 80,
            forall|j: int| 0 <= j < i ==> enc_seed@[j] == buf@[16 + j],
        decreases 80 - i,
    {
        enc_seed[i] = buf[16 + i];
        i += 1;
    }
    assert(enc_seed@ =~= buf@.subrange(16, 96));
    let pub_x = read_u64_array(buf, 96);
    let pub_y = read_u64_array(buf, 144);
    if is_all_ff(nonce.as_slice()) || is_all_ff(enc_seed.as_slice()) || all_u64_eq(&pub_x, u64::MAX)
        || all_u64_eq(&pub_y, u64::MAX) || (all_u64_eq(&pub_x, 0) && all_u64_eq(&pub_y, 0)) {
        return None;
    }
    Some(SlotRecord { nonce, enc_seed, pub_x, pub_y })
}

/// A valid slot record survives a write and a read.
pub proof fn lemma_slot_roundtrip(r: SlotRecord)
    requires
        slot_record_valid(r),
    ensures
        slot_bytes_valid(slot_bytes(r)),
        slot_fields_of(slot_bytes(r), r),
{
    lemma_u64s_le_len(r.pub_x@);
    lemma_u64s_le_len(r.pub_y@);
    let b = slot_bytes(r);
    assert(b.subrange(4, 16) =~= r.nonce@);
    assert(b.subrange(16, 96) =~= r.enc_seed@);
    assert(b.subrange(96, 144) =~= u64s_le(r.pub_x@));
    assert(b.subrange(144, 192) =~= u64s_le(r.pub_y@));
    lemma_u64s_roundtrip(r.pub_x@);
    lemma_u64s_roundtrip(r.pub_y@);
}


// ---------------------------------------------------------------------------
// Touch calibration
// ---------------------------------------------------------------------------

/// The calibration maps a non-empty raw range on both axes.
pub open spec fn spec_touch_calibration_valid(c: TouchCalibration) -> bool {
    c.raw_x_min < c.raw_x_max && c.raw_y_min < c.raw_y_max
}

pub fn touch_calibration_valid(c: &TouchCalibration) -> (r: bool)
    ensures
        r == spec_touch_calibration_valid(*c),
{
    c.raw_x_min < c.raw_x_max && c.raw_y_min < c.raw_y_max
}

pub open spec fn calibration_flags(c: TouchCalibration) -> u8 {
    ((if c.mirror_x { CALIBRATION_MIRROR_X } else { 0u8 }) + (if c.mirror_y { CALIBRATION_MIRROR_Y } else { 0u8 })) as u8
}

pub open spec fn calibration_bytes(c: TouchCalibration) -> Seq<u8> {
    spec_calibration_magic() + seq![CALIBRATION_VERSION, calibration_flags(c), 0xFFu8, 0xFFu8]
        + spec_u16_to_le_bytes(c.raw_x_min) + spec_u16_to_le_bytes(c.raw_x_max)
        + spec_u16_to_le_bytes(c.raw_y_min) + spec_u16_to_le_bytes(c.raw_y_max) + ff_seq(48)
}

/// The calibration stored in `buf`, before the range check.
pub open spec fn calibration_decoded(buf: Seq<u8>) -> TouchCalibration {
    TouchCalibration {
        raw_x_min: spec_u16_from_le_bytes(buf.subrange(8, 10)),
        raw_x_max: spec_u16_from_le_bytes(buf.subrange(10, 12)),
        raw_y_min: spec_u16_from_le_bytes(buf.subrange(12, 14)),
        raw_y_max: spec_u16_from_le_bytes(buf.subrange(14, 16)),
        mirror_x: buf[5] & CALIBRATION_MIRROR_X != 0,
        mirror_y: buf[5] & CALIBRATION_MIRROR_Y != 0,
    }
}

/// What a stored calibration record reads as.
pub open spec fn calibration_parse(buf: Seq<u8>) -> Option<TouchCalibration> {
    if all_ff(buf) || !(has_magic(buf, Magic::Calibration) || has_magic(buf, Magic::LegacyCalibration))
        || buf[4] != CALIBRATION_VERSION || buf[5] & !(CALIBRATION_MIRROR_X | CALIBRATION_MIRROR_Y) != 0
        || !spec_touch_calibration_valid(calibration_decoded(buf)) {
        None
    } else {
        Some(calibration_decoded(buf))
    }
}

pub fn touch_calibration_bytes(c: &TouchCalibration) -> (r: Option<Vec<u8>>)
    ensures
        match r {
            Some(b) => spec_touch_calibration_valid(*c) && b@ == calibration_bytes(*c) && b@.len() == CALIBRATION_SIZE,
            None => !spec_touch_calibration_valid(*c),
        },
{
    if !touch_calibration_valid(c) {
        return None;
    }
    let mut buf = ff_vec(CALIBRATION_SIZE);
    let magic = magic_bytes(Magic::Calibration);
    write_at(&mut buf, 0, magic.as_slice());
    buf[4] = CALIBRATION_VERSION;
    let mut flags = 0u8;
    if c.mirror_x {
        flags = flags | CALIBRATION_MIRROR_X;
    }
    if c.mirror_y {
        flags = flags | CALIBRATION_MIRROR_Y;
    }
    assert(flags == calibration_flags(*c)) by {
        assert(0u8 | 1u8 == 1u8) by (bit_vector);
        assert(0u8 | 2u8 == 2u8) by (bit_vector);
        assert(1u8 | 2u8 == 3u8) by (bit_vector);
    }
    buf[5] = flags;
    let b = u16_to_le_bytes(c.raw_x_min);
    write_at(&mut buf, 8, b.as_slice());
    let b = u16_to_le_bytes(c.raw_x_max);
    write_at(&mut buf, 10, b.as_slice());
    let b = u16_to_le_bytes(c.raw_y_min);
    write_at(&mut buf, 12, b.as_slice());
    let b = u16_to_le_bytes(c.raw_y_max);
    write_at(&mut buf, 14, b.as_slice());
    proof { lemma_auto_spec_u16_to_from_le_bytes(); }
    assert(buf@ =~= calibration_bytes(*c));
    Some(buf)
}

pub fn touch_calibration_from_bytes(buf: &[u8]) -> (r: Option<TouchCalibration>)
    requires
        buf@.len() == CALIBRATION_SIZE,
    ensures
        r == calibration_parse(buf@),
{
    if is_all_ff(buf) {
        return None;
    }
    if !matches_magic(buf, Magic::Calibration, Magic::LegacyCalibration) {
        return None;
    }
    if buf[4] != CALIBRATION_VERSION {
        return None;
    }
    let flags = buf[5];
    if flags & !(CALIBRATION_MIRROR_X | CALIBRATION_MIRROR_Y) != 0 {
        return None;
    }
    let calibration = TouchCalibration {
        raw_x_min: u16_from_le_bytes(slice_subrange(buf, 8, 10)),
        raw_x_max: u16_from_le_bytes(slice_subrange(buf, 10, 12)),
        raw_y_min: u16_from_le_bytes(slice_subrange(buf, 12, 14)),
        raw_y_max: u16_from_le_bytes(slice_subrange(buf, 14, 16)),
        mirror_x: flags & CALIBRATION_MIRROR_X != 0,
        mirror_y: flags & CALIBRATION_MIRROR_Y != 0,
    };
    if !touch_calibration_valid(&calibration) {
        return None;
    }
    Some(calibration)
}

/// A valid calibration survives a write and a read.
pub proof fn lemma_calibration_roundtrip(c: TouchCalibration)
    requires
        spec_touch_calibration_valid(c),
    ensures
        calibration_parse(calibration_bytes(c)) == Some(c),
{
    lemma_auto_spec_u16_to_from_le_bytes();
    let b = calibration_bytes(c);
    assert(b.subrange(0, 4) =~= spec_calibration_magic());
    assert(b.subrange(8, 10) =~= spec_u16_to_le_bytes(c.raw_x_min));
    assert(b.subrange(10, 12) =~= spec_u16_to_le_bytes(c.raw_x_max));
    assert(b.subrange(12, 14) =~= spec_u16_to_le_bytes(c.raw_y_min));
    assert(b.subrange(14, 16) =~= spec_u16_to_le_bytes(c.raw_y_max));
    assert(b[4] == 1u8);
    assert(!all_ff(b));
    let f = calibration_flags(c);
    assert(f == 0u8 || f == 1u8 || f == 2u8 || f == 3u8);
    assert(0u8 & !3u8 == 0 && 1u8 & !3u8 == 0 && 2u8 & !3u8 == 0 && 3u8 & !3u8 == 0) by (bit_vector);
    assert(0u8 & 1u8 == 0 && 1u8 & 1u8 != 0 && 2u8 & 1u8 == 0 && 3u8 & 1u8 != 0) by (bit_vector);
    assert(0u8 & 2u8 == 0 && 1u8 & 2u8 == 0 && 2u8 & 2u8 != 0 && 3u8 & 2u8 != 0) by (bit_vector);
    assert(1u8 | 2u8 == 3u8) by (bit_vector);
    assert(calibration_decoded(b) == c);
}

// ---------------------------------------------------------------------------
// GUI preferences
// ---------------------------------------------------------------------------

pub open spec fn gui_prefs_bytes(theme_id: u8) -> Seq<u8> {
    spec_gui_prefs_magic() + seq![GUI_PREFS_VERSION, theme_id] + ff_seq(58)
}

/// What a stored GUI preference record reads as.
pub open spec fn gui_prefs_parse(buf: Seq<u8>) -> Option<u8> {
    if all_ff(buf) || !has_magic(buf, Magic::GuiPrefs) || buf[4] != GUI_PREFS_VERSION || buf[5] == 0xFFu8 {
        None
    } else {
        Some(buf[5])
    }
}

pub fn gui_prefs_to_bytes(theme_id: u8) -> (r: Vec<u8>)
    ensures
        r@ == gui_prefs_bytes(theme_id),
        r@.len() == GUI_PREFS_SIZE,
{
    let mut buf = ff_vec(GUI_PREFS_SIZE);
    let magic = magic_bytes(Magic::GuiPrefs);
    write_at(&mut buf, 0, magic.as_slice());
    buf[4] = GUI_PREFS_VERSION;
    buf[5] = theme_id;
    assert(buf@ =~= gui_prefs_bytes(theme_id));
    buf
}

pub fn gui_prefs_from_bytes(buf: &[u8]) -> (r: Option<u8>)
    requires
        buf@.len() == GUI_PREFS_SIZE,
    ensures
        r == gui_prefs_parse(buf@),
{
    if is_all_ff(buf) {
        return None;
    }
    if !starts_with_magic(buf, Magic::GuiPrefs) {
        return None;
    }
    if buf[4] != GUI_PREFS_VERSION {
        return None;
    }
    if buf[5] == 0xFF {
        return None;
    }
    Some(buf[5])
}

/// A stored theme reads back, unless it is the erased value.
pub proof fn lemma_gui_prefs_roundtrip(theme_id: u8)
    ensures
        gui_prefs_parse(gui_prefs_bytes(theme_id)) == if theme_id == 0xFFu8 { None } else { Some(theme_id) },
{
    let b = gui_prefs_bytes(theme_id);
    assert(b.subrange(0, 4) =~= spec_gui_prefs_magic());
    assert(b[0] != 0xFFu8);
}


// ---------------------------------------------------------------------------
// Text fields
// ---------------------------------------------------------------------------

/// A space or a visible ASCII character.
pub open spec fn printable_ascii(b: u8) -> bool {
    b == 0x20u8 || (0x21u8 <= b && b <= 0x7Eu8)
}

pub open spec fn all_printable(s: Seq<u8>) -> bool {
    forall|i: int| 0 <= i < s.len() ==> printable_ascii(#[trigger] s[i])
}

/// A character of the base58 alphabet.
pub open spec fn base58_byte(b: u8) -> bool {
    (0x31u8 <= b && b <= 0x39u8) || (0x41u8 <= b && b <= 0x48u8) || (0x4Au8 <= b && b <= 0x4Eu8)
        || (0x50u8 <= b && b <= 0x5Au8) || (0x61u8 <= b && b <= 0x6Bu8) || (0x6Du8 <= b && b <= 0x7Au8)
}

pub open spec fn spec_seed_label_valid(s: Seq<u8>) -> bool {
    s.len() <= MAX_SEED_LABEL_LEN && all_printable(s)
}

pub open spec fn spec_address_book_label_valid(s: Seq<u8>) -> bool {
    0 < s.len() <= MAX_ADDRESS_BOOK_LABEL_LEN && all_printable(s)
}

pub open spec fn spec_address_book_pkh_valid(s: Seq<u8>) -> bool {
    0 < s.len() <= MAX_ADDRESS_BOOK_PKH_LEN && forall|i: int| 0 <= i < s.len() ==> base58_byte(#[trigger] s[i])
}

pub open spec fn spec_address_book_entry_valid(e: DeviceAddressBookEntry) -> bool {
    spec_address_book_label_valid(e.label@) && spec_address_book_pkh_valid(e.pkh@)
}

fn all_printable_exec(s: &[u8]) -> (r: bool)
    ensures
        r == all_printable(s@),
{
    let mut i: usize = 0;
    while i < s.len()
        invariant
            i <= s@.len(),
            forall|j: int| 0 <= j < i ==> printable_ascii(#[trigger] s@[j]),
        decreases s@.len() - i,
    {
        let b = s[i];
        if !(b == 0x20 || (0x21 <= b && b <= 0x7E)) {
            return false;
        }
        i += 1;
    }
    true
}

pub fn seed_label_valid(label: &[u8]) -> (r: bool)
    ensures
        r == spec_seed_label_valid(label@),
{
    label.len() <= MAX_SEED_LABEL_LEN && all_printable_exec(label)
}

pub fn address_book_label_valid(label: &[u8]) -> (r: bool)
    ensures
        r == spec_address_book_label_valid(label@),
{
    label.len() != 0 && label.len() <= MAX_ADDRESS_BOOK_LABEL_LEN && all_printable_exec(label)
}

pub fn address_book_pkh_valid(pkh: &[u8]) -> (r: bool)
    ensures
        r == spec_address_book_pkh_valid(pkh@),
{
    if pkh.len() == 0 || pkh.len() > MAX_ADDRESS_BOOK_PKH_LEN {
        return false;
    }
    let mut i: usize = 0;
    while i < pkh.len()
        invariant
            i <= pkh@.len(),
            forall|j: int| 0 <= j < i ==> base58_byte(#[trigger] pkh@[j]),
        decreases pkh@.len() - i,
    {
        let b = pkh[i];
        let ok = (0x31 <= b && b <= 0x39) || (0x41 <= b && b <= 0x48) || (0x4A <= b && b <= 0x4E)
            || (0x50 <= b && b <= 0x5A) || (0x61 <= b && b <= 0x6B) || (0x6D <= b && b <= 0x7A);
        if !ok {
            return false;
        }
        i += 1;
    }
    true
}

pub fn address_book_entry_valid(e: &DeviceAddressBookEntry) -> (r: bool)
    ensures
        r == spec_address_book_entry_valid(*e),
{
    address_book_label_valid(e.label.as_slice()) && address_book_pkh_valid(e.pkh.as_slice())
}

/// A terminator of a fixed-width text field: NUL or erased.
pub open spec fn field_end_byte(b: u8) -> bool {
    b == 0u8 || b == 0xFFu8
}

/// Index of the first terminator at or after `i`, or the width of the field.
pub open spec fn field_len_from(raw: Seq<u8>, i: int) -> int
    decreases raw.len() - i,
{
    if i >= raw.len() {
        raw.len() as int
    } else if field_end_byte(raw[i]) {
        i
    } else {
        field_len_from(raw, i + 1)
    }
}

/// Length of the text held in a fixed-width field.
pub open spec fn field_len(raw: Seq<u8>) -> int {
    field_len_from(raw, 0)
}

/// Bytes written into a field of width `width` for `text`.
pub open spec fn field_bytes(text: Seq<u8>, width: nat) -> Seq<u8> {
    if text.len() < width { text.push(0u8) } else { text }
}

/// The scan for a field's end from `i` stops within the buffer, passes
/// only bytes that do not end a field, and stops at one that does.
pub proof fn lemma_field_len_from_bounds(raw: Seq<u8>, i: int)
    requires
        0 <= i,
    ensures
        i <= raw.len() ==> i <= field_len_from(raw, i) <= raw.len(),
        forall|j: int| i <= j < field_len_from(raw, i) ==> !field_end_byte(raw[j]),
        field_len_from(raw, i) < raw.len() ==> field_end_byte(raw[field_len_from(raw, i)]),
    decreases raw.len() - i,
{
    if i < raw.len() && !field_end_byte(raw[i]) {
        lemma_field_len_from_bounds(raw, i + 1);
    }
}

/// A field holding printable text reads back as that text.
pub proof fn lemma_field_read_back(raw: Seq<u8>, text: Seq<u8>, width: nat)
    requires
        text.len() <= width,
        raw.len() == width,
        all_printable(text),
        raw.subrange(0, field_bytes(text, width).len() as int) == field_bytes(text, width),
    ensures
        field_len(raw) == text.len(),
        raw.subrange(0, text.len() as int) == text,
{
    assert forall|j: int| 0 <= j < text.len() implies !field_end_byte(raw[j]) by {
        assert(raw[j] == raw.subrange(0, field_bytes(text, width).len() as int)[j]);
        assert(printable_ascii(text[j]));
    }
    if text.len() < width {
        assert(raw[text.len() as int] == raw.subrange(0, field_bytes(text, width).len() as int)[text.len() as int]);
    }
    lemma_field_len_walk(raw, 0, text.len() as int);
    assert(raw.subrange(0, text.len() as int) =~= text) by {
        assert forall|j: int| 0 <= j < text.len() implies raw.subrange(0, text.len() as int)[j] == text[j] by {
            assert(raw[j] == raw.subrange(0, field_bytes(text, width).len() as int)[j]);
        }
    }
}

proof fn lemma_field_len_walk(raw: Seq<u8>, i: int, n: int)
    requires
        0 <= i <= n <= raw.len(),
        forall|j: int| i <= j < n ==> !field_end_byte(raw[j]),
        n < raw.len() ==> field_end_byte(raw[n]),
    ensures
        field_len_from(raw, i) == n,
    decreases n - i,
{
    if i < n {
        lemma_field_len_walk(raw, i + 1, n);
    }
}

pub fn fixed_field_len(raw: &[u8]) -> (r: usize)
    ensures
        r == field_len(raw@),
{
    proof { lemma_field_len_from_bounds(raw@, 0); }
    let mut i: usize = 0;
    while i < raw.len()
        invariant
            i <= raw@.len(),
            field_len_from(raw@, i as int) == field_len(raw@),
        decreases raw@.len() - i,
    {
        if raw[i] == 0 || raw[i] == 0xFF {
            return i;
        }
        i += 1;
    }
    i
}

/// Write `text` into the field at `off` of width `width`, NUL-terminated when shorter.
pub fn write_fixed_ascii_string(dst: &mut Vec<u8>, off: usize, width: usize, text: &[u8])
    requires
        text@.len() <= width,
        off + width <= old(dst)@.len(),
    ensures
        final(dst)@ == splice(old(dst)@, off as int, field_bytes(text@, width as nat)),
{
    let n = dst.len();
    write_at(dst, off, text);
    if text.len() < width {
        let ghost mid = dst@;
        dst[off + text.len()] = 0;
        assert(dst@ =~= splice(old(dst)@, off as int, field_bytes(text@, width as nat)));
    }
}

// ---------------------------------------------------------------------------
// Seed label table
// ---------------------------------------------------------------------------

pub open spec fn label_offset(slot: int) -> int {
    LABELS_HEADER_SIZE + slot * MAX_SEED_LABEL_LEN
}

pub open spec fn labels_table_base() -> Seq<u8> {
    spec_labels_magic() + seq![LABELS_VERSION] + ff_seq(3) + ff_seq((MAX_SEED_LABEL_LEN * MAX_SEED_SLOTS) as nat)
}

/// Whether an entry is written into the table.
pub open spec fn label_entry_stored(e: SeedSlotLabel) -> bool {
    (e.slot as int) < MAX_SEED_SLOTS && e.label@.len() > 0
}

pub open spec fn apply_label(buf: Seq<u8>, e: SeedSlotLabel) -> Seq<u8> {
    if label_entry_stored(e) {
        splice(buf, label_offset(e.slot as int), field_bytes(e.label@, MAX_SEED_LABEL_LEN as nat))
    } else {
        buf
    }
}

/// The label table holding `labels`, later entries overriding earlier ones.
pub open spec fn label_table(labels: Seq<SeedSlotLabel>) -> Seq<u8>
    decreases labels.len(),
{
    if labels.len() == 0 {
        labels_table_base()
    } else {
        apply_label(label_table(labels.drop_last()), labels.last())
    }
}

/// Every label that would be stored is valid.
pub open spec fn labels_storable(labels: Seq<SeedSlotLabel>) -> bool {
    forall|i: int| 0 <= i < labels.len() && label_entry_stored(#[trigger] labels[i]) ==> spec_seed_label_valid(labels[i].label@)
}

/// A storable label list encodes to exactly the label area's size.
pub proof fn lemma_label_table_len(labels: Seq<SeedSlotLabel>)
    requires
        labels_storable(labels),
    ensures
        label_table(labels).len() == LABELS_SIZE,
    decreases labels.len(),
{
    if labels.len() > 0 {
        assert(labels_storable(labels.drop_last())) by {
            assert forall|i: int| 0 <= i < labels.drop_last().len() && label_entry_stored(#[trigger] labels.drop_last()[i])
                implies spec_seed_label_valid(labels.drop_last()[i].label@) by {
                assert(labels.drop_last()[i] == labels[i]);
            }
        }
        lemma_label_table_len(labels.drop_last());
        assert(label_entry_stored(labels.last()) ==> spec_seed_label_valid(labels[labels.len() - 1].label@));
    }
}

pub fn labels_table_bytes(labels: &[SeedSlotLabel]) -> (r: Option<Vec<u8>>)
    ensures
        match r {
            Some(b) => labels_storable(labels@) && b@ == label_table(labels@),
            None => !labels_storable(labels@),
        },
{
    let mut buf = ff_vec(LABELS_SIZE);
    let magic = magic_bytes(Magic::Labels);
    write_at(&mut buf, 0, magic.as_slice());
    buf[4] = LABELS_VERSION;
    assert(buf@ =~= label_table(labels@.subrange(0, 0)));
    let mut i: usize = 0;
    while i < labels.len()
        invariant
            i <= labels@.len(),
            labels_storable(labels@.subrange(0, i as int)),
            buf@ == label_table(labels@.subrange(0, i as int)),
            buf@.len() == LABELS_SIZE,
        decreases labels@.len() - i,
    {
        let entry = &labels[i];
        let slot = entry.slot as usize;
        let ghost pre = labels@.subrange(0, i as int);
        let ghost post = labels@.subrange(0, i + 1);
        proof {
            assert(post.drop_last() =~= pre);
            assert(post.last() == labels@[i as int]);
        }
        if slot < MAX_SEED_SLOTS && entry.label.len() != 0 {
            if !seed_label_valid(entry.label.as_slice()) {
                proof {
                    assert(labels@[i as int] == *entry);
                    assert(!labels_storable(labels@)) by {
                        assert(label_entry_stored(labels@[i as int]));
                    }
                }
                return None;
            }
            let start = LABELS_HEADER_SIZE + slot * MAX_SEED_LABEL_LEN;
            write_fixed_ascii_string(&mut buf, start, MAX_SEED_LABEL_LEN, entry.label.as_slice());
        }
        proof {
            assert(labels_storable(post)) by {
                assert forall|k: int| 0 <= k < post.len() && label_entry_stored(#[trigger] post[k])
                    implies spec_seed_label_valid(post[k].label@) by {
                    if k < i {
                        assert(post[k] == pre[k]);
                    }
                }
            }
            assert(buf@ =~= label_table(post));
        }
        i += 1;
    }
    assert(labels@.subrange(0, labels@.len() as int) =~= labels@);
    Some(buf)
}

/// The label that slot `slot` of a stored table holds, if any.
pub open spec fn stored_label(buf: Seq<u8>, slot: int) -> Option<Seq<u8>> {
    let raw = buf.subrange(label_offset(slot), label_offset(slot) + MAX_SEED_LABEL_LEN);
    let n = field_len(raw);
    if n == 0 || !spec_seed_label_valid(raw.subrange(0, n)) {
        None
    } else {
        Some(raw.subrange(0, n))
    }
}

/// Labels read from the first `count` slots of a table, in slot order.
pub open spec fn labels_in_table(buf: Seq<u8>, count: nat) -> Seq<(u8, Seq<u8>)>
    decreases count,
{
    if count == 0 {
        Seq::empty()
    } else {
        let prev = labels_in_table(buf, (count - 1) as nat);
        match stored_label(buf, count - 1) {
            Some(l) => prev.push(((count - 1) as u8, l)),
            None => prev,
        }
    }
}

/// The table is readable: not erased, right magic and version.
pub open spec fn labels_table_readable(buf: Seq<u8>) -> bool {
    !all_ff(buf) && (has_magic(buf, Magic::Labels) || has_magic(buf, Magic::LegacyLabels)) && buf[4] == LABELS_VERSION
}

pub open spec fn label_view(l: SeedSlotLabel) -> (u8, Seq<u8>) {
    (l.slot, l.label@)
}

/// What reading the labels of `count` slots from a stored table gives.
pub open spec fn labels_parse(buf: Seq<u8>, count: nat) -> Seq<(u8, Seq<u8>)> {
    if labels_table_readable(buf) { labels_in_table(buf, count) } else { Seq::empty() }
}

pub fn labels_from_table(buf: &[u8], count: usize) -> (r: Vec<SeedSlotLabel>)
    requires
        buf@.len() == LABELS_SIZE,
        count <= MAX_SEED_SLOTS,
    ensures
        r@.map_values(|l: SeedSlotLabel| label_view(l)) == labels_parse(buf@, count as nat),
{
    let mut labels: Vec<SeedSlotLabel> = Vec::new();
    if is_all_ff(buf) || !matches_magic(buf, Magic::Labels, Magic::LegacyLabels) || buf[4] != LABELS_VERSION {
        assert(labels@.map_values(|l: SeedSlotLabel| label_view(l)) =~= Seq::empty());
        return labels;
    }
    let mut slot: usize = 0;
    while slot < count
        invariant
            buf@.len() == LABELS_SIZE,
            count <= MAX_SEED_SLOTS,
            slot <= count,
            labels_table_readable(buf@),
            labels@.map_values(|l: SeedSlotLabel| label_view(l)) == labels_in_table(buf@, slot as nat),
        decreases count - slot,
    {
        let start = LABELS_HEADER_SIZE + slot * MAX_SEED_LABEL_LEN;
        let raw = slice_subrange(buf, start, start + MAX_SEED_LABEL_LEN);
        let len = fixed_field_len(raw);
        proof { lemma_field_len_from_bounds(raw@, 0); }
        let ghost prev = labels@;
        if len != 0 {
            let text = copy_range(raw, 0, len);
            if seed_label_valid(text.as_slice()) {
                labels.push(SeedSlotLabel { slot: slot as u8, label: text });
                proof {
                    assert(labels@.map_values(|l: SeedSlotLabel| label_view(l)) =~= prev.map_values(|l: SeedSlotLabel| label_view(l)).push(((slot) as u8, text@)));
                }
            }
        }
        proof {
            assert(raw@ =~= buf@.subrange(label_offset(slot as int), label_offset(slot as int) + MAX_SEED_LABEL_LEN));
        }
        slot += 1;
    }
    labels
}

/// The label that the last stored entry of `labels` for `slot` carries.
pub open spec fn last_label(labels: Seq<SeedSlotLabel>, slot: int) -> Option<Seq<u8>>
    decreases labels.len(),
{
    if labels.len() == 0 {
        None
    } else if label_entry_stored(labels.last()) && labels.last().slot as int == slot {
        Some(labels.last().label@)
    } else {
        last_label(labels.drop_last(), slot)
    }
}

/// The label that a list read from a table gives `slot`, if any.
pub open spec fn label_for(read: Seq<(u8, Seq<u8>)>, slot: int) -> Option<Seq<u8>>
    decreases read.len(),
{
    if read.len() == 0 {
        None
    } else if read.last().0 as int == slot {
        Some(read.last().1)
    } else {
        label_for(read.drop_last(), slot)
    }
}

/// Dropping the last entry keeps a list storable.
proof fn lemma_storable_drop_last(labels: Seq<SeedSlotLabel>)
    requires
        labels.len() > 0,
        labels_storable(labels),
    ensures
        labels_storable(labels.drop_last()),
{
    assert forall|i: int| 0 <= i < labels.drop_last().len() && label_entry_stored(#[trigger] labels.drop_last()[i])
        implies spec_seed_label_valid(labels.drop_last()[i].label@) by {
        assert(labels.drop_last()[i] == labels[i]);
    }
}

/// A built table keeps its magic and version in front of the label fields.
pub proof fn lemma_label_table_head(labels: Seq<SeedSlotLabel>)
    requires
        labels_storable(labels),
    ensures
        label_table(labels).subrange(0, LABELS_HEADER_SIZE as int) == labels_table_base().subrange(0, LABELS_HEADER_SIZE as int),
        labels_table_readable(label_table(labels)),
    decreases labels.len(),
{
    lemma_label_table_len(labels);
    if labels.len() > 0 {
        lemma_storable_drop_last(labels);
        lemma_label_table_head(labels.drop_last());
        lemma_label_table_len(labels.drop_last());
        let e = labels.last();
        if label_entry_stored(e) {
            assert(spec_seed_label_valid(labels[labels.len() - 1].label@));
            lemma_splice_outside(label_table(labels.drop_last()), label_offset(e.slot as int),
                field_bytes(e.label@, MAX_SEED_LABEL_LEN as nat), 0, LABELS_HEADER_SIZE as int);
        }
    }
    let t = label_table(labels);
    let b = labels_table_base();
    assert(t[0] == t.subrange(0, LABELS_HEADER_SIZE as int)[0]);
    assert(t[4] == t.subrange(0, LABELS_HEADER_SIZE as int)[4]);
    assert(b[0] == 0x4Eu8);
    assert(t.subrange(0, 4) =~= spec_labels_magic()) by {
        assert forall|i: int| 0 <= i < 4 implies t.subrange(0, 4)[i] == spec_labels_magic()[i] by {
            assert(t[i] == t.subrange(0, LABELS_HEADER_SIZE as int)[i]);
        }
    }
}

/// Each slot of a built table reads back as the last label stored for it.
pub proof fn lemma_label_table_reads(labels: Seq<SeedSlotLabel>, slot: int)
    requires
        labels_storable(labels),
        0 <= slot < MAX_SEED_SLOTS,
    ensures
        stored_label(label_table(labels), slot) == last_label(labels, slot),
    decreases labels.len(),
{
    lemma_label_table_len(labels);
    let off = label_offset(slot);
    let w = MAX_SEED_LABEL_LEN as int;
    if labels.len() == 0 {
        let raw = labels_table_base().subrange(off, off + w);
        assert(raw[0] == 0xFFu8);
        assert(field_len(raw) == 0);
    } else {
        lemma_storable_drop_last(labels);
        lemma_label_table_len(labels.drop_last());
        lemma_label_table_reads(labels.drop_last(), slot);
        let prev = label_table(labels.drop_last());
        let e = labels.last();
        if label_entry_stored(e) {
            assert(spec_seed_label_valid(labels[labels.len() - 1].label@));
            let fb = field_bytes(e.label@, MAX_SEED_LABEL_LEN as nat);
            let eo = label_offset(e.slot as int);
            if e.slot as int == slot {
                lemma_splice_read(prev, eo, fb);
                let raw = label_table(labels).subrange(off, off + w);
                assert(raw.subrange(0, fb.len() as int) =~= fb);
                lemma_field_read_back(raw, e.label@, MAX_SEED_LABEL_LEN as nat);
            } else {
                lemma_splice_outside(prev, eo, fb, off, off + w);
            }
        }
    }
}

/// Every entry read from a table is a valid label of a slot below `count`,
/// and each slot appears at most once, in increasing order.
pub proof fn lemma_labels_in_table_entries(buf: Seq<u8>, count: nat)
    requires
        count <= MAX_SEED_SLOTS,
    ensures
        forall|k: int| 0 <= k < labels_in_table(buf, count).len() ==> {
            let e = #[trigger] labels_in_table(buf, count)[k];
            &&& (e.0 as int) < count
            &&& e.1.len() > 0
            &&& spec_seed_label_valid(e.1)
        },
        forall|s: int| #![trigger label_for(labels_in_table(buf, count), s)]
            label_for(labels_in_table(buf, count), s) == if 0 <= s < count { stored_label(buf, s) } else { None },
    decreases count,
{
    if count > 0 {
        lemma_labels_in_table_entries(buf, (count - 1) as nat);
        let prev = labels_in_table(buf, (count - 1) as nat);
        let cur = labels_in_table(buf, count);
        let raw = buf.subrange(label_offset(count - 1), label_offset(count - 1) + MAX_SEED_LABEL_LEN);
        assert forall|k: int| 0 <= k < cur.len() implies {
            let e = #[trigger] cur[k];
            &&& (e.0 as int) < count
            &&& e.1.len() > 0
            &&& spec_seed_label_valid(e.1)
        } by {
            lemma_field_len_from_bounds(raw, 0);
            if k < prev.len() {
                assert(cur[k] == prev[k]);
            }
        }
        assert forall|s: int| #![trigger label_for(labels_in_table(buf, count), s)]
            label_for(labels_in_table(buf, count), s) == if 0 <= s < count { stored_label(buf, s) } else { None } by {
            match stored_label(buf, count - 1) {
                Some(l) => {
                    assert(cur.drop_last() =~= prev);
                    assert(label_for(prev, s) == if 0 <= s < count - 1 { stored_label(buf, s) } else { None });
                },
                None => {
                    assert(label_for(prev, s) == if 0 <= s < count - 1 { stored_label(buf, s) } else { None });
                },
            }
        }
    }
}

// ---------------------------------------------------------------------------
// Address book
// ---------------------------------------------------------------------------

pub open spec fn address_book_record_offset(index: int) -> int {
    ADDRESS_BOOK_HEADER_SIZE + index * ADDRESS_BOOK_RECORD_SIZE
}

pub open spec fn address_book_base(count: u8) -> Seq<u8> {
    spec_address_book_magic() + seq![ADDRESS_BOOK_VERSION, count, 0xFFu8, 0xFFu8]
        + ff_seq((ADDRESS_BOOK_RECORD_SIZE * MAX_DEVICE_ADDRESS_BOOK_ENTRIES) as nat)
}

pub open spec fn apply_address_book_entry(buf: Seq<u8>, index: int, e: DeviceAddressBookEntry) -> Seq<u8> {
    let start = address_book_record_offset(index);
    let with_label = splice(buf, start, field_bytes(e.label@, MAX_ADDRESS_BOOK_LABEL_LEN as nat));
    splice(with_label, start + MAX_ADDRESS_BOOK_LABEL_LEN, field_bytes(e.pkh@, MAX_ADDRESS_BOOK_PKH_LEN as nat))
}

/// The first `k` entries written over the base of an address book of `count` entries.
pub open spec fn address_book_prefix(entries: Seq<DeviceAddressBookEntry>, k: nat) -> Seq<u8>
    decreases k,
{
    if k == 0 {
        address_book_base(entries.len() as u8)
    } else {
        apply_address_book_entry(address_book_prefix(entries, (k - 1) as nat), k - 1, entries[k - 1])
    }
}

/// The stored form of an address book.
pub open spec fn address_book_table(entries: Seq<DeviceAddressBookEntry>) -> Seq<u8> {
    address_book_prefix(entries, entries.len())
}

pub open spec fn address_book_storable(entries: Seq<DeviceAddressBookEntry>) -> bool {
    entries.len() <= MAX_DEVICE_ADDRESS_BOOK_ENTRIES
        && forall|i: int| 0 <= i < entries.len() ==> spec_address_book_entry_valid(#[trigger] entries[i])
}

/// Why an address book cannot be stored.
#[derive(Clone, Copy, Debug, PartialEq, Eq, Structural)]
pub enum AddressBookEncodeError {
    Full,
    InvalidEntry,
}

pub fn device_address_book_bytes(entries: &[DeviceAddressBookEntry]) -> (r: Result<Vec<u8>, AddressBookEncodeError>)
    ensures
        match r {
            Ok(b) => address_book_storable(entries@) && b@ == address_book_table(entries@) && b@.len() == ADDRESS_BOOK_SIZE,
            Err(AddressBookEncodeError::Full) => entries@.len() > MAX_DEVICE_ADDRESS_BOOK_ENTRIES,
            Err(AddressBookEncodeError::InvalidEntry) => entries@.len() <= MAX_DEVICE_ADDRESS_BOOK_ENTRIES
                && !address_book_storable(entries@),
        },
{
    if entries.len() > MAX_DEVICE_ADDRESS_BOOK_ENTRIES {
        return Err(AddressBookEncodeError::Full);
    }
    let mut buf = ff_vec(ADDRESS_BOOK_SIZE);
    let magic = magic_bytes(Magic::AddressBook);
    write_at(&mut buf, 0, magic.as_slice());
    buf[4] = ADDRESS_BOOK_VERSION;
    buf[5] = entries.len() as u8;
    assert(buf@ =~= address_book_prefix(entries@, 0));
    let mut index: usize = 0;
    while index < entries.len()
        invariant
            entries@.len() <= MAX_DEVICE_ADDRESS_BOOK_ENTRIES,
            index <= entries@.len(),
            buf@ == address_book_prefix(entries@, index as nat),
            buf@.len() == ADDRESS_BOOK_SIZE,
            forall|k: int| 0 <= k < index ==> spec_address_book_entry_valid(#[trigger] entries@[k]),
        decreases entries@.len() - index,
    {
        let entry = &entries[index];
        if !address_book_entry_valid(entry) {
            return Err(AddressBookEncodeError::InvalidEntry);
        }
        assert(index * ADDRESS_BOOK_RECORD_SIZE <= 31 * 96) by (nonlinear_arith)
            requires index < 32, ADDRESS_BOOK_RECORD_SIZE == 96;
        let start = ADDRESS_BOOK_HEADER_SIZE + index * ADDRESS_BOOK_RECORD_SIZE;
        write_fixed_ascii_string(&mut buf, start, MAX_ADDRESS_BOOK_LABEL_LEN, entry.label.as_slice());
        write_fixed_ascii_string(&mut buf, start + MAX_ADDRESS_BOOK_LABEL_LEN, MAX_ADDRESS_BOOK_PKH_LEN, entry.pkh.as_slice());
        index += 1;
    }
    Ok(buf)
}

/// The entry stored in record `index`, if both fields read back valid.
pub open spec fn stored_address_book_entry(buf: Seq<u8>, index: int) -> Option<(Seq<u8>, Seq<u8>)> {
    let start = address_book_record_offset(index);
    let label_raw = buf.subrange(start, start + MAX_ADDRESS_BOOK_LABEL_LEN);
    let pkh_raw = buf.subrange(start + MAX_ADDRESS_BOOK_LABEL_LEN, start + ADDRESS_BOOK_RECORD_SIZE);
    let label = label_raw.subrange(0, field_len(label_raw));
    let pkh = pkh_raw.subrange(0, field_len(pkh_raw));
    if spec_address_book_label_valid(label) && spec_address_book_pkh_valid(pkh) {
        Some((label, pkh))
    } else {
        None
    }
}

pub open spec fn address_book_records(buf: Seq<u8>, count: nat) -> Seq<(Seq<u8>, Seq<u8>)>
    decreases count,
{
    if count == 0 {
        Seq::empty()
    } else {
        let prev = address_book_records(buf, (count - 1) as nat);
        match stored_address_book_entry(buf, count - 1) {
            Some(e) => prev.push(e),
            None => prev,
        }
    }
}

pub open spec fn address_book_count(buf: Seq<u8>) -> nat {
    if buf[5] as int <= MAX_DEVICE_ADDRESS_BOOK_ENTRIES { buf[5] as nat } else { MAX_DEVICE_ADDRESS_BOOK_ENTRIES as nat }
}

/// What reading a stored address book gives.
pub open spec fn address_book_parse(buf: Seq<u8>) -> Seq<(Seq<u8>, Seq<u8>)> {
    if all_ff(buf) || !has_magic(buf, Magic::AddressBook) || buf[4] != ADDRESS_BOOK_VERSION {
        Seq::empty()
    } else {
        address_book_records(buf, address_book_count(buf))
    }
}

pub open spec fn entry_view(e: DeviceAddressBookEntry) -> (Seq<u8>, Seq<u8>) {
    (e.label@, e.pkh@)
}

pub fn address_book_from_bytes(buf: &[u8]) -> (r: Vec<DeviceAddressBookEntry>)
    requires
        buf@.len() == ADDRESS_BOOK_SIZE,
    ensures
        r@.map_values(|e: DeviceAddressBookEntry| entry_view(e)) == address_book_parse(buf@),
{
    let mut entries: Vec<DeviceAddressBookEntry> = Vec::new();
    if is_all_ff(buf) || !starts_with_magic(buf, Magic::AddressBook) || buf[4] != ADDRESS_BOOK_VERSION {
        assert(entries@.map_values(|e: DeviceAddressBookEntry| entry_view(e)) =~= Seq::empty());
        return entries;
    }
    let count = if (buf[5] as usize) < MAX_DEVICE_ADDRESS_BOOK_ENTRIES { buf[5] as usize } else { MAX_DEVICE_ADDRESS_BOOK_ENTRIES };
    assert(count == address_book_count(buf@));
    let mut index: usize = 0;
    while index < count
        invariant
            buf@.len() == ADDRESS_BOOK_SIZE,
            count <= MAX_DEVICE_ADDRESS_BOOK_ENTRIES,
            count == address_book_count(buf@),
            index <= count,
            entries@.map_values(|e: DeviceAddressBookEntry| entry_view(e)) == address_book_records(buf@, index as nat),
        decreases count - index,
    {
        assert(index * ADDRESS_BOOK_RECORD_SIZE <= 31 * 96) by (nonlinear_arith)
            requires index < 32, ADDRESS_BOOK_RECORD_SIZE == 96;
        let start = ADDRESS_BOOK_HEADER_SIZE + index * ADDRESS_BOOK_RECORD_SIZE;
        let label_raw = slice_subrange(buf, start, start + MAX_ADDRESS_BOOK_LABEL_LEN);
        let pkh_raw = slice_subrange(buf, start + MAX_ADDRESS_BOOK_LABEL_LEN, start + ADDRESS_BOOK_RECORD_SIZE);
        let label_len = fixed_field_len(label_raw);
        let pkh_len = fixed_field_len(pkh_raw);
        proof {
            lemma_field_len_from_bounds(label_raw@, 0);
            lemma_field_len_from_bounds(pkh_raw@, 0);
        }
        let label = copy_range(label_raw, 0, label_len);
        let pkh = copy_range(pkh_raw, 0, pkh_len);
        let ghost prev = entries@;
        let entry = DeviceAddressBookEntry { label, pkh };
        proof {
            assert(label_raw@ =~= buf@.subrange(start as int, start + MAX_ADDRESS_BOOK_LABEL_LEN));
            assert(pkh_raw@ =~= buf@.subrange(start + MAX_ADDRESS_BOOK_LABEL_LEN, start + ADDRESS_BOOK_RECORD_SIZE));
        }
        if address_book_entry_valid(&entry) {
            entries.push(entry);
            proof {
                assert(entries@.map_values(|e: DeviceAddressBookEntry| entry_view(e)) =~= prev.map_values(|e: DeviceAddressBookEntry| entry_view(e)).push(entry_view(entry)));
            }
        }
        index += 1;
    }
    entries
}

} // verus!
