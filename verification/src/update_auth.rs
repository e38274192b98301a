//! Firmware-update support: the configured trust anchor and release
//! version, the checks on streamed image chunks, the choice of the OTA slot
//! to write, and the sector-buffered writer of the new image.
use vstd::prelude::*;
use crate::nvs_store::flash::FlashOp;

verus! {

pub const OTA_SECTOR_SIZE: usize = 4096;

#[derive(Debug, Clone, Copy, PartialEq, Eq, Structural)]
pub enum UpdateSignatureError {
    RollbackVersion,
    Rejected,
}

#[derive(Debug, Clone, Copy, PartialEq, Eq, Structural)]
pub enum UpdateAuthError {
    NoTrustAnchor,
    UnsupportedManifest,
    Crypto(UpdateSignatureError),
}

#[derive(Debug, Clone, Copy, PartialEq, Eq, Structural)]
pub enum UpdateImageStreamError {
    ChunkTooLarge,
    OffsetMismatch,
    Overflow,
    IncompleteImage,
    ImageHashMismatch,
}

#[derive(Debug, Clone, Copy, PartialEq, Eq, Structural)]
pub enum UpdateFlashError {
    PartitionTable,
    MissingOtaData,
    MissingOtaSlot,
    ImageTooLarge,
    OutOfBounds,
    VerifyMismatch,
    Storage,
}

#[derive(Debug, Clone, Copy, PartialEq, Eq, Structural)]
pub enum UpdateStreamError {
    Auth(UpdateAuthError),
    Busy,
    NoActiveSession,
    Flash(UpdateFlashError),
    Image(UpdateImageStreamError),
}

/// The value of an ASCII hex digit.
pub open spec fn nibble_value(b: u8) -> Option<u8> {
    if 0x30 <= b <= 0x39 {
        Some((b - 0x30) as u8)
    } else if 0x61 <= b <= 0x66 {
        Some((b - 0x61 + 10) as u8)
    } else if 0x41 <= b <= 0x46 {
        Some((b - 0x41 + 10) as u8)
    } else {
        None
    }
}

pub fn hex_nibble(b: u8) -> (r: Option<u8>)
    ensures
        r == nibble_value(b),
{
    if 0x30 <= b && b <= 0x39 {
        Some(b - 0x30)
    } else if 0x61 <= b && b <= 0x66 {
        Some(b - 0x61 + 10)
    } else if 0x41 <= b && b <= 0x46 {
        Some(b - 0x41 + 10)
    } else {
        None
    }
}

/// `hex` is 64 hex digits.
pub open spec fn hex32_ok(hex: Seq<u8>) -> bool {
    hex.len() == 64 && forall|i: int| 0 <= i < 64 ==> #[trigger] nibble_value(hex[i]) is Some
}

/// Byte `i` of the 32 bytes spelled by `hex` (high nibble first).
pub open spec fn hex32_byte(hex: Seq<u8>, i: int) -> u8 {
    (nibble_value(hex[2 * i])->0 * 16 + nibble_value(hex[2 * i + 1])->0) as u8
}

pub fn parse_hex_32(hex: &[u8]) -> (r: Option<[u8; 32]>)
    ensures
        hex32_ok(hex@) ==> (r matches Some(out) && forall|i: int| 0 <= i < 32 ==> #[trigger] out@[i] == hex32_byte(hex@, i)),
        !hex32_ok(hex@) ==> r is None,
{
    let mut out = [0u8; 32];
    if hex.len() != 64 {
        return None;
    }
    let mut i: usize = 0;
    while i < 32
        invariant
            hex@.len() == 64,
            i <= 32,
            forall|j: int| 0 <= j < 2 * i ==> #[trigger] nibble_value(hex@[j]) is Some,
            forall|j: int| 0 <= j < i ==> #[trigger] out@[j] == hex32_byte(hex@, j),
        decreases 32 - i,
    {
        let hi = match hex_nibble(hex[i * 2]) {
            Some(v) => v,
            None => return None,
        };
        let lo = match hex_nibble(hex[i * 2 + 1]) {
            Some(v) => v,
            None => return None,
        };
        assert(hi < 16 && lo < 16);
        assert((hi << 4u8) | lo == hi * 16 + lo) by (bit_vector)
            requires hi < 16, lo < 16;
        out[i] = (hi << 4) | lo;
        i += 1;
    }
    Some(out)
}

/// The hex digit for `n` (below 16), in lower or upper case.
pub open spec fn hex_digit(n: u8, upper: bool) -> u8 {
    if n < 10 {
        (0x30 + n) as u8
    } else if upper {
        (0x41 + n - 10) as u8
    } else {
        (0x61 + n - 10) as u8
    }
}

/// `bytes` spelled in hex, two digits a byte, high nibble first.
pub open spec fn hex_spelling(bytes: Seq<u8>, upper: bool) -> Seq<u8> {
    Seq::new(2 * bytes.len(), |j: int| if j % 2 == 0 {
        hex_digit(bytes[j / 2] / 16, upper)
    } else {
        hex_digit(bytes[j / 2] % 16, upper)
    })
}

/// Reading 32 bytes spelled in lower- or upper-case hex gives them back.
pub proof fn lemma_hex_round_trip(bytes: [u8; 32], upper: bool)
    ensures
        hex32_ok(hex_spelling(bytes@, upper)),
        forall|i: int| 0 <= i < 32 ==> #[trigger] hex32_byte(hex_spelling(bytes@, upper), i) == bytes@[i],
{
    let s = hex_spelling(bytes@, upper);
    assert forall|n: u8| n < 16 implies #[trigger] nibble_value(hex_digit(n, upper)) == Some(n) by {}
    assert forall|i: int| 0 <= i < 64 implies #[trigger] nibble_value(s[i]) is Some by {
        let b = bytes@[i / 2];
        assert(b / 16 < 16 && b % 16 < 16);
        assert(nibble_value(hex_digit(b / 16, upper)) == Some(b / 16));
        assert(nibble_value(hex_digit(b % 16, upper)) == Some(b % 16));
    }
    assert forall|i: int| 0 <= i < 32 implies #[trigger] hex32_byte(s, i) == bytes@[i] by {
        let b = bytes@[i];
        assert((2 * i) / 2 == i && (2 * i) % 2 == 0);
        assert((2 * i + 1) / 2 == i && (2 * i + 1) % 2 == 1);
        assert(nibble_value(hex_digit(b / 16, upper)) == Some(b / 16));
        assert(nibble_value(hex_digit(b % 16, upper)) == Some(b % 16));
        assert((b / 16) * 16 + b % 16 == b);
    }
}

/// Whether `bytes` is 64 hex digits, the form the update trust anchor is
/// configured in.
pub fn valid_hex_32(bytes: &[u8]) -> (r: bool)
    ensures
        r == hex32_ok(bytes@),
{
    if bytes.len() != 64 {
        return false;
    }
    let mut i: usize = 0;
    while i < bytes.len()
        invariant
            bytes@.len() == 64,
            i <= 64,
            forall|j: int| 0 <= j < i ==> #[trigger] nibble_value(bytes@[j]) is Some,
        decreases 64 - i,
    {
        let b = bytes[i];
        if !((b >= 0x30 && b <= 0x39) || (b >= 0x61 && b <= 0x66) || (b >= 0x41 && b <= 0x46)) {
            assert(nibble_value(bytes@[i as int]) is None);
            return false;
        }
        i += 1;
    }
    true
}

/// Whether a configured trust anchor is present and well formed.
pub fn valid_update_anchor_env(configured_hex: Option<&[u8]>) -> (r: bool)
    ensures
        r == (configured_hex matches Some(h) && hex32_ok(h@)),
{
    match configured_hex {
        Some(hex) => valid_hex_32(hex),
        None => false,
    }
}

/// The SHA-256 of the update signing key the firmware was built to trust,
/// from its configured hex form; none when unset or malformed.
pub fn trusted_pubkey_sha256(configured_hex: Option<&[u8]>) -> (r: Option<[u8; 32]>)
    ensures
        match configured_hex {
            None => r is None,
            Some(hex) => hex32_ok(hex@) ==> (r matches Some(out) && forall|i: int| 0 <= i < 32 ==> #[trigger] out@[i] == hex32_byte(hex@, i)),
        },
        configured_hex matches Some(hex) && !hex32_ok(hex@) ==> r is None,
{
    match configured_hex {
        Some(hex) => parse_hex_32(hex),
        None => None,
    }
}

/// The decimal number spelled by ASCII digits.
pub open spec fn decimal_value(s: Seq<u8>) -> int
    decreases s.len(),
{
    if s.len() == 0 { 0 } else { decimal_value(s.drop_last()) * 10 + (s.last() - 0x30) }
}

pub open spec fn all_digits(s: Seq<u8>) -> bool {
    forall|i: int| 0 <= i < s.len() ==> 0x30 <= #[trigger] s[i] <= 0x39
}

proof fn lemma_decimal_monotone(s: Seq<u8>, n: int)
    requires
        all_digits(s),
        0 <= n <= s.len(),
    ensures
        decimal_value(s.subrange(0, n)) <= decimal_value(s),
        decimal_value(s) >= 0,
    decreases s.len() - n,
{
    if n < s.len() {
        lemma_decimal_monotone(s, n + 1);
        let a = s.subrange(0, n + 1);
        assert(a.drop_last() =~= s.subrange(0, n));
        lemma_decimal_nonneg(s.subrange(0, n));
    } else {
        assert(s.subrange(0, n) =~= s);
    }
    lemma_decimal_nonneg(s);
}

proof fn lemma_decimal_nonneg(s: Seq<u8>)
    requires
        all_digits(s),
    ensures
        decimal_value(s) >= 0,
    decreases s.len(),
{
    if s.len() > 0 {
        assert(all_digits(s.drop_last()));
        lemma_decimal_nonneg(s.drop_last());
    }
}

/// A non-empty run of digits whose value fits in a `u32`; anything else is none.
pub fn parse_u32_decimal(value: &[u8]) -> (r: Option<u32>)
    ensures
        (value@.len() > 0 && all_digits(value@) && decimal_value(value@) <= u32::MAX) ==> r == Some(decimal_value(value@) as u32),
        !(value@.len() > 0 && all_digits(value@) && decimal_value(value@) <= u32::MAX) ==> r is None,
{
    if value.len() == 0 {
        return None;
    }
    let mut out: u32 = 0;
    let mut i: usize = 0;
    while i < value.len()
        invariant
            i <= value@.len(),
            all_digits(value@.subrange(0, i as int)),
            out == decimal_value(value@.subrange(0, i as int)),
        decreases value@.len() - i,
    {
        let b = value[i];
        let ghost pre = value@.subrange(0, i as int);
        let ghost post = value@.subrange(0, i + 1);
        assert(post.drop_last() =~= pre);
        if !(0x30 <= b && b <= 0x39) {
            proof {
                assert(!all_digits(value@)) by {
                    assert(!(0x30 <= value@[i as int] <= 0x39));
                }
            }
            return None;
        }
        let next = match out.checked_mul(10) {
            Some(v) => match v.checked_add((b - 0x30) as u32) {
                Some(w) => w,
                None => {
                    proof { self::lemma_overflow_stays(value@, i as int); }
                    return None;
                },
            },
            None => {
                proof { self::lemma_overflow_stays(value@, i as int); }
                return None;
            },
        };
        out = next;
        i += 1;
    }
    proof { assert(value@.subrange(0, value@.len() as int) =~= value@); }
    Some(out)
}

/// Once a prefix overflows, the whole value does (or a later byte is no digit).
proof fn lemma_overflow_stays(s: Seq<u8>, i: int)
    requires
        0 <= i < s.len(),
        all_digits(s.subrange(0, i)),
        0x30 <= s[i] <= 0x39,
        decimal_value(s.subrange(0, i)) * 10 + (s[i] - 0x30) > u32::MAX,
    ensures
        !(all_digits(s) && decimal_value(s) <= u32::MAX),
{
    if all_digits(s) {
        let p = s.subrange(0, i + 1);
        assert(p.drop_last() =~= s.subrange(0, i));
        lemma_decimal_monotone(s, i + 1);
    }
}

/// The configured release version; zero when unset or not a number.
pub fn firmware_release_version(configured: Option<&[u8]>) -> (v: u32)
    ensures
        match configured {
            None => v == 0,
            Some(s) => v == match (if s@.len() > 0 && all_digits(s@) && decimal_value(s@) <= u32::MAX { Some(decimal_value(s@) as u32) } else { None }) {
                Some(n) => n,
                None => 0,
            },
        },
{
    match configured {
        Some(s) => match parse_u32_decimal(s) {
            Some(n) => n,
            None => 0,
        },
        None => 0,
    }
}

/// Check a chunk against the stream: not too large, at the expected offset,
/// and inside the image.
pub fn validate_chunk_bounds(bytes_received: u32, image_size: u32, offset: u32, chunk_len: usize, max_chunk: usize)
    -> (r: Result<(), UpdateStreamError>)
    ensures
        chunk_len > max_chunk ==> r == Err::<(), UpdateStreamError>(UpdateStreamError::Image(UpdateImageStreamError::ChunkTooLarge)),
        chunk_len <= max_chunk && bytes_received != offset
            ==> r == Err::<(), UpdateStreamError>(UpdateStreamError::Image(UpdateImageStreamError::OffsetMismatch)),
        chunk_len <= max_chunk && bytes_received == offset && (offset + chunk_len > u32::MAX || offset + chunk_len > image_size)
            ==> r == Err::<(), UpdateStreamError>(UpdateStreamError::Image(UpdateImageStreamError::Overflow)),
        chunk_len <= max_chunk && bytes_received == offset && offset + chunk_len <= image_size ==> r is Ok,
{
    if chunk_len > max_chunk {
        return Err(UpdateStreamError::Image(UpdateImageStreamError::ChunkTooLarge));
    }
    if bytes_received != offset {
        return Err(UpdateStreamError::Image(UpdateImageStreamError::OffsetMismatch));
    }
    if chunk_len > u32::MAX as usize {
        return Err(UpdateStreamError::Image(UpdateImageStreamError::Overflow));
    }
    match offset.checked_add(chunk_len as u32) {
        None => Err(UpdateStreamError::Image(UpdateImageStreamError::Overflow)),
        Some(next) => if next > image_size {
            Err(UpdateStreamError::Image(UpdateImageStreamError::Overflow))
        } else {
            Ok(())
        },
    }
}

/// The OTA slots of the boot data.
#[derive(Debug, Clone, Copy, PartialEq, Eq, Structural)]
pub enum OtaSlot {
    NoSlot,
    Slot0,
    Slot1,
}

/// The slot after `s`: booting from none or the second goes to the first.
pub open spec fn next_slot(s: OtaSlot) -> OtaSlot {
    match s {
        OtaSlot::NoSlot => OtaSlot::Slot0,
        OtaSlot::Slot0 => OtaSlot::Slot1,
        OtaSlot::Slot1 => OtaSlot::Slot0,
    }
}

/// An update never goes to the slot the running firmware boots from: from
/// either OTA slot it goes to the other one, from none to the first, and two
/// updates in a row come back to the slot they started from.
pub proof fn lemma_update_goes_to_other_slot(current: OtaSlot)
    ensures
        next_slot(current) != OtaSlot::NoSlot,
        current != OtaSlot::NoSlot ==> next_slot(current) != current,
        current != OtaSlot::NoSlot ==> next_slot(next_slot(current)) == current,
{
}

pub fn slot_next(s: OtaSlot) -> (r: OtaSlot)
    ensures
        r == next_slot(s),
        r != OtaSlot::NoSlot,
        s != OtaSlot::NoSlot ==> r != s,
{
    match s {
        OtaSlot::NoSlot => OtaSlot::Slot0,
        OtaSlot::Slot0 => OtaSlot::Slot1,
        OtaSlot::Slot1 => OtaSlot::Slot0,
    }
}

/// Where the new image goes.
#[derive(Debug, Clone, Copy, PartialEq, Eq, Structural)]
pub struct OtaTarget {
    pub slot: OtaSlot,
    pub offset: u32,
    pub len: u32,
}

/// A partition as `(offset, length)`.
pub open spec fn partition_fits(offset: u32, len: u32, image_size: u32, capacity: usize) -> Result<(), UpdateFlashError> {
    if image_size > len {
        Err(UpdateFlashError::ImageTooLarge)
    } else if offset % (OTA_SECTOR_SIZE as u32) != 0 || len % (OTA_SECTOR_SIZE as u32) != 0 {
        Err(UpdateFlashError::OutOfBounds)
    } else if (if offset + len > u32::MAX { u32::MAX as int } else { offset + len }) > capacity {
        Err(UpdateFlashError::OutOfBounds)
    } else {
        Ok(())
    }
}

/// Pick the slot after the running one, and check that the image fits it,
/// that it is sector aligned, and that it lies inside the flash.
pub fn choose_ota_target(current: OtaSlot, ota0: Option<(u32, u32)>, ota1: Option<(u32, u32)>, image_size: u32, capacity: usize)
    -> (r: Result<OtaTarget, UpdateFlashError>)
    ensures
        ({
            let slot = next_slot(current);
            let part = if slot == OtaSlot::Slot1 { ota1 } else { ota0 };
            match part {
                None => r == Err::<OtaTarget, UpdateFlashError>(UpdateFlashError::MissingOtaSlot),
                Some((offset, len)) => match partition_fits(offset, len, image_size, capacity) {
                    Err(e) => r == Err::<OtaTarget, UpdateFlashError>(e),
                    Ok(()) => r == Ok::<OtaTarget, UpdateFlashError>(OtaTarget { slot, offset, len }),
                },
            }
        }),
        r matches Ok(t) ==> t.slot != OtaSlot::NoSlot && (current != OtaSlot::NoSlot ==> t.slot != current),
        r matches Ok(t) ==> (t.slot == OtaSlot::Slot1 ==> ota1 == Some((t.offset, t.len)))
            && (t.slot == OtaSlot::Slot0 ==> ota0 == Some((t.offset, t.len))),
{
    let slot = slot_next(current);
    let part = match slot {
        OtaSlot::Slot1 => ota1,
        _ => ota0,
    };
    let (offset, len) = match part {
        Some(p) => p,
        None => return Err(UpdateFlashError::MissingOtaSlot),
    };
    if image_size > len {
        return Err(UpdateFlashError::ImageTooLarge);
    }
    if offset % (OTA_SECTOR_SIZE as u32) != 0 || len % (OTA_SECTOR_SIZE as u32) != 0 {
        return Err(UpdateFlashError::OutOfBounds);
    }
    let end = offset.saturating_add(len);
    if end as usize > capacity {
        return Err(UpdateFlashError::OutOfBounds);
    }
    Ok(OtaTarget { slot, offset, len })
}

/// The state of a booted OTA image.
#[derive(Debug, Clone, Copy, PartialEq, Eq, Structural)]
pub enum OtaImageState {
    New,
    PendingVerify,
    Valid,
    Invalid,
    Aborted,
    Undefined,
}

/// Whether to mark the running image valid: never when no OTA slot is
/// booted, otherwise as the update policy says for its state.
pub fn mark_running_image_valid(current: OtaSlot, policy_marks_state: bool) -> (mark: bool)
    ensures
        mark == (current != OtaSlot::NoSlot && policy_marks_state),
{
    current != OtaSlot::NoSlot && policy_marks_state
}

/// Writes the image into the target slot sector by sector, buffering the
/// sector being filled; the flash operations are queued for the caller.
pub struct OtaWriter {
    pub target: OtaTarget,
    pub image_size: u32,
    pub image_sha256: [u8; 32],
    pub sector_base: Option<u32>,
    pub sector: Vec<u8>,
    pub sector_dirty: bool,
    pub ops: Vec<FlashOp>,
}

impl OtaWriter {
    pub open spec fn wf(&self) -> bool {
        &&& self.sector@.len() == OTA_SECTOR_SIZE
        &&& self.sector_dirty ==> self.sector_base is Some
    }

    /// The flash operations queued so far.
    pub open spec fn ops_view(&self) -> Seq<FlashOp> {
        self.ops@
    }

    pub fn new(target: OtaTarget, image_size: u32, image_sha256: [u8; 32]) -> (w: Self)
        ensures
            w.wf(),
            w.target == target,
            w.image_size == image_size,
            w.image_sha256 == image_sha256,
            w.ops_view().len() == 0,
    {
        OtaWriter {
            target,
            image_size,
            image_sha256,
            sector_base: None,
            sector: crate::bytes::ff_vec(OTA_SECTOR_SIZE),
            sector_dirty: false,
            ops: Vec::new(),
        }
    }

    /// Hand out the queued flash operations.
    pub fn take_ops(&mut self) -> (ops: Vec<FlashOp>)
        requires
            old(self).wf(),
        ensures
            final(self).wf(),
            ops@ == old(self).ops_view(),
            final(self).ops_view().len() == 0,
    {
        let mut ops: Vec<FlashOp> = Vec::new();
        std::mem::swap(&mut ops, &mut self.ops);
        ops
    }

    /// Where the buffered sector goes in flash: the slot's offset plus the
    /// sector's base.
    pub open spec fn flush_addr(&self) -> int {
        self.target.offset + self.sector_base->0
    }

    /// How many bytes of the buffered sector lie inside the slot.
    pub open spec fn flush_len(&self) -> int {
        let rest = self.target.len - self.sector_base->0;
        if rest < OTA_SECTOR_SIZE { rest } else { OTA_SECTOR_SIZE as int }
    }

    /// The buffered sector can be written: it starts inside the slot and its
    /// flash range fits in 32-bit addresses.
    pub open spec fn flush_in_range(&self) -> bool {
        &&& self.sector_base is Some
        &&& self.sector_base->0 <= self.target.len
        &&& self.flush_addr() + self.flush_len() <= u32::MAX
    }

    /// `ops` is `pre`'s queue followed by the erase of the buffered sector's
    /// flash range and the write of the part of it inside the slot.
    pub open spec fn queued_flush(pre: OtaWriter, ops: Seq<FlashOp>) -> bool {
        let n = pre.ops@.len() as int;
        &&& ops.len() == n + 2
        &&& ops.subrange(0, n) == pre.ops@
        &&& ops[n] == FlashOp::Erase { start: pre.flush_addr() as u32, end: (pre.flush_addr() + pre.flush_len()) as u32 }
        &&& ops[n + 1] matches FlashOp::Write { addr, bytes }
            && addr == pre.flush_addr() && bytes@ == pre.sector@.subrange(0, pre.flush_len())
    }

    /// Queue the erase and write of the buffered sector, if it changed.
    pub fn flush_sector(&mut self) -> (r: Result<(), UpdateFlashError>)
        requires
            old(self).wf(),
        ensures
            final(self).wf(),
            !old(self).sector_dirty ==> r is Ok && *final(self) == *old(self),
            old(self).sector_dirty && !old(self).flush_in_range()
                ==> r == Err::<(), UpdateFlashError>(UpdateFlashError::OutOfBounds) && *final(self) == *old(self),
            old(self).sector_dirty && old(self).flush_in_range() ==> {
                &&& r is Ok
                &&& OtaWriter::queued_flush(*old(self), final(self).ops@)
                &&& *final(self) == (OtaWriter { ops: final(self).ops, sector_dirty: false, ..*old(self) })
            },
    {
        if !self.sector_dirty {
            return Ok(());
        }
        let sector_base = match self.sector_base {
            Some(b) => b,
            None => return Err(UpdateFlashError::OutOfBounds),
        };
        let address = match self.target.offset.checked_add(sector_base) {
            Some(a) => a,
            None => return Err(UpdateFlashError::OutOfBounds),
        };
        let remaining = match self.target.len.checked_sub(sector_base) {
            Some(r) => r as usize,
            None => return Err(UpdateFlashError::OutOfBounds),
        };
        let write_len = if remaining < OTA_SECTOR_SIZE { remaining } else { OTA_SECTOR_SIZE };
        let erase_end = match address.checked_add(write_len as u32) {
            Some(e) => e,
            None => return Err(UpdateFlashError::OutOfBounds),
        };
        let ghost pre = *self;
        self.ops.push(FlashOp::Erase { start: address, end: erase_end });
        let bytes = crate::bytes::copy_range(self.sector.as_slice(), 0, write_len);
        self.ops.push(FlashOp::Write { addr: address, bytes });
        self.sector_dirty = false;
        proof {
            let n = pre.ops@.len() as int;
            assert(self.ops@.subrange(0, n) =~= pre.ops@);
        }
        Ok(())
    }

    /// Switch the buffer to the sector at `sector_base`, flushing the old one.
    pub fn ensure_sector(&mut self, sector_base: u32) -> (r: Result<(), UpdateFlashError>)
        requires
            old(self).wf(),
        ensures
            final(self).wf(),
            old(self).sector_base == Some(sector_base) ==> r is Ok && *final(self) == *old(self),
            old(self).sector_base != Some(sector_base) && old(self).sector_dirty && !old(self).flush_in_range()
                ==> r == Err::<(), UpdateFlashError>(UpdateFlashError::OutOfBounds) && *final(self) == *old(self),
            old(self).sector_base != Some(sector_base) && !(old(self).sector_dirty && !old(self).flush_in_range()) ==> {
                &&& r is Ok
                &&& final(self).sector_base == Some(sector_base)
                &&& final(self).sector@ == crate::bytes::ff_seq(OTA_SECTOR_SIZE as nat)
                &&& !final(self).sector_dirty
                &&& final(self).target == old(self).target
                &&& final(self).image_size == old(self).image_size
                &&& final(self).image_sha256 == old(self).image_sha256
                &&& if old(self).sector_dirty {
                    OtaWriter::queued_flush(*old(self), final(self).ops@)
                } else {
                    final(self).ops@ == old(self).ops@
                }
            },
    {
        if self.sector_base == Some(sector_base) {
            return Ok(());
        }
        self.flush_sector()?;
        self.sector = crate::bytes::ff_vec(OTA_SECTOR_SIZE);
        self.sector_base = Some(sector_base);
        Ok(())
    }

    /// Buffer `chunk` at image offset `offset`; each sector that fills up
    /// is flushed. A chunk reaching past the slot is refused.
    pub fn write_chunk(&mut self, offset: u32, chunk: &[u8]) -> (r: Result<(), UpdateFlashError>)
        requires
            old(self).wf(),
        ensures
            final(self).wf(),
            (offset + chunk@.len() > u32::MAX || offset + chunk@.len() > old(self).target.len)
                ==> r == Err::<(), UpdateFlashError>(UpdateFlashError::OutOfBounds),
    {
        if chunk.len() > u32::MAX as usize {
            return Err(UpdateFlashError::OutOfBounds);
        }
        let end = match offset.checked_add(chunk.len() as u32) {
            Some(e) => e,
            None => return Err(UpdateFlashError::OutOfBounds),
        };
        if end > self.target.len {
            return Err(UpdateFlashError::OutOfBounds);
        }
        let mut cursor: u32 = offset;
        let mut done: usize = 0;
        while done < chunk.len()
            invariant
                self.wf(),
                done <= chunk@.len(),
                cursor == offset + done,
                offset + chunk@.len() <= u32::MAX,
                offset + chunk@.len() <= self.target.len,
                self.target == old(self).target,
            decreases chunk@.len() - done,
        {
            let sector_base = cursor / (OTA_SECTOR_SIZE as u32) * (OTA_SECTOR_SIZE as u32);
            self.ensure_sector(sector_base)?;
            let sector_offset = (cursor - sector_base) as usize;
            let room = OTA_SECTOR_SIZE - sector_offset;
            let left = chunk.len() - done;
            let take = if left < room { left } else { room };
            let part = vstd::slice::slice_subrange(chunk, done, done + take);
            crate::bytes::write_at(&mut self.sector, sector_offset, part);
            self.sector_dirty = true;
            cursor = cursor + take as u32;
            done = done + take;
            if sector_offset + take == OTA_SECTOR_SIZE {
                self.flush_sector()?;
            }
        }
        Ok(())
    }
}

/// An image is accepted only when the digest read back equals the manifest's.
pub fn check_written_digest(digest: &[u8; 32], expected: &[u8; 32]) -> (r: Result<(), UpdateFlashError>)
    ensures
        digest@ == expected@ ==> r is Ok,
        digest@ != expected@ ==> r == Err::<(), UpdateFlashError>(UpdateFlashError::VerifyMismatch),
{
    if crate::bytes::seq_eq(digest.as_slice(), expected.as_slice()) {
        Ok(())
    } else {
        Err(UpdateFlashError::VerifyMismatch)
    }
}

} // verus!
