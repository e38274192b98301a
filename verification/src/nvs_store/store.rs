//! The NVS store over an in-memory image of the partition. Every change is
//! applied to the image and queued as flash operations; running the queued
//! operations on the flash makes the flash equal the image.
use vstd::prelude::*;
use crate::bytes::{all_ff, ff_seq, ff_vec, is_all_ff, splice, write_at, copy_range, lemma_splice_read, lemma_splice_outside};
use crate::limits::MAX_SEED_SLOTS;
use super::layout::NVS_SECTOR_SIZE;
use super::flash::{FlashOp, RegionError, apply_ops, erased_in, first_chunk_erased_until_last, rel, sector_region_ok, write_region_ops, erase_region_ops, lemma_apply_ops_push, lemma_apply_ops_concat};
use super::layout::{
    ATTEMPT_MARKS_ADDR, ATTEMPT_MARKS_END, ATTEMPT_MARK_SIZE, HEADER_SIZE, MAX_PIN_ATTEMPTS,
    NVS_BASE_ADDR, NVS_IMAGE_LEN, NVS_STORAGE_END, SEED_CORE_STORAGE_END, SEED_CORE_STORAGE_SIZE,
    SEED_CORE_TOTAL_SIZE, SLOT_SIZE, NVS_WRITE_CHUNK_SIZE,
};
use super::records::{
    Header, HeaderView, SlotRecord, SlotView, header_bytes_valid, header_view_of, header_from_bytes,
    header_to_bytes, header_bytes, header_view_initialized, slot_bytes_valid, slot_view_of, slot_from_bytes,
    header_valid,
};

verus! {

/// Errors of the seed store.
#[derive(Clone, Copy, Debug, PartialEq, Eq, Structural)]
pub enum NvsError {
    Flash,
    Crypto,
    NotInitialized,
    WrongPin,
    LockedOut,
    AlreadyInitialized,
    Full,
    InvalidSlot,
    InvalidCalibration,
    InvalidLabel,
}

/// What `storage_status` reports.
#[derive(Clone, Copy, Debug, PartialEq, Eq, Structural)]
pub struct NvsStorageStatus {
    pub initialized: bool,
    pub schema_version: u8,
    pub slot_count: u8,
}

// ---------------------------------------------------------------------------
// Reading the image
// ---------------------------------------------------------------------------

/// The `len` bytes at flash address `addr`.
pub open spec fn img_region(img: Seq<u8>, addr: int, len: int) -> Seq<u8> {
    img.subrange(rel(addr), rel(addr) + len)
}

/// The header bytes are neither erased nor corrupt: the header they hold.
pub open spec fn stored_header(img: Seq<u8>) -> Option<HeaderView> {
    let b = img_region(img, NVS_BASE_ADDR as int, HEADER_SIZE as int);
    if all_ff(b) || !header_bytes_valid(b) { None } else { Some(header_view_of(b)) }
}

/// Applying `added` to `img` one operation at a time, no state between the
/// first and the last holds a readable header.
pub open spec fn header_erased_while(img: Seq<u8>, added: Seq<FlashOp>) -> bool {
    forall|m: int| 0 < m < added.len() ==> #[trigger] stored_header(apply_ops(img, added.subrange(0, m))) is None
}

pub open spec fn slot_addr(index: int) -> int {
    NVS_BASE_ADDR + HEADER_SIZE + index * SLOT_SIZE
}

/// The record in slot `index`, if that slot holds a plausible record.
pub open spec fn stored_slot(img: Seq<u8>, index: int) -> Option<SlotView> {
    if index < 0 || index >= MAX_SEED_SLOTS {
        None
    } else {
        let b = img_region(img, slot_addr(index), SLOT_SIZE as int);
        if all_ff(b) || !slot_bytes_valid(b) { None } else { Some(slot_view_of(b)) }
    }
}

pub open spec fn mark_block(img: Seq<u8>, index: int) -> Seq<u8> {
    img_region(img, ATTEMPT_MARKS_ADDR + index * ATTEMPT_MARK_SIZE, ATTEMPT_MARK_SIZE as int)
}

/// Programmed attempt marks among the first `n` blocks.
pub open spec fn marks_in(img: Seq<u8>, n: nat) -> nat
    decreases n,
{
    if n == 0 {
        0
    } else {
        marks_in(img, (n - 1) as nat) + if all_ff(mark_block(img, n - 1)) { 0nat } else { 1nat }
    }
}

/// Failed PIN attempts recorded by marks.
pub open spec fn mark_count(img: Seq<u8>) -> nat {
    marks_in(img, MAX_PIN_ATTEMPTS as nat)
}

/// `after` differs from `before` at most in the attempt-marks sector: the
/// header, the slots, the labels and every other record are as they were.
pub open spec fn only_marks_differ(before: Seq<u8>, after: Seq<u8>) -> bool {
    &&& after.len() == before.len()
    &&& forall|i: int| 0 <= i < before.len() && !(rel(ATTEMPT_MARKS_ADDR as int) <= i < rel(ATTEMPT_MARKS_END as int))
        ==> #[trigger] after[i] == before[i]
}

/// Failed PIN attempts charged: the larger of the header counter and the marks.
pub open spec fn attempts_used(img: Seq<u8>, h: HeaderView) -> nat {
    if h.attempts as nat >= mark_count(img) { h.attempts as nat } else { mark_count(img) }
}

/// Every slot the header counts holds a record.
pub open spec fn slots_present(img: Seq<u8>, h: HeaderView) -> bool {
    &&& header_view_initialized(h)
    &&& h.slot_count != 0
    &&& forall|i: int| 0 <= i < h.slot_count ==> stored_slot(img, i) is Some
}

/// The store holds an initialized header and all its slots.
pub open spec fn store_initialized(img: Seq<u8>) -> bool {
    match stored_header(img) {
        Some(h) => slots_present(img, h),
        None => false,
    }
}

pub struct NvsStore {
    image: Vec<u8>,
    pending: Vec<FlashOp>,
    flushed: Ghost<Seq<u8>>,
}

impl View for NvsStore {
    type V = Seq<u8>;

    closed spec fn view(&self) -> Seq<u8> {
        self.image@
    }
}

impl NvsStore {
    /// The image length is right and the queued operations bring the flash
    /// as last flushed to the image.
    pub closed spec fn wf(&self) -> bool {
        &&& self.image@.len() == NVS_IMAGE_LEN
        &&& self.flushed@.len() == NVS_IMAGE_LEN
        &&& apply_ops(self.flushed@, self.pending@) == self.image@
    }

    /// The flash contents when the queued operations were last taken.
    pub closed spec fn flash_view(&self) -> Seq<u8> {
        self.flushed@
    }

    /// The operations queued since then.
    pub closed spec fn pending_view(&self) -> Seq<FlashOp> {
        self.pending@
    }

    /// A well-formed store has a full-size image that the flash plus the
    /// queued operations reproduce.
    pub proof fn lemma_wf(&self)
        requires
            self.wf(),
        ensures
            self@.len() == NVS_IMAGE_LEN,
            apply_ops(self.flash_view(), self.pending_view()) == self@,
    {
    }

    /// A store over an erased partition.
    pub fn new() -> (s: Self)
        ensures
            s.wf(),
            s@ == ff_seq(NVS_IMAGE_LEN as nat),
            s.pending_view().len() == 0,
    {
        let image = ff_vec(NVS_IMAGE_LEN);
        let ghost g = image@;
        NvsStore { image, pending: Vec::new(), flushed: Ghost(g) }
    }

    /// A store over the partition contents read from flash.
    pub fn from_image(image: Vec<u8>) -> (r: Option<Self>)
        ensures
            match r {
                Some(s) => image@.len() == NVS_IMAGE_LEN && s.wf() && s@ == image@ && s.flash_view() == image@
                    && s.pending_view().len() == 0,
                None => image@.len() != NVS_IMAGE_LEN,
            },
    {
        if image.len() != NVS_IMAGE_LEN {
            return None;
        }
        let ghost g = image@;
        Some(NvsStore { image, pending: Vec::new(), flushed: Ghost(g) })
    }

    /// The image of the partition.
    pub fn image(&self) -> (r: &[u8])
        ensures
            r@ == self@,
    {
        self.image.as_slice()
    }

    /// Hand out the queued flash operations; afterwards the flash is taken to
    /// equal the image.
    pub fn take_pending_ops(&mut self) -> (ops: Vec<FlashOp>)
        requires
            old(self).wf(),
        ensures
            final(self).wf(),
            final(self)@ == old(self)@,
            apply_ops(old(self).flash_view(), ops@) == final(self)@,
            final(self).flash_view() == final(self)@,
            final(self).pending_view().len() == 0,
    {
        let mut ops: Vec<FlashOp> = Vec::new();
        std::mem::swap(&mut ops, &mut self.pending);
        let ghost g = self.image@;
        self.flushed = Ghost(g);
        ops
    }

    fn read_region(&self, addr: u32, len: usize) -> (r: Vec<u8>)
        requires
            self.wf(),
            NVS_BASE_ADDR <= addr,
            rel(addr as int) + len <= NVS_IMAGE_LEN,
        ensures
            r@ == img_region(self@, addr as int, len as int),
    {
        copy_range(self.image.as_slice(), (addr - NVS_BASE_ADDR) as usize, len)
    }

    /// Write `region` over the sectors `[start, end)`.
    fn commit_region(&mut self, start: u32, end: u32, region: &[u8], defer_first: bool) -> (r: Result<(), NvsError>)
        requires
            old(self).wf(),
            sector_region_ok(start as int, end as int),
        ensures
            final(self).wf(),
            final(self).flash_view() == old(self).flash_view(),
            match r {
                Ok(()) => region@.len() == end - start && final(self)@ == splice(old(self)@, rel(start as int), region@),
                Err(e) => e == NvsError::Flash && region@.len() != end - start && final(self)@ == old(self)@,
            },
            final(self).pending_view().len() >= old(self).pending_view().len(),
            final(self).pending_view().subrange(0, old(self).pending_view().len() as int) == old(self).pending_view(),
            r is Ok && defer_first && start == NVS_BASE_ADDR && region@.len() > NVS_WRITE_CHUNK_SIZE
                ==> header_erased_while(old(self)@, final(self).pending_view().subrange(
                    old(self).pending_view().len() as int, final(self).pending_view().len() as int)),
    {
        let ghost img = self.image@;
        let ghost before = self.pending@;
        match write_region_ops(&mut self.pending, start, end, region, defer_first, Ghost(img)) {
            Ok(()) => {
                write_at(&mut self.image, (start - NVS_BASE_ADDR) as usize, region);
                proof {
                    let added = self.pending@.subrange(before.len() as int, self.pending@.len() as int);
                    assert(self.pending@ =~= before + added);
                    lemma_apply_ops_concat(self.flushed@, before, added);
                    if defer_first && start == NVS_BASE_ADDR && region@.len() > NVS_WRITE_CHUNK_SIZE {
                        assert(first_chunk_erased_until_last(img, added, rel(start as int)));
                        assert forall|m: int| 0 < m < added.len() implies #[trigger] stored_header(apply_ops(img, added.subrange(0, m))) is None by {
                            let x = apply_ops(img, added.subrange(0, m));
                            assert(erased_in(x, rel(start as int), rel(start as int) + NVS_WRITE_CHUNK_SIZE));
                            assert(x.len() == NVS_IMAGE_LEN);
                            assert(all_ff(img_region(x, NVS_BASE_ADDR as int, HEADER_SIZE as int))) by {
                                assert forall|i: int| 0 <= i < HEADER_SIZE implies img_region(x, NVS_BASE_ADDR as int, HEADER_SIZE as int)[i] == 0xFFu8 by {
                                    assert(x[i] == 0xFFu8);
                                }
                            }
                        }
                    }
                }
                Ok(())
            },
            Err(_) => Err(NvsError::Flash),
        }
    }

    /// Erase the sectors `[start, end)`.
    fn commit_erase(&mut self, start: u32, end: u32) -> (r: Result<(), NvsError>)
        requires
            old(self).wf(),
            sector_region_ok(start as int, end as int),
        ensures
            final(self).wf(),
            final(self).flash_view() == old(self).flash_view(),
            r is Ok,
            final(self)@ == splice(old(self)@, rel(start as int), ff_seq((end - start) as nat)),
    {
        let ghost img = self.image@;
        let ghost before = self.pending@;
        let _ = erase_region_ops(&mut self.pending, start, end, Ghost(img));
        let blank = ff_vec((end - start) as usize);
        write_at(&mut self.image, (start - NVS_BASE_ADDR) as usize, blank.as_slice());
        proof {
            let added = self.pending@.subrange(before.len() as int, self.pending@.len() as int);
            assert(self.pending@ =~= before + added);
            lemma_apply_ops_concat(self.flushed@, before, added);
            assert(self.image@ =~= Seq::new(img.len(), |i: int| if rel(start as int) <= i < rel(end as int) { 0xFFu8 } else { img[i] }));
        }
        Ok(())
    }

    /// Program `bytes` at `addr` without erasing (for attempt marks).
    fn commit_program(&mut self, addr: u32, bytes: Vec<u8>)
        requires
            old(self).wf(),
            NVS_BASE_ADDR <= addr,
            rel(addr as int) + bytes@.len() <= NVS_IMAGE_LEN,
        ensures
            final(self).wf(),
            final(self).flash_view() == old(self).flash_view(),
            final(self)@ == splice(old(self)@, rel(addr as int), bytes@),
    {
        write_at(&mut self.image, (addr - NVS_BASE_ADDR) as usize, bytes.as_slice());
        let op = FlashOp::Write { addr, bytes };
        let ghost before = self.pending@;
        self.pending.push(op);
        proof {
            lemma_apply_ops_push(self.flushed@, before, op);
        }
    }
}


/// Image offset of `[address, address + len)` when it lies inside the seed
/// core (header, slots, calibration, labels and preferences).
pub open spec fn seed_core_range_ok(address: int, len: int) -> bool {
    NVS_BASE_ADDR <= address && rel(address) + len <= SEED_CORE_TOTAL_SIZE
}

pub fn relative_seed_offset(address: u32, len: usize) -> (r: Result<usize, NvsError>)
    ensures
        match r {
            Ok(off) => seed_core_range_ok(address as int, len as int) && off == rel(address as int),
            Err(e) => e == NvsError::Flash && !seed_core_range_ok(address as int, len as int),
        },
{
    if address < NVS_BASE_ADDR {
        return Err(NvsError::Flash);
    }
    let start = (address - NVS_BASE_ADDR) as usize;
    match start.checked_add(len) {
        None => Err(NvsError::Flash),
        Some(end) => if end > SEED_CORE_TOTAL_SIZE { Err(NvsError::Flash) } else { Ok(start) },
    }
}

pub fn slot_sector_offset(index: usize) -> (r: Result<usize, NvsError>)
    ensures
        match r {
            Ok(off) => index < MAX_SEED_SLOTS && off == HEADER_SIZE + index * SLOT_SIZE,
            Err(e) => e == NvsError::InvalidSlot && index >= MAX_SEED_SLOTS,
        },
{
    if index >= MAX_SEED_SLOTS {
        return Err(NvsError::InvalidSlot);
    }
    let r = relative_seed_offset(NVS_BASE_ADDR + HEADER_SIZE as u32 + (index * SLOT_SIZE) as u32, SLOT_SIZE);
    match r {
        Ok(off) => Ok(off),
        Err(_) => Err(NvsError::InvalidSlot),
    }
}

/// Every attempt-mark block of `img` is erased.
pub proof fn lemma_marks_erased(img: Seq<u8>, n: nat)
    requires
        n <= MAX_PIN_ATTEMPTS,
        img.len() == NVS_IMAGE_LEN,
        forall|i: int| rel(ATTEMPT_MARKS_ADDR as int) <= i < rel(ATTEMPT_MARKS_END as int) ==> img[i] == 0xFFu8,
    ensures
        marks_in(img, n) == 0,
    decreases n,
{
    if n > 0 {
        lemma_marks_erased(img, (n - 1) as nat);
        let b = mark_block(img, n - 1);
        assert(all_ff(b));
    }
}

/// Programming zeros over an erased mark block adds one mark.
pub proof fn lemma_mark_program(img: Seq<u8>, k: int, zeros: Seq<u8>, n: nat)
    requires
        img.len() == NVS_IMAGE_LEN,
        0 <= k < MAX_PIN_ATTEMPTS,
        n <= MAX_PIN_ATTEMPTS,
        zeros.len() == ATTEMPT_MARK_SIZE,
        zeros[0] == 0u8,
        all_ff(mark_block(img, k)),
    ensures
        marks_in(splice(img, rel(ATTEMPT_MARKS_ADDR + k * ATTEMPT_MARK_SIZE), zeros), n)
            == marks_in(img, n) + if k < n { 1nat } else { 0nat },
    decreases n,
{
    let img2 = splice(img, rel(ATTEMPT_MARKS_ADDR + k * ATTEMPT_MARK_SIZE), zeros);
    if n > 0 {
        lemma_mark_program(img, k, zeros, (n - 1) as nat);
        let j = n - 1;
        let off = rel(ATTEMPT_MARKS_ADDR + k * ATTEMPT_MARK_SIZE);
        let a = rel(ATTEMPT_MARKS_ADDR + j * ATTEMPT_MARK_SIZE);
        if j == k {
            lemma_splice_read(img, off, zeros);
            assert(mark_block(img2, j) =~= zeros);
            assert(!all_ff(mark_block(img2, j)));
        } else {
            assert(j * ATTEMPT_MARK_SIZE + ATTEMPT_MARK_SIZE <= k * ATTEMPT_MARK_SIZE
                || k * ATTEMPT_MARK_SIZE + ATTEMPT_MARK_SIZE <= j * ATTEMPT_MARK_SIZE) by (nonlinear_arith)
                requires j != k, ATTEMPT_MARK_SIZE == 32;
            lemma_splice_outside(img, off, zeros, a, a + ATTEMPT_MARK_SIZE);
            assert(mark_block(img2, j) =~= mark_block(img, j));
        }
    }
}

impl NvsStore {
    pub fn read_header(&self) -> (r: Option<Header>)
        requires
            self.wf(),
        ensures
            match r {
                Some(h) => stored_header(self@) == Some(h@) && header_valid(h),
                None => stored_header(self@) is None,
            },
    {
        let buf = self.read_region(NVS_BASE_ADDR, HEADER_SIZE);
        if is_all_ff(buf.as_slice()) {
            return None;
        }
        header_from_bytes(buf.as_slice())
    }

    pub fn read_slot(&self, index: usize) -> (r: Option<SlotRecord>)
        requires
            self.wf(),
        ensures
            match r {
                Some(rec) => stored_slot(self@, index as int) == Some(rec@),
                None => stored_slot(self@, index as int) is None,
            },
    {
        if index >= MAX_SEED_SLOTS {
            return None;
        }
        let buf = self.read_region(NVS_BASE_ADDR + HEADER_SIZE as u32 + (index * SLOT_SIZE) as u32, SLOT_SIZE);
        if is_all_ff(buf.as_slice()) {
            return None;
        }
        slot_from_bytes(buf.as_slice())
    }

    /// Rewrite the seed-core sector with `bytes` placed at `address`.
    pub fn write_seed_core_bytes(&mut self, address: u32, bytes: &[u8]) -> (r: Result<(), NvsError>)
        requires
            old(self).wf(),
        ensures
            final(self).wf(),
            final(self).flash_view() == old(self).flash_view(),
            match r {
                Ok(()) => seed_core_range_ok(address as int, bytes@.len() as int)
                    && final(self)@ == splice(old(self)@, rel(address as int), bytes@),
                Err(e) => e == NvsError::Flash && !seed_core_range_ok(address as int, bytes@.len() as int)
                    && final(self)@ == old(self)@,
            },
    {
        let start = relative_seed_offset(address, bytes.len())?;
        let mut sector = self.read_region(NVS_BASE_ADDR, SEED_CORE_STORAGE_SIZE);
        write_at(&mut sector, start, bytes);
        let ghost img = self@;
        let r = self.commit_region(NVS_BASE_ADDR, SEED_CORE_STORAGE_END, sector.as_slice(), true);
        proof {
            assert(sector@.len() == SEED_CORE_STORAGE_SIZE);
            assert(splice(img, 0, sector@) =~= splice(img, start as int, bytes@));
        }
        r
    }

    pub fn write_header(&mut self, h: &Header) -> (r: Result<(), NvsError>)
        requires
            old(self).wf(),
        ensures
            final(self).wf(),
            final(self).flash_view() == old(self).flash_view(),
            r is Ok,
            final(self)@ == splice(old(self)@, 0, header_bytes(*h)),
    {
        let buf = header_to_bytes(h);
        self.write_seed_core_bytes(NVS_BASE_ADDR, buf.as_slice())
    }

    /// The number of programmed attempt-mark blocks.
    pub fn read_attempt_marks(&self) -> (n: u8)
        requires
            self.wf(),
        ensures
            n == mark_count(self@),
            n <= MAX_PIN_ATTEMPTS,
    {
        let mut count: u8 = 0;
        let mut i: usize = 0;
        while i < MAX_PIN_ATTEMPTS as usize
            invariant
                self.wf(),
                i <= MAX_PIN_ATTEMPTS,
                count == marks_in(self@, i as nat),
                count <= i,
            decreases MAX_PIN_ATTEMPTS - i,
        {
            let block = self.read_region(ATTEMPT_MARKS_ADDR + (i * ATTEMPT_MARK_SIZE) as u32, ATTEMPT_MARK_SIZE);
            if !is_all_ff(block.as_slice()) {
                count += 1;
            }
            i += 1;
        }
        count
    }

    /// Program erased mark blocks, first to last, until `target` (at most
    /// the attempt limit) are programmed. Only the marks sector changes.
    pub fn write_attempt_marks_up_to(&mut self, target: u8) -> (r: Result<(), NvsError>)
        requires
            old(self).wf(),
        ensures
            final(self).wf(),
            final(self).flash_view() == old(self).flash_view(),
            r is Ok,
            mark_count(final(self)@) == if mark_count(old(self)@) >= target || mark_count(old(self)@) >= MAX_PIN_ATTEMPTS {
                mark_count(old(self)@)
            } else if target >= MAX_PIN_ATTEMPTS {
                MAX_PIN_ATTEMPTS as nat
            } else {
                target as nat
            },
            forall|i: int| 0 <= i < NVS_IMAGE_LEN && !(rel(ATTEMPT_MARKS_ADDR as int) <= i < rel(ATTEMPT_MARKS_END as int))
                ==> #[trigger] final(self)@[i] == old(self)@[i],
    {
        let target = if target < MAX_PIN_ATTEMPTS { target } else { MAX_PIN_ATTEMPTS };
        let mut used = self.read_attempt_marks();
        if used >= target {
            return Ok(());
        }
        let ghost start_img = self@;
        let mut i: usize = 0;
        while i < MAX_PIN_ATTEMPTS as usize && used < target
            invariant
                self.wf(),
                self.flash_view() == old(self).flash_view(),
                i <= MAX_PIN_ATTEMPTS,
                target <= MAX_PIN_ATTEMPTS,
                used == mark_count(self@),
                used <= target,
                mark_count(start_img) < target,
                start_img == old(self)@,
                used < target ==> forall|j: int| 0 <= j < i ==> !all_ff(#[trigger] mark_block(self@, j)),
                forall|k: int| 0 <= k < NVS_IMAGE_LEN && !(rel(ATTEMPT_MARKS_ADDR as int) <= k < rel(ATTEMPT_MARKS_END as int))
                    ==> #[trigger] self@[k] == old(self)@[k],
                self@.len() == NVS_IMAGE_LEN,
            decreases MAX_PIN_ATTEMPTS - i,
        {
            let addr = ATTEMPT_MARKS_ADDR + (i * ATTEMPT_MARK_SIZE) as u32;
            let block = self.read_region(addr, ATTEMPT_MARK_SIZE);
            if is_all_ff(block.as_slice()) {
                let zeros = vec![0u8; ATTEMPT_MARK_SIZE];
                let ghost before = self@;
                proof {
                    lemma_mark_program(before, i as int, zeros@, MAX_PIN_ATTEMPTS as nat);
                }
                self.commit_program(addr, zeros);
                proof {
                    let off = rel(addr as int);
                    lemma_splice_read(before, off, zeros@);
                    assert(mark_block(self@, i as int) =~= zeros@);
                    assert(mark_block(self@, i as int)[0] == 0u8);
                    assert(!all_ff(mark_block(self@, i as int)));
                    assert forall|j: int| 0 <= j < i implies !all_ff(#[trigger] mark_block(self@, j)) by {
                        assert(j * ATTEMPT_MARK_SIZE + ATTEMPT_MARK_SIZE <= i * ATTEMPT_MARK_SIZE) by (nonlinear_arith)
                            requires j < i, ATTEMPT_MARK_SIZE == 32;
                        let a = rel(ATTEMPT_MARKS_ADDR + j * ATTEMPT_MARK_SIZE);
                        lemma_splice_outside(before, off, zeros@, a, a + ATTEMPT_MARK_SIZE);
                        assert(mark_block(self@, j) =~= mark_block(before, j));
                    }
                    assert forall|k: int| 0 <= k < NVS_IMAGE_LEN && !(rel(ATTEMPT_MARKS_ADDR as int) <= k < rel(ATTEMPT_MARKS_END as int))
                        implies #[trigger] self@[k] == old(self)@[k] by {
                        assert(self@[k] == before[k]);
                    }
                }
                used += 1;
            }
            i += 1;
        }
        proof {
            if used < target {
                lemma_marks_all_programmed(self@, MAX_PIN_ATTEMPTS as nat);
            }
        }
        Ok(())
    }

    /// Erase the marks sector: no attempt is marked afterwards.
    pub fn erase_attempt_marks(&mut self) -> (r: Result<(), NvsError>)
        requires
            old(self).wf(),
        ensures
            final(self).wf(),
            final(self).flash_view() == old(self).flash_view(),
            r is Ok,
            mark_count(final(self)@) == 0,
            final(self)@ == splice(old(self)@, rel(ATTEMPT_MARKS_ADDR as int), ff_seq(NVS_SECTOR_SIZE as nat)),
    {
        let r = self.commit_erase(ATTEMPT_MARKS_ADDR, ATTEMPT_MARKS_END);
        proof {
            lemma_splice_read(self@, rel(ATTEMPT_MARKS_ADDR as int), ff_seq(NVS_SECTOR_SIZE as nat));
            assert forall|i: int| rel(ATTEMPT_MARKS_ADDR as int) <= i < rel(ATTEMPT_MARKS_END as int) implies self@[i] == 0xFFu8 by {
                assert(self@.subrange(rel(ATTEMPT_MARKS_ADDR as int), rel(ATTEMPT_MARKS_END as int))[i - rel(ATTEMPT_MARKS_ADDR as int)] == 0xFFu8);
            }
            lemma_marks_erased(self@, MAX_PIN_ATTEMPTS as nat);
        }
        r
    }

    pub fn attempts_used(&self, h: &Header) -> (n: u8)
        requires
            self.wf(),
            header_valid(*h),
        ensures
            n == attempts_used(self@, h@),
            n <= MAX_PIN_ATTEMPTS,
    {
        let marks = self.read_attempt_marks();
        if h.attempts >= marks { h.attempts } else { marks }
    }
}

/// When every block up to `n` is programmed, `n` marks are counted.
pub proof fn lemma_marks_all_programmed(img: Seq<u8>, n: nat)
    requires
        forall|j: int| 0 <= j < n ==> !all_ff(#[trigger] mark_block(img, j)),
    ensures
        marks_in(img, n) == n,
    decreases n,
{
    if n > 0 {
        lemma_marks_all_programmed(img, (n - 1) as nat);
        assert(!all_ff(mark_block(img, n - 1)));
    }
}


impl NvsStore {
    /// The seed-core sector as stored.
    pub fn read_seed_core_region(&self) -> (r: Vec<u8>)
        requires
            self.wf(),
        ensures
            r@ == self@.subrange(0, SEED_CORE_STORAGE_SIZE as int),
            r@.len() == SEED_CORE_STORAGE_SIZE,
    {
        self.read_region(NVS_BASE_ADDR, SEED_CORE_STORAGE_SIZE)
    }

    /// Rewrite the seed-core sector; its first chunk (the header) is
    /// programmed last. A buffer of the wrong length is refused.
    pub fn write_seed_core_region(&mut self, sector: &[u8]) -> (r: Result<(), NvsError>)
        requires
            old(self).wf(),
        ensures
            final(self).wf(),
            final(self).flash_view() == old(self).flash_view(),
            match r {
                Ok(()) => sector@.len() == SEED_CORE_STORAGE_SIZE && final(self)@ == splice(old(self)@, 0, sector@),
                Err(e) => e == NvsError::Flash && sector@.len() != SEED_CORE_STORAGE_SIZE && final(self)@ == old(self)@,
            },
            final(self).pending_view().len() >= old(self).pending_view().len(),
            final(self).pending_view().subrange(0, old(self).pending_view().len() as int) == old(self).pending_view(),
            r is Ok ==> header_erased_while(old(self)@, final(self).pending_view().subrange(
                old(self).pending_view().len() as int, final(self).pending_view().len() as int)),
    {
        self.commit_region(NVS_BASE_ADDR, SEED_CORE_STORAGE_END, sector, true)
    }

    /// Write `region` over the whole sectors `[start, end)` of the image.
    pub fn write_flash_region(&mut self, start: u32, end: u32, region: &[u8]) -> (r: Result<(), NvsError>)
        requires
            old(self).wf(),
            sector_region_ok(start as int, end as int),
        ensures
            final(self).wf(),
            final(self).flash_view() == old(self).flash_view(),
            match r {
                Ok(()) => region@.len() == end - start && final(self)@ == splice(old(self)@, rel(start as int), region@),
                Err(e) => e == NvsError::Flash && region@.len() != end - start && final(self)@ == old(self)@,
            },
    {
        self.commit_region(start, end, region, false)
    }

    /// Read `len` bytes at `addr`.
    pub fn read_bytes(&self, addr: u32, len: usize) -> (r: Vec<u8>)
        requires
            self.wf(),
            NVS_BASE_ADDR <= addr,
            rel(addr as int) + len <= NVS_IMAGE_LEN,
        ensures
            r@ == img_region(self@, addr as int, len as int),
            r@.len() == len,
    {
        self.read_region(addr, len)
    }

    /// Erase the whole partition.
    pub fn wipe(&mut self) -> (r: Result<(), NvsError>)
        requires
            old(self).wf(),
        ensures
            final(self).wf(),
            final(self).flash_view() == old(self).flash_view(),
            r is Ok,
            final(self)@ == ff_seq(NVS_IMAGE_LEN as nat),
    {
        let r = self.commit_erase(NVS_BASE_ADDR, NVS_STORAGE_END);
        proof {
            assert(self@ =~= ff_seq(NVS_IMAGE_LEN as nat));
        }
        r
    }

    pub fn factory_reset(&mut self) -> (r: Result<(), NvsError>)
        requires
            old(self).wf(),
        ensures
            final(self).wf(),
            final(self).flash_view() == old(self).flash_view(),
            r is Ok,
            final(self)@ == ff_seq(NVS_IMAGE_LEN as nat),
    {
        self.wipe()
    }
}

} // verus!
