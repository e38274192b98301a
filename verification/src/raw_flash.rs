//! Flash access through the ROM routines, including the flash-encryption
//! paths. The checks and the order of ROM operations are decided here; the
//! caller runs the returned commands against the ROM.
use vstd::prelude::*;

verus! {

pub const FLASH_SIZE_BYTES: usize = 16_777_216;
pub const WORD_SIZE: u32 = 4;
pub const SECTOR_SIZE: u32 = 4096;

#[derive(Debug, Clone, Copy, PartialEq, Eq, Structural)]
pub enum RawFlashError {
    NotAligned,
    OutOfBounds,
    Rom(i32),
}

/// One ROM operation.
#[derive(Debug, Clone, PartialEq, Eq)]
pub enum RawFlashCommand {
    Unlock,
    EraseSector { sector: u32 },
    WriteEncrypted { address: u32, data: Vec<u8> },
    ReadEncrypted { address: u32, len: usize },
}

/// The flash, and whether its write protection was lifted already.
pub struct RawFlashStorage {
    unlocked: bool,
}

pub open spec fn in_bounds(offset: int, length: int) -> bool {
    length <= FLASH_SIZE_BYTES && offset <= FLASH_SIZE_BYTES - length
}

pub open spec fn aligned(offset: int, length: int, align: int) -> bool {
    offset % align == 0 && length % align == 0
}

impl RawFlashStorage {
    pub closed spec fn is_unlocked(&self) -> bool {
        self.unlocked
    }

    pub fn new() -> (s: Self)
        ensures
            !s.is_unlocked(),
    {
        RawFlashStorage { unlocked: false }
    }

    pub fn check_bounds(&self, offset: u32, length: usize) -> (r: Result<(), RawFlashError>)
        ensures
            in_bounds(offset as int, length as int) ==> r is Ok,
            !in_bounds(offset as int, length as int) ==> r == Err::<(), RawFlashError>(RawFlashError::OutOfBounds),
    {
        if length > FLASH_SIZE_BYTES || offset as usize > FLASH_SIZE_BYTES - length {
            return Err(RawFlashError::OutOfBounds);
        }
        Ok(())
    }

    pub fn check_alignment(&self, offset: u32, length: usize, align: u32) -> (r: Result<(), RawFlashError>)
        requires
            align > 0,
        ensures
            aligned(offset as int, length as int, align as int) ==> r is Ok,
            !aligned(offset as int, length as int, align as int) ==> r == Err::<(), RawFlashError>(RawFlashError::NotAligned),
    {
        if offset % align != 0 || length % (align as usize) != 0 {
            return Err(RawFlashError::NotAligned);
        }
        Ok(())
    }

    /// Lift the write protection the first time a write needs it.
    pub fn unlock_once(&mut self, commands: &mut Vec<RawFlashCommand>)
        ensures
            final(self).is_unlocked(),
            old(self).is_unlocked() ==> final(commands)@ == old(commands)@,
            !old(self).is_unlocked() ==> final(commands)@ == old(commands)@.push(RawFlashCommand::Unlock),
    {
        if !self.unlocked {
            commands.push(RawFlashCommand::Unlock);
            self.unlocked = true;
        }
    }

    /// Read `len` bytes at `offset` through flash decryption.
    pub fn read_encrypted(&mut self, offset: u32, len: usize) -> (r: Result<RawFlashCommand, RawFlashError>)
        ensures
            in_bounds(offset as int, len as int) ==> r == Ok::<RawFlashCommand, RawFlashError>((RawFlashCommand::ReadEncrypted { address: offset, len })),
            !in_bounds(offset as int, len as int) ==> r == Err::<RawFlashCommand, RawFlashError>(RawFlashError::OutOfBounds),
            final(self).is_unlocked() == old(self).is_unlocked(),
    {
        self.check_bounds(offset, len)?;
        Ok(RawFlashCommand::ReadEncrypted { address: offset, len })
    }

    /// Write whole sectors encrypted: refused outside the flash or when not
    /// sector aligned; otherwise each sector is erased and then written.
    pub fn write_encrypted(&mut self, offset: u32, bytes: &[u8]) -> (r: Result<Vec<RawFlashCommand>, RawFlashError>)
        ensures
            !in_bounds(offset as int, bytes@.len() as int) ==> r == Err::<Vec<RawFlashCommand>, RawFlashError>(RawFlashError::OutOfBounds),
            in_bounds(offset as int, bytes@.len() as int) && !aligned(offset as int, bytes@.len() as int, SECTOR_SIZE as int)
                ==> r == Err::<Vec<RawFlashCommand>, RawFlashError>(RawFlashError::NotAligned),
            in_bounds(offset as int, bytes@.len() as int) && aligned(offset as int, bytes@.len() as int, SECTOR_SIZE as int) ==> (r matches Ok(cmds) && {
                let n = bytes@.len() as int / (SECTOR_SIZE as int);
                let base = if n > 0 && !old(self).is_unlocked() { 1int } else { 0int };
                &&& cmds@.len() == base + 2 * n
                &&& (base == 1 ==> cmds@[0] == RawFlashCommand::Unlock)
                &&& forall|j: int| 0 <= j < n ==> #[trigger] cmds@[base + 2 * j]
                    == (RawFlashCommand::EraseSector { sector: ((offset + j * SECTOR_SIZE) / (SECTOR_SIZE as int)) as u32 })
                &&& forall|j: int| 0 <= j < n ==> (#[trigger] cmds@[base + 2 * j + 1] matches RawFlashCommand::WriteEncrypted { address, data }
                    && address == offset + j * SECTOR_SIZE
                    && data@ == bytes@.subrange(j * SECTOR_SIZE, (j + 1) * SECTOR_SIZE))
            }),
    {
        self.check_bounds(offset, bytes.len())?;
        self.check_alignment(offset, bytes.len(), SECTOR_SIZE)?;
        let mut cmds: Vec<RawFlashCommand> = Vec::new();
        let n = bytes.len() / (SECTOR_SIZE as usize);
        if n > 0 {
            self.unlock_once(&mut cmds);
        }
        let ghost base: int = cmds@.len() as int;
        let mut j: usize = 0;
        while j < n
            invariant
                n == bytes@.len() as int / (SECTOR_SIZE as int),
                bytes@.len() as int % (SECTOR_SIZE as int) == 0,
                in_bounds(offset as int, bytes@.len() as int),
                j <= n,
                base == if n > 0 && !old(self).is_unlocked() { 1int } else { 0int },
                cmds@.len() == base + 2 * j,
                base == 1 ==> cmds@[0] == RawFlashCommand::Unlock,
                forall|k: int| 0 <= k < j ==> #[trigger] cmds@[base + 2 * k]
                    == (RawFlashCommand::EraseSector { sector: ((offset + k * SECTOR_SIZE) / (SECTOR_SIZE as int)) as u32 }),
                forall|k: int| 0 <= k < j ==> (#[trigger] cmds@[base + 2 * k + 1] matches RawFlashCommand::WriteEncrypted { address, data }
                    && address == offset + k * SECTOR_SIZE
                    && data@ == bytes@.subrange(k * SECTOR_SIZE, (k + 1) * SECTOR_SIZE)),
            decreases n - j,
        {
            assert((j + 1) * SECTOR_SIZE <= bytes@.len()) by (nonlinear_arith)
                requires j < n, n == bytes@.len() / 4096, SECTOR_SIZE == 4096;
            assert(offset + j * SECTOR_SIZE <= u32::MAX) by (nonlinear_arith)
                requires (j + 1) * 4096 <= bytes@.len(), offset <= FLASH_SIZE_BYTES - bytes@.len(),
                    FLASH_SIZE_BYTES == 16_777_216, SECTOR_SIZE == 4096;
            let address: u32 = offset + (j as u32) * SECTOR_SIZE;
            let start = j * (SECTOR_SIZE as usize);
            let data = crate::bytes::copy_range(bytes, start, SECTOR_SIZE as usize);
            let ghost before = cmds@;
            cmds.push(RawFlashCommand::EraseSector { sector: address / SECTOR_SIZE });
            cmds.push(RawFlashCommand::WriteEncrypted { address, data });
            proof {
                assert forall|k: int| 0 <= k < j + 1 implies #[trigger] cmds@[base + 2 * k]
                    == (RawFlashCommand::EraseSector { sector: ((offset + k * SECTOR_SIZE) / (SECTOR_SIZE as int)) as u32 }) by {
                    if k < j {
                        assert(cmds@[base + 2 * k] == before[base + 2 * k]);
                    }
                }
                assert forall|k: int| 0 <= k < j + 1 implies (#[trigger] cmds@[base + 2 * k + 1] matches RawFlashCommand::WriteEncrypted { address, data }
                    && address == offset + k * SECTOR_SIZE
                    && data@ == bytes@.subrange(k * SECTOR_SIZE, (k + 1) * SECTOR_SIZE)) by {
                    if k < j {
                        assert(cmds@[base + 2 * k + 1] == before[base + 2 * k + 1]);
                    }
                }
            }
            j += 1;
        }
        Ok(cmds)
    }

    /// Erase the sectors of `[from, to)`: refused when reversed, not sector
    /// aligned, or outside the flash.
    pub fn erase(&mut self, from: u32, to: u32) -> (r: Result<Vec<RawFlashCommand>, RawFlashError>)
        ensures
            to < from ==> r == Err::<Vec<RawFlashCommand>, RawFlashError>(RawFlashError::OutOfBounds),
            from <= to && !aligned(from as int, to - from, SECTOR_SIZE as int)
                ==> r == Err::<Vec<RawFlashCommand>, RawFlashError>(RawFlashError::NotAligned),
            from <= to && aligned(from as int, to - from, SECTOR_SIZE as int) && !in_bounds(from as int, to - from)
                ==> r == Err::<Vec<RawFlashCommand>, RawFlashError>(RawFlashError::OutOfBounds),
            r matches Ok(cmds) ==> {
                let n = (to / SECTOR_SIZE) - (from / SECTOR_SIZE);
                let base = if n > 0 && !old(self).is_unlocked() { 1int } else { 0int };
                &&& cmds@.len() == base + n
                &&& forall|k: int| 0 <= k < n ==> #[trigger] cmds@[base + k]
                    == (RawFlashCommand::EraseSector { sector: (from / SECTOR_SIZE + k) as u32 })
            },
    {
        if to < from {
            return Err(RawFlashError::OutOfBounds);
        }
        let len = (to - from) as usize;
        self.check_alignment(from, len, SECTOR_SIZE)?;
        self.check_bounds(from, len)?;
        let mut cmds: Vec<RawFlashCommand> = Vec::new();
        let first = from / SECTOR_SIZE;
        let last = to / SECTOR_SIZE;
        if first < last {
            self.unlock_once(&mut cmds);
        }
        let ghost base: int = cmds@.len() as int;
        let mut sector = first;
        while sector < last
            invariant
                first <= sector <= last,
                base == if last - first > 0 && !old(self).is_unlocked() { 1int } else { 0int },
                cmds@.len() == base + (sector - first),
                forall|k: int| 0 <= k < sector - first ==> #[trigger] cmds@[base + k]
                    == (RawFlashCommand::EraseSector { sector: (first + k) as u32 }),
            decreases last - sector,
        {
            cmds.push(RawFlashCommand::EraseSector { sector });
            sector += 1;
        }
        Ok(cmds)
    }
}

/// One step of a byte-granular read: read `read_len` bytes (whole words) at
/// the word-aligned `address`, and keep `take` of them starting at `skip`.
#[derive(Debug, Clone, Copy, PartialEq, Eq, Structural)]
pub struct ReadPiece {
    pub address: u32,
    pub read_len: u32,
    pub skip: u32,
    pub take: u32,
}

/// The pieces of a read of `len` bytes at `offset` cover the bytes in
/// order: each piece reads whole words within one sector-sized window
/// starting at a word boundary, and what it keeps starts where the previous
/// piece's kept bytes ended.
pub open spec fn read_pieces_ok(pieces: Seq<ReadPiece>, offset: int, len: int) -> bool {
    &&& forall|k: int| 0 <= k < pieces.len() ==> #[trigger] read_piece_ok(pieces, k, offset)
    &&& kept_before(pieces, pieces.len() as int) == len
}

/// Bytes kept by the first `k` pieces.
pub open spec fn kept_before(pieces: Seq<ReadPiece>, k: int) -> int
    decreases k,
{
    if k <= 0 { 0 } else { kept_before(pieces, k - 1) + pieces[k - 1].take }
}

/// One sector of a byte-granular write: the sector at `address` is read,
/// `data` replaces its bytes from `data_offset`, and the sector is erased
/// and written back.
#[derive(Debug, Clone, PartialEq, Eq)]
pub struct SectorPatch {
    pub address: u32,
    pub data_offset: u32,
    pub data: Vec<u8>,
}

impl RawFlashStorage {
    /// Plan a read of `len` bytes at any `offset`: refused outside the
    /// flash; otherwise word-aligned reads of at most a sector each.
    #[verifier::rlimit(40)]
    pub fn read(&self, offset: u32, len: usize) -> (r: Result<Vec<ReadPiece>, RawFlashError>)
        ensures
            !in_bounds(offset as int, len as int) ==> r == Err::<Vec<ReadPiece>, RawFlashError>(RawFlashError::OutOfBounds),
            in_bounds(offset as int, len as int) ==> (r matches Ok(pieces) && read_pieces_ok(pieces@, offset as int, len as int)),
    {
        self.check_bounds(offset, len)?;
        let mut pieces: Vec<ReadPiece> = Vec::new();
        let mut data_offset: u32 = offset % WORD_SIZE;
        let mut aligned_offset: u32 = offset - data_offset;
        let mut remaining: usize = len;
        while remaining > 0
            invariant
                in_bounds(offset as int, len as int),
                remaining <= len,
                data_offset < WORD_SIZE,
                aligned_offset % WORD_SIZE == 0,
                aligned_offset <= FLASH_SIZE_BYTES + SECTOR_SIZE,
                pieces@.len() == 0 ==> data_offset == offset % WORD_SIZE && aligned_offset == offset - offset % WORD_SIZE
                    && remaining == len,
                pieces@.len() > 0 ==> data_offset == 0
                    && aligned_offset == pieces@[pieces@.len() - 1].address + SECTOR_SIZE,
                remaining > 0 ==> aligned_offset + data_offset == offset + kept_before(pieces@, pieces@.len() as int),
                kept_before(pieces@, pieces@.len() as int) == len - remaining,
                forall|k: int| 0 <= k < pieces@.len() ==> read_piece_ok(pieces@, k, offset as int),
            decreases remaining,
        {
            let room: usize = (SECTOR_SIZE - data_offset) as usize;
            let take: usize = if remaining < room { remaining } else { room };
            let end: u32 = data_offset + take as u32;
            let read_len: u32 = if end % WORD_SIZE == 0 { end } else { end - end % WORD_SIZE + WORD_SIZE };
            assert(read_len <= SECTOR_SIZE && read_len % WORD_SIZE == 0 && end <= read_len) by (nonlinear_arith)
                requires end <= 4096, read_len == if end % 4 == 0 { end as int } else { end - end % 4 + 4 },
                    WORD_SIZE == 4, SECTOR_SIZE == 4096;
            let piece = ReadPiece { address: aligned_offset, read_len, skip: data_offset, take: take as u32 };
            let ghost before = pieces@;
            pieces.push(piece);
            proof {
                assert forall|k: int| 0 <= k <= before.len() implies kept_before(pieces@, k) == kept_before(before, k) by {
                    lemma_kept_before_prefix(pieces@, before, k);
                }
                assert(kept_before(pieces@, pieces@.len() as int) == kept_before(before, before.len() as int) + take);
                assert forall|k: int| 0 <= k < pieces@.len() implies read_piece_ok(pieces@, k, offset as int) by {
                    if k < before.len() {
                        assert(pieces@[k] == before[k]);
                        assert(read_piece_ok(before, k, offset as int));
                        if k > 0 {
                            assert(pieces@[k - 1] == before[k - 1]);
                        }
                    }
                }
            }
            remaining = remaining - take;
            assert(aligned_offset <= FLASH_SIZE_BYTES);
            assert(remaining > 0 ==> take == room);
            aligned_offset = aligned_offset + SECTOR_SIZE;
            data_offset = 0;
        }
        Ok(pieces)
    }
}

/// Patch `k` rewrites part of one sector, right after the bytes of the
/// patches before it: the first starts at `offset`, the others at a
/// sector's start.
pub open spec fn sector_patch_ok(patches: Seq<SectorPatch>, k: int, offset: int, bytes: Seq<u8>) -> bool {
    let p = patches[k];
    &&& (p.address as int) % (SECTOR_SIZE as int) == 0
    &&& 0 < p.data@.len()
    &&& p.data_offset + p.data@.len() <= SECTOR_SIZE
    &&& (k == 0 ==> p.data_offset == offset % (SECTOR_SIZE as int) && p.address == offset - offset % (SECTOR_SIZE as int))
    &&& (k > 0 ==> p.data_offset == 0 && p.address == patches[k - 1].address + SECTOR_SIZE)
    &&& p.address + p.data_offset == offset + written_before(patches, k)
    &&& p.data@ == bytes.subrange(written_before(patches, k), written_before(patches, k) + p.data@.len())
}

/// Bytes written by the first `k` patches.
pub open spec fn written_before(patches: Seq<SectorPatch>, k: int) -> int
    decreases k,
{
    if k <= 0 { 0 } else { written_before(patches, k - 1) + patches[k - 1].data@.len() }
}

proof fn lemma_written_before_prefix(longer: Seq<SectorPatch>, shorter: Seq<SectorPatch>, k: int)
    requires
        shorter.len() <= longer.len(),
        0 <= k <= shorter.len(),
        forall|j: int| 0 <= j < shorter.len() ==> longer[j] == shorter[j],
    ensures
        written_before(longer, k) == written_before(shorter, k),
    decreases k,
{
    if k > 0 {
        lemma_written_before_prefix(longer, shorter, k - 1);
    }
}

impl RawFlashStorage {
    /// Plan a write of `bytes` at any `offset`: refused outside the flash;
    /// otherwise one read-patch-erase-write per sector touched. The flag
    /// says whether the write protection must be lifted first.
    #[verifier::rlimit(40)]
    pub fn write(&mut self, offset: u32, bytes: &[u8]) -> (r: Result<(bool, Vec<SectorPatch>), RawFlashError>)
        ensures
            !in_bounds(offset as int, bytes@.len() as int) ==> r == Err::<(bool, Vec<SectorPatch>), RawFlashError>(RawFlashError::OutOfBounds)
                && final(self).is_unlocked() == old(self).is_unlocked(),
            in_bounds(offset as int, bytes@.len() as int) ==> (r matches Ok((unlock, patches))
                && unlock == (bytes@.len() > 0 && !old(self).is_unlocked())
                && final(self).is_unlocked() == (old(self).is_unlocked() || bytes@.len() > 0)
                && (forall|k: int| 0 <= k < patches@.len() ==> #[trigger] sector_patch_ok(patches@, k, offset as int, bytes@))
                && written_before(patches@, patches@.len() as int) == bytes@.len()),
    {
        self.check_bounds(offset, bytes.len())?;
        let unlock = bytes.len() > 0 && !self.unlocked;
        if bytes.len() > 0 {
            self.unlocked = true;
        }
        let mut patches: Vec<SectorPatch> = Vec::new();
        let mut data_offset: u32 = offset % SECTOR_SIZE;
        let mut aligned_offset: u32 = offset - data_offset;
        let mut done: usize = 0;
        let len = bytes.len();
        while done < len
            invariant
                len == bytes@.len(),
                in_bounds(offset as int, len as int),
                done <= len,
                data_offset < SECTOR_SIZE,
                aligned_offset % SECTOR_SIZE == 0,
                aligned_offset <= FLASH_SIZE_BYTES + SECTOR_SIZE,
                patches@.len() == 0 ==> data_offset == offset % SECTOR_SIZE && aligned_offset == offset - offset % SECTOR_SIZE
                    && done == 0,
                patches@.len() > 0 ==> data_offset == 0
                    && aligned_offset == patches@[patches@.len() - 1].address + SECTOR_SIZE,
                done < len ==> aligned_offset + data_offset == offset + done,
                written_before(patches@, patches@.len() as int) == done,
                forall|k: int| 0 <= k < patches@.len() ==> #[trigger] sector_patch_ok(patches@, k, offset as int, bytes@),
            decreases len - done,
        {
            let room: usize = (SECTOR_SIZE - data_offset) as usize;
            let take: usize = if len - done < room { len - done } else { room };
            let data = crate::bytes::copy_range(bytes, done, take);
            let patch = SectorPatch { address: aligned_offset, data_offset, data };
            let ghost before = patches@;
            patches.push(patch);
            proof {
                assert forall|k: int| 0 <= k <= before.len() implies written_before(patches@, k) == written_before(before, k) by {
                    lemma_written_before_prefix(patches@, before, k);
                }
                assert(written_before(patches@, patches@.len() as int) == done + take);
                assert forall|k: int| 0 <= k < patches@.len() implies #[trigger] sector_patch_ok(patches@, k, offset as int, bytes@) by {
                    if k < before.len() {
                        assert(patches@[k] == before[k]);
                        assert(sector_patch_ok(before, k, offset as int, bytes@));
                        if k > 0 {
                            assert(patches@[k - 1] == before[k - 1]);
                        }
                    }
                }
            }
            done = done + take;
            assert(aligned_offset <= FLASH_SIZE_BYTES);
            aligned_offset = aligned_offset + SECTOR_SIZE;
            data_offset = 0;
        }
        Ok((unlock, patches))
    }
}

/// A sector's contents after `data` replaces its bytes from `data_offset`.
pub fn patch_sector(sector: &[u8], data_offset: usize, data: &[u8]) -> (r: Vec<u8>)
    requires
        data_offset + data@.len() <= sector@.len(),
    ensures
        r@ == crate::bytes::splice(sector@, data_offset as int, data@),
{
    let mut out = vstd::slice::slice_to_vec(sector);
    crate::bytes::write_at(&mut out, data_offset, data);
    out
}

/// Piece `k` reads whole words at a word boundary within one sector-sized
/// window and keeps bytes that continue those of the pieces before it.
pub open spec fn read_piece_ok(pieces: Seq<ReadPiece>, k: int, offset: int) -> bool {
    let p = pieces[k];
    &&& (p.address as int) % (WORD_SIZE as int) == 0
    &&& (p.read_len as int) % (WORD_SIZE as int) == 0
    &&& p.skip + p.take <= p.read_len <= SECTOR_SIZE
    &&& 0 < p.take
    &&& (k == 0 ==> p.skip == offset % (WORD_SIZE as int) && p.address == offset - offset % (WORD_SIZE as int))
    &&& (k > 0 ==> p.skip == 0 && p.address == pieces[k - 1].address + SECTOR_SIZE)
    &&& p.address + p.skip == offset + kept_before(pieces, k)
}

/// The kept-byte count of a prefix does not depend on what follows it.
proof fn lemma_kept_before_prefix(longer: Seq<ReadPiece>, shorter: Seq<ReadPiece>, k: int)
    requires
        shorter.len() <= longer.len(),
        0 <= k <= shorter.len(),
        forall|j: int| 0 <= j < shorter.len() ==> longer[j] == shorter[j],
    ensures
        kept_before(longer, k) == kept_before(shorter, k),
    decreases k,
{
    if k > 0 {
        lemma_kept_before_prefix(longer, shorter, k - 1);
    }
}

} // verus!
