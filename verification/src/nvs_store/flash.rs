//! The flash operations that mirror changes of the in-memory image onto
//! the NVS partition.
use vstd::prelude::*;
use crate::bytes::{all_ff, is_all_ff, splice};
use super::layout::{NVS_BASE_ADDR, NVS_IMAGE_LEN, NVS_SECTOR_SIZE, NVS_WRITE_CHUNK_SIZE, FLASH_WORD_SIZE};

verus! {

/// One operation on the NVS flash.
#[derive(Clone, Debug)]
pub enum FlashOp {
    /// Erase the sectors covering `[start, end)`.
    Erase { start: u32, end: u32 },
    /// Program `bytes` at `addr` (into erased flash).
    Write { addr: u32, bytes: Vec<u8> },
}

/// Image offset of a flash address.
pub open spec fn rel(addr: int) -> int {
    addr - NVS_BASE_ADDR
}

/// The image after one operation.
pub open spec fn apply_op(img: Seq<u8>, op: FlashOp) -> Seq<u8> {
    match op {
        FlashOp::Erase { start, end } => Seq::new(img.len(), |i: int|
            if rel(start as int) <= i < rel(end as int) { 0xFFu8 } else { img[i] }),
        FlashOp::Write { addr, bytes } => splice(img, rel(addr as int), bytes@),
    }
}

/// The image after a sequence of operations, in order.
pub open spec fn apply_ops(img: Seq<u8>, ops: Seq<FlashOp>) -> Seq<u8>
    decreases ops.len(),
{
    if ops.len() == 0 {
        img
    } else {
        apply_op(apply_ops(img, ops.drop_last()), ops.last())
    }
}

/// Applying one more operation applies it to the image the others give.
pub proof fn lemma_apply_ops_push(img: Seq<u8>, ops: Seq<FlashOp>, op: FlashOp)
    ensures
        apply_ops(img, ops.push(op)) == apply_op(apply_ops(img, ops), op),
{
    assert(ops.push(op).drop_last() =~= ops);
}

/// Applying two runs of operations in turn is applying them joined.
pub proof fn lemma_apply_ops_concat(img: Seq<u8>, a: Seq<FlashOp>, b: Seq<FlashOp>)
    ensures
        apply_ops(img, a + b) == apply_ops(apply_ops(img, a), b),
    decreases b.len(),
{
    if b.len() == 0 {
        assert(a + b =~= a);
    } else {
        assert((a + b).drop_last() =~= a + b.drop_last());
        lemma_apply_ops_concat(img, a, b.drop_last());
    }
}

/// Why a region write is refused.
#[derive(Clone, Copy, Debug, PartialEq, Eq, Structural)]
pub enum RegionError {
    Bounds,
}

/// A region `[start, end)` of whole sectors inside the image.
pub open spec fn sector_region_ok(start: int, end: int) -> bool {
    &&& NVS_BASE_ADDR <= start < end <= NVS_BASE_ADDR + NVS_IMAGE_LEN
    &&& start % (NVS_SECTOR_SIZE as int) == 0
    &&& end % (NVS_SECTOR_SIZE as int) == 0
}

/// Erase sector by sector, as `erase_flash_region` does.
pub fn erase_region_ops(ops: &mut Vec<FlashOp>, start: u32, end: u32, Ghost(img): Ghost<Seq<u8>>) -> (r: Result<(), RegionError>)
    requires
        img.len() == NVS_IMAGE_LEN,
        start as int + NVS_IMAGE_LEN <= u32::MAX,
        end <= NVS_BASE_ADDR + NVS_IMAGE_LEN,
    ensures
        match r {
            Ok(()) => {
                &&& start < end && start % (NVS_SECTOR_SIZE as u32) == 0 && end % (NVS_SECTOR_SIZE as u32) == 0
                &&& final(ops)@.len() > old(ops)@.len()
                &&& final(ops)@[old(ops)@.len() as int] == (FlashOp::Erase { start, end: (start + NVS_SECTOR_SIZE) as u32 })
                &&& forall|k: int| old(ops)@.len() <= k < final(ops)@.len() ==> #[trigger] final(ops)@[k] is Erase
                &&& apply_ops(img, final(ops)@.subrange(old(ops)@.len() as int, final(ops)@.len() as int))
                    == Seq::new(img.len(), |i: int| if rel(start as int) <= i < rel(end as int) { 0xFFu8 } else { img[i] })
                &&& final(ops)@.subrange(0, old(ops)@.len() as int) == old(ops)@
            },
            Err(_) => !(start < end && start % (NVS_SECTOR_SIZE as u32) == 0 && end % (NVS_SECTOR_SIZE as u32) == 0)
                && final(ops)@ == old(ops)@,
        },
{
    let sector_size = NVS_SECTOR_SIZE as u32;
    if start >= end || start % sector_size != 0 || end % sector_size != 0 {
        return Err(RegionError::Bounds);
    }
    let ghost base = ops@;
    let mut cursor = start;
    assert(ops@.subrange(base.len() as int, ops@.len() as int) =~= Seq::<FlashOp>::empty());
    while cursor < end
        invariant
            start <= cursor,
            cursor <= end || cursor == end,
            cursor % sector_size == 0,
            end % sector_size == 0,
            sector_size == 4096,
            end <= NVS_BASE_ADDR + NVS_IMAGE_LEN,
            img.len() == NVS_IMAGE_LEN,
            ops@.len() >= base.len(),
            ops@.subrange(0, base.len() as int) == base,
            apply_ops(img, ops@.subrange(base.len() as int, ops@.len() as int))
                == Seq::new(img.len(), |i: int| if rel(start as int) <= i < rel(cursor as int) { 0xFFu8 } else { img[i] }),
            cursor > start ==> ops@.len() > base.len()
                && ops@[base.len() as int] == (FlashOp::Erase { start, end: (start + NVS_SECTOR_SIZE) as u32 }),
            cursor == start ==> ops@.len() == base.len(),
            forall|k: int| base.len() <= k < ops@.len() ==> #[trigger] ops@[k] is Erase,
        decreases end - cursor,
    {
        let next = cursor + sector_size;
        let ghost pre = ops@.subrange(base.len() as int, ops@.len() as int);
        let op = FlashOp::Erase { start: cursor, end: next };
        ops.push(op);
        proof {
            assert(ops@.subrange(base.len() as int, ops@.len() as int) =~= pre.push(op));
            lemma_apply_ops_push(img, pre, op);
            assert(ops@.subrange(0, base.len() as int) =~= base);
            assert(apply_ops(img, ops@.subrange(base.len() as int, ops@.len() as int))
                =~= Seq::new(img.len(), |i: int| if rel(start as int) <= i < rel(next as int) { 0xFFu8 } else { img[i] }));
        }
        cursor = next;
    }
    Ok(())
}


/// `img` with the bytes of `region` placed at `rel(start)` over `[rel(start) + a, rel(start) + b)`.
pub open spec fn overlay(img: Seq<u8>, start: int, region: Seq<u8>, a: int, b: int) -> Seq<u8> {
    Seq::new(img.len(), |i: int| if rel(start) + a <= i < rel(start) + b { region[i - rel(start)] } else { img[i] })
}

/// Program `region[offset .. limit]` at `start + offset` in 256-byte chunks,
/// skipping chunks that are entirely erased, as `write_flash_chunks` does.
pub fn write_chunks_ops(
    ops: &mut Vec<FlashOp>,
    start: u32,
    region: &[u8],
    offset: usize,
    limit: usize,
    Ghost(img): Ghost<Seq<u8>>,
)
    requires
        img.len() == NVS_IMAGE_LEN,
        NVS_BASE_ADDR <= start,
        offset <= limit <= region@.len(),
        rel(start as int) + region@.len() <= NVS_IMAGE_LEN,
        forall|i: int| rel(start as int) + offset <= i < rel(start as int) + limit ==> img[i] == 0xFFu8,
    ensures
        final(ops)@.len() >= old(ops)@.len(),
        final(ops)@.subrange(0, old(ops)@.len() as int) == old(ops)@,
        apply_ops(img, final(ops)@.subrange(old(ops)@.len() as int, final(ops)@.len() as int))
            == overlay(img, start as int, region@, offset as int, limit as int),
        forall|k: int| old(ops)@.len() <= k < final(ops)@.len() ==> (#[trigger] final(ops)@[k] matches FlashOp::Write { addr, bytes }
            && start + offset <= addr && addr + bytes@.len() <= start + limit),
        limit - offset <= NVS_WRITE_CHUNK_SIZE ==> final(ops)@.len() <= old(ops)@.len() + 1,
{
    let ghost base = ops@;
    let mut cur = offset;
    assert(ops@.subrange(base.len() as int, ops@.len() as int) =~= Seq::<FlashOp>::empty());
    assert(overlay(img, start as int, region@, offset as int, offset as int) =~= img);
    while cur < limit
        invariant
            img.len() == NVS_IMAGE_LEN,
            NVS_BASE_ADDR <= start,
            offset <= cur <= limit <= region@.len(),
            rel(start as int) + region@.len() <= NVS_IMAGE_LEN,
            forall|i: int| rel(start as int) + offset <= i < rel(start as int) + limit ==> img[i] == 0xFFu8,
            ops@.len() >= base.len(),
            ops@.subrange(0, base.len() as int) == base,
            apply_ops(img, ops@.subrange(base.len() as int, ops@.len() as int))
                == overlay(img, start as int, region@, offset as int, cur as int),
            forall|k: int| base.len() <= k < ops@.len() ==> (#[trigger] ops@[k] matches FlashOp::Write { addr, bytes }
                && start + offset <= addr && addr + bytes@.len() <= start + limit),
            limit - offset <= NVS_WRITE_CHUNK_SIZE ==> ops@.len() <= base.len() + (if cur > offset { 1int } else { 0int }),
            limit - offset <= NVS_WRITE_CHUNK_SIZE && cur > offset ==> cur == limit,
        decreases limit - cur,
    {
        let end = if cur + NVS_WRITE_CHUNK_SIZE < limit { cur + NVS_WRITE_CHUNK_SIZE } else { limit };
        let chunk = vstd::slice::slice_subrange(region, cur, end);
        let ghost pre = ops@.subrange(base.len() as int, ops@.len() as int);
        let ghost before = overlay(img, start as int, region@, offset as int, cur as int);
        if !is_all_ff(chunk) {
            let bytes = vstd::slice::slice_to_vec(chunk);
            let op = FlashOp::Write { addr: start + cur as u32, bytes };
            ops.push(op);
            proof {
                assert(ops@.subrange(base.len() as int, ops@.len() as int) =~= pre.push(op));
                lemma_apply_ops_push(img, pre, op);
                assert(ops@.subrange(0, base.len() as int) =~= base);
                assert(apply_op(before, op) =~= overlay(img, start as int, region@, offset as int, end as int));
            }
        } else {
            proof {
                assert forall|i: int| rel(start as int) + cur <= i < rel(start as int) + end implies region@[i - rel(start as int)] == img[i] by {
                    assert(chunk@[i - rel(start as int) - cur] == region@[i - rel(start as int)]);
                }
                assert(before =~= overlay(img, start as int, region@, offset as int, end as int));
            }
        }
        cur = end;
    }
}

/// Bytes `[a, b)` of `img` are erased.
pub open spec fn erased_in(img: Seq<u8>, a: int, b: int) -> bool {
    forall|i: int| a <= i < b ==> #[trigger] img[i] == 0xFFu8
}

/// `op` leaves erased bytes of `[a, b)` erased: an erase, or a write inside
/// the image that starts at or after `b`.
pub open spec fn keeps_erased(op: FlashOp, a: int, b: int) -> bool {
    match op {
        FlashOp::Erase { .. } => true,
        FlashOp::Write { addr, bytes } => b <= rel(addr as int) && rel(addr as int) + bytes@.len() <= NVS_IMAGE_LEN,
    }
}

/// Applying `added` to `img` one operation at a time, every state between
/// the first and the last has the chunk at image offset `at` erased.
pub open spec fn first_chunk_erased_until_last(img: Seq<u8>, added: Seq<FlashOp>, at: int) -> bool {
    forall|m: int| 0 < m < added.len() ==> #[trigger] erased_in(apply_ops(img, added.subrange(0, m)), at, at + NVS_WRITE_CHUNK_SIZE)
        && apply_ops(img, added.subrange(0, m)).len() == NVS_IMAGE_LEN
}

/// Once the first operation has erased `[a, b)`, the operations after it
/// that keep it erased leave it erased at every step.
pub proof fn lemma_window_stays_erased(img: Seq<u8>, ops: Seq<FlashOp>, a: int, b: int, m: int)
    requires
        img.len() == NVS_IMAGE_LEN,
        0 <= a <= b <= NVS_IMAGE_LEN,
        1 <= m <= ops.len(),
        ops[0] matches FlashOp::Erase { start, end } && rel(start as int) <= a && b <= rel(end as int),
        forall|k: int| 1 <= k < m ==> #[trigger] keeps_erased(ops[k], a, b),
    ensures
        erased_in(apply_ops(img, ops.subrange(0, m)), a, b),
        apply_ops(img, ops.subrange(0, m)).len() == NVS_IMAGE_LEN,
    decreases m,
{
    if m == 1 {
        assert(ops.subrange(0, 1) =~= Seq::<FlashOp>::empty().push(ops[0]));
        lemma_apply_ops_push(img, Seq::<FlashOp>::empty(), ops[0]);
        let x = apply_ops(img, ops.subrange(0, 1));
        assert(apply_ops(img, Seq::<FlashOp>::empty()) == img);
        assert forall|i: int| a <= i < b implies #[trigger] x[i] == 0xFFu8 by {}
    } else {
        lemma_window_stays_erased(img, ops, a, b, m - 1);
        let prev = apply_ops(img, ops.subrange(0, m - 1));
        assert(ops.subrange(0, m) =~= ops.subrange(0, m - 1).push(ops[m - 1]));
        lemma_apply_ops_push(img, ops.subrange(0, m - 1), ops[m - 1]);
        assert(keeps_erased(ops[m - 1], a, b));
        let x = apply_ops(img, ops.subrange(0, m));
        assert(x == apply_op(prev, ops[m - 1]));
        match ops[m - 1] {
            FlashOp::Erase { .. } => {
                assert forall|i: int| a <= i < b implies #[trigger] x[i] == 0xFFu8 by {
                    assert(prev[i] == 0xFFu8);
                }
            },
            FlashOp::Write { addr, bytes } => {
                let off = rel(addr as int);
                assert(x =~= prev.subrange(0, off) + bytes@ + prev.subrange(off + bytes@.len(), prev.len() as int));
                assert forall|i: int| a <= i < b implies #[trigger] x[i] == 0xFFu8 by {
                    assert(prev[i] == 0xFFu8);
                    assert(x[i] == prev.subrange(0, off)[i]);
                }
            },
        }
    }
}

/// When the first operation erases the chunk at `at` and every other
/// operation but the last keeps it erased, it stays erased until the last.
proof fn lemma_first_chunk_erased(img: Seq<u8>, added: Seq<FlashOp>, at: int)
    requires
        img.len() == NVS_IMAGE_LEN,
        0 <= at,
        at + NVS_WRITE_CHUNK_SIZE <= NVS_IMAGE_LEN,
        added.len() >= 1,
        added[0] matches FlashOp::Erase { start, end } && rel(start as int) <= at && at + NVS_WRITE_CHUNK_SIZE <= rel(end as int),
        forall|k: int| 1 <= k < added.len() - 1 ==> #[trigger] keeps_erased(added[k], at, at + NVS_WRITE_CHUNK_SIZE),
    ensures
        first_chunk_erased_until_last(img, added, at),
{
    assert forall|m: int| 0 < m < added.len() implies #[trigger] erased_in(apply_ops(img, added.subrange(0, m)), at, at + NVS_WRITE_CHUNK_SIZE)
        && apply_ops(img, added.subrange(0, m)).len() == NVS_IMAGE_LEN by {
        lemma_window_stays_erased(img, added, at, at + NVS_WRITE_CHUNK_SIZE, m);
    }
}

/// Erase `[start, end)` and program `region` into it. With `defer_first`, the
/// first chunk (the store header) is programmed last, so an interrupted
/// write leaves the header erased rather than describing missing records.
#[verifier::spinoff_prover]
#[verifier::rlimit(60)]
pub fn write_region_ops(
    ops: &mut Vec<FlashOp>,
    start: u32,
    end: u32,
    region: &[u8],
    defer_first: bool,
    Ghost(img): Ghost<Seq<u8>>,
) -> (r: Result<(), RegionError>)
    requires
        img.len() == NVS_IMAGE_LEN,
        sector_region_ok(start as int, end as int),
    ensures
        match r {
            Ok(()) => {
                &&& region@.len() == end - start
                &&& final(ops)@.len() >= old(ops)@.len()
                &&& final(ops)@.subrange(0, old(ops)@.len() as int) == old(ops)@
                &&& apply_ops(img, final(ops)@.subrange(old(ops)@.len() as int, final(ops)@.len() as int))
                    == splice(img, rel(start as int), region@)
            },
            Err(_) => region@.len() != end - start && final(ops)@ == old(ops)@,
        },
        r is Ok && defer_first && region@.len() > NVS_WRITE_CHUNK_SIZE ==> first_chunk_erased_until_last(
            img, final(ops)@.subrange(old(ops)@.len() as int, final(ops)@.len() as int), rel(start as int)),
{
    if end < start || region.len() != (end - start) as usize {
        return Err(RegionError::Bounds);
    }
    if NVS_WRITE_CHUNK_SIZE == 0 || NVS_WRITE_CHUNK_SIZE % FLASH_WORD_SIZE != 0 {
        return Err(RegionError::Bounds);
    }
    let ghost base = ops@;
    let erased = erase_region_ops(ops, start, end, Ghost(img));
    if erased.is_err() {
        return Err(RegionError::Bounds);
    }
    let ghost after_erase = ops@;
    let ghost img1 = apply_ops(img, after_erase.subrange(base.len() as int, after_erase.len() as int));
    let len = region.len();
    if !defer_first || len <= NVS_WRITE_CHUNK_SIZE {
        write_chunks_ops(ops, start, region, 0, len, Ghost(img1));
        proof {
            let a = after_erase.subrange(base.len() as int, after_erase.len() as int);
            let b = ops@.subrange(after_erase.len() as int, ops@.len() as int);
            assert(after_erase.subrange(0, base.len() as int) == base);
            assert(ops@.subrange(0, after_erase.len() as int) == after_erase);
            assert forall|k: int| 0 <= k < after_erase.len() implies ops@[k] == after_erase[k] by {
                assert(ops@.subrange(0, after_erase.len() as int)[k] == ops@[k]);
            }
            assert forall|k: int| 0 <= k < base.len() implies after_erase[k] == base[k] by {
                assert(after_erase.subrange(0, base.len() as int)[k] == after_erase[k]);
            }
            assert(ops@.subrange(base.len() as int, ops@.len() as int) =~= a + b);
            lemma_apply_ops_concat(img, a, b);
            assert(ops@.subrange(0, base.len() as int) =~= base);
            assert(overlay(img1, start as int, region@, 0, len as int) =~= splice(img, rel(start as int), region@));
        }
    } else {
        write_chunks_ops(ops, start, region, NVS_WRITE_CHUNK_SIZE, len, Ghost(img1));
        let ghost mid = ops@;
        let ghost img2 = overlay(img1, start as int, region@, NVS_WRITE_CHUNK_SIZE as int, len as int);
        write_chunks_ops(ops, start, region, 0, NVS_WRITE_CHUNK_SIZE, Ghost(img2));
        proof {
            let a = after_erase.subrange(base.len() as int, after_erase.len() as int);
            let b = mid.subrange(after_erase.len() as int, mid.len() as int);
            let c = ops@.subrange(mid.len() as int, ops@.len() as int);
            assert(mid.subrange(0, after_erase.len() as int) == after_erase);
            assert(ops@.subrange(0, mid.len() as int) == mid);
            assert(ops@.subrange(base.len() as int, ops@.len() as int) =~= (a + b) + c);
            assert(mid.subrange(base.len() as int, mid.len() as int) =~= a + b);
            lemma_apply_ops_concat(img, a, b);
            lemma_apply_ops_concat(img, a + b, c);
            assert(ops@.subrange(0, base.len() as int) =~= base) by {
                assert forall|k: int| 0 <= k < base.len() implies ops@[k] == base[k] by {
                    assert(ops@[k] == mid[k]);
                    assert(mid[k] == after_erase[k]);
                }
            }
            assert(overlay(img2, start as int, region@, 0, NVS_WRITE_CHUNK_SIZE as int) =~= splice(img, rel(start as int), region@));
            let added = ops@.subrange(base.len() as int, ops@.len() as int);
            let w0 = rel(start as int);
            let w1 = rel(start as int) + NVS_WRITE_CHUNK_SIZE;
            assert(added[0] == after_erase[base.len() as int]);
            assert forall|k: int| 1 <= k < added.len() - 1 implies #[trigger] keeps_erased(added[k], w0, w1) by {
                let g = base.len() + k;
                assert(added[k] == ops@[g]);
                if g < after_erase.len() {
                    assert(ops@[g] == mid[g]);
                    assert(mid[g] == after_erase[g]);
                } else if g < mid.len() {
                    assert(ops@[g] == mid[g]);
                }
            }
            lemma_first_chunk_erased(img, added, w0);
        }
    }
    Ok(())
}

} // verus!
