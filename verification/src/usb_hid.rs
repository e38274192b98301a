//! The vendor-defined HID transport: outgoing bytes wait in a bounded queue
//! and leave in 64-byte reports `[report id][length][data...]`.
use vstd::prelude::*;
use heapless::Vec as HVec;

verus! {

pub const PLAIN_BUF_LEN: usize = 4096;
/// Longest COBS encoding of a plain buffer, plus the frame delimiter.
pub const ENC_BUF_LEN: usize = 4114;
pub const TX_QUEUE_LEN: usize = 12342;
pub const REPORT_ID: u8 = 1;
/// Report length, including the report-id prefix.
pub const REPORT_TOTAL_LEN: usize = 64;
/// Data bytes of a report, excluding the report id.
pub const REPORT_DATA_LEN: usize = 63;
/// Payload bytes of a report: its first data byte is the payload length.
pub const PAYLOAD_MAX: usize = 62;
pub const MAX_TX_REPORTS_PER_TICK: usize = 4;
pub const MAX_RX_REPORTS_PER_TICK: usize = 8;

/// The bytes a transmit queue holds, in order.
pub uninterp spec fn tx_bytes(v: HVec<u8, 12342>) -> Seq<u8>;

/// `heapless::Vec::new`.
#[verifier::external_body]
fn txq_new() -> (v: HVec<u8, 12342>)
    ensures
        tx_bytes(v) == Seq::<u8>::empty(),
{
    HVec::new()
}

/// `heapless::Vec::len`; never above the capacity.
#[verifier::external_body]
fn txq_len(v: &HVec<u8, 12342>) -> (n: usize)
    ensures
        n == tx_bytes(*v).len(),
        n <= TX_QUEUE_LEN,
{
    v.len()
}

/// Indexing through the slice.
#[verifier::external_body]
fn txq_get(v: &HVec<u8, 12342>, i: usize) -> (b: u8)
    requires
        i < tx_bytes(*v).len(),
    ensures
        b == tx_bytes(*v)[i as int],
{
    v[i]
}

/// Assigning through the slice.
#[verifier::external_body]
fn txq_set(v: &mut HVec<u8, 12342>, i: usize, b: u8)
    requires
        i < tx_bytes(*old(v)).len(),
    ensures
        tx_bytes(*final(v)) == tx_bytes(*old(v)).update(i as int, b),
{
    v[i] = b;
}

/// `heapless::Vec::truncate`: keeps the first `n` bytes.
#[verifier::external_body]
fn txq_truncate(v: &mut HVec<u8, 12342>, n: usize)
    requires
        n <= tx_bytes(*old(v)).len(),
    ensures
        tx_bytes(*final(v)) == tx_bytes(*old(v)).subrange(0, n as int),
{
    v.truncate(n);
}

/// `heapless::Vec::clear`.
#[verifier::external_body]
fn txq_clear(v: &mut HVec<u8, 12342>)
    ensures
        tx_bytes(*final(v)) == Seq::<u8>::empty(),
{
    v.clear();
}

/// `heapless::Vec::extend_from_slice`: appends all of `s` when it fits,
/// otherwise changes nothing; reports which.
#[verifier::external_body]
fn txq_extend(v: &mut HVec<u8, 12342>, s: &[u8]) -> (ok: bool)
    ensures
        ok == (tx_bytes(*old(v)).len() + s@.len() <= TX_QUEUE_LEN),
        ok ==> tx_bytes(*final(v)) == tx_bytes(*old(v)) + s@,
        !ok ==> tx_bytes(*final(v)) == tx_bytes(*old(v)),
{
    v.extend_from_slice(s).is_ok()
}

pub struct TxQueue {
    buf: HVec<u8, 12342>,
    pos: usize,
}

/// The transmit side: no queue, or a queue with bytes still to send.
pub struct TxState {
    queue: Option<TxQueue>,
}

impl TxQueue {
    /// The bytes not yet sent.
    pub closed spec fn pending(&self) -> Seq<u8> {
        tx_bytes(self.buf).subrange(self.pos as int, tx_bytes(self.buf).len() as int)
    }

    pub closed spec fn wf(&self) -> bool {
        self.pos <= tx_bytes(self.buf).len()
    }
}

impl TxState {
    /// The bytes waiting to be sent, in order.
    pub closed spec fn pending(&self) -> Seq<u8> {
        match self.queue {
            Some(q) => q.pending(),
            None => Seq::empty(),
        }
    }

    pub closed spec fn wf(&self) -> bool {
        match self.queue {
            Some(q) => q.wf(),
            None => true,
        }
    }

    pub fn new() -> (s: Self)
        ensures
            s.wf(),
            s.pending() == Seq::<u8>::empty(),
    {
        TxState { queue: None }
    }

    /// Fill `report` with the next bytes to send and say how many, or none
    /// when nothing waits (an exhausted queue is dropped).
    pub fn prepare_next_report(&mut self, report: &mut [u8; 64]) -> (take: Option<usize>)
        requires
            old(self).wf(),
        ensures
            final(self).wf(),
            final(self).pending() == old(self).pending(),
            match take {
                None => old(self).pending().len() == 0,
                Some(n) => {
                    &&& n == if old(self).pending().len() < PAYLOAD_MAX { old(self).pending().len() } else { PAYLOAD_MAX as nat }
                    &&& n > 0
                    &&& final(report)@ == report_bytes(old(self).pending().subrange(0, n as int))
                },
            },
    {
        match &self.queue {
            None => None,
            Some(q) => {
                let len = txq_len(&q.buf);
                if q.pos >= len {
                    self.queue = None;
                    return None;
                }
                let remaining = len - q.pos;
                let take = if remaining < PAYLOAD_MAX { remaining } else { PAYLOAD_MAX };
                report[0] = REPORT_ID;
                report[1] = take as u8;
                let mut i: usize = 0;
                while i < 62
                    invariant
                        i <= 62,
                        take <= 62,
                        q.pos + take <= tx_bytes(q.buf).len(),
                        tx_bytes(q.buf).len() <= TX_QUEUE_LEN,
                        report@[0] == REPORT_ID,
                        report@[1] == take as u8,
                        forall|k: int| 2 <= k < 2 + i ==> #[trigger] report@[k] == if k - 2 < take { tx_bytes(q.buf)[q.pos + k - 2] } else { 0u8 },
                    decreases 62 - i,
                {
                    let b = if i < take { txq_get(&q.buf, q.pos + i) } else { 0u8 };
                    report[2 + i] = b;
                    i += 1;
                }
                proof {
                    assert(report@ =~= report_bytes(q.pending().subrange(0, take as int)));
                }
                Some(take)
            },
        }
    }

    /// The host took a report carrying `take` bytes.
    pub fn mark_report_sent(&mut self, take: usize)
        requires
            old(self).wf(),
        ensures
            final(self).wf(),
            final(self).pending() == if take < old(self).pending().len() {
                old(self).pending().subrange(take as int, old(self).pending().len() as int)
            } else {
                Seq::<u8>::empty()
            },
    {
        if let Some(q) = &mut self.queue {
            let len = txq_len(&q.buf);
            let moved = q.pos.saturating_add(take);
            q.pos = if moved < len { moved } else { len };
            if q.pos >= len {
                self.queue = None;
            }
            proof {
                if take < old(self).pending().len() {
                    assert(self.pending() =~= old(self).pending().subrange(take as int, old(self).pending().len() as int));
                }
            }
        }
    }

    /// Abandon whatever waits.
    pub fn drop_tx_queue(&mut self)
        ensures
            final(self).wf(),
            final(self).pending() == Seq::<u8>::empty(),
    {
        self.queue = None;
    }

    /// Queue `buf` after the waiting bytes when it fits, sent bytes being
    /// reclaimed first; otherwise nothing changes.
    pub fn enqueue(&mut self, buf: &[u8]) -> (ok: bool)
        requires
            old(self).wf(),
        ensures
            final(self).wf(),
            ok == (old(self).pending().len() + buf@.len() <= TX_QUEUE_LEN),
            ok ==> final(self).pending() == old(self).pending() + buf@,
            !ok ==> final(self).pending() == old(self).pending(),
    {
        let mut q = match self.queue.take() {
            Some(q) => q,
            None => TxQueue { buf: txq_new(), pos: 0 },
        };
        let ghost before = q.pending();
        compact(&mut q);
        let ok = txq_extend(&mut q.buf, buf);
        proof {
            if ok {
                assert(q.pending() =~= before + buf@);
            }
        }
        self.queue = Some(q);
        ok
    }
}

/// A report carrying `payload` (at most `PAYLOAD_MAX` bytes), zero-padded.
pub open spec fn report_bytes(payload: Seq<u8>) -> Seq<u8> {
    seq![REPORT_ID, payload.len() as u8] + payload + Seq::new((PAYLOAD_MAX - payload.len()) as nat, |i: int| 0u8)
}

/// Move the unsent bytes to the front of the buffer.
fn compact(q: &mut TxQueue)
    requires
        old(q).wf(),
    ensures
        final(q).wf(),
        final(q).pos == 0,
        final(q).pending() == old(q).pending(),
{
    if q.pos == 0 {
        proof { assert(q.pending() =~= tx_bytes(q.buf)); }
        return;
    }
    let len = txq_len(&q.buf);
    if q.pos >= len {
        txq_clear(&mut q.buf);
        q.pos = 0;
        proof { assert(q.pending() =~= old(q).pending()); }
        return;
    }
    let remaining = len - q.pos;
    let ghost orig = tx_bytes(q.buf);
    let mut i: usize = 0;
    while i < remaining
        invariant
            orig.len() == len,
            q.pos + remaining == len,
            i <= remaining,
            tx_bytes(q.buf).len() == len,
            forall|j: int| 0 <= j < i ==> #[trigger] tx_bytes(q.buf)[j] == orig[q.pos + j],
            forall|j: int| i <= j < len ==> #[trigger] tx_bytes(q.buf)[j] == orig[j],
        decreases remaining - i,
    {
        let b = txq_get(&q.buf, q.pos + i);
        txq_set(&mut q.buf, i, b);
        i += 1;
    }
    txq_truncate(&mut q.buf, remaining);
    q.pos = 0;
    proof {
        assert(q.pending() =~= orig.subrange(old(q).pos as int, len as int));
    }
}

/// The payload of a received report of `len` bytes: none unless it has the
/// report id and a length byte; otherwise the announced bytes, cut to what
/// was received and to the payload maximum.
pub fn output_payload(report: &[u8; 64], len: usize) -> (r: Option<&[u8]>)
    ensures
        (len < 2 || report@[0] != REPORT_ID) ==> r is None,
        !(len < 2 || report@[0] != REPORT_ID) ==> (r matches Some(p) && p@ == report@.subrange(2, 2 + payload_available(report@[1] as int, len as int))),
{
    if len < 2 || report[0] != REPORT_ID {
        return None;
    }
    let payload_len = report[1] as usize;
    let received = len - 2;
    let a = if payload_len < received { payload_len } else { received };
    let available = if a < PAYLOAD_MAX { a } else { PAYLOAD_MAX };
    Some(vstd::slice::slice_subrange(report.as_slice(), 2, 2 + available))
}

pub open spec fn payload_available(announced: int, len: int) -> int {
    let a = if announced < len - 2 { announced } else { len - 2 };
    if a < PAYLOAD_MAX { a } else { PAYLOAD_MAX as int }
}

/// Bytes queued leave in order: a queue holding `pending` sends its first
/// `take` bytes in the next report and then holds the rest.
pub proof fn lemma_reports_send_in_order(pending: Seq<u8>, take: nat)
    requires
        0 < take <= PAYLOAD_MAX,
        take <= pending.len(),
    ensures
        report_bytes(pending.subrange(0, take as int)).subrange(2, 2 + take as int) + pending.subrange(take as int, pending.len() as int)
            == pending,
{
    let r = report_bytes(pending.subrange(0, take as int));
    assert(r.subrange(2, 2 + take as int) =~= pending.subrange(0, take as int));
    assert(pending.subrange(0, take as int) + pending.subrange(take as int, pending.len() as int) =~= pending);
}

} // verus!
