//! Payloads too large for one frame travel in fragments: the host announces
//! a payload and sends its parts in order; large replies are streamed back
//! the same way.
use vstd::prelude::*;
use crate::limits::ErrCode;

verus! {

/// Largest payload accepted in fragments.
pub const MAX_TOTAL: usize = 65536;
/// Bytes per outgoing fragment.
pub const TX_CHUNK: usize = 512;

#[derive(Clone, Copy, Debug, PartialEq, Eq, Structural)]
pub enum FragKind {
    SetSeed,
    SignDraft,
    AddressBook,
}

/// A payload being received.
pub struct Inbound {
    pub id: u16,
    pub kind: FragKind,
    pub total_len: u32,
    pub next_off: u32,
    pub buf: Vec<u8>,
}

/// A reply being streamed back.
pub struct Outbound {
    pub msg_id: u32,
    pub id: u16,
    pub off: u32,
    pub data: Vec<u8>,
}

impl Outbound {
    pub fn new(msg_id: u32, id: u16, data: Vec<u8>) -> (o: Self)
        ensures
            o.msg_id == msg_id,
            o.id == id,
            o.off == 0,
            o.data@ == data@,
    {
        Outbound { msg_id, id, off: 0, data }
    }
}

/// The pending inbound and outbound payloads.
pub struct FragmentState {
    pub inbound: Option<Inbound>,
    pub outbound: Option<Outbound>,
}

/// What receiving a part led to.
pub enum PartResult {
    /// Stored; more parts are expected.
    More,
    /// The last part arrived and the payload is whole.
    Complete { id: u16, kind: FragKind, payload: Vec<u8> },
    /// Refused with this code.
    Refused(ErrCode),
}

/// An inbound payload whose buffer holds exactly the bytes received so far.
pub open spec fn inbound_ok(st: Inbound) -> bool {
    st.buf@.len() == st.next_off && st.next_off <= st.total_len && st.total_len <= MAX_TOTAL
}

impl FragmentState {
    pub fn new() -> (s: Self)
        ensures
            s.inbound is None,
            s.outbound is None,
    {
        FragmentState { inbound: None, outbound: None }
    }

    pub open spec fn wf(&self) -> bool {
        self.inbound matches Some(st) ==> inbound_ok(st)
    }

    /// Announce a payload of `total_len` bytes; too large is refused and the
    /// previous payload kept, otherwise it replaces any payload in progress.
    pub fn begin_inbound(&mut self, id: u16, kind: FragKind, total_len: u32) -> (r: Result<(), ()>)
        requires
            old(self).wf(),
        ensures
            final(self).wf(),
            final(self).outbound == old(self).outbound,
            total_len > MAX_TOTAL ==> r is Err && final(self).inbound == old(self).inbound,
            total_len <= MAX_TOTAL ==> r is Ok && (final(self).inbound matches Some(st)
                && st.id == id && st.kind == kind && st.total_len == total_len && st.next_off == 0 && st.buf@.len() == 0),
    {
        if total_len as usize > MAX_TOTAL {
            return Err(());
        }
        self.inbound = Some(Inbound { id, kind, total_len, next_off: 0, buf: Vec::new() });
        Ok(())
    }

    /// Receive part `offset` of payload `id`. A part for another payload or
    /// out of order is refused, as is one that would overrun the announced
    /// length; these keep the payload. The last part completes the payload
    /// when it fills it exactly; otherwise the payload is dropped.
    pub fn accept_part(&mut self, id: u16, offset: u32, chunk: &[u8], last: bool) -> (r: PartResult)
        requires
            old(self).wf(),
        ensures
            final(self).wf(),
            final(self).outbound == old(self).outbound,
            match old(self).inbound {
                None => r == PartResult::Refused(ErrCode::BadCobsOrPostcard) && final(self).inbound is None,
                Some(st) => if st.id != id || st.next_off != offset {
                    r == PartResult::Refused(ErrCode::BadCobsOrPostcard) && final(self).inbound == old(self).inbound
                } else if st.buf@.len() + chunk@.len() > st.total_len {
                    r == PartResult::Refused(ErrCode::Overflow) && final(self).inbound == old(self).inbound
                } else if !last {
                    r is More && (final(self).inbound matches Some(n) && n.id == st.id && n.kind == st.kind
                        && n.total_len == st.total_len && n.buf@ == st.buf@ + chunk@)
                } else if st.buf@.len() + chunk@.len() != st.total_len {
                    r == PartResult::Refused(ErrCode::BadCobsOrPostcard) && final(self).inbound is None
                } else {
                    (r matches PartResult::Complete { id: i, kind: k, payload } && i == st.id && k == st.kind
                        && payload@ == st.buf@ + chunk@) && final(self).inbound is None
                },
            },
    {
        let mut st = match self.inbound.take() {
            Some(st) => st,
            None => return PartResult::Refused(ErrCode::BadCobsOrPostcard),
        };
        if st.id != id || st.next_off != offset {
            self.inbound = Some(st);
            return PartResult::Refused(ErrCode::BadCobsOrPostcard);
        }
        if chunk.len() > (st.total_len as usize) - st.buf.len() {
            self.inbound = Some(st);
            return PartResult::Refused(ErrCode::Overflow);
        }
        let ghost before = st.buf@;
        let ghost st0 = (st.id, st.kind, st.total_len, st.next_off);
        let mut i: usize = 0;
        while i < chunk.len()
            invariant
                i <= chunk@.len(),
                st.buf@ == before + chunk@.subrange(0, i as int),
                (st.id, st.kind, st.total_len, st.next_off) == st0,
                before.len() == st.next_off,
                before.len() + chunk@.len() <= st.total_len,
                st.total_len <= MAX_TOTAL,
            decreases chunk@.len() - i,
        {
            st.buf.push(chunk[i]);
            i += 1;
            assert(st.buf@ =~= before + chunk@.subrange(0, i as int));
        }
        assert(chunk@.subrange(0, chunk@.len() as int) =~= chunk@);
        st.next_off = st.next_off + chunk.len() as u32;
        if !last {
            self.inbound = Some(st);
            return PartResult::More;
        }
        if st.next_off != st.total_len {
            return PartResult::Refused(ErrCode::BadCobsOrPostcard);
        }
        PartResult::Complete { id: st.id, kind: st.kind, payload: st.buf }
    }

    /// Takes the payload in progress out, to be put back if it continues.
    pub fn take_inbound(&mut self) -> (r: Option<Inbound>)
        requires
            old(self).wf(),
        ensures
            r == old(self).inbound,
            final(self).inbound is None,
            final(self).outbound == old(self).outbound,
            r matches Some(st) ==> inbound_ok(st),
    {
        self.inbound.take()
    }

    pub fn put_inbound(&mut self, st: Inbound)
        requires
            inbound_ok(st),
        ensures
            final(self).wf(),
            final(self).inbound == Some(st),
            final(self).outbound == old(self).outbound,
    {
        self.inbound = Some(st);
    }

    pub fn set_outbound(&mut self, msg_id: u32, id: u16, data: Vec<u8>)
        ensures
            final(self).inbound == old(self).inbound,
            final(self).outbound matches Some(o) && o.msg_id == msg_id && o.id == id && o.off == 0 && o.data@ == data@,
    {
        self.outbound = Some(Outbound::new(msg_id, id, data));
    }

    pub fn take_outbound(&mut self) -> (r: Option<Outbound>)
        ensures
            r == old(self).outbound,
            final(self).outbound is None,
            final(self).inbound == old(self).inbound,
    {
        self.outbound.take()
    }

    pub fn put_outbound(&mut self, o: Outbound)
        ensures
            final(self).outbound == Some(o),
            final(self).inbound == old(self).inbound,
    {
        self.outbound = Some(o);
    }
}

/// The next part of a reply: its byte range and whether it is the last.
pub open spec fn next_part(off: int, len: int) -> (int, int, bool) {
    let end = if off + TX_CHUNK < len { off + TX_CHUNK } else { len };
    (off, end, end == len)
}

/// The next part to send: bytes `[off, end)` of the reply, and whether they
/// end it.
pub fn outbound_next_part(o: &Outbound) -> (r: (usize, usize, bool))
    requires
        o.off <= o.data@.len(),
    ensures
        r.0 == o.off,
        (r.0 as int, r.1 as int, r.2) == next_part(o.off as int, o.data@.len() as int),
        r.1 <= o.data@.len(),
{
    let start = o.off as usize;
    let end = if o.data.len() - start > TX_CHUNK { start + TX_CHUNK } else { o.data.len() };
    (start, end, end == o.data.len())
}

/// The parts of a reply, as byte ranges, from offset `off` on.
pub open spec fn parts_from(off: int, len: int) -> Seq<(int, int)>
    decreases len - off,
{
    if off >= len || off < 0 {
        Seq::empty()
    } else {
        let (start, end, _) = next_part(off, len);
        seq![(start, end)] + parts_from(end, len)
    }
}

/// Streaming a reply part by part sends every byte once, in order: the
/// ranges of the parts tile the reply from its start to its end.
pub proof fn lemma_parts_tile(off: int, len: int)
    requires
        0 <= off <= len,
    ensures
        forall|k: int| 0 <= k < parts_from(off, len).len() ==> {
            let p = #[trigger] parts_from(off, len)[k];
            off <= p.0 < p.1 <= len && p.1 - p.0 <= TX_CHUNK
        },
        parts_from(off, len).len() > 0 ==> parts_from(off, len)[0].0 == off
            && parts_from(off, len).last().1 == len,
        forall|k: int| 0 <= k < parts_from(off, len).len() - 1 ==> #[trigger] parts_from(off, len)[k].1 == parts_from(off, len)[k + 1].0,
    decreases len - off,
{
    if off < len {
        let end = next_part(off, len).1;
        lemma_parts_tile(end, len);
        let rest = parts_from(end, len);
        let all = parts_from(off, len);
        assert(all == seq![(off, end)] + rest);
        assert forall|k: int| 0 <= k < all.len() - 1 implies #[trigger] all[k].1 == all[k + 1].0 by {
            if k > 0 {
                assert(all[k] == rest[k - 1]);
                assert(all[k + 1] == rest[k]);
            } else {
                if rest.len() > 0 {
                    assert(all[1] == rest[0]);
                }
            }
        }
        assert forall|k: int| 0 <= k < all.len() implies {
            let p = #[trigger] all[k];
            off <= p.0 < p.1 <= len && p.1 - p.0 <= TX_CHUNK
        } by {
            if k > 0 {
                assert(all[k] == rest[k - 1]);
            }
        }
        if rest.len() > 0 {
            assert(all.last() == rest.last());
        }
    }
}

} // verus!
