//! Fragmented frames: starting and receiving inbound payloads, and what a
//! completed payload leads to.
use vstd::prelude::*;
use crate::dispatch::complete_set_seed;
use crate::fragments::{FragKind, FragmentState, Inbound, Outbound, PartResult, MAX_TOTAL};
use crate::limits::ErrCode;
use crate::protocol::Response;
use crate::session::{is_locked, Session};

verus! {

/// A frame of a fragmented payload.
pub enum FragFrame {
    Begin { id: u16, total_len: u32, kind: FragKind },
    Part { id: u16, offset: u32, chunk: Vec<u8>, last: bool },
}

/// What a fragment frame leads to.
pub enum FrameStep {
    /// Answer with this reply.
    Reply(Response),
    /// A whole signing draft arrived on an unlocked device; it is reviewed
    /// or signed next.
    SignDraft { id: u16, draft: Vec<u8> },
    /// A whole address book arrived on an unlocked device, still encoded.
    AddressBook(Vec<u8>),
}

/// What receiving a part does, abstractly.
pub enum PartSpec {
    More,
    Complete(u16, FragKind, Seq<u8>),
    Refused(ErrCode),
}

/// The outcome of receiving part `offset` of payload `id` given the payload
/// in progress, as `FragmentState::accept_part` states it.
pub open spec fn part_spec(inbound: Option<Inbound>, id: u16, offset: u32, chunk: Seq<u8>, last: bool) -> PartSpec {
    match inbound {
        None => PartSpec::Refused(ErrCode::BadCobsOrPostcard),
        Some(st) => if st.id != id || st.next_off != offset {
            PartSpec::Refused(ErrCode::BadCobsOrPostcard)
        } else if st.buf@.len() + chunk.len() > st.total_len {
            PartSpec::Refused(ErrCode::Overflow)
        } else if !last {
            PartSpec::More
        } else if st.buf@.len() + chunk.len() != st.total_len {
            PartSpec::Refused(ErrCode::BadCobsOrPostcard)
        } else {
            PartSpec::Complete(st.id, st.kind, st.buf@ + chunk)
        },
    }
}

/// The payload in progress after a `Begin` frame: a payload announced too
/// large leaves the one in progress; otherwise a fresh, empty payload of
/// that id, kind and length replaces it.
pub open spec fn inbound_after_begin(before: Option<Inbound>, after: Option<Inbound>, id: u16, total_len: u32, kind: FragKind) -> bool {
    if total_len > MAX_TOTAL {
        after == before
    } else {
        after matches Some(st) && st.id == id && st.kind == kind && st.total_len == total_len && st.buf@.len() == 0
    }
}

/// The payload in progress after a `Part` frame: a refused part (another
/// payload, out of order, or too long) keeps it; an accepted part that is
/// not the last extends it; the last part ends it, complete or not.
pub open spec fn inbound_after_part(
    before: Option<Inbound>,
    after: Option<Inbound>,
    id: u16,
    offset: u32,
    chunk: Seq<u8>,
    last: bool,
) -> bool {
    match before {
        None => after is None,
        Some(st) => if st.id != id || st.next_off != offset || st.buf@.len() + chunk.len() > st.total_len {
            after == before
        } else if !last {
            after matches Some(n) && n.id == st.id && n.kind == st.kind && n.total_len == st.total_len
                && n.buf@ == st.buf@ + chunk
        } else {
            after is None
        },
    }
}

/// Handles a fragment frame. While a firmware update streams, fragments are
/// answered busy. A payload announced too large is refused; parts go through
/// `accept_part`; a completed seed sets the session's seed, and a completed
/// draft or address book needs the device unlocked: the draft goes on to
/// review or signing, the address book on to decoding and storing.
pub fn handle_fragment_frame(
    frags: &mut FragmentState,
    session: &mut Session,
    frame: FragFrame,
    stream_active: bool,
) -> (r: FrameStep)
    requires
        old(frags).wf(),
        old(session).wf(),
    ensures
        final(frags).wf(),
        final(session).wf(),
        final(frags).outbound == old(frags).outbound,
        !stream_active ==> match frame {
            FragFrame::Begin { id, total_len, kind } => inbound_after_begin(old(frags).inbound, final(frags).inbound, id, total_len, kind),
            FragFrame::Part { id, offset, chunk, last } =>
                inbound_after_part(old(frags).inbound, final(frags).inbound, id, offset, chunk@, last),
        },
        stream_active ==> r == FrameStep::Reply(Response::Error { code: ErrCode::Busy })
            && final(frags).inbound == old(frags).inbound && final(session).view() == old(session).view(),
        !stream_active ==> match frame {
            FragFrame::Begin { id, total_len, kind } => final(session).view() == old(session).view() && if total_len > MAX_TOTAL {
                r == FrameStep::Reply(Response::Error { code: ErrCode::Overflow })
            } else {
                r == FrameStep::Reply(Response::Done)
            },
            FragFrame::Part { id, offset, chunk, last } => match part_spec(old(frags).inbound, id, offset, chunk@, last) {
                PartSpec::Refused(c) => r == FrameStep::Reply(Response::Error { code: c })
                    && final(session).view() == old(session).view(),
                PartSpec::More => r == FrameStep::Reply(Response::Done) && final(session).view() == old(session).view(),
                PartSpec::Complete(pid, kind, payload) => match kind {
                    FragKind::SetSeed => if payload.len() == 64 {
                        r == FrameStep::Reply(Response::Done) && final(session).view().slots.len() == 1
                            && final(session).view().slots[0]@ == payload && !final(session).view().locked
                    } else {
                        r == FrameStep::Reply(Response::Error { code: ErrCode::BadCobsOrPostcard })
                            && final(session).view() == old(session).view()
                    },
                    FragKind::SignDraft => final(session).view() == old(session).view() && if old(session).view().locked {
                        r == FrameStep::Reply(Response::Error { code: ErrCode::DeviceLocked })
                    } else {
                        r matches FrameStep::SignDraft { id: i, draft } && i == pid && draft@ == payload
                    },
                    FragKind::AddressBook => final(session).view() == old(session).view() && if old(session).view().locked {
                        r == FrameStep::Reply(Response::Error { code: ErrCode::DeviceLocked })
                    } else {
                        r matches FrameStep::AddressBook(p) && p@ == payload
                    },
                },
            },
        },
{
    if stream_active {
        return FrameStep::Reply(Response::Error { code: ErrCode::Busy });
    }
    match frame {
        FragFrame::Begin { id, total_len, kind } => {
            if frags.begin_inbound(id, kind, total_len).is_err() {
                FrameStep::Reply(Response::Error { code: ErrCode::Overflow })
            } else {
                FrameStep::Reply(Response::Done)
            }
        },
        FragFrame::Part { id, offset, chunk, last } => {
            match frags.accept_part(id, offset, chunk.as_slice(), last) {
                PartResult::More => FrameStep::Reply(Response::Done),
                PartResult::Refused(code) => FrameStep::Reply(Response::Error { code }),
                PartResult::Complete { id, kind, payload } => match kind {
                    FragKind::SetSeed => FrameStep::Reply(complete_set_seed(session, payload.as_slice())),
                    FragKind::SignDraft => {
                        if is_locked(session) {
                            FrameStep::Reply(Response::Error { code: ErrCode::DeviceLocked })
                        } else {
                            FrameStep::SignDraft { id, draft: payload }
                        }
                    },
                    FragKind::AddressBook => {
                        if is_locked(session) {
                            FrameStep::Reply(Response::Error { code: ErrCode::DeviceLocked })
                        } else {
                            FrameStep::AddressBook(payload)
                        }
                    },
                },
            }
        },
    }
}

/// Starts streaming a large reply back and announces it.
pub fn start_outbound(frags: &mut FragmentState, msg_id: u32, id: u16, data: Vec<u8>) -> (r: Response)
    requires
        old(frags).wf(),
        data@.len() <= u32::MAX,
    ensures
        final(frags).wf(),
        final(frags).inbound == old(frags).inbound,
        final(frags).outbound matches Some(o) && o.msg_id == msg_id && o.id == id && o.off == 0 && o.data@ == data@,
        r == (Response::FragBegin { id, total_len: data@.len() as u32, kind: FragKind::AddressBook }),
{
    let total = data.len() as u32;
    frags.set_outbound(msg_id, id, data);
    Response::FragBegin { id, total_len: total, kind: FragKind::AddressBook }
}

} // verus!
