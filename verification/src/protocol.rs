//! The replies the firmware's request handlers build, and the framing of an
//! encoded message for the wire: COBS, then a zero byte.
use vstd::prelude::*;
use crate::limits::ErrCode;
use crate::fragments::FragKind;
use crate::types::{SeedSlotLabel, TouchCalibration};

verus! {

pub enum Response {
    Done,
    Error { code: ErrCode },
    Pong,
    OkLockStatus { locked: bool, attempts_remaining: u8 },
    OkTouchCalibration(TouchCalibration),
    OkSeedLabels(Vec<SeedSlotLabel>),
    OkUpdateTrust { configured: bool, pubkey_sha256: [u8; 32] },
    OkReleaseInfo { release_version: u32 },
    /// A reply too large for one frame follows in fragments.
    FragBegin { id: u16, total_len: u32, kind: FragKind },
    OkFingerprint { fp4: [u8; 4] },
    OkPubkeyCompressed { compressed: [u8; 33] },
    OkPubkey { uncompressed: [u8; 65] },
    OkSig { sig64: [u8; 64] },
    OkXpub(crate::derivation::Xpub),
}

pub open spec fn is_err(r: Response, code: ErrCode) -> bool {
    r matches Response::Error { code: c } && c == code
}

/// The COBS encoding (sentinel zero) of a byte string, as `cobs::encode`
/// writes it.
pub uninterp spec fn cobs_encoding(data: Seq<u8>) -> Seq<u8>;

/// `cobs::encode` into a buffer of `cobs::max_encoding_length` bytes, cut
/// to the length it reports. The crate documents that this buffer size is
/// enough (it would panic on a smaller one); the length bound keeps the size
/// computation from overflowing.
#[verifier::external_body]
fn cobs_encode(data: &[u8]) -> (r: Vec<u8>)
    requires
        data@.len() <= crate::usb_hid::PLAIN_BUF_LEN,
    ensures
        r@ == cobs_encoding(data@),
{
    let mut out = vec![0u8; cobs::max_encoding_length(data.len())];
    let used = cobs::encode(data, &mut out);
    out.truncate(used);
    out
}

/// A message ready for the wire: the COBS encoding of its bytes followed by
/// the zero byte that ends the frame.
pub fn frame_message(plain: &[u8]) -> (framed: Vec<u8>)
    requires
        plain@.len() <= crate::usb_hid::PLAIN_BUF_LEN,
    ensures
        framed@ == cobs_encoding(plain@).push(0u8),
{
    let mut framed = cobs_encode(plain);
    framed.push(0u8);
    framed
}

} // verus!
