//! Protocol-wide limits and the error codes that responses carry.
use vstd::prelude::*;

verus! {

/// Number of seed slots the encrypted store holds.
pub const MAX_SEED_SLOTS: usize = 8;
/// Longest seed label, in bytes.
pub const MAX_SEED_LABEL_LEN: usize = 32;
/// Longest address-book label, in bytes.
pub const MAX_ADDRESS_BOOK_LABEL_LEN: usize = 32;
/// Longest base58 public-key hash stored in the address book, in bytes.
pub const MAX_ADDRESS_BOOK_PKH_LEN: usize = 64;
/// Number of address-book entries kept on the device.
pub const MAX_DEVICE_ADDRESS_BOOK_ENTRIES: usize = 32;

/// Error codes carried by `Err` responses.
#[derive(Clone, Copy, Debug, PartialEq, Eq, Structural)]
pub enum ErrCode {
    BadCobsOrPostcard,
    UnsupportedVersion,
    NoSeed,
    WrongPin,
    PinLockedOut,
    Flash,
    Crypto,
    Overflow,
    EncodeTooBig,
    Busy,
    DeviceLocked,
    WrongPubkey,
    AlreadyInitialized,
    RejectedByUser,
}

} // verus!
