//! Plain data exchanged with the host and kept in flash.
use vstd::prelude::*;

verus! {

/// Raw-touch calibration of the touchscreen.
#[derive(Clone, Copy, Debug, PartialEq, Eq, Structural)]
pub struct TouchCalibration {
    pub raw_x_min: u16,
    pub raw_x_max: u16,
    pub raw_y_min: u16,
    pub raw_y_max: u16,
    pub mirror_x: bool,
    pub mirror_y: bool,
}

/// A user label attached to a seed slot; the label is printable ASCII.
#[derive(Clone, Debug)]
pub struct SeedSlotLabel {
    pub slot: u8,
    pub label: Vec<u8>,
}

/// A saved recipient: printable-ASCII label and base58 public-key hash.
#[derive(Clone, Debug)]
pub struct DeviceAddressBookEntry {
    pub label: Vec<u8>,
    pub pkh: Vec<u8>,
}

/// Root public key of a seed slot.
#[derive(Clone, Copy, Debug)]
pub struct CheetahPub {
    pub slot: u8,
    pub x: [u64; 6],
    pub y: [u64; 6],
}

} // verus!
