//! The device's USB serial number: the provisioned timestamp when one was
//! burned in, otherwise the factory MAC address in hex.
use vstd::prelude::*;
use crate::gui::menu::hex_text;
use crate::gui::render::{dec_digits, push_decimal};

verus! {

/// Provisioned timestamps start at 2020-01-01T00:00:00Z.
pub const MIN_SERIAL_TIMESTAMP: u64 = 1_577_836_800;
/// Unix time fits in 32 bits until 2106.
pub const MAX_SERIAL_TIMESTAMP: u64 = 4_294_967_295;

/// The user-data eFuse word, as a timestamp, when it holds a plausible one;
/// erased or stray contents read as none.
pub fn provisioned_serial_timestamp(word: u64) -> (r: Option<u64>)
    ensures
        r == if MIN_SERIAL_TIMESTAMP <= word <= MAX_SERIAL_TIMESTAMP { Some(word) } else { None::<u64> },
{
    if MIN_SERIAL_TIMESTAMP <= word && word <= MAX_SERIAL_TIMESTAMP {
        Some(word)
    } else {
        None
    }
}

/// Every device has an immutable factory MAC, so setting up a wallet never
/// waits for a provisioned serial.
pub fn production_identity_ready_for_initialization() -> (r: bool)
    ensures
        r,
{
    true
}

/// The USB serial string: the timestamp in decimal, or the MAC as twelve
/// lowercase hex digits.
pub fn usb_serial(timestamp: Option<u64>, mac: [u8; 6]) -> (r: Vec<u8>)
    ensures
        r@ == match timestamp {
            Some(t) => dec_digits(t as nat),
            None => hex_text(mac@),
        },
{
    match timestamp {
        Some(t) => {
            let mut out: Vec<u8> = Vec::new();
            push_decimal(&mut out, t);
            assert(out@ =~= dec_digits(t as nat));
            out
        },
        None => crate::gui::menu::push_hex_bytes(mac.as_slice()),
    }
}

} // verus!
