//! Verified core of the Nockster hardware-wallet firmware: the encrypted seed
//! store and its on-flash record formats, the unlocked session, the worker
//! mailboxes, the USB HID report queue, firmware-update streaming checks,
//! eFuse lockdown planning and the touchscreen state machines.

pub mod limits;
pub mod bytes;
pub mod types;
pub mod crypto;
pub mod nvs_store;
pub mod session;
pub mod protocol;
pub mod jobs;
pub mod seed_store;
pub mod usb_hid;
pub mod update_auth;
pub mod raw_flash;
pub mod security;
pub mod fragments;
pub mod dispatch;
pub mod outcomes;
pub mod frames;
pub mod confirm;
pub mod identity;
pub mod static_slot;
pub mod derivation;
pub mod signing;
pub mod gui;
