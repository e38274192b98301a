//! The encrypted seed store kept in the NVS flash partition.
pub mod layout;
pub mod records;
pub mod flash;
pub mod store;
pub mod keys;
pub mod seeds;
pub mod prefs;
pub mod pause;
