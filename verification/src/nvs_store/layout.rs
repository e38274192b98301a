//! Where each record lives in the NVS partition.
use vstd::prelude::*;
use crate::limits::{
    MAX_ADDRESS_BOOK_LABEL_LEN, MAX_ADDRESS_BOOK_PKH_LEN, MAX_DEVICE_ADDRESS_BOOK_ENTRIES,
    MAX_SEED_LABEL_LEN, MAX_SEED_SLOTS,
};

verus! {

pub const PBKDF2_ROUNDS: u32 = 100_000;
pub const MAX_PIN_ATTEMPTS: u8 = 10;

/// Flash address of the first NVS byte.
pub const NVS_BASE_ADDR: u32 = 0x9000;
/// Flash erase unit.
pub const NVS_SECTOR_SIZE: usize = 4096;
/// Program unit used when writing a region back.
pub const NVS_WRITE_CHUNK_SIZE: usize = 256;
/// Flash word size; chunks must be a multiple of it.
pub const FLASH_WORD_SIZE: usize = 4;

pub const HEADER_SIZE: usize = 64;
pub const SLOT_SIZE: usize = 192;
pub const SEED_TOTAL_SIZE: usize = HEADER_SIZE + SLOT_SIZE * MAX_SEED_SLOTS;
pub const CALIBRATION_SIZE: usize = 64;
pub const LABELS_HEADER_SIZE: usize = 8;
pub const LABELS_SIZE: usize = LABELS_HEADER_SIZE + MAX_SEED_LABEL_LEN * MAX_SEED_SLOTS;
pub const GUI_PREFS_SIZE: usize = 64;
pub const ADDRESS_BOOK_HEADER_SIZE: usize = 8;
pub const ADDRESS_BOOK_RECORD_SIZE: usize = MAX_ADDRESS_BOOK_LABEL_LEN + MAX_ADDRESS_BOOK_PKH_LEN;
pub const ADDRESS_BOOK_SIZE: usize = ADDRESS_BOOK_HEADER_SIZE + ADDRESS_BOOK_RECORD_SIZE
    * MAX_DEVICE_ADDRESS_BOOK_ENTRIES;
pub const SEED_CORE_TOTAL_SIZE: usize = SEED_TOTAL_SIZE + CALIBRATION_SIZE + LABELS_SIZE
    + GUI_PREFS_SIZE;
/// `SEED_CORE_TOTAL_SIZE` rounded up to whole sectors.
pub const SEED_CORE_STORAGE_SIZE: usize = 4096;
pub const SEED_CORE_STORAGE_END: u32 = NVS_BASE_ADDR + 4096u32;
/// `ADDRESS_BOOK_SIZE` rounded up to whole sectors.
pub const ADDRESS_BOOK_STORAGE_SIZE: usize = 4096;
pub const CALIBRATION_ADDR: u32 = NVS_BASE_ADDR + 1600u32;
pub const LABELS_ADDR: u32 = CALIBRATION_ADDR + 64u32;
pub const GUI_PREFS_ADDR: u32 = LABELS_ADDR + 264u32;
pub const ADDRESS_BOOK_ADDR: u32 = SEED_CORE_STORAGE_END;
pub const ADDRESS_BOOK_STORAGE_END: u32 = ADDRESS_BOOK_ADDR + 4096u32;
/// PIN-attempt marks live in their own sector: one programmed 32-byte block
/// per attempt, erased as a whole on a successful unlock.
pub const ATTEMPT_MARKS_ADDR: u32 = ADDRESS_BOOK_STORAGE_END;
pub const ATTEMPT_MARKS_STORAGE_SIZE: usize = NVS_SECTOR_SIZE;
pub const ATTEMPT_MARKS_END: u32 = ATTEMPT_MARKS_ADDR + 4096u32;
pub const ATTEMPT_MARK_SIZE: usize = 32;
pub const NVS_STORAGE_END: u32 = ATTEMPT_MARKS_END;
/// Bytes of the NVS partition that the store covers.
pub const NVS_IMAGE_LEN: usize = 12288;

pub const VERSION_V1: u8 = 1;
pub const VERSION_V2: u8 = 2;
pub const VERSION: u8 = VERSION_V2;
pub const NVS_V2_PEPPER_DOMAIN_LEN: usize = 15;
pub const NVS_V2_MASTER_DOMAIN_LEN: usize = 22;
pub const NVS_V2_PEPPER_MESSAGE_LEN: usize = 15 + 32 + 6;
pub const CALIBRATION_VERSION: u8 = 1;
pub const LABELS_VERSION: u8 = 1;
pub const GUI_PREFS_VERSION: u8 = 1;
pub const ADDRESS_BOOK_VERSION: u8 = 1;
pub const FLAG_INITIALIZED: u8 = 0x01;
pub const SLOT_USED: u8 = 0x01;
pub const CALIBRATION_MIRROR_X: u8 = 0x01;
pub const CALIBRATION_MIRROR_Y: u8 = 0x02;

/// `value` rounded up to a multiple of `alignment`.
pub open spec fn spec_align_up(value: int, alignment: int) -> int {
    if value % alignment == 0 {
        value
    } else {
        value + alignment - value % alignment
    }
}

pub fn align_up(value: usize, alignment: usize) -> (r: usize)
    requires
        alignment > 0,
        value + alignment <= usize::MAX,
    ensures
        r == spec_align_up(value as int, alignment as int),
{
    let rem = value % alignment;
    if rem == 0 {
        value
    } else {
        value + alignment - rem
    }
}

/// The partition layout: the computed region sizes are the whole sectors
/// stated above, the regions follow one another without overlap, and the
/// store ends inside the 28 KiB partition.
pub proof fn lemma_layout_consistent()
    ensures
        SEED_TOTAL_SIZE == 1600,
        SEED_CORE_TOTAL_SIZE == 1992,
        SEED_CORE_STORAGE_SIZE == spec_align_up(SEED_CORE_TOTAL_SIZE as int, NVS_SECTOR_SIZE as int),
        ADDRESS_BOOK_STORAGE_SIZE == spec_align_up(ADDRESS_BOOK_SIZE as int, NVS_SECTOR_SIZE as int),
        CALIBRATION_ADDR == NVS_BASE_ADDR + SEED_TOTAL_SIZE,
        LABELS_ADDR == CALIBRATION_ADDR + CALIBRATION_SIZE,
        GUI_PREFS_ADDR == LABELS_ADDR + LABELS_SIZE,
        GUI_PREFS_ADDR + GUI_PREFS_SIZE == NVS_BASE_ADDR + SEED_CORE_TOTAL_SIZE,
        SEED_CORE_STORAGE_END == NVS_BASE_ADDR + SEED_CORE_STORAGE_SIZE,
        ADDRESS_BOOK_STORAGE_END == ADDRESS_BOOK_ADDR + ADDRESS_BOOK_STORAGE_SIZE,
        ATTEMPT_MARKS_END == ATTEMPT_MARKS_ADDR + ATTEMPT_MARKS_STORAGE_SIZE,
        NVS_STORAGE_END - NVS_BASE_ADDR == NVS_IMAGE_LEN,
        NVS_STORAGE_END <= NVS_BASE_ADDR + 28 * 1024,
        ATTEMPT_MARK_SIZE * MAX_PIN_ATTEMPTS <= ATTEMPT_MARKS_STORAGE_SIZE,
{
}

} // verus!
