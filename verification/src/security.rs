//! The production lockdown of the chip's eFuses: which bits are still to
//! burn, whether their write protection allows it, the HMAC key used for
//! the storage pepper, and the security status report.
use vstd::prelude::*;
use crate::nvs_store::store::NvsStorageStatus;

verus! {

pub const WR_DIS_RD_DIS: u32 = 1;
pub const WR_DIS_JTAG_HARD: u32 = 4;
pub const WR_DIS_POWER_GLITCH: u32 = 0x0002_0000;
pub const WR_DIS_DOWNLOAD: u32 = 0x0004_0000;
pub const WR_DIS_USB_OTG_DOWNLOAD: u32 = 0x0008_0000;
pub const WR_DIS_JTAG_SOFT: u32 = 0x8000_0000;
pub const WR_DIS_KEY_PURPOSE_BASE: u32 = 8;
pub const WR_DIS_KEY_BLOCK_BASE: u32 = 23;
pub const EFUSE_BLOCK_KEY0: u32 = 4;
pub const EFUSE_BLOCK_KEY5: u32 = 9;

/// BLOCK0 programming masks: bit N of BLOCK0 is programmed through
/// PGM_DATA[N / 32] bit N % 32.
pub const PRODUCTION_DATA0_ALL: u32 = 0x1F80_3F00;
pub const PRODUCTION_DATA1_ALL: u32 = 0x000F_003F;
pub const LOCKDOWN_DATA3_ALL: u32 = 0x00C0_0000;
pub const LOCKDOWN_DATA4_ALL: u32 = 0xC000_0017;

/// eFuse key purposes of the HMAC peripheral.
pub const HMAC_KEY_PURPOSE_DOWN_ALL: u8 = 5;
pub const HMAC_KEY_PURPOSE_DOWN_JTAG: u8 = 6;
pub const HMAC_KEY_PURPOSE_DOWN_DS: u8 = 7;
pub const HMAC_KEY_PURPOSE_UP: u8 = 8;

#[derive(Debug, Clone, Copy, PartialEq, Eq, Structural)]
pub enum OtaLockdownError {
    MissingSecureBoot,
    MissingFlashEncryption,
    MissingHmacForInitializedNvs,
    NoUnusedHmacKeyBlock,
    RandomFailed,
    HmacKeyProgramFailed,
    HmacKeyPurposeInvalid,
    WriteProtected,
    ProgramFailed,
    ReadFailed,
    VerifyFailed,
}

#[derive(Debug, Clone, Copy, PartialEq, Eq, Structural)]
pub enum OtaLockdownOutcome {
    NotProductionBuild,
    NotRunningFromOta,
    AlreadyLocked,
    Locked,
}

/// The eFuse fields the lockdown reads.
#[derive(Debug, Clone, Copy, PartialEq, Eq, Structural)]
pub struct EfuseSnapshot {
    pub wr_dis: u32,
    pub rd_dis: u8,
    pub soft_dis_jtag: u8,
    pub dis_pad_jtag: bool,
    pub dis_usb_jtag: bool,
    pub dis_usb_serial_jtag: bool,
    pub dis_download_mode: bool,
    pub dis_direct_boot: bool,
    pub dis_usb_serial_jtag_rom_print: bool,
    pub dis_usb_serial_jtag_download_mode: bool,
    pub powerglitch_en: bool,
    pub dis_usb_otg_download_mode: bool,
}

/// The BLOCK0 words to program.
#[derive(Debug, Clone, Copy, PartialEq, Eq, Structural)]
pub struct LockdownProgramWords {
    pub data0: u32,
    pub data1: u32,
    pub data3: u32,
    pub data4: u32,
}

impl LockdownProgramWords {
    pub fn is_empty(self) -> (r: bool)
        ensures
            r == (self.data0 == 0 && self.data1 == 0 && self.data3 == 0 && self.data4 == 0),
    {
        self.data0 == 0 && self.data1 == 0 && self.data3 == 0 && self.data4 == 0
    }
}

pub open spec fn bit(b: u32) -> u32 {
    (1u32 << b) as u32
}

pub open spec fn missing_if(missing: bool, b: u32) -> u32 {
    if missing { bit(b) } else { 0 }
}

/// The lockdown bits still unburned for the HMAC key in `slot`: the write
/// protection of its purpose and key block, its read protection, the soft
/// JTAG disable bits, pad and USB JTAG, and the download and boot paths.
pub open spec fn lockdown_words(s: EfuseSnapshot, slot: u32) -> LockdownProgramWords {
    let data0 = missing_if(s.wr_dis & bit((WR_DIS_KEY_PURPOSE_BASE + slot) as u32) == 0, (WR_DIS_KEY_PURPOSE_BASE + slot) as u32)
        | missing_if(s.wr_dis & bit((WR_DIS_KEY_BLOCK_BASE + slot) as u32) == 0, (WR_DIS_KEY_BLOCK_BASE + slot) as u32);
    let data1 = (((7u32 ^ (s.soft_dis_jtag as u32)) << 16u32) as u32)
        | missing_if((s.rd_dis as u32) & bit(slot) == 0, slot)
        | missing_if(!s.dis_pad_jtag, 19);
    let data3 = missing_if(!s.dis_usb_jtag, 22) | missing_if(!s.dis_usb_serial_jtag, 23);
    let data4 = missing_if(!s.dis_download_mode, 0) | missing_if(!s.dis_direct_boot, 1)
        | missing_if(!s.dis_usb_serial_jtag_rom_print, 2) | missing_if(!s.dis_usb_serial_jtag_download_mode, 4)
        | missing_if(!s.powerglitch_en, 30) | missing_if(!s.dis_usb_otg_download_mode, 31);
    LockdownProgramWords {
        data0: data0 & PRODUCTION_DATA0_ALL,
        data1: data1 & PRODUCTION_DATA1_ALL,
        data3: data3 & LOCKDOWN_DATA3_ALL,
        data4: data4 & LOCKDOWN_DATA4_ALL,
    }
}

fn bit_if(missing: bool, b: u32) -> (r: u32)
    requires
        b < 32,
    ensures
        r == missing_if(missing, b),
{
    if missing { 1u32 << b } else { 0 }
}

pub fn missing_lockdown_words(s: &EfuseSnapshot, slot: u32) -> (w: LockdownProgramWords)
    requires
        slot < 6,
    ensures
        w == lockdown_words(*s, slot),
{
    let p = WR_DIS_KEY_PURPOSE_BASE + slot;
    let k = WR_DIS_KEY_BLOCK_BASE + slot;
    let data0 = bit_if(s.wr_dis & (1u32 << p) == 0, p) | bit_if(s.wr_dis & (1u32 << k) == 0, k);
    let soft = s.soft_dis_jtag as u32;
    let data1 = ((7u32 ^ soft) << 16u32) | bit_if((s.rd_dis as u32) & (1u32 << slot) == 0, slot) | bit_if(!s.dis_pad_jtag, 19);
    let data3 = bit_if(!s.dis_usb_jtag, 22) | bit_if(!s.dis_usb_serial_jtag, 23);
    let data4 = bit_if(!s.dis_download_mode, 0) | bit_if(!s.dis_direct_boot, 1)
        | bit_if(!s.dis_usb_serial_jtag_rom_print, 2) | bit_if(!s.dis_usb_serial_jtag_download_mode, 4)
        | bit_if(!s.powerglitch_en, 30) | bit_if(!s.dis_usb_otg_download_mode, 31);
    LockdownProgramWords {
        data0: data0 & PRODUCTION_DATA0_ALL,
        data1: data1 & PRODUCTION_DATA1_ALL,
        data3: data3 & LOCKDOWN_DATA3_ALL,
        data4: data4 & LOCKDOWN_DATA4_ALL,
    }
}

/// A missing field may be burned only while its write-protection group is
/// still open.
pub open spec fn fields_writable(w: LockdownProgramWords, wr_dis: u32) -> bool {
    let hmac_read_protection_missing = w.data1 & 0x3f != 0;
    let hard_jtag_missing = w.data1 & 0x0008_0000 != 0 || w.data3 != 0;
    let soft_jtag_missing = w.data1 & 0x0007_0000 != 0;
    let download_missing = w.data4 & 0x1f != 0;
    let power_glitch_missing = w.data4 & 0x4000_0000 != 0;
    let usb_otg_download_missing = w.data4 & 0x8000_0000 != 0;
    !((hmac_read_protection_missing && wr_dis & WR_DIS_RD_DIS != 0)
        || (hard_jtag_missing && wr_dis & WR_DIS_JTAG_HARD != 0)
        || (soft_jtag_missing && wr_dis & WR_DIS_JTAG_SOFT != 0)
        || (download_missing && wr_dis & WR_DIS_DOWNLOAD != 0)
        || (power_glitch_missing && wr_dis & WR_DIS_POWER_GLITCH != 0)
        || (usb_otg_download_missing && wr_dis & WR_DIS_USB_OTG_DOWNLOAD != 0))
}

pub fn ensure_missing_fields_are_writable(w: LockdownProgramWords, wr_dis: u32) -> (r: Result<(), OtaLockdownError>)
    ensures
        fields_writable(w, wr_dis) ==> r is Ok,
        !fields_writable(w, wr_dis) ==> r == Err::<(), OtaLockdownError>(OtaLockdownError::WriteProtected),
{
    let hmac_read_protection_missing = w.data1 & 0x3f != 0;
    let hard_jtag_missing = w.data1 & 0x0008_0000 != 0 || w.data3 != 0;
    let soft_jtag_missing = w.data1 & 0x0007_0000 != 0;
    let download_missing = w.data4 & 0x1f != 0;
    let power_glitch_missing = w.data4 & 0x4000_0000 != 0;
    let usb_otg_download_missing = w.data4 & 0x8000_0000 != 0;
    if (hmac_read_protection_missing && wr_dis & WR_DIS_RD_DIS != 0)
        || (hard_jtag_missing && wr_dis & WR_DIS_JTAG_HARD != 0)
        || (soft_jtag_missing && wr_dis & WR_DIS_JTAG_SOFT != 0)
        || (download_missing && wr_dis & WR_DIS_DOWNLOAD != 0)
        || (power_glitch_missing && wr_dis & WR_DIS_POWER_GLITCH != 0)
        || (usb_otg_download_missing && wr_dis & WR_DIS_USB_OTG_DOWNLOAD != 0)
    {
        Err(OtaLockdownError::WriteProtected)
    } else {
        Ok(())
    }
}

/// The first key slot whose purpose is the upstream HMAC key.
pub open spec fn first_hmac_up(purposes: Seq<u8>, from: int) -> Option<u32>
    decreases 6 - from,
{
    if from >= 6 || from < 0 {
        None
    } else if purposes[from] == HMAC_KEY_PURPOSE_UP {
        Some(from as u32)
    } else {
        first_hmac_up(purposes, from + 1)
    }
}

pub fn hmac_up_slot(purposes: &[u8; 6]) -> (r: Option<u32>)
    ensures
        r == first_hmac_up(purposes@, 0),
        r matches Some(s) ==> s < 6 && purposes@[s as int] == HMAC_KEY_PURPOSE_UP,
{
    let mut i: usize = 0;
    while i < 6
        invariant
            i <= 6,
            first_hmac_up(purposes@, 0) == first_hmac_up(purposes@, i as int),
        decreases 6 - i,
    {
        if purposes[i] == HMAC_KEY_PURPOSE_UP {
            return Some(i as u32);
        }
        i += 1;
    }
    None
}

pub open spec fn is_hmac_purpose(p: u8) -> bool {
    p == HMAC_KEY_PURPOSE_DOWN_ALL || p == HMAC_KEY_PURPOSE_DOWN_JTAG || p == HMAC_KEY_PURPOSE_DOWN_DS
        || p == HMAC_KEY_PURPOSE_UP
}

pub fn is_hmac_key_purpose(p: u8) -> (r: bool)
    ensures
        r == is_hmac_purpose(p),
{
    p == HMAC_KEY_PURPOSE_DOWN_ALL || p == HMAC_KEY_PURPOSE_DOWN_JTAG || p == HMAC_KEY_PURPOSE_DOWN_DS
        || p == HMAC_KEY_PURPOSE_UP
}

/// Bit `i` set for each key slot `i < 6` whose purpose satisfies the test.
pub open spec fn slot_mask(flags: Seq<bool>, n: int) -> u8
    decreases n,
{
    if n <= 0 {
        0
    } else {
        (slot_mask(flags, n - 1) | if flags[n - 1] { (1u8 << ((n - 1) as u8)) as u8 } else { 0u8 }) as u8
    }
}

pub fn key_slot_mask(flags: &[bool; 6]) -> (m: u8)
    ensures
        m == slot_mask(flags@, 6),
{
    let mut mask: u8 = 0;
    let mut i: usize = 0;
    while i < 6
        invariant
            i <= 6,
            mask == slot_mask(flags@, i as int),
        decreases 6 - i,
    {
        let ghost prev = mask;
        if flags[i] {
            mask = mask | (1u8 << (i as u8));
        } else {
            assert(prev | 0u8 == prev) by (bit_vector);
        }
        proof {
            assert(slot_mask(flags@, (i + 1) as int) == (slot_mask(flags@, i as int)
                | if flags@[i as int] { (1u8 << (i as u8)) as u8 } else { 0u8 }) as u8);
        }
        i += 1;
    }
    mask
}

/// Which key slots hold an HMAC key, and which the upstream HMAC key.
pub fn hmac_key_slot_masks(purposes: &[u8; 6]) -> (r: (u8, u8))
    ensures
        r.0 == slot_mask(Seq::new(6, |i: int| is_hmac_purpose(purposes@[i])), 6),
        r.1 == slot_mask(Seq::new(6, |i: int| purposes@[i] == HMAC_KEY_PURPOSE_UP), 6),
{
    let mut any = [false; 6];
    let mut up = [false; 6];
    let mut i: usize = 0;
    while i < 6
        invariant
            i <= 6,
            forall|j: int| 0 <= j < i ==> any@[j] == is_hmac_purpose(purposes@[j]),
            forall|j: int| 0 <= j < i ==> up@[j] == (purposes@[j] == HMAC_KEY_PURPOSE_UP),
        decreases 6 - i,
    {
        any[i] = is_hmac_key_purpose(purposes[i]);
        up[i] = purposes[i] == HMAC_KEY_PURPOSE_UP;
        i += 1;
    }
    assert(any@ =~= Seq::new(6, |i: int| is_hmac_purpose(purposes@[i])));
    assert(up@ =~= Seq::new(6, |i: int| purposes@[i] == HMAC_KEY_PURPOSE_UP));
    (key_slot_mask(&any), key_slot_mask(&up))
}

/// The unused key block to hold a new HMAC key: KEY5 when free, else the
/// highest free one.
pub open spec fn highest_unused(unused: Seq<bool>, n: int) -> Option<u32>
    decreases n,
{
    if n <= 0 {
        None
    } else if unused[n - 1] {
        Some((EFUSE_BLOCK_KEY0 + n - 1) as u32)
    } else {
        highest_unused(unused, n - 1)
    }
}

pub fn choose_hmac_key_block(unused: &[bool; 6]) -> (r: Result<u32, OtaLockdownError>)
    ensures
        match highest_unused(unused@, 6) {
            Some(b) => r == Ok::<u32, OtaLockdownError>(b),
            None => r == Err::<u32, OtaLockdownError>(OtaLockdownError::NoUnusedHmacKeyBlock),
        },
{
    let mut n: usize = 6;
    while n > 0
        invariant
            n <= 6,
            highest_unused(unused@, 6) == highest_unused(unused@, n as int),
        decreases n,
    {
        if unused[n - 1] {
            return Ok(EFUSE_BLOCK_KEY0 + (n as u32) - 1);
        }
        n -= 1;
    }
    Err(OtaLockdownError::NoUnusedHmacKeyBlock)
}

/// What to do before provisioning a new upstream HMAC key: never once the
/// wallet exists (its storage is bound to the old pepper), and never when
/// the key's read protection can no longer be burned.
pub fn hmac_provision_allowed(wallet_initialized: bool, wr_dis: u32) -> (r: Result<(), OtaLockdownError>)
    ensures
        wallet_initialized ==> r == Err::<(), OtaLockdownError>(OtaLockdownError::MissingHmacForInitializedNvs),
        !wallet_initialized && wr_dis & WR_DIS_RD_DIS != 0 ==> r == Err::<(), OtaLockdownError>(OtaLockdownError::WriteProtected),
        !wallet_initialized && wr_dis & WR_DIS_RD_DIS == 0 ==> r is Ok,
{
    if wallet_initialized {
        return Err(OtaLockdownError::MissingHmacForInitializedNvs);
    }
    if wr_dis & WR_DIS_RD_DIS != 0 {
        return Err(OtaLockdownError::WriteProtected);
    }
    Ok(())
}

/// A generated HMAC key is usable unless it is all zero.
pub fn random_key_usable(key: &[u8; 32]) -> (r: bool)
    ensures
        r == !crate::bytes::all_zero(key@),
{
    !crate::bytes::is_all_zero(key.as_slice())
}

/// The checks before anything is burned: production builds running from an
/// OTA slot only, with secure boot and flash encryption on. `Ok(None)`
/// means the lockdown proceeds.
pub fn lockdown_preflight(production_build: bool, running_from_ota: bool, secure_boot: bool, flash_encryption: bool)
    -> (r: Result<Option<OtaLockdownOutcome>, OtaLockdownError>)
    ensures
        !production_build ==> r == Ok::<Option<OtaLockdownOutcome>, OtaLockdownError>(Some(OtaLockdownOutcome::NotProductionBuild)),
        production_build && !running_from_ota ==> r == Ok::<Option<OtaLockdownOutcome>, OtaLockdownError>(Some(OtaLockdownOutcome::NotRunningFromOta)),
        production_build && running_from_ota && !secure_boot ==> r == Err::<Option<OtaLockdownOutcome>, OtaLockdownError>(OtaLockdownError::MissingSecureBoot),
        production_build && running_from_ota && secure_boot && !flash_encryption
            ==> r == Err::<Option<OtaLockdownOutcome>, OtaLockdownError>(OtaLockdownError::MissingFlashEncryption),
        production_build && running_from_ota && secure_boot && flash_encryption ==> r == Ok::<Option<OtaLockdownOutcome>, OtaLockdownError>(None),
{
    if !production_build {
        return Ok(Some(OtaLockdownOutcome::NotProductionBuild));
    }
    if !running_from_ota {
        return Ok(Some(OtaLockdownOutcome::NotRunningFromOta));
    }
    if !secure_boot {
        return Err(OtaLockdownError::MissingSecureBoot);
    }
    if !flash_encryption {
        return Err(OtaLockdownError::MissingFlashEncryption);
    }
    Ok(None)
}

/// The next step of the burn loop, given the bits still missing after
/// `attempts` programming rounds (at most three).
#[derive(Debug, Clone, Copy, PartialEq, Eq, Structural)]
pub enum LockdownStep {
    Done(OtaLockdownOutcome),
    Program(LockdownProgramWords),
    Fail(OtaLockdownError),
}

pub const LOCKDOWN_PROGRAM_ATTEMPTS: u32 = 3;

pub fn lockdown_next_step(remaining: LockdownProgramWords, attempts: u32) -> (s: LockdownStep)
    ensures
        (remaining.data0 == 0 && remaining.data1 == 0 && remaining.data3 == 0 && remaining.data4 == 0)
            ==> s == LockdownStep::Done(OtaLockdownOutcome::Locked),
        !(remaining.data0 == 0 && remaining.data1 == 0 && remaining.data3 == 0 && remaining.data4 == 0) && attempts < LOCKDOWN_PROGRAM_ATTEMPTS
            ==> s == LockdownStep::Program(remaining),
        !(remaining.data0 == 0 && remaining.data1 == 0 && remaining.data3 == 0 && remaining.data4 == 0) && attempts >= LOCKDOWN_PROGRAM_ATTEMPTS
            ==> s == LockdownStep::Fail(OtaLockdownError::VerifyFailed),
{
    if remaining.is_empty() {
        LockdownStep::Done(OtaLockdownOutcome::Locked)
    } else if attempts < LOCKDOWN_PROGRAM_ATTEMPTS {
        LockdownStep::Program(remaining)
    } else {
        LockdownStep::Fail(OtaLockdownError::VerifyFailed)
    }
}

/// The outcome when nothing remains to burn at the first look: locked by
/// this boot when it provisioned the HMAC key, otherwise already locked.
pub fn lockdown_initial_outcome(hmac_provisioned: bool) -> (o: OtaLockdownOutcome)
    ensures
        o == if hmac_provisioned { OtaLockdownOutcome::Locked } else { OtaLockdownOutcome::AlreadyLocked },
{
    if hmac_provisioned { OtaLockdownOutcome::Locked } else { OtaLockdownOutcome::AlreadyLocked }
}

/// The soft JTAG disable is in force when an odd number of its bits are burned.
pub open spec fn odd_ones(b: u8) -> bool {
    partial_ones(b, 8) % 2 == 1
}

pub fn soft_jtag_disabled(bits: u8) -> (r: bool)
    ensures
        r == odd_ones(bits),
{
    let mut count: u8 = 0;
    let mut i: u8 = 0;
    while i < 8
        invariant
            i <= 8,
            count <= i,
            count == partial_ones(bits, i as int),
        decreases 8 - i,
    {
        let one = (bits >> i) & 1;
        assert(one <= 1u8) by (bit_vector)
            requires one == (bits >> i) & 1u8;
        count = count + one;
        i += 1;
    }
    count % 2 == 1
}

pub open spec fn partial_ones(b: u8, n: int) -> int
    decreases n,
{
    if n <= 0 { 0 } else { partial_ones(b, n - 1) + ((b >> ((n - 1) as u8)) & 1) }
}

/// The eFuse part of the security report.
#[derive(Debug, Clone, Copy)]
pub struct SecurityStatus {
    pub chip_security_available: bool,
    pub mac: [u8; 6],
    pub flash_encryption: bool,
    pub flash_crypt_cnt: u8,
    pub secure_boot: bool,
    pub secure_version: u16,
    pub key_purposes: [u8; 6],
    pub hmac_key_slots: u8,
    pub hmac_user_key_slots: u8,
    pub read_protected_key_slots: u8,
    pub pad_jtag_disabled: bool,
    pub usb_jtag_disabled: bool,
    pub soft_jtag_disabled: bool,
    pub soft_jtag_disable_bits: u8,
    pub usb_serial_jtag_disabled: bool,
    pub download_mode_disabled: bool,
    pub usb_serial_jtag_download_disabled: bool,
    pub usb_otg_download_disabled: bool,
    pub secure_download_enabled: bool,
    pub direct_boot_disabled: bool,
    pub usb_rom_print_disabled: bool,
    pub power_glitch_enabled: bool,
    pub nvs_initialized: bool,
    pub nvs_schema_version: u8,
    pub nvs_slot_count: u8,
}

/// The report of a build without chip security: only the store's status.
pub fn read_security_status(nvs_status: NvsStorageStatus) -> (s: SecurityStatus)
    ensures
        !s.chip_security_available,
        s.nvs_initialized == nvs_status.initialized,
        s.nvs_schema_version == nvs_status.schema_version,
        s.nvs_slot_count == nvs_status.slot_count,
        !s.flash_encryption && !s.secure_boot && s.hmac_key_slots == 0,
{
    SecurityStatus {
        chip_security_available: false,
        mac: [0u8; 6],
        flash_encryption: false,
        flash_crypt_cnt: 0,
        secure_boot: false,
        secure_version: 0,
        key_purposes: [0u8; 6],
        hmac_key_slots: 0,
        hmac_user_key_slots: 0,
        read_protected_key_slots: 0,
        pad_jtag_disabled: false,
        usb_jtag_disabled: false,
        soft_jtag_disabled: false,
        soft_jtag_disable_bits: 0,
        usb_serial_jtag_disabled: false,
        download_mode_disabled: false,
        usb_serial_jtag_download_disabled: false,
        usb_otg_download_disabled: false,
        secure_download_enabled: false,
        direct_boot_disabled: false,
        usb_rom_print_disabled: false,
        power_glitch_enabled: false,
        nvs_initialized: nvs_status.initialized,
        nvs_schema_version: nvs_status.schema_version,
        nvs_slot_count: nvs_status.slot_count,
    }
}

/// A chip with every lockdown field burned has nothing left to program.
pub proof fn lemma_fully_locked_needs_nothing(s: EfuseSnapshot, slot: u32)
    requires
        slot < 6,
        s.wr_dis & bit((WR_DIS_KEY_PURPOSE_BASE + slot) as u32) != 0,
        s.wr_dis & bit((WR_DIS_KEY_BLOCK_BASE + slot) as u32) != 0,
        (s.rd_dis as u32) & bit(slot) != 0,
        s.soft_dis_jtag & 7 == 7,
        s.dis_pad_jtag && s.dis_usb_jtag && s.dis_usb_serial_jtag && s.dis_download_mode && s.dis_direct_boot
            && s.dis_usb_serial_jtag_rom_print && s.dis_usb_serial_jtag_download_mode && s.powerglitch_en
            && s.dis_usb_otg_download_mode,
    ensures
        lockdown_words(s, slot).data0 == 0,
        lockdown_words(s, slot).data3 == 0,
        lockdown_words(s, slot).data4 == 0,
{
    let z: u32 = 0;
    assert((z | z) & PRODUCTION_DATA0_ALL == 0u32) by (bit_vector) requires z == 0u32;
    assert((z | z) & LOCKDOWN_DATA3_ALL == 0u32) by (bit_vector) requires z == 0u32;
    assert((z | z | z | z | z | z) & LOCKDOWN_DATA4_ALL == 0u32) by (bit_vector) requires z == 0u32;
}

} // verus!
