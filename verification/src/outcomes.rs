//! What the UI core does with the unlock, PIN-setup and PIN-change results
//! the worker hands back: the store updates and session changes they call
//! for, the reply to send, and what the screen should show next.
use vstd::prelude::*;
use vstd::string::StringSliceAdditionalSpecFns;
use crate::crypto::zeroize_array;
use crate::jobs::{ChangePinOutcome, InitPinOutcome, UnlockOutcome};
use crate::limits::ErrCode;
use crate::nvs_store::layout::{MAX_PIN_ATTEMPTS, SEED_CORE_STORAGE_SIZE};
use crate::bytes::splice;
use crate::nvs_store::keys::NvsPepperSource;
use crate::nvs_store::seeds::{
    already_initialized, unlock_gate, NvsInitStage, wrong_pin_recorded, wrong_pin_remaining, rewrite_accepted, init_core,
    rewrite_committed, unlock_result, source_error,
};
use crate::nvs_store::store::{attempts_used, store_initialized, stored_header, NvsError, NvsStore};
use crate::protocol::Response;
use crate::session::{
    kept_seeds, next_gen, set_locked, set_seed, store_master_key, update_seed_store_from_slice, Session,
    SessionView,
};

verus! {

/// How far the first PIN setup has got, as shown while it runs.
#[derive(Clone, Copy, Debug, PartialEq, Eq, Structural)]
pub enum InitPinProgress {
    Idle,
    Queued,
    Worker,
    CheckNvs,
    RootPub,
    NvsReadHeader,
    NvsWipePartial,
    NvsRandomSalt,
    NvsPepper,
    NvsKdf,
    NvsKdfDone,
    NvsEncryptSeed,
    NvsWriteHeaderPending,
    NvsWriteSlot,
    NvsWriteHeaderFinal,
    NvsWriteLabels,
    NvsWriteFlash,
    Complete,
    Error,
}

pub open spec fn progress_code(p: InitPinProgress) -> u8 {
    match p {
        InitPinProgress::Idle => 0,
        InitPinProgress::Queued => 1,
        InitPinProgress::Worker => 2,
        InitPinProgress::CheckNvs => 3,
        InitPinProgress::RootPub => 4,
        InitPinProgress::NvsReadHeader => 5,
        InitPinProgress::NvsWipePartial => 6,
        InitPinProgress::NvsRandomSalt => 7,
        InitPinProgress::NvsPepper => 8,
        InitPinProgress::NvsKdf => 9,
        InitPinProgress::NvsKdfDone => 10,
        InitPinProgress::NvsEncryptSeed => 11,
        InitPinProgress::NvsWriteHeaderPending => 12,
        InitPinProgress::NvsWriteSlot => 13,
        InitPinProgress::NvsWriteHeaderFinal => 14,
        InitPinProgress::NvsWriteLabels => 15,
        InitPinProgress::NvsWriteFlash => 16,
        InitPinProgress::Complete => 17,
        InitPinProgress::Error => 18,
    }
}

impl InitPinProgress {
    /// The stage's number, as kept in the shared progress byte.
    pub fn code(self) -> (r: u8)
        ensures
            r == progress_code(self),
    {
        match self {
            InitPinProgress::Idle => 0,
            InitPinProgress::Queued => 1,
            InitPinProgress::Worker => 2,
            InitPinProgress::CheckNvs => 3,
            InitPinProgress::RootPub => 4,
            InitPinProgress::NvsReadHeader => 5,
            InitPinProgress::NvsWipePartial => 6,
            InitPinProgress::NvsRandomSalt => 7,
            InitPinProgress::NvsPepper => 8,
            InitPinProgress::NvsKdf => 9,
            InitPinProgress::NvsKdfDone => 10,
            InitPinProgress::NvsEncryptSeed => 11,
            InitPinProgress::NvsWriteHeaderPending => 12,
            InitPinProgress::NvsWriteSlot => 13,
            InitPinProgress::NvsWriteHeaderFinal => 14,
            InitPinProgress::NvsWriteLabels => 15,
            InitPinProgress::NvsWriteFlash => 16,
            InitPinProgress::Complete => 17,
            InitPinProgress::Error => 18,
        }
    }

    /// The stage a progress byte names; unknown numbers read as idle.
    pub fn from_u8(value: u8) -> (r: InitPinProgress)
        ensures
            (1 <= value <= 18) ==> progress_code(r) == value,
            !(1 <= value <= 18) ==> r == InitPinProgress::Idle,
    {
        match value {
            1 => InitPinProgress::Queued,
            2 => InitPinProgress::Worker,
            3 => InitPinProgress::CheckNvs,
            4 => InitPinProgress::RootPub,
            5 => InitPinProgress::NvsReadHeader,
            6 => InitPinProgress::NvsWipePartial,
            7 => InitPinProgress::NvsRandomSalt,
            8 => InitPinProgress::NvsPepper,
            9 => InitPinProgress::NvsKdf,
            10 => InitPinProgress::NvsKdfDone,
            11 => InitPinProgress::NvsEncryptSeed,
            12 => InitPinProgress::NvsWriteHeaderPending,
            13 => InitPinProgress::NvsWriteSlot,
            14 => InitPinProgress::NvsWriteHeaderFinal,
            15 => InitPinProgress::NvsWriteLabels,
            16 => InitPinProgress::NvsWriteFlash,
            17 => InitPinProgress::Complete,
            18 => InitPinProgress::Error,
            _ => InitPinProgress::Idle,
        }
    }

    /// The status line shown for the stage; none while idle.
    pub fn label(self) -> (r: Option<&'static str>)
        ensures
            (self == InitPinProgress::Idle) == r is None,
            self == InitPinProgress::NvsWriteFlash ==> r == Some("Seed: flash"),
            self == InitPinProgress::Complete ==> r == Some("Seed: done"),
            self == InitPinProgress::Error ==> r == Some("Seed: error"),
    {
        match self {
            InitPinProgress::Idle => None,
            InitPinProgress::Queued => Some("Seed: queued"),
            InitPinProgress::Worker => Some("Seed: worker"),
            InitPinProgress::CheckNvs => Some("Seed: check"),
            InitPinProgress::RootPub => Some("Seed: root pub"),
            InitPinProgress::NvsReadHeader => Some("Seed: read NVS"),
            InitPinProgress::NvsWipePartial => Some("Seed: wipe partial"),
            InitPinProgress::NvsRandomSalt => Some("Seed: salt"),
            InitPinProgress::NvsPepper => Some("Seed: pepper"),
            InitPinProgress::NvsKdf => Some("Seed: KDF"),
            InitPinProgress::NvsKdfDone => Some("Seed: KDF done"),
            InitPinProgress::NvsEncryptSeed => Some("Seed: encrypt"),
            InitPinProgress::NvsWriteHeaderPending => Some("Seed: hdr 1"),
            InitPinProgress::NvsWriteSlot => Some("Seed: slot"),
            InitPinProgress::NvsWriteHeaderFinal => Some("Seed: hdr 2"),
            InitPinProgress::NvsWriteLabels => Some("Seed: labels"),
            InitPinProgress::NvsWriteFlash => Some("Seed: flash"),
            InitPinProgress::Complete => Some("Seed: done"),
            InitPinProgress::Error => Some("Seed: error"),
        }
    }
}

/// The progress stage shown for each step of preparing the store.
pub fn progress_of_stage(stage: NvsInitStage) -> (r: InitPinProgress)
    ensures
        r == match stage {
            NvsInitStage::ReadHeader => InitPinProgress::NvsReadHeader,
            NvsInitStage::WipePartial => InitPinProgress::NvsWipePartial,
            NvsInitStage::RandomSalt => InitPinProgress::NvsRandomSalt,
            NvsInitStage::Pepper => InitPinProgress::NvsPepper,
            NvsInitStage::Kdf => InitPinProgress::NvsKdf,
            NvsInitStage::KdfDone => InitPinProgress::NvsKdfDone,
            NvsInitStage::EncryptSeed => InitPinProgress::NvsEncryptSeed,
            NvsInitStage::WriteHeaderPending => InitPinProgress::NvsWriteHeaderPending,
            NvsInitStage::WriteSlot => InitPinProgress::NvsWriteSlot,
            NvsInitStage::WriteHeaderFinal => InitPinProgress::NvsWriteHeaderFinal,
            NvsInitStage::WriteLabels => InitPinProgress::NvsWriteLabels,
            NvsInitStage::WriteFlash => InitPinProgress::NvsWriteFlash,
            NvsInitStage::Complete => InitPinProgress::Complete,
        },
{
    match stage {
        NvsInitStage::ReadHeader => InitPinProgress::NvsReadHeader,
        NvsInitStage::WipePartial => InitPinProgress::NvsWipePartial,
        NvsInitStage::RandomSalt => InitPinProgress::NvsRandomSalt,
        NvsInitStage::Pepper => InitPinProgress::NvsPepper,
        NvsInitStage::Kdf => InitPinProgress::NvsKdf,
        NvsInitStage::KdfDone => InitPinProgress::NvsKdfDone,
        NvsInitStage::EncryptSeed => InitPinProgress::NvsEncryptSeed,
        NvsInitStage::WriteHeaderPending => InitPinProgress::NvsWriteHeaderPending,
        NvsInitStage::WriteSlot => InitPinProgress::NvsWriteSlot,
        NvsInitStage::WriteHeaderFinal => InitPinProgress::NvsWriteHeaderFinal,
        NvsInitStage::WriteLabels => InitPinProgress::NvsWriteLabels,
        NvsInitStage::WriteFlash => InitPinProgress::NvsWriteFlash,
        NvsInitStage::Complete => InitPinProgress::Complete,
    }
}

/// The unlock outcome a store error stands for.
pub open spec fn unlock_failure(e: NvsError) -> UnlockOutcome {
    match e {
        NvsError::WrongPin => UnlockOutcome::WrongPin,
        NvsError::LockedOut => UnlockOutcome::LockedOut,
        NvsError::NotInitialized => UnlockOutcome::NotInitialized,
        NvsError::Flash => UnlockOutcome::Flash,
        _ => UnlockOutcome::Failed,
    }
}

/// Each store error the unlock reports keeps its own outcome: a wrong PIN is
/// reported as a wrong PIN (and so counted toward lockout), a lockout as a
/// lockout, a blank store as not initialized, a flash failure as such; any
/// other error is a plain failure.
pub proof fn lemma_unlock_failures_kept_apart(e: NvsError)
    ensures
        (unlock_failure(e) is WrongPin) <==> e == NvsError::WrongPin,
        (unlock_failure(e) is LockedOut) <==> e == NvsError::LockedOut,
        (unlock_failure(e) is NotInitialized) <==> e == NvsError::NotInitialized,
        (unlock_failure(e) is Flash) <==> e == NvsError::Flash,
        !(unlock_failure(e) is Success),
{
}

/// The unlock outcome of what unlocking gave.
pub open spec fn unlock_outcome_of(r: Result<(Vec<[u8; 64]>, [u8; 32], bool), NvsError>) -> UnlockOutcome {
    match r {
        Ok((seeds, master_key, clear_attempts)) => UnlockOutcome::Success { seeds, master_key, clear_attempts },
        Err(e) => unlock_failure(e),
    }
}

/// Tries `pin` against the store without changing it (worker side). A
/// store that refuses before any key is derived gives the matching outcome;
/// a success carries the seeds and whether the attempt counter needs
/// clearing.
pub fn compute_unlock_outcome<P: NvsPepperSource, R: Fn(&[u8; 64]) -> ([u64; 6], [u64; 6])>(
    nvs: &NvsStore,
    pin: &str,
    source: &mut P,
    root_pub: &R,
) -> (o: UnlockOutcome)
    requires
        nvs.wf(),
        forall|s: &[u8; 64]| call_requires(*root_pub, (s,)),
    ensures
        unlock_gate(nvs@, true) matches Err(e) ==> o == unlock_failure(e),
        o matches UnlockOutcome::Success { seeds, master_key, clear_attempts } ==> unlock_gate(nvs@, true) matches Ok(h)
            && clear_attempts == (attempts_used(nvs@, h) != 0),
        exists|r: Result<(Vec<[u8; 64]>, [u8; 32], bool), NvsError>|
            #[trigger] unlock_result(nvs@, pin.spec_bytes(), true, *old(source), *root_pub, r) && o == unlock_outcome_of(r)
            && (r == Err::<(Vec<[u8; 64]>, [u8; 32], bool), NvsError>(NvsError::WrongPin) <==> o is WrongPin)
            && (r == Err::<(Vec<[u8; 64]>, [u8; 32], bool), NvsError>(NvsError::LockedOut) <==> o is LockedOut)
            && (r == Err::<(Vec<[u8; 64]>, [u8; 32], bool), NvsError>(NvsError::NotInitialized) <==> o is NotInitialized)
            && (r == Err::<(Vec<[u8; 64]>, [u8; 32], bool), NvsError>(NvsError::Flash) <==> o is Flash)
            && (r is Ok <==> o is Success),
{
    let r = nvs.unlock_with_pepper_readonly(pin, source, root_pub);
    proof { assert(unlock_result(nvs@, pin.spec_bytes(), true, *old(source), *root_pub, r)); }
    match r {
        Ok((seeds, master_key, clear_attempts)) => UnlockOutcome::Success { seeds, master_key, clear_attempts },
        Err(NvsError::WrongPin) => UnlockOutcome::WrongPin,
        Err(NvsError::LockedOut) => UnlockOutcome::LockedOut,
        Err(NvsError::NotInitialized) => UnlockOutcome::NotInitialized,
        Err(NvsError::Flash) => UnlockOutcome::Flash,
        Err(_) => UnlockOutcome::Failed,
    }
}

/// The PIN-setup outcome a store error stands for, with the progress stage
/// it leaves.
pub open spec fn initpin_failure(e: NvsError) -> (InitPinOutcome, InitPinProgress) {
    match e {
        NvsError::AlreadyInitialized => (InitPinOutcome::AlreadyInitialized, InitPinProgress::Complete),
        NvsError::Flash => (InitPinOutcome::Flash, InitPinProgress::Error),
        NvsError::Crypto => (InitPinOutcome::Crypto, InitPinProgress::Error),
        _ => (InitPinOutcome::Failed, InitPinProgress::Error),
    }
}

/// Prepares the first PIN setup for `seed64` (worker side), reporting
/// progress on the way; an initialized store is refused before anything is
/// derived. Returns the outcome and the last progress stage reported.
pub fn compute_initpin_outcome<
    P: NvsPepperSource,
    R: Fn(&[u8; 64]) -> ([u64; 6], [u64; 6]),
    G: Fn(InitPinProgress),
>(
    nvs: &NvsStore,
    pin: &str,
    seed64: [u8; 64],
    source: &mut P,
    root_pub: &R,
    report: &G,
) -> (r: (InitPinOutcome, InitPinProgress))
    requires
        nvs.wf(),
        forall|s: &[u8; 64]| call_requires(*root_pub, (s,)),
        forall|p: InitPinProgress| call_requires(*report, (p,)),
    ensures
        store_initialized(nvs@) ==> r.0 is AlreadyInitialized && r.1 == InitPinProgress::Complete,
        r.0 matches InitPinOutcome::Prepared { seed64: s, .. } ==> s == seed64 && r.1 == InitPinProgress::NvsWriteFlash
            && !already_initialized(nvs@),
        !(r.0 is Prepared) && !store_initialized(nvs@) ==> exists|e: NvsError| r == #[trigger] initpin_failure(e),
{
    let mut seed64 = seed64;
    report(InitPinProgress::Worker);
    report(InitPinProgress::CheckNvs);
    if nvs.is_initialized() {
        zeroize_array(&mut seed64);
        report(InitPinProgress::Complete);
        return (InitPinOutcome::AlreadyInitialized, InitPinProgress::Complete);
    }
    report(InitPinProgress::RootPub);
    let pub_xy = root_pub(&seed64);
    let stage_report = |stage: NvsInitStage|
        requires
            forall|p: InitPinProgress| call_requires(*report, (p,)),
        {
            report(progress_of_stage(stage));
        };
    match nvs.prepare_initialize_pin_with_pepper_and_progress(pin, &seed64, pub_xy, source, &stage_report) {
        Ok((prepared, master_key, _slot)) => {
            report(InitPinProgress::NvsWriteFlash);
            (InitPinOutcome::Prepared { seed64, master_key, prepared }, InitPinProgress::NvsWriteFlash)
        },
        Err(e) => {
            zeroize_array(&mut seed64);
            let r = match e {
                NvsError::AlreadyInitialized => (InitPinOutcome::AlreadyInitialized, InitPinProgress::Complete),
                NvsError::Flash => (InitPinOutcome::Flash, InitPinProgress::Error),
                NvsError::Crypto => (InitPinOutcome::Crypto, InitPinProgress::Error),
                _ => (InitPinOutcome::Failed, InitPinProgress::Error),
            };
            report(r.1);
            proof {
                assert(r == initpin_failure(e));
            }
            r
        },
    }
}

/// The PIN-change outcome a store error stands for.
pub open spec fn change_failure(msg_id: u32, e: NvsError) -> ChangePinOutcome {
    match e {
        NvsError::WrongPin => ChangePinOutcome::WrongPin { msg_id },
        NvsError::LockedOut => ChangePinOutcome::LockedOut { msg_id },
        NvsError::Flash => ChangePinOutcome::Flash { msg_id },
        NvsError::Crypto => ChangePinOutcome::Crypto { msg_id },
        _ => ChangePinOutcome::Failed { msg_id },
    }
}

/// Prepares a PIN change (worker side): the current PIN must open the
/// store, which is then re-encrypted under the new PIN without being
/// written yet.
pub fn compute_change_pin_outcome<P: NvsPepperSource, R: Fn(&[u8; 64]) -> ([u64; 6], [u64; 6])>(
    nvs: &NvsStore,
    msg_id: u32,
    current_pin: &str,
    new_pin: &str,
    source: &mut P,
    root_pub: &R,
) -> (o: ChangePinOutcome)
    requires
        nvs.wf(),
        forall|s: &[u8; 64]| call_requires(*root_pub, (s,)),
    ensures
        unlock_gate(nvs@, true) matches Err(e) ==> o == change_failure(msg_id, e),
        o matches ChangePinOutcome::Prepared { msg_id: m, .. } ==> m == msg_id && unlock_gate(nvs@, true) is Ok,
        !(o is Prepared) ==> exists|e: NvsError| o == #[trigger] change_failure(msg_id, e),
        exists|r: Result<(Vec<[u8; 64]>, [u8; 32], bool), NvsError>|
            #[trigger] unlock_result(nvs@, current_pin.spec_bytes(), true, *old(source), *root_pub, r) && match r {
                Err(e) => o == change_failure(msg_id, e),
                Ok((seeds, key, clear)) => (o matches ChangePinOutcome::Prepared { msg_id: m, seeds: s, .. } && m == msg_id
                    && s@ == seeds@) || exists|e: NvsError| #![trigger change_failure(msg_id, e)] o == change_failure(msg_id, e)
                    && (e == NvsError::NotInitialized || e == NvsError::Crypto || exists|s2: P| #[trigger] source_error(s2, e)),
            },
{
    match nvs.prepare_change_pin_inner(current_pin, new_pin, source, true, root_pub) {
        Ok((prepared, seeds, master_key)) => ChangePinOutcome::Prepared { msg_id, seeds, master_key, prepared },
        Err(e) => {
            let o = match e {
                NvsError::WrongPin => ChangePinOutcome::WrongPin { msg_id },
                NvsError::LockedOut => ChangePinOutcome::LockedOut { msg_id },
                NvsError::Flash => ChangePinOutcome::Flash { msg_id },
                NvsError::Crypto => ChangePinOutcome::Crypto { msg_id },
                _ => ChangePinOutcome::Failed { msg_id },
            };
            proof {
                assert(o == change_failure(msg_id, e));
            }
            o
        },
    }
}

/// What the screen shows after a PIN result.
#[derive(Clone, Copy, Debug, PartialEq, Eq, Structural)]
pub enum PinScreen {
    /// The device is unlocked.
    UnlockSuccess,
    /// The PIN was refused; with the attempts left when they are known.
    PinFailure(Option<u8>),
    /// Too many wrong PINs.
    LockedOut,
    /// No PIN has been set up yet.
    NotInitialized,
    /// Back to the seed setup screen.
    SeedSetup,
    /// Back to PIN entry.
    BeginUnlock,
    /// A short message over the unlocked screen.
    Message(ChangeMessage),
}

/// The short messages a failed PIN change shows over the unlocked screen.
#[derive(Clone, Copy, Debug, PartialEq, Eq, Structural)]
pub enum ChangeMessage {
    FlashError,
    CryptoError,
    ChangeFailed,
    BadPin,
}

impl ChangeMessage {
    pub fn text(self) -> (r: &'static str)
        ensures
            r@ == (match self {
                ChangeMessage::FlashError => "Flash error"@,
                ChangeMessage::CryptoError => "Crypto error"@,
                ChangeMessage::ChangeFailed => "PIN change failed"@,
                ChangeMessage::BadPin => "Bad PIN"@,
            }),
    {
        match self {
            ChangeMessage::FlashError => "Flash error",
            ChangeMessage::CryptoError => "Crypto error",
            ChangeMessage::ChangeFailed => "PIN change failed",
            ChangeMessage::BadPin => "Bad PIN",
        }
    }
}

/// The session after an unlock with `seeds` and `key`.
pub open spec fn unlocked_session(s: SessionView, seeds: Seq<[u8; 64]>, key: [u8; 32]) -> SessionView {
    SessionView {
        slots: kept_seeds(seeds),
        active: 0,
        locked: false,
        seed_gen: next_gen(s.seed_gen),
        master_key: Some(key),
    }
}

/// The reply to a wrong PIN and what the screen shows, given what counting
/// it gave: a store failure reads as a flash error, no attempts left as
/// a lockout.
pub open spec fn wrong_pin_reply(counted: Result<u8, NvsError>) -> (Response, PinScreen) {
    match counted {
        Err(_) => (Response::Error { code: ErrCode::Flash }, PinScreen::PinFailure(None)),
        Ok(n) => if n == 0 {
            (Response::Error { code: ErrCode::PinLockedOut }, PinScreen::LockedOut)
        } else {
            (Response::Error { code: ErrCode::WrongPin }, PinScreen::PinFailure(Some(n)))
        },
    }
}

/// Applies an unlock result: a good PIN clears the attempt counter when
/// needed and unlocks the session with the decrypted seeds; a wrong one is
/// counted.
pub fn handle_unlock_outcome(outcome: UnlockOutcome, nvs: &mut NvsStore, session: &mut Session) -> (r: (
    Response,
    PinScreen,
))
    requires
        old(nvs).wf(),
        old(session).wf(),
    ensures
        final(nvs).wf(),
        final(session).wf(),
        final(nvs).flash_view() == old(nvs).flash_view(),
        match outcome {
            UnlockOutcome::Success { seeds, master_key, clear_attempts } => {
                if clear_attempts && stored_header(old(nvs)@) is None {
                    r == (Response::Error { code: ErrCode::Flash }, PinScreen::PinFailure(None))
                        && final(session).view() == old(session).view()
                } else {
                    r == (Response::Done, PinScreen::UnlockSuccess)
                        && final(session).view() == unlocked_session(old(session).view(), seeds@, master_key)
                        && (!clear_attempts ==> final(nvs)@ == old(nvs)@)
                }
            },
            UnlockOutcome::WrongPin => r == wrong_pin_reply(wrong_pin_remaining(old(nvs)@))
                && final(session).view() == old(session).view() && wrong_pin_recorded(old(nvs)@, final(nvs)@),
            UnlockOutcome::LockedOut => r == (Response::Error { code: ErrCode::PinLockedOut }, PinScreen::LockedOut)
                && final(session).view() == old(session).view() && final(nvs)@ == old(nvs)@,
            UnlockOutcome::NotInitialized => r == (Response::Error { code: ErrCode::NoSeed }, PinScreen::NotInitialized)
                && final(session).view() == old(session).view() && final(nvs)@ == old(nvs)@,
            UnlockOutcome::Flash => r == (Response::Error { code: ErrCode::Flash }, PinScreen::PinFailure(None))
                && final(session).view() == old(session).view() && final(nvs)@ == old(nvs)@,
            UnlockOutcome::Failed => r == (Response::Error { code: ErrCode::NoSeed }, PinScreen::PinFailure(None))
                && final(session).view() == old(session).view() && final(nvs)@ == old(nvs)@,
        },
{
    match outcome {
        UnlockOutcome::Success { seeds, master_key, clear_attempts } => {
            let mut master_key = master_key;
            if clear_attempts {
                if nvs.clear_pin_attempts().is_err() {
                    return (Response::Error { code: ErrCode::Flash }, PinScreen::PinFailure(None));
                }
            }
            update_seed_store_from_slice(session, seeds.as_slice());
            store_master_key(session, &master_key);
            set_locked(session, false);
            zeroize_array(&mut master_key);
            (Response::Done, PinScreen::UnlockSuccess)
        },
        UnlockOutcome::WrongPin => {
            let counted = nvs.record_wrong_pin_attempt();
            match counted {
                Err(_) => (Response::Error { code: ErrCode::Flash }, PinScreen::PinFailure(None)),
                Ok(n) => if n == 0 {
                    (Response::Error { code: ErrCode::PinLockedOut }, PinScreen::LockedOut)
                } else {
                    (Response::Error { code: ErrCode::WrongPin }, PinScreen::PinFailure(Some(n)))
                },
            }
        },
        UnlockOutcome::LockedOut => (Response::Error { code: ErrCode::PinLockedOut }, PinScreen::LockedOut),
        UnlockOutcome::NotInitialized => (Response::Error { code: ErrCode::NoSeed }, PinScreen::NotInitialized),
        UnlockOutcome::Flash => (Response::Error { code: ErrCode::Flash }, PinScreen::PinFailure(None)),
        UnlockOutcome::Failed => (Response::Error { code: ErrCode::NoSeed }, PinScreen::PinFailure(None)),
    }
}

/// Applies the first PIN setup's result: a prepared store is written and
/// the session unlocks with the new seed; refusals send the user back.
/// Returns the reply, the next screen and the final progress stage.
pub fn handle_initpin_outcome(outcome: InitPinOutcome, nvs: &mut NvsStore, session: &mut Session) -> (r: (
    Response,
    PinScreen,
    InitPinProgress,
))
    requires
        old(nvs).wf(),
        old(session).wf(),
    ensures
        final(nvs).wf(),
        final(session).wf(),
        final(nvs).flash_view() == old(nvs).flash_view(),
        match outcome {
            InitPinOutcome::Prepared { seed64, master_key, prepared } => r == (
                Response::Done,
                PinScreen::UnlockSuccess,
                InitPinProgress::Complete,
            ) && final(session).view() == (SessionView {
                slots: seq![seed64],
                active: 0,
                locked: false,
                seed_gen: next_gen(old(session).view().seed_gen),
                master_key: Some(master_key),
            }) && final(nvs)@ == splice(old(nvs)@, 0, init_core(
                old(nvs)@.subrange(0, SEED_CORE_STORAGE_SIZE as int),
                prepared.header@,
                prepared.slot_record@,
            )),
            InitPinOutcome::AlreadyInitialized => r == (
                Response::Error { code: ErrCode::AlreadyInitialized },
                PinScreen::BeginUnlock,
                InitPinProgress::Idle,
            ) && final(session).view() == old(session).view() && final(nvs)@ == old(nvs)@,
            InitPinOutcome::Flash => r == (Response::Error { code: ErrCode::Flash }, PinScreen::SeedSetup, InitPinProgress::Idle)
                && final(session).view() == old(session).view() && final(nvs)@ == old(nvs)@,
            InitPinOutcome::Crypto => r == (Response::Error { code: ErrCode::Crypto }, PinScreen::SeedSetup, InitPinProgress::Idle)
                && final(session).view() == old(session).view() && final(nvs)@ == old(nvs)@,
            InitPinOutcome::Failed => r == (Response::Error { code: ErrCode::NoSeed }, PinScreen::SeedSetup, InitPinProgress::Idle)
                && final(session).view() == old(session).view() && final(nvs)@ == old(nvs)@,
        },
{
    match outcome {
        InitPinOutcome::Prepared { seed64, master_key, prepared } => {
            let mut seed64 = seed64;
            let mut master_key = master_key;
            let commit = nvs.commit_prepared_initialize_pin(prepared);
            if let Err(err) = commit {
                zeroize_array(&mut master_key);
                zeroize_array(&mut seed64);
                let response = match err {
                    NvsError::Flash => Response::Error { code: ErrCode::Flash },
                    NvsError::Crypto => Response::Error { code: ErrCode::Crypto },
                    _ => Response::Error { code: ErrCode::NoSeed },
                };
                return (response, PinScreen::SeedSetup, InitPinProgress::Error);
            }
            store_master_key(session, &master_key);
            set_seed(session, &seed64);
            set_locked(session, false);
            zeroize_array(&mut master_key);
            zeroize_array(&mut seed64);
            (Response::Done, PinScreen::UnlockSuccess, InitPinProgress::Complete)
        },
        InitPinOutcome::AlreadyInitialized => (
            Response::Error { code: ErrCode::AlreadyInitialized },
            PinScreen::BeginUnlock,
            InitPinProgress::Idle,
        ),
        InitPinOutcome::Flash => (Response::Error { code: ErrCode::Flash }, PinScreen::SeedSetup, InitPinProgress::Idle),
        InitPinOutcome::Crypto => (Response::Error { code: ErrCode::Crypto }, PinScreen::SeedSetup, InitPinProgress::Idle),
        InitPinOutcome::Failed => (Response::Error { code: ErrCode::NoSeed }, PinScreen::SeedSetup, InitPinProgress::Idle),
    }
}

/// Wipes each seed in place.
pub fn zeroize_seeds(seeds: &mut Vec<[u8; 64]>)
    ensures
        final(seeds)@.len() == old(seeds)@.len(),
        forall|i: int| 0 <= i < final(seeds)@.len() ==> #[trigger] final(seeds)@[i]@ == Seq::new(64, |k: int| 0u8),
{
    let n = seeds.len();
    let mut i: usize = 0;
    while i < n
        invariant
            n == seeds@.len() == old(seeds)@.len(),
            i <= n,
            forall|j: int| 0 <= j < i ==> #[trigger] seeds@[j]@ == Seq::new(64, |k: int| 0u8),
        decreases n - i,
    {
        let zero = [0u8; 64];
        assert(zero@ =~= Seq::new(64, |k: int| 0u8));
        seeds.set(i, zero);
        i = i + 1;
    }
}

/// How a failed PIN change is shown: on the PIN screen while locked,
/// otherwise as a short message.
pub open spec fn change_failure_screen(locked: bool, message: ChangeMessage) -> PinScreen {
    if locked {
        PinScreen::PinFailure(None)
    } else {
        PinScreen::Message(message)
    }
}

/// The reply to a wrong old PIN during a PIN change, given what counting it
/// gave.
pub open spec fn change_wrong_pin_reply(counted: Result<u8, NvsError>, locked: bool) -> (Response, PinScreen) {
    match counted {
        Err(_) => (Response::Error { code: ErrCode::Flash }, change_failure_screen(locked, ChangeMessage::FlashError)),
        Ok(n) => if n == 0 {
            (Response::Error { code: ErrCode::PinLockedOut }, PinScreen::LockedOut)
        } else if locked {
            (Response::Error { code: ErrCode::WrongPin }, PinScreen::PinFailure(Some(n)))
        } else {
            (Response::Error { code: ErrCode::WrongPin }, PinScreen::Message(ChangeMessage::BadPin))
        },
    }
}

/// Applies a PIN change's result: the re-encrypted store is committed and
/// the session reloaded with the seeds; a wrong old PIN is counted. Returns
/// the request id, the reply and the next screen.
pub fn handle_change_pin_outcome(outcome: ChangePinOutcome, nvs: &mut NvsStore, session: &mut Session) -> (r: (
    u32,
    Response,
    PinScreen,
))
    requires
        old(nvs).wf(),
        old(session).wf(),
    ensures
        final(nvs).wf(),
        final(session).wf(),
        final(nvs).flash_view() == old(nvs).flash_view(),
        match outcome {
            ChangePinOutcome::Prepared { msg_id, seeds, master_key, prepared } => r.0 == msg_id && if rewrite_accepted(
                prepared.records@.len(),
                prepared.labels@,
                prepared.calibration,
            ) {
                &&& r.1 is Done && r.2 == PinScreen::UnlockSuccess
                &&& final(session).view() == unlocked_session(old(session).view(), seeds@, master_key)
                &&& rewrite_committed(old(nvs)@, final(nvs)@, prepared)
            } else {
                &&& r.1 == Response::Error { code: ErrCode::Flash }
                &&& r.2 == change_failure_screen(old(session).view().locked, ChangeMessage::FlashError)
                &&& final(session).view() == old(session).view() && final(nvs)@ == old(nvs)@
            },
            ChangePinOutcome::WrongPin { msg_id } => r.0 == msg_id && (r.1, r.2) == change_wrong_pin_reply(
                wrong_pin_remaining(old(nvs)@),
                old(session).view().locked,
            ) && final(session).view() == old(session).view() && wrong_pin_recorded(old(nvs)@, final(nvs)@),
            ChangePinOutcome::LockedOut { msg_id } => r == (
                msg_id,
                Response::Error { code: ErrCode::PinLockedOut },
                PinScreen::LockedOut,
            ) && final(session).view() == old(session).view() && final(nvs)@ == old(nvs)@,
            ChangePinOutcome::Flash { msg_id } => r == (
                msg_id,
                Response::Error { code: ErrCode::Flash },
                change_failure_screen(old(session).view().locked, ChangeMessage::FlashError),
            ) && final(session).view() == old(session).view() && final(nvs)@ == old(nvs)@,
            ChangePinOutcome::Crypto { msg_id } => r == (
                msg_id,
                Response::Error { code: ErrCode::Crypto },
                change_failure_screen(old(session).view().locked, ChangeMessage::CryptoError),
            ) && final(session).view() == old(session).view() && final(nvs)@ == old(nvs)@,
            ChangePinOutcome::Failed { msg_id } => r == (
                msg_id,
                Response::Error { code: ErrCode::NoSeed },
                change_failure_screen(old(session).view().locked, ChangeMessage::ChangeFailed),
            ) && final(session).view() == old(session).view() && final(nvs)@ == old(nvs)@,
        },
{
    let locked = crate::session::is_locked(session);
    match outcome {
        ChangePinOutcome::Prepared { msg_id, seeds, master_key, prepared } => {
            let mut seeds = seeds;
            let mut master_key = master_key;
            if nvs.commit_prepared_seed_rewrite(prepared).is_err() {
                zeroize_seeds(&mut seeds);
                zeroize_array(&mut master_key);
                let screen = if locked { PinScreen::PinFailure(None) } else { PinScreen::Message(ChangeMessage::FlashError) };
                return (msg_id, Response::Error { code: ErrCode::Flash }, screen);
            }
            update_seed_store_from_slice(session, seeds.as_slice());
            store_master_key(session, &master_key);
            set_locked(session, false);
            zeroize_seeds(&mut seeds);
            zeroize_array(&mut master_key);
            (msg_id, Response::Done, PinScreen::UnlockSuccess)
        },
        ChangePinOutcome::WrongPin { msg_id } => {
            let counted = nvs.record_wrong_pin_attempt();
            match counted {
                Err(_) => {
                    let screen = if locked { PinScreen::PinFailure(None) } else { PinScreen::Message(ChangeMessage::FlashError) };
                    (msg_id, Response::Error { code: ErrCode::Flash }, screen)
                },
                Ok(n) => if n == 0 {
                    (msg_id, Response::Error { code: ErrCode::PinLockedOut }, PinScreen::LockedOut)
                } else if locked {
                    (msg_id, Response::Error { code: ErrCode::WrongPin }, PinScreen::PinFailure(Some(n)))
                } else {
                    (msg_id, Response::Error { code: ErrCode::WrongPin }, PinScreen::Message(ChangeMessage::BadPin))
                },
            }
        },
        ChangePinOutcome::LockedOut { msg_id } => (msg_id, Response::Error { code: ErrCode::PinLockedOut }, PinScreen::LockedOut),
        ChangePinOutcome::Flash { msg_id } => {
            let screen = if locked { PinScreen::PinFailure(None) } else { PinScreen::Message(ChangeMessage::FlashError) };
            (msg_id, Response::Error { code: ErrCode::Flash }, screen)
        },
        ChangePinOutcome::Crypto { msg_id } => {
            let screen = if locked { PinScreen::PinFailure(None) } else { PinScreen::Message(ChangeMessage::CryptoError) };
            (msg_id, Response::Error { code: ErrCode::Crypto }, screen)
        },
        ChangePinOutcome::Failed { msg_id } => {
            let screen = if locked { PinScreen::PinFailure(None) } else { PinScreen::Message(ChangeMessage::ChangeFailed) };
            (msg_id, Response::Error { code: ErrCode::NoSeed }, screen)
        },
    }
}

} // verus!
