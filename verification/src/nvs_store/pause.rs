//! Coordination with the worker core while flash is written: the writer
//! asks the worker to park, waits until it is parked (or not running), and
//! releases it afterwards.
use vstd::prelude::*;
use super::store::NvsError;

verus! {

/// How long a writer waits for the worker to park, in milliseconds.
pub const FLASH_PAUSE_TIMEOUT_MS: u16 = 2_000;

/// The shared pause flags.
#[derive(Clone, Copy, Debug, PartialEq, Eq, Structural)]
pub struct FlashPauseFlags {
    pub requested: bool,
    pub parked: bool,
    pub online: bool,
}

impl FlashPauseFlags {
    pub fn new() -> (f: Self)
        ensures
            f == (FlashPauseFlags { requested: false, parked: false, online: false }),
    {
        FlashPauseFlags { requested: false, parked: false, online: false }
    }
}

pub fn worker_flash_pause_requested(flags: &FlashPauseFlags) -> (r: bool)
    ensures
        r == flags.requested,
{
    flags.requested
}

pub fn worker_flash_pause_set_parked(flags: &mut FlashPauseFlags, parked: bool)
    ensures
        *final(flags) == (FlashPauseFlags { parked, ..*old(flags) }),
{
    flags.parked = parked;
}

/// Mark the worker running or stopped; a stopped worker is not parked.
pub fn worker_flash_pause_set_online(flags: &mut FlashPauseFlags, online: bool)
    ensures
        *final(flags) == (FlashPauseFlags { online, parked: if online { old(flags).parked } else { false }, ..*old(flags) }),
{
    flags.online = online;
    if !online {
        flags.parked = false;
    }
}

/// Start a pause: ask the worker to park.
pub fn flash_pause_begin(flags: &mut FlashPauseFlags)
    ensures
        *final(flags) == (FlashPauseFlags { parked: false, requested: true, ..*old(flags) }),
{
    flags.parked = false;
    flags.requested = true;
}

/// Flash may be written once the worker is parked or not running.
pub fn flash_pause_ready(flags: &FlashPauseFlags) -> (r: bool)
    ensures
        r == (!flags.online || flags.parked),
{
    !flags.online || flags.parked
}

/// One poll of a pending pause after `waited_ms`: `Ok(true)` when flash may
/// be written, `Ok(false)` to keep waiting, and on timeout the request is
/// withdrawn and the write refused.
pub fn flash_pause_poll(flags: &mut FlashPauseFlags, waited_ms: u16) -> (r: Result<bool, NvsError>)
    ensures
        (!old(flags).online || old(flags).parked) ==> r == Ok::<bool, NvsError>(true) && *final(flags) == *old(flags),
        !(!old(flags).online || old(flags).parked) && waited_ms < FLASH_PAUSE_TIMEOUT_MS
            ==> r == Ok::<bool, NvsError>(false) && *final(flags) == *old(flags),
        !(!old(flags).online || old(flags).parked) && waited_ms >= FLASH_PAUSE_TIMEOUT_MS
            ==> r == Err::<bool, NvsError>(NvsError::Flash)
                && *final(flags) == (FlashPauseFlags { requested: false, parked: false, ..*old(flags) }),
{
    if flash_pause_ready(flags) {
        return Ok(true);
    }
    if waited_ms < FLASH_PAUSE_TIMEOUT_MS {
        return Ok(false);
    }
    flags.requested = false;
    flags.parked = false;
    Err(NvsError::Flash)
}

/// End a pause: release the worker.
pub fn flash_pause_release(flags: &mut FlashPauseFlags)
    ensures
        *final(flags) == (FlashPauseFlags { requested: false, parked: false, ..*old(flags) }),
{
    flags.requested = false;
    flags.parked = false;
}

/// What the worker does at the top of its loop.
#[derive(Clone, Copy, Debug, PartialEq, Eq, Structural)]
pub enum WorkerPark {
    /// No pause is asked for: carry on (and be marked unparked).
    Run,
    /// A pause is asked for: mark parked and spin until it is withdrawn.
    Park,
}

pub fn worker_park_decision(flags: &mut FlashPauseFlags) -> (d: WorkerPark)
    ensures
        old(flags).requested ==> d == WorkerPark::Park && *final(flags) == (FlashPauseFlags { parked: true, ..*old(flags) }),
        !old(flags).requested ==> d == WorkerPark::Run && *final(flags) == (FlashPauseFlags { parked: false, ..*old(flags) }),
{
    if !flags.requested {
        flags.parked = false;
        WorkerPark::Run
    } else {
        flags.parked = true;
        WorkerPark::Park
    }
}

/// A pause begun with the worker online is ready exactly when the worker
/// has parked; releasing it withdraws the request.
pub proof fn lemma_pause_handshake(f: FlashPauseFlags)
    requires
        f.online,
    ensures
        ({
            let begun = FlashPauseFlags { parked: false, requested: true, ..f };
            let parked = FlashPauseFlags { parked: true, ..begun };
            &&& !(!begun.online || begun.parked)
            &&& (!parked.online || parked.parked)
            &&& !(FlashPauseFlags { requested: false, parked: false, ..parked }).requested
        }),
{
}

} // verus!
