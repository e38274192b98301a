//! Mailboxes between the UI core and the worker core. Each kind of job has
//! one request slot and one result slot; a controller on the UI side submits
//! at most one request at a time and polls for its result.
use vstd::prelude::*;
use crate::nvs_store::seeds::{PreparedSeedInit, PreparedSeedRewrite};

verus! {

pub enum UnlockOutcome {
    Success { seeds: Vec<[u8; 64]>, master_key: [u8; 32], clear_attempts: bool },
    WrongPin,
    LockedOut,
    NotInitialized,
    Flash,
    Failed,
}

/// The longest PIN a request carries, in bytes.
pub const PIN_REQUEST_LEN: usize = 16;

pub struct UnlockRequest {
    pub pin: Vec<u8>,
}

pub struct InitPinRequest {
    pub pin: Vec<u8>,
    pub seed64: [u8; 64],
}

/// The words of a recovery phrase.
pub struct SeedDeriveRequest {
    pub words: Vec<Vec<u8>>,
}

pub enum InitPinOutcome {
    Prepared { seed64: [u8; 64], master_key: [u8; 32], prepared: PreparedSeedInit },
    AlreadyInitialized,
    Flash,
    Crypto,
    Failed,
}

pub enum SeedDeriveOutcome {
    Success { seed64: [u8; 64] },
    Failed,
}

pub struct SignDraftRequest {
    pub msg_id: u32,
    pub frag_id: u16,
    pub sk_be: [u8; 32],
    pub draft: Vec<u8>,
}

/// A signing request that came as one frame (its encoded bytes).
pub struct DirectSignRequest {
    pub msg_id: u32,
    pub frame: Vec<u8>,
}

pub struct ChangePinRequest {
    pub msg_id: u32,
    pub current_pin: Vec<u8>,
    pub new_pin: Vec<u8>,
}

pub enum SeedOp {
    Add { seed64: [u8; 64], master_key: [u8; 32] },
    Delete { slot: u8, master_key: [u8; 32] },
    Reset,
}

pub struct SeedOpRequest {
    pub msg_id: u32,
    pub op: SeedOp,
}

pub enum SignDraftOutcome {
    Success { msg_id: u32, frag_id: u16, out: Vec<u8> },
    Unsupported { msg_id: u32 },
    Failed { msg_id: u32 },
}

/// The answer to a direct signing request (its encoded response).
pub struct DirectSignOutcome {
    pub msg_id: u32,
    pub response: Vec<u8>,
}

pub enum ChangePinOutcome {
    Prepared { msg_id: u32, seeds: Vec<[u8; 64]>, master_key: [u8; 32], prepared: PreparedSeedRewrite },
    WrongPin { msg_id: u32 },
    LockedOut { msg_id: u32 },
    Flash { msg_id: u32 },
    Crypto { msg_id: u32 },
    Failed { msg_id: u32 },
}

pub enum SeedOpOutcome {
    Added { msg_id: u32, seed64: [u8; 64] },
    Deleted { msg_id: u32, slot: u8 },
    Reset { msg_id: u32 },
    WrongPin { msg_id: u32 },
    LockedOut { msg_id: u32 },
    Full { msg_id: u32 },
    InvalidSlot { msg_id: u32 },
    NotInitialized { msg_id: u32 },
    Flash { msg_id: u32 },
    Crypto { msg_id: u32 },
    Failed { msg_id: u32 },
}

/// One request slot and one result slot, shared by the two cores.
pub struct Mailbox<Req, Out> {
    pub request: Option<Req>,
    pub result: Option<Out>,
}

/// The worker took `r` from `m0`, leaving `m1`: the pending request, if
/// any, and the result slot untouched.
pub open spec fn request_taken<Req, Out>(m0: Mailbox<Req, Out>, r: Option<Req>, m1: Mailbox<Req, Out>) -> bool {
    &&& r == m0.request
    &&& m1.request is None
    &&& m1.result == m0.result
}

/// The worker stored `outcome` into `m0`, giving `m1`.
pub open spec fn result_stored<Req, Out>(m0: Mailbox<Req, Out>, outcome: Out, m1: Mailbox<Req, Out>) -> bool {
    &&& m1.result == Some(outcome)
    &&& m1.request == m0.request
}

impl<Req, Out> Mailbox<Req, Out> {
    pub fn new() -> (m: Self)
        ensures
            m.request is None,
            m.result is None,
    {
        Mailbox { request: None, result: None }
    }

    /// A request is queued only when both slots are free.
    pub fn offer(&mut self, request: Req) -> (r: Result<(), Req>)
        ensures
            (old(self).request is None && old(self).result is None) ==> r is Ok
                && final(self).request == Some(request) && final(self).result is None,
            !(old(self).request is None && old(self).result is None) ==> r == Err::<(), Req>(request)
                && final(self).request == old(self).request && final(self).result == old(self).result,
    {
        if self.request.is_some() || self.result.is_some() {
            return Err(request);
        }
        self.request = Some(request);
        Ok(())
    }

    /// The worker takes the pending request.
    pub fn take_request(&mut self) -> (r: Option<Req>)
        ensures
            request_taken(*old(self), r, *final(self)),
    {
        self.request.take()
    }

    /// The worker leaves its result.
    pub fn store_result(&mut self, outcome: Out)
        ensures
            result_stored(*old(self), outcome, *final(self)),
    {
        self.result = Some(outcome);
    }

    /// The UI takes the result, if any.
    pub fn take_result(&mut self) -> (r: Option<Out>)
        ensures
            r == old(self).result,
            final(self).result is None,
            final(self).request == old(self).request,
    {
        self.result.take()
    }

    pub fn has_request(&self) -> (r: bool)
        ensures
            r == self.request is Some,
    {
        self.request.is_some()
    }
}

/// A controller that keeps one request in flight: it refuses a second one
/// until the first's result has been polled.
pub struct JobController {
    awaiting_result: bool,
}


/// Submitting `request` through controller `c0` and mailbox `m0` gave `r`
/// and left `c1` and `m1`: refused while a result is awaited or a slot is
/// taken (the mailbox unchanged), otherwise queued and awaited.
pub open spec fn submitted<Req, Out>(
    c0: JobController,
    m0: Mailbox<Req, Out>,
    request: Req,
    r: Result<(), Req>,
    c1: JobController,
    m1: Mailbox<Req, Out>,
) -> bool {
    &&& c0.awaiting() ==> r == Err::<(), Req>(request) && m1 == m0 && c1.awaiting()
    &&& !c0.awaiting() && m0.request is None && m0.result is None ==> r is Ok
        && m1.request == Some(request) && m1.result is None && c1.awaiting()
    &&& !c0.awaiting() && !(m0.request is None && m0.result is None)
        ==> r == Err::<(), Req>(request) && m1 == m0 && !c1.awaiting()
}

/// Polling through `c0` and `m0` gave `r` and left `c1` and `m1`: the
/// result slot is emptied into `r`, and a result ends the wait.
pub open spec fn polled<Req, Out>(c0: JobController, m0: Mailbox<Req, Out>, r: Option<Out>, c1: JobController, m1: Mailbox<Req, Out>) -> bool {
    &&& r == m0.result
    &&& m1.result is None
    &&& m1.request == m0.request
    &&& r is Some ==> !c1.awaiting()
    &&& r is None ==> c1.awaiting() == c0.awaiting()
}

impl JobController {
    pub fn new() -> (c: Self)
        ensures
            !c.awaiting(),
    {
        JobController { awaiting_result: false }
    }

    pub closed spec fn awaiting(&self) -> bool {
        self.awaiting_result
    }

    pub fn is_awaiting(&self) -> (r: bool)
        ensures
            r == self.awaiting(),
    {
        self.awaiting_result
    }

    pub fn submit<Req, Out>(&mut self, mailbox: &mut Mailbox<Req, Out>, request: Req) -> (r: Result<(), Req>)
        ensures
            submitted(*old(self), *old(mailbox), request, r, *final(self), *final(mailbox)),
    {
        if self.awaiting_result {
            return Err(request);
        }
        match mailbox.offer(request) {
            Ok(()) => {
                self.awaiting_result = true;
                Ok(())
            },
            Err(request) => Err(request),
        }
    }

    pub fn poll<Req, Out>(&mut self, mailbox: &mut Mailbox<Req, Out>) -> (r: Option<Out>)
        ensures
            polled(*old(self), *old(mailbox), r, *final(self), *final(mailbox)),
    {
        let outcome = mailbox.take_result();
        if outcome.is_some() {
            self.awaiting_result = false;
        }
        outcome
    }
}

pub struct UnlockController {
    pub job: JobController,
}

pub struct InitPinController;

pub struct SeedDeriveController {
    pub job: JobController,
}

pub struct SignDraftController {
    pub job: JobController,
}

pub struct DirectSignController {
    pub job: JobController,
}

pub struct ChangePinController {
    pub job: JobController,
}

/// Copy a PIN into a request buffer; longer than the buffer is refused.
pub fn pin_buffer(pin: &[u8]) -> (r: Result<Vec<u8>, ()>)
    ensures
        pin@.len() <= PIN_REQUEST_LEN ==> (r matches Ok(b) && b@ == pin@),
        pin@.len() > PIN_REQUEST_LEN ==> r is Err,
{
    if pin.len() > PIN_REQUEST_LEN {
        return Err(());
    }
    Ok(vstd::slice::slice_to_vec(pin))
}

impl UnlockController {
    pub fn new() -> (c: Self)
        ensures
            !c.job.awaiting(),
    {
        UnlockController { job: JobController::new() }
    }

    pub fn submit(&mut self, mailbox: &mut Mailbox<UnlockRequest, UnlockOutcome>, pin: &[u8]) -> (r: Result<(), ()>)
        ensures
            r is Ok <==> !old(self).job.awaiting() && pin@.len() <= PIN_REQUEST_LEN
                && old(mailbox).request is None && old(mailbox).result is None,
            r is Ok ==> final(self).job.awaiting() && final(mailbox).result is None
                && (final(mailbox).request matches Some(req) && req.pin@ == pin@),
            r is Err ==> final(mailbox).request == old(mailbox).request && final(mailbox).result == old(mailbox).result,
    {
        if self.job.is_awaiting() {
            return Err(());
        }
        let pin_buf = pin_buffer(pin)?;
        match self.job.submit(mailbox, UnlockRequest { pin: pin_buf }) {
            Ok(()) => Ok(()),
            Err(_) => Err(()),
        }
    }

    pub fn poll(&mut self, mailbox: &mut Mailbox<UnlockRequest, UnlockOutcome>) -> (r: Option<UnlockOutcome>)
        ensures
            r == old(mailbox).result,
            final(mailbox).result is None,
    {
        self.job.poll(mailbox)
    }
}

impl InitPinController {
    pub fn new() -> (c: Self) {
        InitPinController
    }

    pub fn submit(&self, mailbox: &mut Mailbox<InitPinRequest, InitPinOutcome>, pin: &[u8], seed64: &[u8; 64]) -> (r: Result<(), ()>)
        ensures
            r is Ok <==> pin@.len() <= PIN_REQUEST_LEN && old(mailbox).request is None && old(mailbox).result is None,
            r is Ok ==> final(mailbox).result is None
                && (final(mailbox).request matches Some(req) && req.pin@ == pin@ && req.seed64 == *seed64),
            r is Err ==> final(mailbox).request == old(mailbox).request && final(mailbox).result == old(mailbox).result,
    {
        let pin_buf = pin_buffer(pin)?;
        match mailbox.offer(InitPinRequest { pin: pin_buf, seed64: *seed64 }) {
            Ok(()) => Ok(()),
            Err(_) => Err(()),
        }
    }

    pub fn poll(&mut self, mailbox: &mut Mailbox<InitPinRequest, InitPinOutcome>) -> (r: Option<InitPinOutcome>)
        ensures
            r == old(mailbox).result,
            final(mailbox).result is None,
    {
        mailbox.take_result()
    }
}

impl SeedDeriveController {
    pub fn new() -> (c: Self)
        ensures
            !c.job.awaiting(),
    {
        SeedDeriveController { job: JobController::new() }
    }
}

impl SignDraftController {
    pub fn new() -> (c: Self)
        ensures
            !c.job.awaiting(),
    {
        SignDraftController { job: JobController::new() }
    }
}

impl DirectSignController {
    pub fn new() -> (c: Self)
        ensures
            !c.job.awaiting(),
    {
        DirectSignController { job: JobController::new() }
    }
}

impl ChangePinController {
    pub fn new() -> (c: Self)
        ensures
            !c.job.awaiting(),
    {
        ChangePinController { job: JobController::new() }
    }
}

/// Which pending job the worker runs next.
#[derive(Clone, Copy, Debug, PartialEq, Eq, Structural)]
pub enum WorkerJob {
    InitPin,
    SeedDerive,
    Unlock,
    SignDraft,
    DirectSign,
    ChangePin,
    Idle,
}

/// The worker's fixed order: PIN setup, phrase derivation, unlock, draft
/// signing, direct signing, PIN change; idle when nothing is pending.
pub fn next_worker_job(init_pin: bool, seed_derive: bool, unlock: bool, sign_draft: bool, direct_sign: bool, change_pin: bool) -> (j: WorkerJob)
    ensures
        j == if init_pin { WorkerJob::InitPin } else if seed_derive { WorkerJob::SeedDerive } else if unlock { WorkerJob::Unlock }
            else if sign_draft { WorkerJob::SignDraft } else if direct_sign { WorkerJob::DirectSign }
            else if change_pin { WorkerJob::ChangePin } else { WorkerJob::Idle },
{
    if init_pin {
        WorkerJob::InitPin
    } else if seed_derive {
        WorkerJob::SeedDerive
    } else if unlock {
        WorkerJob::Unlock
    } else if sign_draft {
        WorkerJob::SignDraft
    } else if direct_sign {
        WorkerJob::DirectSign
    } else if change_pin {
        WorkerJob::ChangePin
    } else {
        WorkerJob::Idle
    }
}

/// A request submitted on an idle controller and empty mailbox reaches the
/// worker; the result the worker stores is what the next poll returns, after
/// which the controller is idle and the mailbox empty again. While the
/// result is awaited, any further submit is refused.
pub proof fn lemma_mailbox_round_trip<Req, Out>(
    c0: JobController,
    m0: Mailbox<Req, Out>,
    request: Req,
    submit_r: Result<(), Req>,
    c1: JobController,
    m1: Mailbox<Req, Out>,
    taken: Option<Req>,
    m2: Mailbox<Req, Out>,
    outcome: Out,
    m3: Mailbox<Req, Out>,
    polled_r: Option<Out>,
    c2: JobController,
    m4: Mailbox<Req, Out>,
)
    requires
        !c0.awaiting(),
        m0.request is None,
        m0.result is None,
        submitted(c0, m0, request, submit_r, c1, m1),
        request_taken(m1, taken, m2),
        result_stored(m2, outcome, m3),
        polled(c1, m3, polled_r, c2, m4),
    ensures
        submit_r is Ok,
        taken == Some(request),
        polled_r == Some(outcome),
        !c2.awaiting(),
        m4.request is None && m4.result is None,
        forall|other: Req, r: Result<(), Req>, c: JobController, m: Mailbox<Req, Out>|
            #[trigger] submitted(c1, m1, other, r, c, m) ==> r == Err::<(), Req>(other),
{
}

} // verus!
