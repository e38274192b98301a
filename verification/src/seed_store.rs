//! The seed setup buffer, the session-facing seed operations, and the
//! worker side of seed additions, deletions and resets.
use vstd::prelude::*;
use crate::crypto::{pbkdf2_hmac_sha512, pbkdf2_hmac_sha512_64, zeroize_array};
use crate::jobs::{SeedOp, SeedOpOutcome, SeedOpRequest};
use crate::limits::ErrCode;
use crate::nvs_store::store::{NvsError, NvsStore};
use crate::nvs_store::seeds::{seed_added, seed_deleted};
use crate::protocol::Response;
use crate::session::{self, Session, SessionView};

verus! {

pub const BIP39_WORD_COUNT: usize = 24;
pub const BIP39_MAX_SENTENCE_LEN: usize = 320;
pub const BIP39_PBKDF2_ROUNDS: u32 = 2048;

/// A seed held between phrase entry and PIN setup.
pub struct PendingSeedSetup {
    seed64: Option<[u8; 64]>,
}

impl PendingSeedSetup {
    pub closed spec fn view(&self) -> Option<[u8; 64]> {
        self.seed64
    }

    pub fn new() -> (p: Self)
        ensures
            p.view() is None,
    {
        PendingSeedSetup { seed64: None }
    }

    /// Take over a seed; the caller's copy is zeroed.
    pub fn store_from(&mut self, seed64: &mut [u8; 64])
        ensures
            final(self).view() == Some(*old(seed64)),
            final(seed64)@ == Seq::new(64, |i: int| 0u8),
    {
        self.clear();
        self.seed64 = Some(*seed64);
        zeroize_array(seed64);
    }

    /// Hand out the seed and forget it.
    pub fn take(&mut self) -> (r: Option<[u8; 64]>)
        ensures
            r == old(self).view(),
            final(self).view() is None,
    {
        match self.seed64 {
            Some(s) => {
                let out = s;
                self.clear();
                Some(out)
            },
            None => None,
        }
    }

    pub fn has_seed(&self) -> (r: bool)
        ensures
            r == self.view() is Some,
    {
        self.seed64.is_some()
    }

    pub fn clear(&mut self)
        ensures
            final(self).view() is None,
    {
        if let Some(mut s) = self.seed64 {
            zeroize_array(&mut s);
            self.seed64 = Some(s);
        }
        self.seed64 = None;
    }
}

/// The phrase as hashed by BIP-39: the words joined by single spaces.
pub open spec fn joined_words(words: Seq<Seq<u8>>) -> Seq<u8>
    decreases words.len(),
{
    if words.len() == 0 {
        Seq::empty()
    } else if words.len() == 1 {
        words[0]
    } else {
        joined_words(words.drop_last()) + seq![0x20u8] + words.last()
    }
}

/// The BIP-39 phrase keeps its words apart with single ASCII spaces: the
/// phrase of the first `k` words (at least one, fewer than all) starts the
/// whole phrase and is followed by a space (0x20), so in particular the
/// phrase starts with the first word and the byte after it is a space.
pub proof fn lemma_words_joined_by_spaces(ws: Seq<Seq<u8>>, k: int)
    requires
        1 <= k < ws.len(),
    ensures
        joined_words(ws).len() > joined_words(ws.take(k)).len(),
        joined_words(ws).subrange(0, joined_words(ws.take(k)).len() as int) == joined_words(ws.take(k)),
        joined_words(ws)[joined_words(ws.take(k)).len() as int] == 0x20u8,
        joined_words(ws.take(1)) == ws[0],
    decreases ws.len(),
{
    assert(ws.take(1) =~= seq![ws[0]]);
    let prev = ws.drop_last();
    let j = joined_words(ws);
    assert(j == joined_words(prev) + seq![0x20u8] + ws.last());
    if k == ws.len() - 1 {
        assert(prev =~= ws.take(k));
    } else {
        lemma_words_joined_by_spaces(prev, k);
        assert(prev.take(k) =~= ws.take(k));
        let n = joined_words(ws.take(k)).len() as int;
        assert(j.subrange(0, n) =~= joined_words(prev).subrange(0, n));
        assert(j[n] == joined_words(prev)[n]);
    }
}

/// The salt of the BIP-39 seed: the ASCII bytes of "mnemonic".
pub open spec fn mnemonic_salt() -> Seq<u8> {
    seq![0x6Du8, 0x6E, 0x65, 0x6D, 0x6F, 0x6E, 0x69, 0x63]
}

/// The 64-byte BIP-39 seed of exactly 24 words whose joined phrase fits in
/// 320 bytes; any other phrase is refused.
pub fn bip39_seed_from_words(words: &[Vec<u8>]) -> (r: Result<[u8; 64], ()>)
    ensures
        ({
            let ws = words@.map_values(|w: Vec<u8>| w@);
            &&& (ws.len() == BIP39_WORD_COUNT && joined_words(ws).len() <= BIP39_MAX_SENTENCE_LEN) ==>
                (r matches Ok(seed) && seed@ == pbkdf2_hmac_sha512(joined_words(ws), mnemonic_salt(), BIP39_PBKDF2_ROUNDS))
            &&& !(ws.len() == BIP39_WORD_COUNT && joined_words(ws).len() <= BIP39_MAX_SENTENCE_LEN) ==> r is Err
        }),
{
    let ghost ws = words@.map_values(|w: Vec<u8>| w@);
    if words.len() != BIP39_WORD_COUNT {
        return Err(());
    }
    let mut sentence: Vec<u8> = Vec::new();
    let mut count: usize = 0;
    while count < words.len()
        invariant
            count <= words@.len() == BIP39_WORD_COUNT,
            ws == words@.map_values(|w: Vec<u8>| w@),
            sentence@ == joined_words(ws.subrange(0, count as int)),
            sentence@.len() <= BIP39_MAX_SENTENCE_LEN,
        decreases words@.len() - count,
    {
        let ghost pre = ws.subrange(0, count as int);
        let ghost post = ws.subrange(0, count + 1int);
        assert(post.drop_last() =~= pre);
        let word = words[count].as_slice();
        if count > 0 {
            if sentence.len() >= BIP39_MAX_SENTENCE_LEN {
                proof { lemma_phrase_too_long(ws, count as nat); }
                return Err(());
            }
            sentence.push(0x20u8);
        }
        if word.len() > BIP39_MAX_SENTENCE_LEN - sentence.len() {
            proof {
                assert(post.last() == word@);
                lemma_phrase_too_long(ws, count as nat);
            }
            return Err(());
        }
        let mut i: usize = 0;
        let ghost base = sentence@;
        while i < word.len()
            invariant
                i <= word@.len(),
                sentence@ == base + word@.subrange(0, i as int),
            decreases word@.len() - i,
        {
            sentence.push(word[i]);
            i += 1;
            assert(sentence@ =~= base + word@.subrange(0, i as int));
        }
        proof {
            assert(word@.subrange(0, word@.len() as int) =~= word@);
            assert(post.last() == word@);
            if count == 0 {
                assert(sentence@ =~= joined_words(post));
            } else {
                assert(sentence@ =~= joined_words(post));
            }
        }
        count += 1;
    }
    proof {
        assert(ws.subrange(0, count as int) =~= ws);
    }
    let salt: [u8; 8] = [0x6D, 0x6E, 0x65, 0x6D, 0x6F, 0x6E, 0x69, 0x63];
    assert(salt@ =~= mnemonic_salt());
    let r = pbkdf2_hmac_sha512_64(sentence.as_slice(), salt.as_slice(), BIP39_PBKDF2_ROUNDS);
    match r {
        Ok(seed) => Ok(seed),
        Err(_) => Err(()),
    }
}

/// The phrase is at least as long as its first `count + 1` words joined.
pub proof fn lemma_phrase_too_long(ws: Seq<Seq<u8>>, count: nat)
    requires
        count < ws.len(),
    ensures
        joined_words(ws.subrange(0, count + 1int)).len() <= joined_words(ws).len(),
        count > 0 ==> joined_words(ws.subrange(0, count + 1int)).len()
            == joined_words(ws.subrange(0, count as int)).len() + 1 + ws[count as int].len(),
        count == 0 ==> joined_words(ws.subrange(0, 1)) == ws[0],
{
    lemma_joined_grows(ws, ws.len());
    assert(ws.subrange(0, ws.len() as int) =~= ws);
    let post = ws.subrange(0, count + 1int);
    assert(post.drop_last() =~= ws.subrange(0, count as int));
    assert(joined_words(ws.subrange(0, (count + 1) as nat as int)).len() <= joined_words(ws.subrange(0, ws.len() as int)).len());
}

/// Joining more words never makes the phrase shorter.
pub proof fn lemma_joined_grows(ws: Seq<Seq<u8>>, n: nat)
    requires
        n <= ws.len(),
    ensures
        forall|m: nat| m <= n ==> #[trigger] joined_words(ws.subrange(0, m as int)).len() <= joined_words(ws.subrange(0, n as int)).len(),
    decreases n,
{
    if n > 0 {
        lemma_joined_grows(ws, (n - 1) as nat);
        let a = ws.subrange(0, n as int);
        assert(a.drop_last() =~= ws.subrange(0, n - 1));
    }
}

pub fn master_key_copy(s: &Session) -> (r: Option<[u8; 32]>)
    ensures
        r == s.view().master_key,
{
    session::master_key_copy(s)
}

pub fn store_master_key(s: &mut Session, key: &[u8; 32])
    requires
        old(s).wf(),
    ensures
        final(s).wf(),
        final(s).view() == (SessionView { master_key: Some(*key), ..old(s).view() }),
{
    session::store_master_key(s, key)
}

pub fn clear_master_key(s: &mut Session)
    requires
        old(s).wf(),
    ensures
        final(s).wf(),
        final(s).view() == (SessionView { master_key: None, ..old(s).view() }),
{
    session::clear_master_key(s)
}

pub fn set_seed(s: &mut Session, seed64: &[u8; 64])
    requires
        old(s).wf(),
    ensures
        final(s).wf(),
        final(s).view() == (SessionView {
            slots: seq![*seed64],
            active: 0,
            locked: false,
            seed_gen: session::next_gen(old(s).view().seed_gen),
            ..old(s).view()
        }),
{
    session::set_seed(s, seed64)
}

pub fn update_seed_store_from_slice(s: &mut Session, seeds: &[[u8; 64]])
    requires
        old(s).wf(),
    ensures
        final(s).wf(),
        final(s).view() == (SessionView {
            slots: session::kept_seeds(seeds@),
            active: 0,
            locked: session::kept_seeds(seeds@).len() == 0,
            seed_gen: session::next_gen(old(s).view().seed_gen),
            ..old(s).view()
        }),
{
    session::update_seed_store_from_slice(s, seeds)
}

pub fn append_seed_slot(s: &mut Session, seed64: &[u8; 64])
    requires
        old(s).wf(),
    ensures
        final(s).wf(),
        old(s).view().slots.len() < crate::limits::MAX_SEED_SLOTS ==> final(s).view() == (SessionView {
            slots: old(s).view().slots.push(*seed64),
            seed_gen: session::next_gen(old(s).view().seed_gen),
            ..old(s).view()
        }),
        old(s).view().slots.len() >= crate::limits::MAX_SEED_SLOTS ==> final(s).view() == old(s).view(),
{
    session::append_seed_slot(s, seed64)
}

pub fn remove_seed_slot(s: &mut Session, index: usize)
    requires
        old(s).wf(),
    ensures
        final(s).wf(),
        index < old(s).view().slots.len() ==> final(s).view() == session::after_remove(old(s).view(), index as int),
        index >= old(s).view().slots.len() ==> final(s).view() == old(s).view(),
{
    session::remove_seed_slot(s, index)
}

pub fn wipe_seed(s: &mut Session)
    requires
        old(s).wf(),
    ensures
        final(s).wf(),
        final(s).view() == (SessionView {
            slots: Seq::<[u8; 64]>::empty(),
            active: 0,
            locked: true,
            master_key: None,
            seed_gen: session::next_gen(old(s).view().seed_gen),
        }),
{
    session::wipe(s)
}

pub fn set_active_slot(s: &mut Session, slot: usize) -> (r: Result<(), ()>)
    requires
        old(s).wf(),
    ensures
        final(s).wf(),
        slot < old(s).view().slots.len() ==> r is Ok && final(s).view() == (SessionView { active: slot, ..old(s).view() }),
        slot >= old(s).view().slots.len() ==> r is Err && final(s).view() == old(s).view(),
{
    session::set_active_slot(s, slot)
}

pub fn active_slot_index(s: &Session) -> (r: Result<usize, ()>)
    ensures
        s.view().slots.len() > 0 ==> r == Ok::<usize, ()>(session::effective_active(s.view()) as usize),
        s.view().slots.len() == 0 ==> r is Err,
{
    session::active_slot_index(s)
}

/// The session requests handled without touching flash.
pub enum SessionRequest {
    SetSeed { seed64: [u8; 64] },
    Wipe,
    Lock,
    SelectSeed { slot: u8 },
}

pub fn handle_session_request(s: &mut Session, req: &SessionRequest) -> (r: Response)
    requires
        old(s).wf(),
    ensures
        final(s).wf(),
        match req {
            SessionRequest::SetSeed { seed64 } => r is Done && final(s).view().slots == seq![*seed64],
            SessionRequest::Wipe | SessionRequest::Lock => r is Done && final(s).view().slots.len() == 0
                && final(s).view().locked && final(s).view().master_key is None,
            SessionRequest::SelectSeed { slot } => if (*slot as int) < old(s).view().slots.len() {
                r is Done && final(s).view().active == *slot as usize
            } else {
                crate::protocol::is_err(r, ErrCode::NoSeed) && final(s).view() == old(s).view()
            },
        },
{
    match req {
        SessionRequest::SetSeed { seed64 } => {
            set_seed(s, seed64);
            Response::Done
        },
        SessionRequest::Wipe | SessionRequest::Lock => {
            wipe_seed(s);
            Response::Done
        },
        SessionRequest::SelectSeed { slot } => match set_active_slot(s, *slot as usize) {
            Ok(()) => Response::Done,
            Err(_) => Response::Error { code: ErrCode::NoSeed },
        },
    }
}

/// The outcome a store error gives for an addition.
pub open spec fn add_error_outcome(msg_id: u32, e: NvsError) -> SeedOpOutcome {
    match e {
        NvsError::WrongPin => SeedOpOutcome::WrongPin { msg_id },
        NvsError::LockedOut => SeedOpOutcome::LockedOut { msg_id },
        NvsError::Full => SeedOpOutcome::Full { msg_id },
        NvsError::Flash => SeedOpOutcome::Flash { msg_id },
        NvsError::Crypto => SeedOpOutcome::Crypto { msg_id },
        NvsError::NotInitialized => SeedOpOutcome::NotInitialized { msg_id },
        _ => SeedOpOutcome::Failed { msg_id },
    }
}

/// The outcome a store error gives for a deletion.
pub open spec fn delete_error_outcome(msg_id: u32, e: NvsError) -> SeedOpOutcome {
    match e {
        NvsError::InvalidSlot => SeedOpOutcome::InvalidSlot { msg_id },
        NvsError::WrongPin => SeedOpOutcome::WrongPin { msg_id },
        NvsError::LockedOut => SeedOpOutcome::LockedOut { msg_id },
        NvsError::NotInitialized => SeedOpOutcome::NotInitialized { msg_id },
        NvsError::Flash => SeedOpOutcome::Flash { msg_id },
        NvsError::Crypto => SeedOpOutcome::Crypto { msg_id },
        _ => SeedOpOutcome::Failed { msg_id },
    }
}

/// The outcome of an addition whose store call gave `r`.
pub open spec fn add_result_outcome(msg_id: u32, r: Result<u8, NvsError>, seed64: [u8; 64]) -> SeedOpOutcome {
    match r {
        Ok(_) => SeedOpOutcome::Added { msg_id, seed64 },
        Err(e) => add_error_outcome(msg_id, e),
    }
}

/// The outcome of a deletion whose store call gave `r`.
pub open spec fn delete_result_outcome(msg_id: u32, r: Result<(), NvsError>, slot: u8) -> SeedOpOutcome {
    match r {
        Ok(_) => SeedOpOutcome::Deleted { msg_id, slot },
        Err(e) => delete_error_outcome(msg_id, e),
    }
}

pub fn add_outcome(msg_id: u32, r: Result<u8, NvsError>, seed64: [u8; 64]) -> (o: SeedOpOutcome)
    ensures
        o == add_result_outcome(msg_id, r, seed64),
{
    match r {
        Ok(_) => SeedOpOutcome::Added { msg_id, seed64 },
        Err(NvsError::WrongPin) => SeedOpOutcome::WrongPin { msg_id },
        Err(NvsError::LockedOut) => SeedOpOutcome::LockedOut { msg_id },
        Err(NvsError::Full) => SeedOpOutcome::Full { msg_id },
        Err(NvsError::Flash) => SeedOpOutcome::Flash { msg_id },
        Err(NvsError::Crypto) => SeedOpOutcome::Crypto { msg_id },
        Err(NvsError::NotInitialized) => SeedOpOutcome::NotInitialized { msg_id },
        Err(_) => SeedOpOutcome::Failed { msg_id },
    }
}

pub fn delete_outcome(msg_id: u32, r: Result<(), NvsError>, slot: u8) -> (o: SeedOpOutcome)
    ensures
        o == delete_result_outcome(msg_id, r, slot),
{
    match r {
        Ok(()) => SeedOpOutcome::Deleted { msg_id, slot },
        Err(NvsError::InvalidSlot) => SeedOpOutcome::InvalidSlot { msg_id },
        Err(NvsError::WrongPin) => SeedOpOutcome::WrongPin { msg_id },
        Err(NvsError::LockedOut) => SeedOpOutcome::LockedOut { msg_id },
        Err(NvsError::NotInitialized) => SeedOpOutcome::NotInitialized { msg_id },
        Err(NvsError::Flash) => SeedOpOutcome::Flash { msg_id },
        Err(NvsError::Crypto) => SeedOpOutcome::Crypto { msg_id },
        Err(_) => SeedOpOutcome::Failed { msg_id },
    }
}

/// Run a seed operation on the store (worker side).
pub fn compute_seed_op_outcome<R: Fn(&[u8; 64]) -> ([u64; 6], [u64; 6])>(
    nvs: &mut NvsStore,
    request: SeedOpRequest,
    root_pub: &R,
) -> (o: SeedOpOutcome)
    requires
        old(nvs).wf(),
        forall|s: &[u8; 64]| call_requires(*root_pub, (s,)),
    ensures
        final(nvs).wf(),
        match request.op {
            SeedOp::Add { seed64, master_key } => exists|res: Result<u8, NvsError>, pub_xy: ([u64; 6], [u64; 6])|
                call_ensures(*root_pub, (&seed64,), pub_xy)
                && #[trigger] seed_added(old(nvs)@, final(nvs)@, master_key@, seed64@, pub_xy, *root_pub, res)
                && o == add_result_outcome(request.msg_id, res, seed64),
            SeedOp::Delete { slot, master_key } => exists|res: Result<(), NvsError>|
                #[trigger] seed_deleted(old(nvs)@, final(nvs)@, master_key@, slot as usize, *root_pub, res)
                && o == delete_result_outcome(request.msg_id, res, slot),
            SeedOp::Reset => o == (SeedOpOutcome::Reset { msg_id: request.msg_id })
                && final(nvs)@ == crate::bytes::ff_seq(crate::nvs_store::layout::NVS_IMAGE_LEN as nat),
        },
{
    let msg_id = request.msg_id;
    match request.op {
        SeedOp::Add { seed64, master_key } => {
            let mut seed64 = seed64;
            let mut master_key = master_key;
            let pub_xy = root_pub(&seed64);
            let r = nvs.add_seed_with_key(&master_key, &seed64, pub_xy, root_pub);
            let outcome = add_outcome(msg_id, r, seed64);
            zeroize_array(&mut master_key);
            zeroize_array(&mut seed64);
            outcome
        },
        SeedOp::Delete { slot, master_key } => {
            let mut master_key = master_key;
            let r = nvs.delete_seed_with_key(&master_key, slot as usize, root_pub);
            zeroize_array(&mut master_key);
            delete_outcome(msg_id, r, slot)
        },
        SeedOp::Reset => {
            let _ = nvs.factory_reset();
            SeedOpOutcome::Reset { msg_id }
        },
    }
}

/// Zero the secrets a seed operation carries.
pub fn zeroize_seed_op_request(request: &mut SeedOpRequest)
    ensures
        final(request).msg_id == old(request).msg_id,
        match final(request).op {
            SeedOp::Add { seed64, master_key } => old(request).op is Add
                && seed64@ == Seq::new(64, |i: int| 0u8) && master_key@ == Seq::new(32, |i: int| 0u8),
            SeedOp::Delete { slot, master_key } => (old(request).op matches SeedOp::Delete { slot: s, .. } && s == slot)
                && master_key@ == Seq::new(32, |i: int| 0u8),
            SeedOp::Reset => old(request).op is Reset,
        },
{
    match &mut request.op {
        SeedOp::Add { seed64, master_key } => {
            zeroize_array(seed64);
            zeroize_array(master_key);
        },
        SeedOp::Delete { master_key, .. } => {
            zeroize_array(master_key);
        },
        SeedOp::Reset => {},
    }
}

#[derive(Debug, Clone, Copy, PartialEq, Eq, Structural)]
pub enum SeedOpUiEffect {
    NoChange,
    Added,
    Deleted,
    Reset,
}

/// What the UI core does with a seed operation's outcome.
pub struct SeedOpApplied {
    pub msg_id: u32,
    pub response: Response,
    pub ui_effect: SeedOpUiEffect,
    /// The line for the debug console.
    pub debug: &'static str,
}

/// The message id every outcome carries.
pub open spec fn outcome_msg_id(outcome: SeedOpOutcome) -> u32 {
    match outcome {
        SeedOpOutcome::Added { msg_id, .. } | SeedOpOutcome::Deleted { msg_id, .. } | SeedOpOutcome::Reset { msg_id }
        | SeedOpOutcome::WrongPin { msg_id } | SeedOpOutcome::LockedOut { msg_id } | SeedOpOutcome::Full { msg_id }
        | SeedOpOutcome::InvalidSlot { msg_id } | SeedOpOutcome::NotInitialized { msg_id } | SeedOpOutcome::Failed { msg_id }
        | SeedOpOutcome::Flash { msg_id } | SeedOpOutcome::Crypto { msg_id } => msg_id,
    }
}

/// The UI effect of an outcome: additions, deletions and resets change the
/// screen, failures do not.
pub open spec fn outcome_effect(outcome: SeedOpOutcome) -> SeedOpUiEffect {
    match outcome {
        SeedOpOutcome::Added { .. } => SeedOpUiEffect::Added,
        SeedOpOutcome::Deleted { .. } => SeedOpUiEffect::Deleted,
        SeedOpOutcome::Reset { .. } => SeedOpUiEffect::Reset,
        _ => SeedOpUiEffect::NoChange,
    }
}

/// The session after appending `seed`: one more slot and a new seed
/// generation while a slot is free, unchanged when all are taken.
pub open spec fn after_append(v: SessionView, seed: [u8; 64]) -> SessionView {
    if v.slots.len() < crate::limits::MAX_SEED_SLOTS {
        SessionView { slots: v.slots.push(seed), seed_gen: session::next_gen(v.seed_gen), ..v }
    } else {
        v
    }
}

/// The session after removing slot `slot`, unchanged when there is no such slot.
pub open spec fn after_remove_if_held(v: SessionView, slot: int) -> SessionView {
    if slot < v.slots.len() { session::after_remove(v, slot) } else { v }
}

/// `msg_id`, `response` and `effect` are the reply to `outcome`, and the
/// session went from `before` to `after`: an addition appends the seed, a
/// deletion removes the slot, anything else leaves the session alone.
pub open spec fn seed_op_applied(
    before: SessionView,
    outcome: SeedOpOutcome,
    after: SessionView,
    msg_id: u32,
    response: Response,
    effect: SeedOpUiEffect,
) -> bool {
    &&& msg_id == outcome_msg_id(outcome)
    &&& effect == outcome_effect(outcome)
    &&& match outcome {
        SeedOpOutcome::Added { seed64, .. } => response is Done && after == after_append(before, seed64),
        SeedOpOutcome::Deleted { slot, .. } => response is Done && after == after_remove_if_held(before, slot as int),
        SeedOpOutcome::Reset { .. } => response is Done && after == before,
        SeedOpOutcome::WrongPin { .. } => crate::protocol::is_err(response, ErrCode::WrongPin) && after == before,
        SeedOpOutcome::LockedOut { .. } => crate::protocol::is_err(response, ErrCode::PinLockedOut) && after == before,
        SeedOpOutcome::Full { .. } => crate::protocol::is_err(response, ErrCode::Overflow) && after == before,
        SeedOpOutcome::InvalidSlot { .. } | SeedOpOutcome::NotInitialized { .. } | SeedOpOutcome::Failed { .. } =>
            crate::protocol::is_err(response, ErrCode::NoSeed) && after == before,
        SeedOpOutcome::Flash { .. } => crate::protocol::is_err(response, ErrCode::Flash) && after == before,
        SeedOpOutcome::Crypto { .. } => crate::protocol::is_err(response, ErrCode::Crypto) && after == before,
    }
}

/// The line written to the debug console for an outcome.
pub open spec fn seed_op_debug(outcome: SeedOpOutcome) -> Seq<char> {
    match outcome {
        SeedOpOutcome::Added { .. } => "seed added\r\n"@,
        SeedOpOutcome::Deleted { .. } => "seed deleted\r\n"@,
        SeedOpOutcome::Reset { .. } => "factory reset\r\n"@,
        SeedOpOutcome::WrongPin { .. } => "seed op wrong pin\r\n"@,
        SeedOpOutcome::LockedOut { .. } => "seed op locked out\r\n"@,
        SeedOpOutcome::Full { .. } => "seed op full\r\n"@,
        SeedOpOutcome::InvalidSlot { .. } | SeedOpOutcome::NotInitialized { .. } => "seed op no seed\r\n"@,
        SeedOpOutcome::Flash { .. } => "seed op flash error\r\n"@,
        SeedOpOutcome::Crypto { .. } => "seed op crypto error\r\n"@,
        SeedOpOutcome::Failed { .. } => "seed op failed\r\n"@,
    }
}

/// The reply and UI effect of each outcome; additions and deletions also
/// update the session.
pub fn apply_seed_op_outcome(s: &mut Session, outcome: SeedOpOutcome) -> (a: SeedOpApplied)
    requires
        old(s).wf(),
    ensures
        final(s).wf(),
        seed_op_applied(old(s).view(), outcome, final(s).view(), a.msg_id, a.response, a.ui_effect),
        a.debug@ == seed_op_debug(outcome),
{
    match outcome {
        SeedOpOutcome::Added { msg_id, seed64 } => {
            let mut seed64 = seed64;
            append_seed_slot(s, &seed64);
            zeroize_array(&mut seed64);
            SeedOpApplied { msg_id, response: Response::Done, ui_effect: SeedOpUiEffect::Added, debug: "seed added\r\n" }
        },
        SeedOpOutcome::Deleted { msg_id, slot } => {
            remove_seed_slot(s, slot as usize);
            SeedOpApplied { msg_id, response: Response::Done, ui_effect: SeedOpUiEffect::Deleted, debug: "seed deleted\r\n" }
        },
        SeedOpOutcome::Reset { msg_id } => SeedOpApplied {
            msg_id,
            response: Response::Done,
            ui_effect: SeedOpUiEffect::Reset,
            debug: "factory reset\r\n",
        },
        SeedOpOutcome::WrongPin { msg_id } => SeedOpApplied {
            msg_id,
            response: Response::Error { code: ErrCode::WrongPin },
            ui_effect: SeedOpUiEffect::NoChange,
            debug: "seed op wrong pin\r\n",
        },
        SeedOpOutcome::LockedOut { msg_id } => SeedOpApplied {
            msg_id,
            response: Response::Error { code: ErrCode::PinLockedOut },
            ui_effect: SeedOpUiEffect::NoChange,
            debug: "seed op locked out\r\n",
        },
        SeedOpOutcome::Full { msg_id } => SeedOpApplied {
            msg_id,
            response: Response::Error { code: ErrCode::Overflow },
            ui_effect: SeedOpUiEffect::NoChange,
            debug: "seed op full\r\n",
        },
        SeedOpOutcome::InvalidSlot { msg_id } | SeedOpOutcome::NotInitialized { msg_id } => SeedOpApplied {
            msg_id,
            response: Response::Error { code: ErrCode::NoSeed },
            ui_effect: SeedOpUiEffect::NoChange,
            debug: "seed op no seed\r\n",
        },
        SeedOpOutcome::Flash { msg_id } => SeedOpApplied {
            msg_id,
            response: Response::Error { code: ErrCode::Flash },
            ui_effect: SeedOpUiEffect::NoChange,
            debug: "seed op flash error\r\n",
        },
        SeedOpOutcome::Crypto { msg_id } => SeedOpApplied {
            msg_id,
            response: Response::Error { code: ErrCode::Crypto },
            ui_effect: SeedOpUiEffect::NoChange,
            debug: "seed op crypto error\r\n",
        },
        SeedOpOutcome::Failed { msg_id } => SeedOpApplied {
            msg_id,
            response: Response::Error { code: ErrCode::NoSeed },
            ui_effect: SeedOpUiEffect::NoChange,
            debug: "seed op failed\r\n",
        },
    }
}

/// What the screen shows after a seed operation.
#[derive(Clone, Copy, Debug, PartialEq, Eq, Structural)]
pub enum SeedOpScreen {
    Unchanged,
    /// A timed "Seed added" note.
    SeedAdded,
    /// A timed "Seed deleted" note, seeds remaining.
    SeedDeleted,
    /// Back to phrase setup: the last seed went, or everything was reset.
    SeedSetup,
}

/// The screen after a seed operation's effect, given whether a seed is
/// still held.
pub open spec fn seed_op_screen(effect: SeedOpUiEffect, has_seed: bool) -> SeedOpScreen {
    match effect {
        SeedOpUiEffect::NoChange => SeedOpScreen::Unchanged,
        SeedOpUiEffect::Added => SeedOpScreen::SeedAdded,
        SeedOpUiEffect::Deleted => if has_seed { SeedOpScreen::SeedDeleted } else { SeedOpScreen::SeedSetup },
        SeedOpUiEffect::Reset => SeedOpScreen::SeedSetup,
    }
}

/// Applies a seed operation's outcome to the session and says what to
/// reply (under which message id) and what to show.
pub fn handle_seed_op_outcome(s: &mut Session, outcome: SeedOpOutcome) -> (r: (u32, Response, SeedOpScreen))
    requires
        old(s).wf(),
    ensures
        final(s).wf(),
        seed_op_applied(old(s).view(), outcome, final(s).view(), r.0, r.1, outcome_effect(outcome)),
        r.2 == seed_op_screen(outcome_effect(outcome), final(s).view().slots.len() > 0),
{
    let applied = apply_seed_op_outcome(s, outcome);
    let screen = match applied.ui_effect {
        SeedOpUiEffect::NoChange => SeedOpScreen::Unchanged,
        SeedOpUiEffect::Added => SeedOpScreen::SeedAdded,
        SeedOpUiEffect::Deleted => if session::has_seed(s) { SeedOpScreen::SeedDeleted } else { SeedOpScreen::SeedSetup },
        SeedOpUiEffect::Reset => SeedOpScreen::SeedSetup,
    };
    (applied.msg_id, applied.response, screen)
}

} // verus!
