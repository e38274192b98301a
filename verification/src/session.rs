//! The unlocked session: decrypted seeds held in RAM, the active slot, the
//! master key and the lock flag. Seeds sit in a fixed-capacity
//! `heapless::Vec`, so at most `MAX_SEED_SLOTS` can be held.
use vstd::prelude::*;
use heapless::Vec as HVec;
use zeroize::Zeroize;
use crate::crypto::zeroize_array;
use crate::limits::MAX_SEED_SLOTS;

verus! {

#[verifier::external_type_specification]
#[verifier::external_body]
#[verifier::reject_recursive_types(T)]
pub struct ExHeaplessVec<T, const N: usize>(HVec<T, N>);

/// The seeds a slot list holds, in order.
pub uninterp spec fn seed_list(v: HVec<[u8; 64], 8>) -> Seq<[u8; 64]>;

/// `heapless::Vec::new`: an empty list.
#[verifier::external_body]
fn slots_new() -> (v: HVec<[u8; 64], 8>)
    ensures
        seed_list(v) == Seq::<[u8; 64]>::empty(),
{
    HVec::new()
}

/// `heapless::Vec::len`; the length never exceeds the capacity.
#[verifier::external_body]
fn slots_len(v: &HVec<[u8; 64], 8>) -> (n: usize)
    ensures
        n == seed_list(*v).len(),
        n <= MAX_SEED_SLOTS,
{
    v.len()
}

/// `heapless::Vec::push`: appends when below capacity and reports whether it did.
#[verifier::external_body]
fn slots_push(v: &mut HVec<[u8; 64], 8>, seed: [u8; 64]) -> (pushed: bool)
    ensures
        pushed == (seed_list(*old(v)).len() < MAX_SEED_SLOTS),
        pushed ==> seed_list(*final(v)) == seed_list(*old(v)).push(seed),
        !pushed ==> seed_list(*final(v)) == seed_list(*old(v)),
{
    v.push(seed).is_ok()
}

/// Indexing a `heapless::Vec` through its slice.
#[verifier::external_body]
fn slots_get(v: &HVec<[u8; 64], 8>, i: usize) -> (s: [u8; 64])
    requires
        i < seed_list(*v).len(),
    ensures
        s == seed_list(*v)[i as int],
{
    v[i]
}

/// Assigning an element of a `heapless::Vec` through its slice.
#[verifier::external_body]
fn slots_set(v: &mut HVec<[u8; 64], 8>, i: usize, seed: [u8; 64])
    requires
        i < seed_list(*old(v)).len(),
    ensures
        seed_list(*final(v)) == seed_list(*old(v)).update(i as int, seed),
{
    v[i] = seed;
}

/// `Zeroize::zeroize` on one element of a `heapless::Vec`.
#[verifier::external_body]
fn slots_zeroize_at(v: &mut HVec<[u8; 64], 8>, i: usize)
    requires
        i < seed_list(*old(v)).len(),
    ensures
        seed_list(*final(v)).len() == seed_list(*old(v)).len(),
        forall|j: int| 0 <= j < seed_list(*old(v)).len() && j != i ==> #[trigger] seed_list(*final(v))[j] == seed_list(*old(v))[j],
        seed_list(*final(v))[i as int]@ == Seq::new(64, |k: int| 0u8),
{
    v[i].zeroize();
}

/// `heapless::Vec::pop`: drops the last element.
#[verifier::external_body]
fn slots_pop(v: &mut HVec<[u8; 64], 8>)
    requires
        seed_list(*old(v)).len() > 0,
    ensures
        seed_list(*final(v)) == seed_list(*old(v)).drop_last(),
{
    let _ = v.pop();
}

/// `heapless::Vec::clear`.
#[verifier::external_body]
fn slots_clear(v: &mut HVec<[u8; 64], 8>)
    ensures
        seed_list(*final(v)) == Seq::<[u8; 64]>::empty(),
{
    v.clear();
}

/// What the session holds.
pub struct SessionView {
    pub locked: bool,
    pub master_key: Option<[u8; 32]>,
    pub slots: Seq<[u8; 64]>,
    pub active: usize,
    pub seed_gen: u64,
}

pub struct Session {
    locked: bool,
    master_key: [u8; 32],
    master_key_set: bool,
    slots: HVec<[u8; 64], 8>,
    active: usize,
    seed_gen: u64,
}

pub open spec fn next_gen(g: u64) -> u64 {
    if g == u64::MAX { 0 } else { (g + 1) as u64 }
}

/// The slot used when the active index points past the end: the last one.
pub open spec fn effective_active(v: SessionView) -> int {
    if v.active < v.slots.len() { v.active as int } else { v.slots.len() - 1 }
}

/// The first `MAX_SEED_SLOTS` seeds of `seeds`: what a fill keeps.
pub open spec fn kept_seeds(seeds: Seq<[u8; 64]>) -> Seq<[u8; 64]> {
    if seeds.len() <= MAX_SEED_SLOTS { seeds } else { seeds.subrange(0, MAX_SEED_SLOTS as int) }
}

impl Session {
    pub closed spec fn view(&self) -> SessionView {
        SessionView {
            locked: self.locked,
            master_key: if self.master_key_set { Some(self.master_key) } else { None },
            slots: seed_list(self.slots),
            active: self.active,
            seed_gen: self.seed_gen,
        }
    }

    /// The bytes of the master-key buffer, whether or not a key is held.
    pub closed spec fn key_buffer(&self) -> Seq<u8> {
        self.master_key@
    }

    /// The active index points at a held seed, or is zero with none held.
    pub closed spec fn wf(&self) -> bool {
        let n = seed_list(self.slots).len();
        &&& n <= MAX_SEED_SLOTS
        &&& (n == 0 ==> self.active == 0)
        &&& (n > 0 ==> self.active < n)
    }

    /// A locked session with no seeds and no master key.
    pub fn new() -> (s: Self)
        ensures
            s.wf(),
            s.view().locked,
            s.view().master_key is None,
            s.view().slots.len() == 0,
            s.view().active == 0,
            s.view().seed_gen == 0,
    {
        Session {
            locked: true,
            master_key: [0u8; 32],
            master_key_set: false,
            slots: slots_new(),
            active: 0,
            seed_gen: 0,
        }
    }

    fn zeroize_seed_slots(&mut self)
        ensures
            seed_list(final(self).slots) == Seq::<[u8; 64]>::empty(),
            final(self).locked == old(self).locked,
            final(self).master_key == old(self).master_key,
            final(self).master_key_set == old(self).master_key_set,
            final(self).active == old(self).active,
            final(self).seed_gen == old(self).seed_gen,
    {
        let n = slots_len(&self.slots);
        let mut i: usize = 0;
        while i < n
            invariant
                n == seed_list(self.slots).len(),
                i <= n,
                self.locked == old(self).locked,
                self.master_key == old(self).master_key,
                self.master_key_set == old(self).master_key_set,
                self.active == old(self).active,
                self.seed_gen == old(self).seed_gen,
            decreases n - i,
        {
            slots_zeroize_at(&mut self.slots, i);
            i += 1;
        }
        slots_clear(&mut self.slots);
    }
}

pub fn is_locked(session: &Session) -> (r: bool)
    ensures
        r == session.view().locked,
{
    session.locked
}

pub fn set_locked(session: &mut Session, locked: bool)
    requires
        old(session).wf(),
    ensures
        final(session).wf(),
        final(session).view() == (SessionView { locked, ..old(session).view() }),
{
    session.locked = locked;
}

pub fn has_seed(session: &Session) -> (r: bool)
    ensures
        r == (session.view().slots.len() > 0),
{
    slots_len(&session.slots) > 0
}

/// Bumped on every change to the seed set, so derived data can be cached.
pub fn seed_generation(session: &Session) -> (r: u64)
    ensures
        r == session.view().seed_gen,
{
    session.seed_gen
}

pub fn master_key_copy(session: &Session) -> (r: Option<[u8; 32]>)
    ensures
        r == session.view().master_key,
{
    if session.master_key_set { Some(session.master_key) } else { None }
}

pub fn store_master_key(session: &mut Session, key: &[u8; 32])
    requires
        old(session).wf(),
    ensures
        final(session).wf(),
        final(session).view() == (SessionView { master_key: Some(*key), ..old(session).view() }),
{
    session.master_key = *key;
    session.master_key_set = true;
}

pub fn clear_master_key(session: &mut Session)
    requires
        old(session).wf(),
    ensures
        final(session).wf(),
        final(session).view() == (SessionView { master_key: None, ..old(session).view() }),
        final(session).key_buffer() == Seq::new(32, |i: int| 0u8),
{
    zeroize_array(&mut session.master_key);
    session.master_key_set = false;
}

/// Replace the held seeds with those of `seeds` (beyond capacity they are
/// dropped), select the first, and lock exactly when none is held.
pub fn update_seed_store_from_slice(session: &mut Session, seeds: &[[u8; 64]])
    requires
        old(session).wf(),
    ensures
        final(session).wf(),
        final(session).view() == (SessionView {
            slots: kept_seeds(seeds@),
            active: 0,
            locked: kept_seeds(seeds@).len() == 0,
            seed_gen: next_gen(old(session).view().seed_gen),
            ..old(session).view()
        }),
{
    session.zeroize_seed_slots();
    let n = seeds.len();
    let mut i: usize = 0;
    while i < n
        invariant
            n == seeds@.len(),
            i <= n,
            seed_list(session.slots) == kept_seeds(seeds@.subrange(0, i as int)),
            session.locked == old(session).locked,
            session.master_key == old(session).master_key,
            session.master_key_set == old(session).master_key_set,
            session.seed_gen == old(session).seed_gen,
        decreases n - i,
    {
        let ghost before = seed_list(session.slots);
        let _ = slots_push(&mut session.slots, seeds[i]);
        proof {
            let p = seeds@.subrange(0, i as int);
            let q = seeds@.subrange(0, i + 1);
            assert(q == p.push(seeds@[i as int]));
            if p.len() < MAX_SEED_SLOTS {
                assert(kept_seeds(q) == kept_seeds(p).push(seeds@[i as int]));
            } else {
                assert(kept_seeds(q) =~= kept_seeds(p));
            }
        }
        i += 1;
    }
    proof {
        assert(seeds@.subrange(0, n as int) == seeds@);
    }
    session.active = 0;
    session.locked = slots_len(&session.slots) == 0;
    session.seed_gen = session.seed_gen.wrapping_add(1);
}

/// Hold exactly this one seed.
pub fn set_seed(session: &mut Session, seed64: &[u8; 64])
    requires
        old(session).wf(),
    ensures
        final(session).wf(),
        final(session).view() == (SessionView {
            slots: seq![*seed64],
            active: 0,
            locked: false,
            seed_gen: next_gen(old(session).view().seed_gen),
            ..old(session).view()
        }),
{
    let one = [*seed64];
    proof {
        assert(one@ == seq![*seed64]);
    }
    update_seed_store_from_slice(session, &one);
}

/// Add a seed after the others when there is room; otherwise nothing changes.
pub fn append_seed_slot(session: &mut Session, seed64: &[u8; 64])
    requires
        old(session).wf(),
    ensures
        final(session).wf(),
        old(session).view().slots.len() < MAX_SEED_SLOTS ==> final(session).view() == (SessionView {
            slots: old(session).view().slots.push(*seed64),
            seed_gen: next_gen(old(session).view().seed_gen),
            ..old(session).view()
        }),
        old(session).view().slots.len() >= MAX_SEED_SLOTS ==> final(session).view() == old(session).view(),
{
    if slots_len(&session.slots) < MAX_SEED_SLOTS {
        let _ = slots_push(&mut session.slots, *seed64);
        session.seed_gen = session.seed_gen.wrapping_add(1);
    }
}

/// The session after removing the seed at `index`.
pub open spec fn after_remove(v: SessionView, index: int) -> SessionView {
    let slots = v.slots.remove(index);
    let active: usize = if v.active >= slots.len() {
        if slots.len() == 0 { 0 } else { (slots.len() - 1) as usize }
    } else {
        v.active
    };
    SessionView {
        slots,
        active,
        locked: slots.len() == 0,
        master_key: if slots.len() == 0 { None } else { v.master_key },
        seed_gen: next_gen(v.seed_gen),
    }
}

/// Remove the seed at `index`, shifting the later ones down. The active
/// index is pulled back inside the list; removing the last seed locks the
/// session and forgets the master key. An index past the end changes nothing.
pub fn remove_seed_slot(session: &mut Session, index: usize)
    requires
        old(session).wf(),
    ensures
        final(session).wf(),
        index < old(session).view().slots.len() ==> final(session).view() == after_remove(old(session).view(), index as int),
        index >= old(session).view().slots.len() ==> final(session).view() == old(session).view(),
{
    let len = slots_len(&session.slots);
    if index >= len {
        return;
    }
    let ghost orig = seed_list(session.slots);
    slots_zeroize_at(&mut session.slots, index);
    let mut i = index;
    while i + 1 < len
        invariant
            len == orig.len(),
            index <= i < len,
            seed_list(session.slots).len() == len,
            forall|j: int| 0 <= j < i ==> #[trigger] seed_list(session.slots)[j] == orig.remove(index as int)[j],
            forall|j: int| i < j < len ==> #[trigger] seed_list(session.slots)[j] == orig[j],
            session.locked == old(session).locked,
            session.master_key == old(session).master_key,
            session.master_key_set == old(session).master_key_set,
            session.active == old(session).active,
            session.seed_gen == old(session).seed_gen,
        decreases len - i,
    {
        let next = slots_get(&session.slots, i + 1);
        slots_set(&mut session.slots, i, next);
        i += 1;
    }
    slots_zeroize_at(&mut session.slots, len - 1);
    slots_pop(&mut session.slots);
    proof {
        assert(seed_list(session.slots) =~= orig.remove(index as int));
    }
    let new_len = slots_len(&session.slots);
    if session.active >= new_len {
        session.active = if new_len == 0 { 0 } else { new_len - 1 };
    }
    session.locked = new_len == 0;
    if session.locked {
        zeroize_array(&mut session.master_key);
        session.master_key_set = false;
    }
    session.seed_gen = session.seed_gen.wrapping_add(1);
}

/// Forget every seed and the master key, and lock.
pub fn wipe(session: &mut Session)
    requires
        old(session).wf(),
    ensures
        final(session).wf(),
        final(session).view() == (SessionView {
            slots: Seq::<[u8; 64]>::empty(),
            active: 0,
            locked: true,
            master_key: None,
            seed_gen: next_gen(old(session).view().seed_gen),
        }),
        final(session).key_buffer() == Seq::new(32, |i: int| 0u8),
{
    session.zeroize_seed_slots();
    session.active = 0;
    session.locked = true;
    zeroize_array(&mut session.master_key);
    session.master_key_set = false;
    session.seed_gen = session.seed_gen.wrapping_add(1);
}

pub fn seed_slot_count(session: &Session) -> (n: usize)
    ensures
        n == session.view().slots.len(),
{
    slots_len(&session.slots)
}

/// A copy of every held seed, in order.
pub fn seed_slots_copy(session: &Session) -> (out: Vec<[u8; 64]>)
    ensures
        out@ == session.view().slots,
        out@.len() <= MAX_SEED_SLOTS,
{
    let n = slots_len(&session.slots);
    let mut out: Vec<[u8; 64]> = Vec::new();
    let mut i: usize = 0;
    while i < n
        invariant
            n == seed_list(session.slots).len(),
            i <= n,
            out@ == seed_list(session.slots).subrange(0, i as int),
        decreases n - i,
    {
        out.push(slots_get(&session.slots, i));
        i += 1;
    }
    out
}

pub fn get_seed_for_slot(session: &Session, slot: usize) -> (r: Result<[u8; 64], ()>)
    ensures
        slot < session.view().slots.len() ==> r == Ok::<[u8; 64], ()>(session.view().slots[slot as int]),
        slot >= session.view().slots.len() ==> r is Err,
{
    if slot >= slots_len(&session.slots) {
        return Err(());
    }
    Ok(slots_get(&session.slots, slot))
}

pub fn get_active_seed_copy(session: &Session) -> (r: Result<[u8; 64], ()>)
    ensures
        session.view().slots.len() > 0 ==> r == Ok::<[u8; 64], ()>(session.view().slots[effective_active(session.view())]),
        session.view().slots.len() == 0 ==> r is Err,
{
    let n = slots_len(&session.slots);
    if n == 0 {
        return Err(());
    }
    let idx = if session.active < n - 1 { session.active } else { n - 1 };
    Ok(slots_get(&session.slots, idx))
}

/// Select a held seed; an index past the end is refused and changes nothing.
pub fn set_active_slot(session: &mut Session, slot: usize) -> (r: Result<(), ()>)
    requires
        old(session).wf(),
    ensures
        final(session).wf(),
        slot < old(session).view().slots.len() ==> r is Ok && final(session).view() == (SessionView { active: slot, ..old(session).view() }),
        slot >= old(session).view().slots.len() ==> r is Err && final(session).view() == old(session).view(),
{
    if slot >= slots_len(&session.slots) {
        return Err(());
    }
    session.active = slot;
    Ok(())
}

pub fn active_slot_index(session: &Session) -> (r: Result<usize, ()>)
    ensures
        session.view().slots.len() > 0 ==> r == Ok::<usize, ()>(effective_active(session.view()) as usize),
        session.view().slots.len() == 0 ==> r is Err,
{
    let n = slots_len(&session.slots);
    if n == 0 {
        return Err(());
    }
    Ok(if session.active < n - 1 { session.active } else { n - 1 })
}

/// Selecting a held slot and reading the active index back gives that slot.
pub proof fn lemma_select_then_active(v: SessionView, slot: usize)
    requires
        slot < v.slots.len(),
    ensures
        effective_active(SessionView { active: slot, ..v }) == slot,
{
}

/// Removing the only seed locks the session and forgets the master key.
pub proof fn lemma_remove_last_locks(v: SessionView)
    requires
        v.slots.len() == 1,
    ensures
        after_remove(v, 0).locked,
        after_remove(v, 0).master_key is None,
        after_remove(v, 0).slots.len() == 0,
{
}

} // verus!
