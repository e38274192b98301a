//! Seed-store operations: first-time PIN setup, unlocking, and the PIN
//! attempt counter.
use vstd::prelude::*;
use vstd::string::StringSliceAdditionalSpecFns;
use crate::bytes::{all_ff, ff_seq, ff_vec, splice, write_at, lemma_splice_read, lemma_splice_outside};
use crate::crypto::random_bytes_32;
use crate::limits::MAX_SEED_SLOTS;
use super::flash::rel;
use super::keys::{
    NvsPepperSource, SoftwareNvsPepper, decrypt_seed, derive_master_key_for_header, master_key_spec, nvs_v2_pepper_or_software,
    opens_to, seal_seed_record, sealed_slot, master_key_v2, encrypt_seed_record, pepper_choice, derived_key,
};
use super::layout::{
    CALIBRATION_SIZE, GUI_PREFS_SIZE, SEED_CORE_TOTAL_SIZE, HEADER_SIZE, LABELS_ADDR, LABELS_SIZE, MAX_PIN_ATTEMPTS, NVS_BASE_ADDR, NVS_IMAGE_LEN, SEED_CORE_STORAGE_SIZE,
    SEED_TOTAL_SIZE, SLOT_SIZE, VERSION, VERSION_V2, FLAG_INITIALIZED,
};
use super::records::{
    Header, HeaderView, SlotRecord, SlotView, header_bytes, header_valid, header_view_initialized, header_is_initialized,
    header_to_bytes, slot_bytes, slot_to_bytes, labels_table_bytes, label_table, header_set_initialized,
    header_new_uninitialized, slot_record_valid, labels_storable, calibration_bytes, gui_prefs_bytes,
    spec_touch_calibration_valid,
};
use super::store::{
    NvsError, NvsStore, attempts_used, only_marks_differ, header_erased_while, img_region, mark_count, slot_addr, stored_header, stored_slot,
};

verus! {

/// What counting a wrong PIN leaves: nothing changes when the store is not
/// initialized or already out of attempts; otherwise one more attempt is
/// charged, the header stays, and only the attempt marks change.
pub open spec fn wrong_pin_recorded(before: Seq<u8>, after: Seq<u8>) -> bool {
    match unlock_gate(before, false) {
        Err(_) => after == before,
        Ok(h) => if attempts_used(before, h) >= MAX_PIN_ATTEMPTS {
            after == before
        } else {
            &&& stored_header(after) == Some(h)
            &&& attempts_used(after, h) == attempts_used(before, h) + 1
            &&& only_marks_differ(before, after)
        },
    }
}

/// The attempts left that counting a wrong PIN reports, or why it could not.
pub open spec fn wrong_pin_remaining(img: Seq<u8>) -> Result<u8, NvsError> {
    match unlock_gate(img, false) {
        Err(e) => Err(e),
        Ok(h) => if attempts_used(img, h) >= MAX_PIN_ATTEMPTS {
            Ok(0)
        } else {
            Ok((MAX_PIN_ATTEMPTS - (attempts_used(img, h) + 1)) as u8)
        },
    }
}

/// What deriving the master key for `pin` leaves. The lockout gate counts
/// the attempt marks as well as the header. Past it, the key is derived
/// (asking `source` for a version-2 pepper) and checked on the first slot: a
/// key that opens it comes back with every charged attempt cleared; a key
/// under which it opens nothing is charged as one more wrong PIN, in the
/// attempt marks alone; any other failure leaves the store as it was.
pub open spec fn pin_key_derived<P: NvsPepperSource, R: Fn(&[u8; 64]) -> ([u64; 6], [u64; 6])>(
    before: Seq<u8>,
    after: Seq<u8>,
    pin: Seq<u8>,
    source: P,
    root_pub: R,
    r: Result<[u8; 32], NvsError>,
) -> bool {
    match unlock_gate(before, true) {
        Err(e) => r == Err::<[u8; 32], NvsError>(e) && after == before,
        Ok(h) => exists|kr: Result<[u8; 32], NvsError>| #[trigger] derived_key(pin, h, source, kr) && match kr {
            Err(e) => r == Err::<[u8; 32], NvsError>(e) && after == before,
            Ok(k) => exists|vr: Result<(), NvsError>| #[trigger] key_check(before, h, k@, root_pub, vr) && match vr {
                Ok(()) => r == Ok::<[u8; 32], NvsError>(k) && slot_opens(before, k@, root_pub, 0)
                    && stored_header(after) == Some(HeaderView { attempts: 0, ..h })
                    && mark_count(after) == 0,
                Err(e) => r == Err::<[u8; 32], NvsError>(e) && if e == NvsError::WrongPin {
                    wrong_pin_recorded(before, after)
                } else {
                    after == before
                },
            },
        },
    }
}

/// What adding a seed under `key` leaves, given the result `r`: refusals
/// before any key check (the lockout gate counts the attempt marks) change
/// nothing; then the key is checked on the first slot: a key under which it
/// opens nothing is charged in the attempt marks, another failure of the
/// check changes nothing, and a key that opens it seals the seed into the
/// next slot (or, when no random nonce comes, fails with `Crypto` and
/// changes nothing).
pub open spec fn seed_added<R: Fn(&[u8; 64]) -> ([u64; 6], [u64; 6])>(
    before: Seq<u8>,
    after: Seq<u8>,
    key: Seq<u8>,
    seed: Seq<u8>,
    pub_xy: ([u64; 6], [u64; 6]),
    root_pub: R,
    r: Result<u8, NvsError>,
) -> bool {
    match unlock_gate(before, true) {
        Err(e) => r == Err::<u8, NvsError>(e) && after == before,
        Ok(h) => if h.slot_count >= MAX_SEED_SLOTS {
            r == Err::<u8, NvsError>(NvsError::Full) && after == before
        } else {
            exists|vr: Result<(), NvsError>| #[trigger] key_check(before, h, key, root_pub, vr) && match vr {
                Err(e) => r == Err::<u8, NvsError>(e) && if e == NvsError::WrongPin {
                    wrong_pin_recorded(before, after)
                } else {
                    after == before
                },
                Ok(()) => (r == Err::<u8, NvsError>(NvsError::Crypto) && after == before) || (r matches Ok(index)
                    && index == h.slot_count
                    && slot_opens(before, key, root_pub, 0)
                    && stored_header(after) == Some(HeaderView { slot_count: (h.slot_count + 1) as u8, attempts: 0, ..h })
                    && (exists|rec: SlotRecord| rec@ == #[trigger] sealed_slot(key, rec.nonce@, seed, pub_xy.0@, pub_xy.1@)
                        && (slot_record_valid(rec) ==> stored_slot(after, index as int) == Some(rec@)))),
            }
        },
    }
}

/// What deleting slot `slot_index` under `key` leaves, given the result
/// `r`: refusals before any key check (the lockout gate counts the attempt
/// marks) change nothing; then the key is checked on the first slot: a key
/// under which it opens nothing is charged in the attempt marks, another
/// failure of the check changes nothing, and a key that opens it deletes
/// the slot, the later slots moving down one.
pub open spec fn seed_deleted<R: Fn(&[u8; 64]) -> ([u64; 6], [u64; 6])>(
    before: Seq<u8>,
    after: Seq<u8>,
    key: Seq<u8>,
    slot_index: usize,
    root_pub: R,
    r: Result<(), NvsError>,
) -> bool {
    match unlock_gate(before, true) {
        Err(e) => r == Err::<(), NvsError>(e) && after == before,
        Ok(h) => if slot_index >= h.slot_count {
            r == Err::<(), NvsError>(NvsError::InvalidSlot) && after == before
        } else {
            exists|vr: Result<(), NvsError>| #[trigger] key_check(before, h, key, root_pub, vr) && match vr {
                Err(e) => r == Err::<(), NvsError>(e) && if e == NvsError::WrongPin {
                    wrong_pin_recorded(before, after)
                } else {
                    after == before
                },
                Ok(()) => r is Ok
                    && slot_opens(before, key, root_pub, 0)
                    && stored_header(after) == Some(header_after_delete(h))
                    && (forall|j: int| 0 <= j < slot_index ==> #[trigger] stored_slot(after, j) == stored_slot(before, j))
                    && (forall|j: int| slot_index <= j < h.slot_count - 1 ==> #[trigger] stored_slot(after, j) == stored_slot(before, j + 1))
                    && stored_slot(after, h.slot_count - 1) is None
                    && mark_count(after) == mark_count(before),
            }
        },
    }
}

/// The result of opening the store with a known pepper: the lockout gate's
/// refusal; `Crypto` where the PIN has no key; otherwise the seeds of every
/// used slot under that key, or the error of the first slot that does not
/// open.
pub open spec fn unlock_value_result<R: Fn(&[u8; 64]) -> ([u64; 6], [u64; 6])>(
    img: Seq<u8>,
    pin: Seq<u8>,
    pepper: Option<Seq<u8>>,
    enforce_lockout: bool,
    root_pub: R,
    r: Result<(Vec<[u8; 64]>, [u8; 32], bool), NvsError>,
) -> bool {
    match unlock_gate(img, enforce_lockout) {
        Err(e) => r == Err::<(Vec<[u8; 64]>, [u8; 32], bool), NvsError>(e),
        Ok(h) => match master_key_spec(pin, h.version, h.salt, pepper) {
            None => r == Err::<(Vec<[u8; 64]>, [u8; 32], bool), NvsError>(NvsError::Crypto),
            Some(k) => match r {
                Ok((seeds, key, clear)) => key@ == k && clear == (attempts_used(img, h) != 0)
                    && slots_unlocked(img, k, root_pub, seeds@, h.slot_count as int),
                Err(e) => first_failure(img, k, root_pub, h.slot_count as int, e),
            },
        },
    }
}

/// The result of opening the store with `pin`: the lockout gate's refusal;
/// for a version-2 store, an answer `source` may give for the header's salt,
/// and then its error or the opening with the pepper it selects; for a
/// version-1 store, the opening without a pepper.
pub open spec fn unlock_result<P: NvsPepperSource, R: Fn(&[u8; 64]) -> ([u64; 6], [u64; 6])>(
    img: Seq<u8>,
    pin: Seq<u8>,
    enforce_lockout: bool,
    source: P,
    root_pub: R,
    r: Result<(Vec<[u8; 64]>, [u8; 32], bool), NvsError>,
) -> bool {
    match unlock_gate(img, enforce_lockout) {
        Err(e) => r == Err::<(Vec<[u8; 64]>, [u8; 32], bool), NvsError>(e),
        Ok(h) => if h.version == VERSION_V2 {
            exists|ans: Result<Option<[u8; 32]>, NvsError>| #[trigger] source.pepper_answers(h.salt, ans)
                && match pepper_choice(ans) {
                    Err(e) => r == Err::<(Vec<[u8; 64]>, [u8; 32], bool), NvsError>(e),
                    Ok(p) => unlock_value_result(img, pin, Some(p), enforce_lockout, root_pub, r),
                }
        } else {
            unlock_value_result(img, pin, None, enforce_lockout, root_pub, r)
        },
    }
}

/// Slot `i` holds a record that opens under `key`, and every seed it opens
/// to has the recorded root key, whatever `root_pub` is asked.
pub open spec fn slot_good<R: Fn(&[u8; 64]) -> ([u64; 6], [u64; 6])>(img: Seq<u8>, key: Seq<u8>, root_pub: R, i: int) -> bool {
    match stored_slot(img, i) {
        Some(s) => (exists|q: [u8; 64]| #[trigger] opens_to(key, s, q@))
            && forall|q: [u8; 64]| #[trigger] opens_to(key, s, q@) ==> pub_fixed(root_pub, q, s.pub_x, s.pub_y),
        None => false,
    }
}

/// The PIN, with `pepper`, gives a key that opens every used slot of `h`.
pub open spec fn pin_opens_all<R: Fn(&[u8; 64]) -> ([u64; 6], [u64; 6])>(
    img: Seq<u8>,
    h: HeaderView,
    pin: Seq<u8>,
    pepper: Option<Seq<u8>>,
    root_pub: R,
) -> bool {
    master_key_spec(pin, h.version, h.salt, pepper) matches Some(k)
        && forall|i: int| 0 <= i < h.slot_count ==> #[trigger] slot_good(img, k, root_pub, i)
}

/// The PIN, with `pepper`, gives a key under which the first slot's record
/// opens to nothing.
pub open spec fn pin_opens_none(img: Seq<u8>, h: HeaderView, pin: Seq<u8>, pepper: Option<Seq<u8>>) -> bool {
    &&& master_key_spec(pin, h.version, h.salt, pepper) matches Some(k)
    &&& stored_slot(img, 0) matches Some(s) && no_opening(k, s)
}

/// Every pepper `source` may select for `h` (none is asked of a version-1
/// store) makes `good` hold.
pub open spec fn every_pepper<P: NvsPepperSource>(source: P, h: HeaderView, good: spec_fn(Option<Seq<u8>>) -> bool) -> bool {
    if h.version == VERSION_V2 {
        forall|ans: Result<Option<[u8; 32]>, NvsError>| #[trigger] source.pepper_answers(h.salt, ans)
            ==> (pepper_choice(ans) matches Ok(p) && good(Some(p)))
    } else {
        good(None)
    }
}

/// No slot that every seed opening has the recorded root key can fail.
proof fn lemma_good_slot_no_failure<R: Fn(&[u8; 64]) -> ([u64; 6], [u64; 6])>(img: Seq<u8>, key: Seq<u8>, root_pub: R, i: int, e: NvsError)
    requires
        slot_good(img, key, root_pub, i),
    ensures
        !slot_fails(img, key, root_pub, i, e),
{
    let s = stored_slot(img, i)->0;
    let q0 = choose|q: [u8; 64]| #[trigger] opens_to(key, s, q@);
    assert(opens_to(key, s, q0@));
    if mismatch_opening(key, root_pub, s) {
        let q = choose|q: [u8; 64]| #[trigger] pub_mismatch_seen(root_pub, q, s) && opens_to(key, s, q@) && only_opening(key, s, q@);
        assert(pub_fixed(root_pub, q, s.pub_x, s.pub_y));
    }
}

/// A key that opens every used slot meets no first failure; one under which
/// the first record opens to nothing fails there, with `WrongPin`.
pub proof fn lemma_first_failure_cases<R: Fn(&[u8; 64]) -> ([u64; 6], [u64; 6])>(img: Seq<u8>, key: Seq<u8>, root_pub: R, n: int, e: NvsError)
    ensures
        (forall|i: int| 0 <= i < n ==> #[trigger] slot_good(img, key, root_pub, i)) ==> !first_failure(img, key, root_pub, n, e),
        (stored_slot(img, 0) matches Some(s) && no_opening(key, s)) && first_failure(img, key, root_pub, n, e)
            ==> e == NvsError::WrongPin,
{
    if first_failure(img, key, root_pub, n, e) {
        let i = choose|i: int| 0 <= i < n && slot_fails(img, key, root_pub, i, e)
            && forall|j: int| 0 <= j < i ==> #[trigger] slot_opens(img, key, root_pub, j);
        if forall|j: int| 0 <= j < n ==> #[trigger] slot_good(img, key, root_pub, j) {
            assert(slot_good(img, key, root_pub, i));
            lemma_good_slot_no_failure(img, key, root_pub, i, e);
        }
        if stored_slot(img, 0) is Some && no_opening(key, stored_slot(img, 0)->Some_0) {
            let s = stored_slot(img, 0)->Some_0;
            if i > 0 {
                assert(slot_opens(img, key, root_pub, 0));
                let q = choose|q: [u8; 64]| #[trigger] slot_unlocked(img, key, root_pub, 0, q);
                assert(opens_to(key, s, q@));
            } else if e != NvsError::WrongPin {
                assert(mismatch_opening(key, root_pub, s));
                let q = choose|q: [u8; 64]| #[trigger] pub_mismatch_seen(root_pub, q, s) && opens_to(key, s, q@) && only_opening(key, s, q@);
                assert(opens_to(key, s, q@));
            }
        }
    }
}

/// The unlock law: past the lockout gate, a PIN whose key (with every
/// pepper the source may give) opens every used slot unlocks, handing out
/// the key and the seeds of all used slots.
pub proof fn lemma_right_pin_unlocks<P: NvsPepperSource, R: Fn(&[u8; 64]) -> ([u64; 6], [u64; 6])>(
    img: Seq<u8>,
    pin: Seq<u8>,
    enforce_lockout: bool,
    source: P,
    root_pub: R,
    r: Result<(Vec<[u8; 64]>, [u8; 32], bool), NvsError>,
)
    requires
        unlock_result(img, pin, enforce_lockout, source, root_pub, r),
        unlock_gate(img, enforce_lockout) matches Ok(h)
            && every_pepper(source, h, |p: Option<Seq<u8>>| pin_opens_all(img, h, pin, p, root_pub)),
    ensures
        r matches Ok((seeds, key, clear)) && unlock_gate(img, enforce_lockout) matches Ok(h)
            && seeds@.len() == h.slot_count
            && slots_unlocked(img, key@, root_pub, seeds@, h.slot_count as int),
{
    let h = unlock_gate(img, enforce_lockout)->Ok_0;
    if h.version == VERSION_V2 {
        let ans = choose|ans: Result<Option<[u8; 32]>, NvsError>| #[trigger] source.pepper_answers(h.salt, ans)
            && match pepper_choice(ans) {
                Err(e) => r == Err::<(Vec<[u8; 64]>, [u8; 32], bool), NvsError>(e),
                Ok(p) => unlock_value_result(img, pin, Some(p), enforce_lockout, root_pub, r),
            };
        let p = pepper_choice(ans)->Ok_0;
        let k = master_key_spec(pin, h.version, h.salt, Some(p))->Some_0;
        if let Err(e) = r {
            lemma_first_failure_cases(img, k, root_pub, h.slot_count as int, e);
        }
    } else {
        let k = master_key_spec(pin, h.version, h.salt, None)->Some_0;
        if let Err(e) = r {
            lemma_first_failure_cases(img, k, root_pub, h.slot_count as int, e);
        }
    }
}

/// The other half of the unlock law: past the lockout gate, a PIN whose key
/// (with every pepper the source may give) opens nothing in the first slot
/// is answered `WrongPin`, unless the source itself answered an error.
pub proof fn lemma_wrong_pin_refused<P: NvsPepperSource, R: Fn(&[u8; 64]) -> ([u64; 6], [u64; 6])>(
    img: Seq<u8>,
    pin: Seq<u8>,
    enforce_lockout: bool,
    source: P,
    root_pub: R,
    r: Result<(Vec<[u8; 64]>, [u8; 32], bool), NvsError>,
)
    requires
        unlock_result(img, pin, enforce_lockout, source, root_pub, r),
        unlock_gate(img, enforce_lockout) matches Ok(h)
            && every_pepper(source, h, |p: Option<Seq<u8>>| pin_opens_none(img, h, pin, p)),
    ensures
        r == Err::<(Vec<[u8; 64]>, [u8; 32], bool), NvsError>(NvsError::WrongPin),
{
    let h = unlock_gate(img, enforce_lockout)->Ok_0;
    let k = if h.version == VERSION_V2 {
        let ans = choose|ans: Result<Option<[u8; 32]>, NvsError>| #[trigger] source.pepper_answers(h.salt, ans)
            && match pepper_choice(ans) {
                Err(e) => r == Err::<(Vec<[u8; 64]>, [u8; 32], bool), NvsError>(e),
                Ok(p) => unlock_value_result(img, pin, Some(p), enforce_lockout, root_pub, r),
            };
        master_key_spec(pin, h.version, h.salt, Some(pepper_choice(ans)->Ok_0))->Some_0
    } else {
        master_key_spec(pin, h.version, h.salt, None)->Some_0
    };
    let s = stored_slot(img, 0)->Some_0;
    if let Ok((seeds, key, clear)) = r {
        assert(slot_unlocked(img, k, root_pub, 0, seeds@[0]));
        assert(opens_to(k, s, seeds@[0]@));
    } else if let Err(e) = r {
        lemma_first_failure_cases(img, k, root_pub, h.slot_count as int, e);
    }
}

/// `e` is an error answer `source` may give for some salt.
pub open spec fn source_error<P: NvsPepperSource>(source: P, e: NvsError) -> bool {
    exists|salt: Seq<u8>| #[trigger] source.pepper_answers(salt, Err::<Option<[u8; 32]>, NvsError>(e))
}

/// Why a first PIN setup can fail: the store is already set up (and only
/// then), or, on a blank store, no random bytes came (`Crypto`) or the
/// pepper source answered an error.
pub open spec fn init_refusal<P: NvsPepperSource>(img: Seq<u8>, source: P, e: NvsError) -> bool {
    if already_initialized(img) {
        e == NvsError::AlreadyInitialized
    } else {
        e == NvsError::Crypto || source_error(source, e)
    }
}

/// Why an unlock is refused before any key is derived, or the header it
/// proceeds with.
pub open spec fn unlock_gate(img: Seq<u8>, enforce_lockout: bool) -> Result<HeaderView, NvsError> {
    match stored_header(img) {
        None => Err(NvsError::NotInitialized),
        Some(h) => if !header_view_initialized(h) {
            Err(NvsError::NotInitialized)
        } else if enforce_lockout && attempts_used(img, h) >= MAX_PIN_ATTEMPTS {
            Err(NvsError::LockedOut)
        } else {
            Ok(h)
        },
    }
}

/// The root public key `root_pub` was seen to give for `seed` is the one
/// the slot records.
pub open spec fn pub_seen<R: Fn(&[u8; 64]) -> ([u64; 6], [u64; 6])>(root_pub: R, seed: [u8; 64], slot: SlotView) -> bool {
    exists|r: ([u64; 6], [u64; 6])| call_ensures(root_pub, (&seed,), r) && r.0@ == slot.pub_x && r.1@ == slot.pub_y
}

/// `root_pub` can give another key for `seed` than the slot records.
pub open spec fn pub_mismatch_seen<R: Fn(&[u8; 64]) -> ([u64; 6], [u64; 6])>(root_pub: R, seed: [u8; 64], slot: SlotView) -> bool {
    exists|r: ([u64; 6], [u64; 6])| call_ensures(root_pub, (&seed,), r) && !(r.0@ == slot.pub_x && r.1@ == slot.pub_y)
}

/// `seed` is the only 64-byte plaintext sealed in `s` under `key`.
pub open spec fn only_opening(key: Seq<u8>, s: SlotView, seed: Seq<u8>) -> bool {
    forall|q: Seq<u8>| opens_to(key, s, q) ==> q == seed
}

/// No 64-byte seed is sealed in `s` under `key`.
pub open spec fn no_opening(key: Seq<u8>, s: SlotView) -> bool {
    forall|q: Seq<u8>| !opens_to(key, s, q)
}

/// `s` opens under `key` to a seed for which `root_pub` can give another
/// root key than the one recorded.
pub open spec fn mismatch_opening<R: Fn(&[u8; 64]) -> ([u64; 6], [u64; 6])>(key: Seq<u8>, root_pub: R, s: SlotView) -> bool {
    exists|q: [u8; 64]| #[trigger] pub_mismatch_seen(root_pub, q, s) && opens_to(key, s, q@) && only_opening(key, s, q@)
}

/// Slot `i` holds a record that opens under `key` to `seed`, whose root key
/// matches the record.
pub open spec fn slot_unlocked<R: Fn(&[u8; 64]) -> ([u64; 6], [u64; 6])>(img: Seq<u8>, key: Seq<u8>, root_pub: R, i: int, seed: [u8; 64]) -> bool {
    match stored_slot(img, i) {
        Some(s) => opens_to(key, s, seed@) && only_opening(key, s, seed@) && pub_seen(root_pub, seed, s),
        None => false,
    }
}

/// Opening slot `i` fails with `e`: no record (`Flash`), no seed sealed
/// under the key (`WrongPin`), or a seed whose root key is not the one
/// recorded (`Flash`).
pub open spec fn slot_fails<R: Fn(&[u8; 64]) -> ([u64; 6], [u64; 6])>(img: Seq<u8>, key: Seq<u8>, root_pub: R, i: int, e: NvsError) -> bool {
    match stored_slot(img, i) {
        None => e == NvsError::Flash,
        Some(s) => {
            ||| e == NvsError::WrongPin && no_opening(key, s)
            ||| e == NvsError::Flash && mismatch_opening(key, root_pub, s)
        },
    }
}

/// The first `n` slots open under `key` to `seeds`.
pub open spec fn slots_unlocked<R: Fn(&[u8; 64]) -> ([u64; 6], [u64; 6])>(img: Seq<u8>, key: Seq<u8>, root_pub: R, seeds: Seq<[u8; 64]>, n: int) -> bool {
    &&& seeds.len() == n
    &&& forall|i: int| 0 <= i < n ==> #[trigger] slot_unlocked(img, key, root_pub, i, seeds[i])
}

/// Slot `i` opens under `key` to some seed with a matching root key.
pub open spec fn slot_opens<R: Fn(&[u8; 64]) -> ([u64; 6], [u64; 6])>(img: Seq<u8>, key: Seq<u8>, root_pub: R, i: int) -> bool {
    exists|q: [u8; 64]| #[trigger] slot_unlocked(img, key, root_pub, i, q)
}

/// Slots before `i` open and slot `i` fails with `e`.
pub open spec fn first_failure<R: Fn(&[u8; 64]) -> ([u64; 6], [u64; 6])>(img: Seq<u8>, key: Seq<u8>, root_pub: R, n: int, e: NvsError) -> bool {
    exists|i: int| 0 <= i < n && slot_fails(img, key, root_pub, i, e)
        && forall|j: int| 0 <= j < i ==> #[trigger] slot_opens(img, key, root_pub, j)
}

/// Every seed the slot holds has the recorded root key, whatever
/// `root_pub` returns for it.
pub open spec fn pub_fixed<R: Fn(&[u8; 64]) -> ([u64; 6], [u64; 6])>(root_pub: R, seed: [u8; 64], pub_x: Seq<u64>, pub_y: Seq<u64>) -> bool {
    forall|r: ([u64; 6], [u64; 6])| call_ensures(root_pub, (&seed,), r) ==> r.0@ == pub_x && r.1@ == pub_y
}

impl NvsStore {
    /// Read the header and refuse an unlock that cannot proceed.
    pub fn unlock_gate(&self, enforce_lockout: bool) -> (r: Result<(Header, u8), NvsError>)
        requires
            self.wf(),
        ensures
            match r {
                Ok((h, used)) => unlock_gate(self@, enforce_lockout) == Ok::<HeaderView, NvsError>(h@)
                    && header_valid(h) && used == attempts_used(self@, h@),
                Err(e) => unlock_gate(self@, enforce_lockout) == Err::<HeaderView, NvsError>(e),
            },
    {
        let h = match self.read_header() {
            Some(h) => h,
            None => return Err(NvsError::NotInitialized),
        };
        if !header_is_initialized(&h) {
            return Err(NvsError::NotInitialized);
        }
        let used = self.attempts_used(&h);
        if enforce_lockout && used >= MAX_PIN_ATTEMPTS {
            return Err(NvsError::LockedOut);
        }
        Ok((h, used))
    }

    /// Open the first `count` slots under `key`, checking each seed's root
    /// key against its record. Stops at the first slot that fails.
    pub fn open_seed_slots<R: Fn(&[u8; 64]) -> ([u64; 6], [u64; 6])>(&self, count: u8, key: &[u8; 32], root_pub: &R) -> (r: Result<Vec<[u8; 64]>, NvsError>)
        requires
            self.wf(),
            forall|s: &[u8; 64]| call_requires(*root_pub, (s,)),
        ensures
            match r {
                Ok(seeds) => slots_unlocked(self@, key@, *root_pub, seeds@, count as int),
                Err(e) => first_failure(self@, key@, *root_pub, count as int, e),
            },
    {
        let mut seeds: Vec<[u8; 64]> = Vec::new();
        let mut i: usize = 0;
        while i < count as usize
            invariant
                self.wf(),
                forall|s: &[u8; 64]| call_requires(*root_pub, (s,)),
                i <= count,
                slots_unlocked(self@, key@, *root_pub, seeds@, i as int),
            decreases count - i,
        {
            let rec = match self.read_slot(i) {
                Some(rec) => rec,
                None => {
                    proof { self.lemma_prefix_unlocked(key@, *root_pub, seeds@, i as int); }
                    assert(slot_fails(self@, key@, *root_pub, i as int, NvsError::Flash));
                    return Err(NvsError::Flash);
                },
            };
            let seed = match decrypt_seed(key, &rec) {
                Ok(s) => s,
                Err(_) => {
                    proof { self.lemma_prefix_unlocked(key@, *root_pub, seeds@, i as int); }
                    assert(slot_fails(self@, key@, *root_pub, i as int, NvsError::WrongPin));
                    return Err(NvsError::WrongPin);
                },
            };
            let derived = root_pub(&seed);
            if !(u64s_eq(&derived.0, &rec.pub_x) && u64s_eq(&derived.1, &rec.pub_y)) {
                proof {
                    self.lemma_prefix_unlocked(key@, *root_pub, seeds@, i as int);
                    assert(pub_mismatch_seen(*root_pub, seed, rec@));
                    assert(opens_to(key@, rec@, seed@) && pub_mismatch_seen(*root_pub, seed, rec@));
                    assert(stored_slot(self@, i as int) == Some(rec@));
                    assert(mismatch_opening(key@, *root_pub, rec@));
                    assert(slot_fails(self@, key@, *root_pub, i as int, NvsError::Flash));
                }
                return Err(NvsError::Flash);
            }
            assert(pub_seen(*root_pub, seed, rec@));
            let ghost before = seeds@;
            seeds.push(seed);
            proof {
                assert forall|j: int| 0 <= j < i + 1 implies #[trigger] slot_unlocked(self@, key@, *root_pub, j, seeds@[j]) by {
                    if j < i {
                        assert(seeds@[j] == before[j]);
                    }
                }
            }
            i += 1;
        }
        Ok(seeds)
    }

    proof fn lemma_prefix_unlocked<R: Fn(&[u8; 64]) -> ([u64; 6], [u64; 6])>(&self, key: Seq<u8>, root_pub: R, seeds: Seq<[u8; 64]>, i: int)
        requires
            slots_unlocked(self@, key, root_pub, seeds, i),
        ensures
            forall|j: int| 0 <= j < i ==> #[trigger] slot_opens(self@, key, root_pub, j),
    {
        assert forall|j: int| 0 <= j < i implies #[trigger] slot_opens(self@, key, root_pub, j) by {
            assert(slot_unlocked(self@, key, root_pub, j, seeds[j]));
        }
    }

    /// Unlock with a known pepper (for version-2 stores): the seeds of every
    /// used slot, the master key, and whether failed attempts are recorded
    /// and should be cleared.
    pub fn unlock_with_pepper_value<R: Fn(&[u8; 64]) -> ([u64; 6], [u64; 6])>(
        &self,
        pin: &str,
        pepper: Option<&[u8; 32]>,
        enforce_lockout: bool,
        root_pub: &R,
    ) -> (r: Result<(Vec<[u8; 64]>, [u8; 32], bool), NvsError>)
        requires
            self.wf(),
            forall|s: &[u8; 64]| call_requires(*root_pub, (s,)),
        ensures
            unlock_value_result(self@, pin.spec_bytes(), match pepper { Some(p) => Some(p@), None => None }, enforce_lockout, *root_pub, r),
    {
        let (h, used) = self.unlock_gate(enforce_lockout)?;
        let mut key = derive_master_key_for_header(pin, &h, pepper)?;
        match self.open_seed_slots(h.slot_count, &key, root_pub) {
            Ok(seeds) => Ok((seeds, key, used != 0)),
            Err(e) => {
                crate::crypto::zeroize_array(&mut key);
                Err(e)
            },
        }
    }

    /// Unlock, asking `source` for the pepper of a version-2 store. The
    /// lockout gate applies when `enforce_lockout` is set; a caller that
    /// already charged the attempt with `begin_pin_attempt` passes false.
    pub fn unlock_with_pepper_inner<P: NvsPepperSource, R: Fn(&[u8; 64]) -> ([u64; 6], [u64; 6])>(
        &self,
        pin: &str,
        source: &mut P,
        enforce_lockout: bool,
        root_pub: &R,
    ) -> (r: Result<(Vec<[u8; 64]>, [u8; 32], bool), NvsError>)
        requires
            self.wf(),
            forall|s: &[u8; 64]| call_requires(*root_pub, (s,)),
        ensures
            unlock_gate(self@, enforce_lockout) matches Err(e) ==> r == Err::<(Vec<[u8; 64]>, [u8; 32], bool), NvsError>(e),
            r matches Ok((seeds, key, clear)) ==> unlock_gate(self@, enforce_lockout) matches Ok(h)
                && clear == (attempts_used(self@, h) != 0)
                && (exists|p: Option<Seq<u8>>| #[trigger] master_key_spec(pin.spec_bytes(), h.version, h.salt, p) == Some(key@))
                && slots_unlocked(self@, key@, *root_pub, seeds@, h.slot_count as int),
            unlock_result(self@, pin.spec_bytes(), enforce_lockout, *old(source), *root_pub, r),
    {
        let (h, _used) = self.unlock_gate(enforce_lockout)?;
        if h.version == VERSION_V2 {
            let ghost src0 = *source;
            let mut pepper = match nvs_v2_pepper_or_software(&h.salt, source) {
                Ok(p) => p,
                Err(e) => {
                    proof {
                        let ans = choose|ans: Result<Option<[u8; 32]>, NvsError>| #[trigger] src0.pepper_answers(h.salt@, ans)
                            && pepper_choice(ans) == Err::<Seq<u8>, NvsError>(e);
                        assert(src0.pepper_answers(h@.salt, ans));
                    }
                    return Err(e);
                },
            };
            let r = self.unlock_with_pepper_value(pin, Some(&pepper), enforce_lockout, root_pub);
            crate::crypto::zeroize_array(&mut pepper);
            proof {
                if r is Ok {
                    assert(master_key_spec(pin.spec_bytes(), h.version, h.salt@, Some(pepper@)) is Some);
                }
            }
            r
        } else {
            self.unlock_with_pepper_value(pin, None, enforce_lockout, root_pub)
        }
    }

    pub fn unlock_with_pepper_readonly<P: NvsPepperSource, R: Fn(&[u8; 64]) -> ([u64; 6], [u64; 6])>(
        &self,
        pin: &str,
        source: &mut P,
        root_pub: &R,
    ) -> (r: Result<(Vec<[u8; 64]>, [u8; 32], bool), NvsError>)
        requires
            self.wf(),
            forall|s: &[u8; 64]| call_requires(*root_pub, (s,)),
        ensures
            unlock_gate(self@, true) matches Err(e) ==> r == Err::<(Vec<[u8; 64]>, [u8; 32], bool), NvsError>(e),
            r matches Ok((seeds, key, clear)) ==> unlock_gate(self@, true) matches Ok(h)
                && clear == (attempts_used(self@, h) != 0)
                && slots_unlocked(self@, key@, *root_pub, seeds@, h.slot_count as int),
            unlock_result(self@, pin.spec_bytes(), true, *old(source), *root_pub, r),
    {
        self.unlock_with_pepper_inner(pin, source, true, root_pub)
    }

    /// See `unlock_with_pepper_inner`: for callers that already charged the
    /// attempt with `begin_pin_attempt`, so the lockout gate is skipped.
    pub fn unlock_with_pepper_precharged<P: NvsPepperSource, R: Fn(&[u8; 64]) -> ([u64; 6], [u64; 6])>(
        &self,
        pin: &str,
        source: &mut P,
        root_pub: &R,
    ) -> (r: Result<(Vec<[u8; 64]>, [u8; 32], bool), NvsError>)
        requires
            self.wf(),
            forall|s: &[u8; 64]| call_requires(*root_pub, (s,)),
        ensures
            unlock_gate(self@, false) matches Err(e) ==> r == Err::<(Vec<[u8; 64]>, [u8; 32], bool), NvsError>(e),
            r matches Ok((seeds, key, clear)) ==> unlock_gate(self@, false) matches Ok(h)
                && clear == (attempts_used(self@, h) != 0)
                && slots_unlocked(self@, key@, *root_pub, seeds@, h.slot_count as int),
            unlock_result(self@, pin.spec_bytes(), false, *old(source), *root_pub, r),
    {
        self.unlock_with_pepper_inner(pin, source, false, root_pub)
    }
}

fn u64s_eq(a: &[u64; 6], b: &[u64; 6]) -> (r: bool)
    ensures
        r == (a@ == b@),
{
    let mut i: usize = 0;
    while i < 6
        invariant
            i <= 6,
            forall|j: int| 0 <= j < i ==> a@[j] == b@[j],
        decreases 6 - i,
    {
        if a[i] != b[i] {
            return false;
        }
        i += 1;
    }
    assert(a@ =~= b@);
    true
}


/// A prepared first-time setup: the header and the encrypted first slot,
/// ready to be written.
pub struct PreparedSeedInit {
    pub header: Header,
    pub slot_record: SlotRecord,
}

/// Progress points of the first-time setup, reported to the display.
#[derive(Clone, Copy, Debug, PartialEq, Eq, Structural)]
pub enum NvsInitStage {
    ReadHeader,
    WipePartial,
    RandomSalt,
    Pepper,
    Kdf,
    KdfDone,
    EncryptSeed,
    WriteHeaderPending,
    WriteSlot,
    WriteHeaderFinal,
    WriteLabels,
    WriteFlash,
    Complete,
}

/// The header written by a first-time setup.
pub open spec fn init_header(salt: Seq<u8>) -> HeaderView {
    HeaderView { version: VERSION, flags: FLAG_INITIALIZED, attempts: 0, slot_count: 1, salt }
}

/// The seed-core sector after a first-time setup: the seed area erased, the
/// header and the first slot written, and an empty label table.
pub open spec fn init_core(core: Seq<u8>, h: HeaderView, rec: SlotView) -> Seq<u8> {
    let c1 = splice(core, 0, ff_seq(SEED_TOTAL_SIZE as nat));
    let c2 = splice(c1, 0, super::records::header_view_bytes(h));
    let c3 = splice(c2, HEADER_SIZE as int, super::records::slot_view_bytes(rec));
    splice(c3, rel(LABELS_ADDR as int), label_table(Seq::<crate::types::SeedSlotLabel>::empty()))
}

/// The store is initialized already.
pub open spec fn already_initialized(img: Seq<u8>) -> bool {
    stored_header(img) matches Some(h) && header_view_initialized(h)
}

impl NvsStore {
    /// Prepare a first-time setup from given entropy and pepper: refuse when
    /// the store is initialized, else build the header with `salt`, derive
    /// the version-2 key, and seal the seed under `nonce`.
    pub fn prepare_initialize_with(
        &self,
        pin: &str,
        seed64: &[u8; 64],
        pub_xy: ([u64; 6], [u64; 6]),
        salt: [u8; 32],
        pepper: &[u8; 32],
        nonce: [u8; 12],
    ) -> (r: Result<(PreparedSeedInit, [u8; 32], u8), NvsError>)
        requires
            self.wf(),
        ensures
            already_initialized(self@) ==> r == Err::<(PreparedSeedInit, [u8; 32], u8), NvsError>(NvsError::AlreadyInitialized),
            !already_initialized(self@) ==> (r matches Ok((p, key, slot)) && slot == 0
                && p.header@ == init_header(salt@)
                && key@ == master_key_v2(pin.spec_bytes(), salt@, pepper@)
                && p.slot_record@ == sealed_slot(key@, nonce@, seed64@, pub_xy.0@, pub_xy.1@)),
    {
        if let Some(h) = self.read_header() {
            if header_is_initialized(&h) {
                return Err(NvsError::AlreadyInitialized);
            }
        }
        let mut header = header_new_uninitialized(VERSION);
        header.slot_count = 1;
        header.salt = salt;
        let mut key = derive_master_key_for_header(pin, &header, Some(pepper))?;
        let slot_record = match seal_seed_record(&key, nonce, seed64, pub_xy) {
            Ok(rec) => rec,
            Err(e) => {
                crate::crypto::zeroize_array(&mut key);
                return Err(e);
            },
        };
        header_set_initialized(&mut header);
        proof {
            assert((0u8 | FLAG_INITIALIZED) == FLAG_INITIALIZED) by (bit_vector);
        }
        Ok((PreparedSeedInit { header, slot_record }, key, 0))
    }

    /// Prepare a first-time setup: a random salt, the source's pepper, and a
    /// random nonce. `progress` is told each stage as it starts.
    pub fn prepare_initialize_pin_with_pepper_and_progress<P: NvsPepperSource, F: Fn(NvsInitStage)>(
        &self,
        pin: &str,
        seed64: &[u8; 64],
        pub_xy: ([u64; 6], [u64; 6]),
        source: &mut P,
        progress: &F,
    ) -> (r: Result<(PreparedSeedInit, [u8; 32], u8), NvsError>)
        requires
            self.wf(),
            forall|st: NvsInitStage| call_requires(*progress, (st,)),
        ensures
            already_initialized(self@) ==> r == Err::<(PreparedSeedInit, [u8; 32], u8), NvsError>(NvsError::AlreadyInitialized),
            r matches Err(e) ==> init_refusal(self@, *old(source), e),
            r matches Ok((p, key, slot)) ==> slot == 0
                && p.header@ == init_header(p.header.salt@)
                && (exists|pepper: Seq<u8>| key@ == #[trigger] master_key_v2(pin.spec_bytes(), p.header.salt@, pepper))
                && (exists|ans: Result<Option<[u8; 32]>, NvsError>| #[trigger] old(source).pepper_answers(p.header.salt@, ans)
                    && (pepper_choice(ans) matches Ok(pp) && key@ == master_key_v2(pin.spec_bytes(), p.header.salt@, pp)))
                && p.slot_record@ == sealed_slot(key@, p.slot_record.nonce@, seed64@, pub_xy.0@, pub_xy.1@),
    {
        progress(NvsInitStage::ReadHeader);
        if let Some(h) = self.read_header() {
            if header_is_initialized(&h) {
                return Err(NvsError::AlreadyInitialized);
            }
            progress(NvsInitStage::WipePartial);
        }
        progress(NvsInitStage::RandomSalt);
        let salt = match random_bytes_32() {
            Ok(s) => s,
            Err(_) => return Err(NvsError::Crypto),
        };
        progress(NvsInitStage::Pepper);
        let ghost src0 = *source;
        let mut pepper = match nvs_v2_pepper_or_software(&salt, source) {
            Ok(p) => p,
            Err(e) => {
                proof {
                    let ans = choose|ans: Result<Option<[u8; 32]>, NvsError>| #[trigger] src0.pepper_answers(salt@, ans)
                        && pepper_choice(ans) == Err::<Seq<u8>, NvsError>(e);
                    assert(ans == Err::<Option<[u8; 32]>, NvsError>(e));
                    assert(src0.pepper_answers(salt@, Err::<Option<[u8; 32]>, NvsError>(e)));
                }
                return Err(e);
            },
        };
        let ghost pans = choose|ans: Result<Option<[u8; 32]>, NvsError>| #[trigger] src0.pepper_answers(salt@, ans)
            && pepper_choice(ans) == Ok::<Seq<u8>, NvsError>(pepper@);
        progress(NvsInitStage::Kdf);
        let nonce = match crate::crypto::random_bytes_12() {
            Ok(n) => n,
            Err(_) => {
                crate::crypto::zeroize_array(&mut pepper);
                return Err(NvsError::Crypto);
            },
        };
        let r = self.prepare_initialize_with(pin, seed64, pub_xy, salt, &pepper, nonce);
        crate::crypto::zeroize_array(&mut pepper);
        progress(NvsInitStage::KdfDone);
        progress(NvsInitStage::EncryptSeed);
        progress(NvsInitStage::WriteHeaderPending);
        progress(NvsInitStage::WriteSlot);
        progress(NvsInitStage::WriteHeaderFinal);
        progress(NvsInitStage::WriteLabels);
        r
    }

    /// Write the seed area of a first-time setup in one sector rewrite.
    pub fn initialize_seed_storage_transaction(&mut self, h: &Header, rec: &SlotRecord) -> (r: Result<(), NvsError>)
        requires
            old(self).wf(),
        ensures
            final(self).wf(),
            final(self).flash_view() == old(self).flash_view(),
            r is Ok,
            final(self)@ == splice(old(self)@, 0, init_core(old(self)@.subrange(0, SEED_CORE_STORAGE_SIZE as int), h@, rec@)),
            final(self).pending_view().len() >= old(self).pending_view().len(),
            final(self).pending_view().subrange(0, old(self).pending_view().len() as int) == old(self).pending_view(),
            r is Ok ==> header_erased_while(old(self)@, final(self).pending_view().subrange(
                old(self).pending_view().len() as int, final(self).pending_view().len() as int)),
    {
        let mut sector = self.read_seed_core_region();
        let blank = ff_vec(SEED_TOTAL_SIZE);
        write_at(&mut sector, 0, blank.as_slice());
        let hb = header_to_bytes(h);
        write_at(&mut sector, 0, hb.as_slice());
        let sb = slot_to_bytes(rec);
        write_at(&mut sector, HEADER_SIZE, sb.as_slice());
        let empty: Vec<crate::types::SeedSlotLabel> = Vec::new();
        proof {
            assert(empty@ =~= Seq::<crate::types::SeedSlotLabel>::empty());
        }
        let labels = match labels_table_bytes(empty.as_slice()) {
            Some(b) => b,
            None => return Err(NvsError::InvalidLabel),
        };
        proof {
            super::records::lemma_label_table_len(empty@);
        }
        write_at(&mut sector, (LABELS_ADDR - NVS_BASE_ADDR) as usize, labels.as_slice());
        self.write_seed_core_region(sector.as_slice())
    }

    pub fn commit_prepared_initialize_pin(&mut self, prepared: PreparedSeedInit) -> (r: Result<(), NvsError>)
        requires
            old(self).wf(),
        ensures
            final(self).wf(),
            final(self).flash_view() == old(self).flash_view(),
            r is Ok,
            final(self)@ == splice(old(self)@, 0, init_core(old(self)@.subrange(0, SEED_CORE_STORAGE_SIZE as int),
                prepared.header@, prepared.slot_record@)),
            final(self).pending_view().len() >= old(self).pending_view().len(),
            final(self).pending_view().subrange(0, old(self).pending_view().len() as int) == old(self).pending_view(),
            r is Ok ==> header_erased_while(old(self)@, final(self).pending_view().subrange(
                old(self).pending_view().len() as int, final(self).pending_view().len() as int)),
    {
        self.initialize_seed_storage_transaction(&prepared.header, &prepared.slot_record)
    }
}

/// Marks are read from the marks sector alone.
pub proof fn lemma_marks_same(a: Seq<u8>, b: Seq<u8>, n: nat)
    requires
        n <= MAX_PIN_ATTEMPTS,
        a.len() == NVS_IMAGE_LEN,
        b.len() == NVS_IMAGE_LEN,
        forall|i: int| rel(super::layout::ATTEMPT_MARKS_ADDR as int) <= i < rel(super::layout::ATTEMPT_MARKS_END as int) ==> a[i] == b[i],
    ensures
        super::store::marks_in(a, n) == super::store::marks_in(b, n),
    decreases n,
{
    if n > 0 {
        lemma_marks_same(a, b, (n - 1) as nat);
        assert(super::store::mark_block(a, n - 1) =~= super::store::mark_block(b, n - 1));
    }
}

/// What a first-time setup leaves readable: the header it wrote, and the
/// first slot holding the sealed seed; the attempt marks are untouched.
pub proof fn lemma_initialized_image(img: Seq<u8>, h: Header, rec: SlotRecord)
    requires
        img.len() == NVS_IMAGE_LEN,
        header_valid(h),
        slot_record_valid(rec),
    ensures
        ({
            let img2 = splice(img, 0, init_core(img.subrange(0, SEED_CORE_STORAGE_SIZE as int), h@, rec@));
            &&& img2.len() == NVS_IMAGE_LEN
            &&& stored_header(img2) == Some(h@)
            &&& stored_slot(img2, 0) == Some(rec@)
            &&& mark_count(img2) == mark_count(img)
        }),
{
    let core = img.subrange(0, SEED_CORE_STORAGE_SIZE as int);
    let hb = super::records::header_view_bytes(h@);
    let sb = super::records::slot_view_bytes(rec@);
    let c1 = splice(core, 0, ff_seq(SEED_TOTAL_SIZE as nat));
    let c2 = splice(c1, 0, hb);
    let c3 = splice(c2, HEADER_SIZE as int, sb);
    super::records::lemma_label_table_len(Seq::<crate::types::SeedSlotLabel>::empty());
    super::records::lemma_header_roundtrip(h);
    super::records::lemma_slot_roundtrip(rec);
    super::records::lemma_u64s_le_len(rec.pub_x@);
    super::records::lemma_u64s_le_len(rec.pub_y@);
    let c4 = init_core(core, h@, rec@);
    assert(hb.len() == HEADER_SIZE);
    assert(sb.len() == SLOT_SIZE);
    lemma_splice_read(c1, 0, hb);
    lemma_splice_outside(c2, HEADER_SIZE as int, sb, 0, HEADER_SIZE as int);
    lemma_splice_read(c2, HEADER_SIZE as int, sb);
    lemma_splice_outside(c3, rel(LABELS_ADDR as int), label_table(Seq::<crate::types::SeedSlotLabel>::empty()), 0, HEADER_SIZE as int);
    lemma_splice_outside(c3, rel(LABELS_ADDR as int), label_table(Seq::<crate::types::SeedSlotLabel>::empty()), HEADER_SIZE as int, HEADER_SIZE + SLOT_SIZE);
    let img2 = splice(img, 0, c4);
    assert(c4.len() == SEED_CORE_STORAGE_SIZE);
    lemma_splice_outside(img, 0, c4, 0, 0);
    assert(img2.subrange(0, HEADER_SIZE as int) =~= c4.subrange(0, HEADER_SIZE as int));
    assert(c4.subrange(0, HEADER_SIZE as int) =~= hb);
    assert(img_region(img2, NVS_BASE_ADDR as int, HEADER_SIZE as int) =~= hb);
    assert(!all_ff(hb)) by {
        assert(hb[0] == 0x4Eu8);
    }
    assert(img2.subrange(HEADER_SIZE as int, HEADER_SIZE + SLOT_SIZE) =~= c4.subrange(HEADER_SIZE as int, HEADER_SIZE + SLOT_SIZE));
    assert(c4.subrange(HEADER_SIZE as int, HEADER_SIZE + SLOT_SIZE) =~= sb);
    assert(img_region(img2, slot_addr(0), SLOT_SIZE as int) =~= sb);
    assert(!all_ff(sb)) by {
        assert(sb[0] == 0x01u8);
    }
    assert forall|i: int| rel(super::layout::ATTEMPT_MARKS_ADDR as int) <= i < rel(super::layout::ATTEMPT_MARKS_END as int)
        implies img2[i] == img[i] by {
    }
    lemma_marks_same(img2, img, MAX_PIN_ATTEMPTS as nat);
}

/// Unlocking with the PIN and pepper of a first-time setup gives back the
/// seed that was set up, and nothing else: the lockout gate passes (when
/// fewer than the maximum failed attempts are marked), the derived key is
/// the one the seed was sealed under, every successful opening returns
/// exactly that seed, and no opening fails as long as the root-key
/// derivation gives the key recorded with the seed.
pub proof fn lemma_unlock_after_initialize<R: Fn(&[u8; 64]) -> ([u64; 6], [u64; 6])>(
    img: Seq<u8>,
    pin: Seq<u8>,
    pepper: Seq<u8>,
    seed: [u8; 64],
    h: Header,
    rec: SlotRecord,
    root_pub: R,
    enforce_lockout: bool,
)
    requires
        img.len() == NVS_IMAGE_LEN,
        h@ == init_header(h.salt@),
        header_valid(h),
        rec@ == sealed_slot(master_key_v2(pin, h.salt@, pepper), rec.nonce@, seed@, rec.pub_x@, rec.pub_y@),
        slot_record_valid(rec),
        mark_count(img) < MAX_PIN_ATTEMPTS,
    ensures
        ({
            let img2 = splice(img, 0, init_core(img.subrange(0, SEED_CORE_STORAGE_SIZE as int), h@, rec@));
            let key = master_key_v2(pin, h.salt@, pepper);
            &&& unlock_gate(img2, enforce_lockout) == Ok::<HeaderView, NvsError>(h@)
            &&& master_key_spec(pin, h.version, h.salt@, Some(pepper)) == Some(key)
            &&& forall|seeds: Seq<[u8; 64]>| slots_unlocked(img2, key, root_pub, seeds, 1)
                ==> seeds.len() == 1 && seeds[0]@ == seed@
            &&& pub_fixed(root_pub, seed, rec.pub_x@, rec.pub_y@)
                ==> forall|e: NvsError| !first_failure(img2, key, root_pub, 1, e)
        }),
{
    lemma_initialized_image(img, h, rec);
    let img2 = splice(img, 0, init_core(img.subrange(0, SEED_CORE_STORAGE_SIZE as int), h@, rec@));
    let key = master_key_v2(pin, h.salt@, pepper);
    assert((1u8 & 1u8) != 0u8) by (bit_vector);
    assert(header_view_initialized(h@));
    assert(attempts_used(img2, h@) == mark_count(img));
    assert(unlock_gate(img2, enforce_lockout) == Ok::<HeaderView, NvsError>(h@));
    assert(opens_to(key, rec@, seed@));
    assert forall|seeds: Seq<[u8; 64]>| slots_unlocked(img2, key, root_pub, seeds, 1)
        implies seeds.len() == 1 && seeds[0]@ == seed@ by {
        assert(slot_unlocked(img2, key, root_pub, 0, seeds[0]));
    }
    if pub_fixed(root_pub, seed, rec.pub_x@, rec.pub_y@) {
        assert forall|e: NvsError| !first_failure(img2, key, root_pub, 1, e) by {
            if first_failure(img2, key, root_pub, 1, e) {
                let i = choose|i: int| 0 <= i < 1 && slot_fails(img2, key, root_pub, i, e)
                    && forall|j: int| 0 <= j < i ==> #[trigger] slot_opens(img2, key, root_pub, j);
                assert(i == 0);
                if e == NvsError::WrongPin && no_opening(key, rec@) {
                    assert(!opens_to(key, rec@, seed@));
                }
                if e == NvsError::Flash && mismatch_opening(key, root_pub, rec@) {
                    let q = choose|q: [u8; 64]| #[trigger] pub_mismatch_seen(root_pub, q, rec@) && opens_to(key, rec@, q@) && only_opening(key, rec@, q@);
                    assert(q@ == seed@);
                    assert(q == seed);
                }
            }
        }
    }
}


/// A header written over the image reads back, and the attempt marks stay.
pub proof fn lemma_header_written(img: Seq<u8>, h: Header)
    requires
        img.len() == NVS_IMAGE_LEN,
        header_valid(h),
    ensures
        stored_header(splice(img, 0, header_bytes(h))) == Some(h@),
        mark_count(splice(img, 0, header_bytes(h))) == mark_count(img),
        splice(img, 0, header_bytes(h)).len() == NVS_IMAGE_LEN,
{
    super::records::lemma_header_roundtrip(h);
    let hb = header_bytes(h);
    let img2 = splice(img, 0, hb);
    lemma_splice_read(img, 0, hb);
    assert(img_region(img2, NVS_BASE_ADDR as int, HEADER_SIZE as int) =~= hb);
    assert(hb[0] == 0x4Eu8);
    assert forall|i: int| rel(super::layout::ATTEMPT_MARKS_ADDR as int) <= i < rel(super::layout::ATTEMPT_MARKS_END as int)
        implies img2[i] == img[i] by {
    }
    lemma_marks_same(img2, img, MAX_PIN_ATTEMPTS as nat);
}

/// Changing only the marks sector keeps the header and the slots.
pub proof fn lemma_marks_only_change(a: Seq<u8>, b: Seq<u8>)
    requires
        a.len() == NVS_IMAGE_LEN,
        b.len() == NVS_IMAGE_LEN,
        forall|i: int| 0 <= i < NVS_IMAGE_LEN && !(rel(super::layout::ATTEMPT_MARKS_ADDR as int) <= i < rel(super::layout::ATTEMPT_MARKS_END as int))
            ==> #[trigger] b[i] == a[i],
    ensures
        stored_header(b) == stored_header(a),
        forall|i: int| #[trigger] stored_slot(b, i) == stored_slot(a, i),
{
    assert(img_region(b, NVS_BASE_ADDR as int, HEADER_SIZE as int) =~= img_region(a, NVS_BASE_ADDR as int, HEADER_SIZE as int));
    assert forall|i: int| #[trigger] stored_slot(b, i) == stored_slot(a, i) by {
        if 0 <= i < MAX_SEED_SLOTS {
            assert(slot_addr(i) + SLOT_SIZE <= NVS_BASE_ADDR + SEED_TOTAL_SIZE) by (nonlinear_arith)
                requires 0 <= i < 8, SLOT_SIZE == 192;
            assert(img_region(b, slot_addr(i), SLOT_SIZE as int) =~= img_region(a, slot_addr(i), SLOT_SIZE as int));
        }
    }
}

/// Erasing the marks sector keeps the header and the slots.
pub proof fn lemma_marks_erase_keeps(a: Seq<u8>, b: Seq<u8>)
    requires
        a.len() == NVS_IMAGE_LEN,
        b == splice(a, rel(super::layout::ATTEMPT_MARKS_ADDR as int), ff_seq(super::layout::NVS_SECTOR_SIZE as nat)),
    ensures
        stored_header(b) == stored_header(a),
        forall|i: int| #[trigger] stored_slot(b, i) == stored_slot(a, i),
{
    let m = rel(super::layout::ATTEMPT_MARKS_ADDR as int);
    assert forall|i: int| 0 <= i < NVS_IMAGE_LEN && !(m <= i < rel(super::layout::ATTEMPT_MARKS_END as int))
        implies #[trigger] b[i] == a[i] by {
    }
    lemma_marks_only_change(a, b);
}

/// Failed attempts charged by the store.
pub open spec fn charged_attempts(img: Seq<u8>) -> nat {
    match stored_header(img) {
        Some(h) => attempts_used(img, h),
        None => 0,
    }
}

impl NvsStore {
    /// Charge one failed attempt before a PIN is checked, so cutting power
    /// after a failed check cannot rewind the counter; a successful unlock
    /// clears it. Refused when no attempts remain.
    pub fn begin_pin_attempt(&mut self) -> (r: Result<(), NvsError>)
        requires
            old(self).wf(),
        ensures
            final(self).wf(),
            final(self).flash_view() == old(self).flash_view(),
            match unlock_gate(old(self)@, true) {
                Err(e) => r == Err::<(), NvsError>(e) && final(self)@ == old(self)@,
                Ok(h) => r is Ok && stored_header(final(self)@) == Some(h)
                    && attempts_used(final(self)@, h) == attempts_used(old(self)@, h) + 1
                    && only_marks_differ(old(self)@, final(self)@),
            },
    {
        let (h, used) = self.unlock_gate(true)?;
        let ghost before = self@;
        proof { self.lemma_wf(); }
        let r = self.write_attempt_marks_up_to(used + 1);
        proof {
            self.lemma_wf();
            lemma_marks_only_change(before, self@);
        }
        r
    }

    /// Record a failed PIN check; returns the attempts left (none when the
    /// store is already locked out, in which case nothing is written).
    pub fn record_wrong_pin_attempt(&mut self) -> (r: Result<u8, NvsError>)
        requires
            old(self).wf(),
        ensures
            final(self).wf(),
            final(self).flash_view() == old(self).flash_view(),
            r == wrong_pin_remaining(old(self)@),
            wrong_pin_recorded(old(self)@, final(self)@),
    {
        let (h, used) = self.unlock_gate(false)?;
        if used >= MAX_PIN_ATTEMPTS {
            return Ok(0);
        }
        let ghost before = self@;
        proof { self.lemma_wf(); }
        let _ = self.write_attempt_marks_up_to(used + 1);
        proof {
            self.lemma_wf();
            lemma_marks_only_change(before, self@);
        }
        Ok(MAX_PIN_ATTEMPTS - (used + 1))
    }

    /// Persist one more failed attempt in the header counter (capped).
    pub fn increment_attempts(&mut self, h: &mut Header) -> (r: Result<(), NvsError>)
        requires
            old(self).wf(),
            header_valid(*old(h)),
        ensures
            final(self).wf(),
            final(self).flash_view() == old(self).flash_view(),
            r is Ok,
            header_valid(*final(h)),
            old(h).attempts < MAX_PIN_ATTEMPTS ==> *final(h) == (Header { attempts: (old(h).attempts + 1) as u8, ..*old(h) })
                && final(self)@ == splice(old(self)@, 0, header_bytes(*final(h))),
            old(h).attempts >= MAX_PIN_ATTEMPTS ==> *final(h) == *old(h) && final(self)@ == old(self)@,
    {
        if h.attempts < MAX_PIN_ATTEMPTS {
            h.attempts = h.attempts + 1;
            let _ = self.write_header(h);
        }
        Ok(())
    }

    /// Reset the header counter when it is set.
    pub fn clear_attempts_if_needed(&mut self, h: &mut Header) -> (r: Result<(), NvsError>)
        requires
            old(self).wf(),
            header_valid(*old(h)),
        ensures
            final(self).wf(),
            final(self).flash_view() == old(self).flash_view(),
            r is Ok,
            header_valid(*final(h)),
            *final(h) == (Header { attempts: 0, ..*old(h) }),
            old(h).attempts == 0 ==> final(self)@ == old(self)@,
            old(h).attempts != 0 ==> final(self)@ == splice(old(self)@, 0, header_bytes(*final(h))),
    {
        if h.attempts == 0 {
            return Ok(());
        }
        h.attempts = 0;
        self.write_header(h)
    }

    /// Erase the attempt marks; the header and the slots stay.
    pub fn clear_attempt_marks(&mut self)
        requires
            old(self).wf(),
        ensures
            final(self).wf(),
            final(self).flash_view() == old(self).flash_view(),
            mark_count(final(self)@) == 0,
            stored_header(final(self)@) == stored_header(old(self)@),
            forall|i: int| #[trigger] stored_slot(final(self)@, i) == stored_slot(old(self)@, i),
    {
        proof { self.lemma_wf(); }
        let ghost before = self@;
        let _ = self.erase_attempt_marks();
        proof {
            lemma_marks_erase_keeps(before, self@);
        }
    }

    /// Erase the attempt marks and reset the header counter.
    #[verifier::rlimit(30)]
    pub fn clear_pin_attempts(&mut self) -> (r: Result<(), NvsError>)
        requires
            old(self).wf(),
        ensures
            final(self).wf(),
            final(self).flash_view() == old(self).flash_view(),
            mark_count(final(self)@) == 0,
            match stored_header(old(self)@) {
                None => r == Err::<(), NvsError>(NvsError::NotInitialized),
                Some(h) => r is Ok && stored_header(final(self)@) == Some(HeaderView { attempts: 0, ..h })
                    && attempts_used(final(self)@, HeaderView { attempts: 0, ..h }) == 0,
            },
    {
        self.clear_attempt_marks();
        let mut h = match self.read_header() {
            Some(h) => h,
            None => return Err(NvsError::NotInitialized),
        };
        proof { self.lemma_wf(); }
        let ghost mid = self@;
        let ghost h0 = h;
        let r = self.clear_attempts_if_needed(&mut h);
        proof {
            self.lemma_wf();
            if h0.attempts != 0 {
                lemma_header_written(mid, h);
            } else {
                assert(h@ == h0@);
            }
            assert(stored_header(self@) == Some(h@));
            assert(mark_count(self@) == 0);
        }
        r
    }

    /// Every slot the header counts holds a record.
    pub fn seed_slots_present(&self, h: &Header) -> (r: bool)
        requires
            self.wf(),
        ensures
            r == super::store::slots_present(self@, h@),
    {
        if !header_is_initialized(h) || h.slot_count == 0 {
            return false;
        }
        let mut i: usize = 0;
        while i < h.slot_count as usize
            invariant
                self.wf(),
                i <= h.slot_count,
                header_view_initialized(h@),
                h.slot_count != 0,
                forall|j: int| 0 <= j < i ==> stored_slot(self@, j) is Some,
            decreases h.slot_count - i,
        {
            if self.read_slot(i).is_none() {
                return false;
            }
            i += 1;
        }
        true
    }

    pub fn is_initialized(&self) -> (r: bool)
        requires
            self.wf(),
        ensures
            r == super::store::store_initialized(self@),
    {
        match self.read_header() {
            Some(h) => header_is_initialized(&h) && self.seed_slots_present(&h),
            None => false,
        }
    }

    /// Attempts left before lockout; the full allowance when the store is
    /// not initialized.
    pub fn get_attempts_remaining(&self) -> (r: u8)
        requires
            self.wf(),
        ensures
            r == match stored_header(self@) {
                Some(h) => if header_view_initialized(h) { (MAX_PIN_ATTEMPTS - attempts_used(self@, h)) as u8 } else { MAX_PIN_ATTEMPTS },
                None => MAX_PIN_ATTEMPTS,
            },
    {
        match self.read_header() {
            Some(h) => if header_is_initialized(&h) {
                let used = self.attempts_used(&h);
                MAX_PIN_ATTEMPTS - used
            } else {
                MAX_PIN_ATTEMPTS
            },
            None => MAX_PIN_ATTEMPTS,
        }
    }

    pub fn storage_status(&self) -> (st: super::store::NvsStorageStatus)
        requires
            self.wf(),
        ensures
            match stored_header(self@) {
                Some(h) => st.initialized == super::store::slots_present(self@, h) && st.schema_version == h.version
                    && st.slot_count == (if st.initialized { h.slot_count } else { 0 }),
                None => !st.initialized && st.schema_version == 0 && st.slot_count == 0,
            },
    {
        match self.read_header() {
            Some(h) => {
                let initialized = header_is_initialized(&h) && self.seed_slots_present(&h);
                super::store::NvsStorageStatus {
                    initialized,
                    schema_version: h.version,
                    slot_count: if initialized { h.slot_count } else { 0 },
                }
            },
            None => super::store::NvsStorageStatus { initialized: false, schema_version: 0, slot_count: 0 },
        }
    }

    pub fn get_salt(&self) -> (r: Result<[u8; 32], NvsError>)
        requires
            self.wf(),
        ensures
            match stored_header(self@) {
                Some(h) => r matches Ok(s) && s@ == h.salt,
                None => r == Err::<[u8; 32], NvsError>(NvsError::NotInitialized),
            },
    {
        match self.read_header() {
            Some(h) => Ok(h.salt),
            None => Err(NvsError::NotInitialized),
        }
    }
}

/// A charged attempt followed by clearing leaves no attempt charged.
pub proof fn lemma_attempt_then_clear(img: Seq<u8>, h: HeaderView)
    ensures
        attempts_used(img, HeaderView { attempts: 0, ..h }) == mark_count(img),
{
}


/// What checking a key against the first slot gives.
pub open spec fn key_check<R: Fn(&[u8; 64]) -> ([u64; 6], [u64; 6])>(img: Seq<u8>, h: HeaderView, key: Seq<u8>, root_pub: R, r: Result<(), NvsError>) -> bool {
    if h.slot_count == 0 {
        r == Err::<(), NvsError>(NvsError::Flash)
    } else {
        match r {
            Ok(()) => slot_opens(img, key, root_pub, 0),
            Err(e) => slot_fails(img, key, root_pub, 0, e),
        }
    }
}

/// The sector image after adding a record in slot `index` and the header.
pub open spec fn add_core(core: Seq<u8>, h: HeaderView, index: int, rec: SlotView) -> Seq<u8> {
    splice(splice(core, HEADER_SIZE + index * SLOT_SIZE, super::records::slot_view_bytes(rec)), 0,
        super::records::header_view_bytes(h))
}

impl NvsStore {
    /// Check a master key by opening the first slot.
    pub fn verify_master_key<R: Fn(&[u8; 64]) -> ([u64; 6], [u64; 6])>(&self, key: &[u8; 32], h: &Header, root_pub: &R) -> (r: Result<(), NvsError>)
        requires
            self.wf(),
            forall|s: &[u8; 64]| call_requires(*root_pub, (s,)),
        ensures
            key_check(self@, h@, key@, *root_pub, r),
    {
        if h.slot_count == 0 {
            return Err(NvsError::Flash);
        }
        match self.open_seed_slots(1, key, root_pub) {
            Ok(seeds) => {
                proof {
                    assert(slot_unlocked(self@, key@, *root_pub, 0, seeds@[0]));
                }
                Ok(())
            },
            Err(e) => {
                proof {
                    let i = choose|i: int| 0 <= i < 1 && slot_fails(self@, key@, *root_pub, i, e)
                        && forall|j: int| 0 <= j < i ==> #[trigger] slot_opens(self@, key@, *root_pub, j);
                    assert(i == 0);
                }
                Err(e)
            },
        }
    }

    /// Write a record into slot `index` and the header, in one sector rewrite.
    pub fn add_seed_record_transaction(&mut self, h: &Header, index: usize, rec: &SlotRecord) -> (r: Result<(), NvsError>)
        requires
            old(self).wf(),
        ensures
            final(self).wf(),
            final(self).flash_view() == old(self).flash_view(),
            index >= MAX_SEED_SLOTS ==> r == Err::<(), NvsError>(NvsError::Full) && final(self)@ == old(self)@,
            index < MAX_SEED_SLOTS ==> r is Ok && final(self)@ == splice(old(self)@, 0,
                add_core(old(self)@.subrange(0, SEED_CORE_STORAGE_SIZE as int), h@, index as int, rec@)),
            final(self).pending_view().len() >= old(self).pending_view().len(),
            final(self).pending_view().subrange(0, old(self).pending_view().len() as int) == old(self).pending_view(),
            r is Ok ==> header_erased_while(old(self)@, final(self).pending_view().subrange(
                old(self).pending_view().len() as int, final(self).pending_view().len() as int)),
    {
        if index >= MAX_SEED_SLOTS {
            return Err(NvsError::Full);
        }
        let mut sector = self.read_seed_core_region();
        let off = match super::store::slot_sector_offset(index) {
            Ok(o) => o,
            Err(e) => return Err(e),
        };
        let sb = slot_to_bytes(rec);
        assert(off + SLOT_SIZE <= SEED_CORE_STORAGE_SIZE) by (nonlinear_arith)
            requires off == HEADER_SIZE + index * SLOT_SIZE, index < 8, SLOT_SIZE == 192, HEADER_SIZE == 64;
        write_at(&mut sector, off, sb.as_slice());
        let hb = header_to_bytes(h);
        write_at(&mut sector, 0, hb.as_slice());
        self.write_seed_core_region(sector.as_slice())
    }

    /// Add a seed under the master key: the key must open the first slot,
    /// and a wrong key is charged as a failed attempt.
    pub fn add_seed_with_key<R: Fn(&[u8; 64]) -> ([u64; 6], [u64; 6])>(
        &mut self,
        master_key: &[u8; 32],
        seed64: &[u8; 64],
        pub_xy: ([u64; 6], [u64; 6]),
        root_pub: &R,
    ) -> (r: Result<u8, NvsError>)
        requires
            old(self).wf(),
            forall|s: &[u8; 64]| call_requires(*root_pub, (s,)),
        ensures
            final(self).wf(),
            final(self).flash_view() == old(self).flash_view(),
            seed_added(old(self)@, final(self)@, master_key@, seed64@, pub_xy, *root_pub, r),
    {
        let (mut h, _used) = self.unlock_gate(true)?;
        if h.slot_count as usize >= MAX_SEED_SLOTS {
            return Err(NvsError::Full);
        }
        let index = h.slot_count as usize;
        let ghost img0 = self@;
        let vr = self.verify_master_key(master_key, &h, root_pub);
        proof { assert(key_check(img0, h@, master_key@, *root_pub, vr)); }
        match vr {
            Ok(()) => {},
            Err(NvsError::WrongPin) => {
                let _ = self.record_wrong_pin_attempt();
                return Err(NvsError::WrongPin);
            },
            Err(e) => return Err(e),
        }
        let rec = encrypt_seed_record(master_key, seed64, pub_xy)?;
        h.slot_count = h.slot_count + 1;
        h.attempts = 0;
        proof { self.lemma_wf(); }
        let ghost before = self@;
        let r = self.add_seed_record_transaction(&h, index, &rec);
        proof {
            lemma_added_image(before, h, index as int, rec);
        }
        match r {
            Ok(()) => Ok(index as u8),
            Err(e) => Err(e),
        }
    }
}

/// After adding a record and the header, both read back.
pub proof fn lemma_added_image(img: Seq<u8>, h: Header, index: int, rec: SlotRecord)
    requires
        img.len() == NVS_IMAGE_LEN,
        header_valid(h),
        0 <= index < MAX_SEED_SLOTS,
    ensures
        ({
            let img2 = splice(img, 0, add_core(img.subrange(0, SEED_CORE_STORAGE_SIZE as int), h@, index, rec@));
            &&& stored_header(img2) == Some(h@)
            &&& slot_record_valid(rec) ==> stored_slot(img2, index) == Some(rec@)
            &&& mark_count(img2) == mark_count(img)
        }),
{
    let core = img.subrange(0, SEED_CORE_STORAGE_SIZE as int);
    let hb = super::records::header_view_bytes(h@);
    let sb = super::records::slot_view_bytes(rec@);
    super::records::lemma_header_roundtrip(h);
    if slot_record_valid(rec) {
        super::records::lemma_slot_roundtrip(rec);
    }
    super::records::lemma_u64s_le_len(rec.pub_x@);
    super::records::lemma_u64s_le_len(rec.pub_y@);
    let off = HEADER_SIZE + index * SLOT_SIZE;
    assert(off + SLOT_SIZE <= SEED_TOTAL_SIZE) by (nonlinear_arith)
        requires off == HEADER_SIZE + index * SLOT_SIZE, 0 <= index < 8, SLOT_SIZE == 192, HEADER_SIZE == 64;
    let c1 = splice(core, off, sb);
    let c2 = splice(c1, 0, hb);
    lemma_splice_read(core, off, sb);
    lemma_splice_read(c1, 0, hb);
    lemma_splice_outside(c1, 0, hb, off, off + SLOT_SIZE);
    let img2 = splice(img, 0, c2);
    assert(img2.subrange(0, HEADER_SIZE as int) =~= c2.subrange(0, HEADER_SIZE as int));
    assert(img_region(img2, NVS_BASE_ADDR as int, HEADER_SIZE as int) =~= hb);
    assert(hb[0] == 0x4Eu8);
    assert(img2.subrange(off, off + SLOT_SIZE) =~= c2.subrange(off, off + SLOT_SIZE));
    assert(img_region(img2, slot_addr(index), SLOT_SIZE as int) =~= sb);
    assert(sb[0] == 0x01u8);
    assert forall|i: int| rel(super::layout::ATTEMPT_MARKS_ADDR as int) <= i < rel(super::layout::ATTEMPT_MARKS_END as int)
        implies img2[i] == img[i] by {
    }
    lemma_marks_same(img2, img, MAX_PIN_ATTEMPTS as nat);
}


/// The bytes of slot `j` in a seed-core sector.
pub open spec fn slot_at(core: Seq<u8>, j: int) -> Seq<u8> {
    core.subrange(HEADER_SIZE + j * SLOT_SIZE, HEADER_SIZE + (j + 1) * SLOT_SIZE)
}

/// Slot regions of distinct slots do not overlap.
proof fn lemma_slot_regions_apart(j: int, k: int)
    requires
        0 <= j < MAX_SEED_SLOTS,
        0 <= k < MAX_SEED_SLOTS,
        j != k,
    ensures
        HEADER_SIZE + (j + 1) * SLOT_SIZE <= HEADER_SIZE + k * SLOT_SIZE
            || HEADER_SIZE + (k + 1) * SLOT_SIZE <= HEADER_SIZE + j * SLOT_SIZE,
        HEADER_SIZE + (j + 1) * SLOT_SIZE <= SEED_TOTAL_SIZE,
{
    assert(HEADER_SIZE + (j + 1) * SLOT_SIZE <= HEADER_SIZE + k * SLOT_SIZE
        || HEADER_SIZE + (k + 1) * SLOT_SIZE <= HEADER_SIZE + j * SLOT_SIZE) by (nonlinear_arith)
        requires j != k, SLOT_SIZE == 192;
    assert(HEADER_SIZE + (j + 1) * SLOT_SIZE <= SEED_TOTAL_SIZE) by (nonlinear_arith)
        requires 0 <= j < 8, SLOT_SIZE == 192, HEADER_SIZE == 64, SEED_TOTAL_SIZE == 1600;
}

/// The slots of a sector after deleting slot `d` of `last + 1` used ones:
/// earlier slots stay, later ones move down by one, the old last is erased.
pub open spec fn slots_after_delete(core: Seq<u8>, sector: Seq<u8>, d: int, last: int) -> bool {
    &&& forall|j: int| 0 <= j < d ==> #[trigger] slot_at(sector, j) == slot_at(core, j)
    &&& forall|j: int| d <= j < last ==> #[trigger] slot_at(sector, j) == slot_at(core, j + 1)
    &&& slot_at(sector, last) == ff_seq(SLOT_SIZE as nat)
    &&& forall|j: int| last < j < MAX_SEED_SLOTS ==> #[trigger] slot_at(sector, j) == slot_at(core, j)
}

/// Shift the labels of a deletion: the deleted slot's label goes, later
/// labels move down one slot, and labels past the old last slot are dropped.
pub open spec fn shifted_labels(labels: Seq<(u8, Seq<u8>)>, deleted: int, old_last: int) -> Seq<(u8, Seq<u8>)>
    decreases labels.len(),
{
    if labels.len() == 0 {
        Seq::empty()
    } else {
        let prev = shifted_labels(labels.drop_last(), deleted, old_last);
        let (slot, text) = labels.last();
        if slot == deleted || slot > old_last {
            prev
        } else {
            prev.push((if slot > deleted { (slot - 1) as u8 } else { slot }, text))
        }
    }
}

/// Every label in a list read back is printable and short enough.
pub open spec fn labels_all_valid(labels: Seq<(u8, Seq<u8>)>) -> bool {
    forall|k: int| 0 <= k < labels.len() ==> super::records::spec_seed_label_valid(#[trigger] labels[k].1)
}

/// The labels read from a store are all valid.
proof fn lemma_stored_labels_valid(img: Seq<u8>)
    ensures
        labels_all_valid(super::prefs::stored_labels(img)),
{
    if let Some(h) = stored_header(img) {
        if header_view_initialized(h) {
            let region = img_region(img, LABELS_ADDR as int, LABELS_SIZE as int);
            super::records::lemma_labels_in_table_entries(region, h.slot_count as nat);
        }
    }
}

/// Shifting labels after a deletion keeps only labels that were there.
proof fn lemma_shifted_valid(labels: Seq<(u8, Seq<u8>)>, deleted: int, old_last: int)
    requires
        labels_all_valid(labels),
    ensures
        labels_all_valid(shifted_labels(labels, deleted, old_last)),
    decreases labels.len(),
{
    if labels.len() > 0 {
        assert(labels_all_valid(labels.drop_last())) by {
            assert forall|k: int| 0 <= k < labels.drop_last().len() implies super::records::spec_seed_label_valid(#[trigger] labels.drop_last()[k].1) by {
                assert(labels.drop_last()[k] == labels[k]);
            }
        }
        lemma_shifted_valid(labels.drop_last(), deleted, old_last);
        assert(super::records::spec_seed_label_valid(labels[labels.len() - 1].1));
    }
}

pub fn shift_labels(labels: &[crate::types::SeedSlotLabel], deleted: usize, old_last: usize) -> (r: Vec<crate::types::SeedSlotLabel>)
    requires
        old_last < MAX_SEED_SLOTS,
    ensures
        r@.map_values(|l: crate::types::SeedSlotLabel| super::records::label_view(l))
            == shifted_labels(labels@.map_values(|l: crate::types::SeedSlotLabel| super::records::label_view(l)), deleted as int, old_last as int),
{
    let mut out: Vec<crate::types::SeedSlotLabel> = Vec::new();
    let mut i: usize = 0;
    while i < labels.len()
        invariant
            i <= labels@.len(),
            old_last < MAX_SEED_SLOTS,
            out@.map_values(|l: crate::types::SeedSlotLabel| super::records::label_view(l))
                == shifted_labels(labels@.subrange(0, i as int).map_values(|l: crate::types::SeedSlotLabel| super::records::label_view(l)), deleted as int, old_last as int),
        decreases labels@.len() - i,
    {
        let ghost pre = labels@.subrange(0, i as int).map_values(|l: crate::types::SeedSlotLabel| super::records::label_view(l));
        let ghost post = labels@.subrange(0, i + 1).map_values(|l: crate::types::SeedSlotLabel| super::records::label_view(l));
        assert(post.drop_last() =~= pre);
        let slot = labels[i].slot as usize;
        if slot != deleted && slot <= old_last {
            let new_slot = if slot > deleted { slot - 1 } else { slot };
            let text = labels[i].label.clone();
            proof { assert(text@ == labels@[i as int].label@); }
            out.push(crate::types::SeedSlotLabel { slot: new_slot as u8, label: text });
            proof {
                assert(out@.map_values(|l: crate::types::SeedSlotLabel| super::records::label_view(l))
                    =~= shifted_labels(post, deleted as int, old_last as int));
            }
        } else {
            proof {
                assert(out@.map_values(|l: crate::types::SeedSlotLabel| super::records::label_view(l))
                    =~= shifted_labels(post, deleted as int, old_last as int));
            }
        }
        i += 1;
    }
    assert(labels@.subrange(0, labels@.len() as int) =~= labels@);
    out
}

impl NvsStore {
    /// Remove slot `deleted` of `old_last + 1` used slots: later slots move
    /// down, the old last slot is erased, the header and the shifted labels
    /// are written; all in one sector rewrite.
    pub fn delete_seed_records_transaction(
        &mut self,
        h: &Header,
        deleted: usize,
        old_last: usize,
        labels_before: &[crate::types::SeedSlotLabel],
    ) -> (r: Result<(), NvsError>)
        requires
            old(self).wf(),
        ensures
            final(self).wf(),
            final(self).flash_view() == old(self).flash_view(),
            (deleted > old_last || old_last >= MAX_SEED_SLOTS) ==> r == Err::<(), NvsError>(NvsError::InvalidSlot),
            deleted <= old_last < MAX_SEED_SLOTS
                && labels_all_valid(labels_before@.map_values(|l: crate::types::SeedSlotLabel| super::records::label_view(l)))
                ==> r is Ok,
            r is Err ==> final(self)@ == old(self)@,
            r matches Err(e) ==> e == NvsError::InvalidSlot || e == NvsError::InvalidLabel || e == NvsError::Flash,
            r is Ok ==> deleted <= old_last < MAX_SEED_SLOTS
                && final(self)@.subrange(0, HEADER_SIZE as int) == header_bytes(*h)
                && slots_after_delete(old(self)@.subrange(0, SEED_CORE_STORAGE_SIZE as int), final(self)@, deleted as int, old_last as int)
                && final(self)@.subrange(SEED_CORE_STORAGE_SIZE as int, NVS_IMAGE_LEN as int)
                    == old(self)@.subrange(SEED_CORE_STORAGE_SIZE as int, NVS_IMAGE_LEN as int),
            final(self).pending_view().len() >= old(self).pending_view().len(),
            final(self).pending_view().subrange(0, old(self).pending_view().len() as int) == old(self).pending_view(),
            r is Ok ==> header_erased_while(old(self)@, final(self).pending_view().subrange(
                old(self).pending_view().len() as int, final(self).pending_view().len() as int)),
    {
        if deleted > old_last || old_last >= MAX_SEED_SLOTS {
            return Err(NvsError::InvalidSlot);
        }
        let mut sector = self.read_seed_core_region();
        let ghost core = sector@;
        let mut index = deleted;
        while index < old_last
            invariant
                deleted <= index <= old_last < MAX_SEED_SLOTS,
                sector@.len() == SEED_CORE_STORAGE_SIZE,
                core.len() == SEED_CORE_STORAGE_SIZE,
                forall|j: int| 0 <= j < deleted ==> #[trigger] slot_at(sector@, j) == slot_at(core, j),
                forall|j: int| deleted <= j < index ==> #[trigger] slot_at(sector@, j) == slot_at(core, j + 1),
                forall|j: int| index < j < MAX_SEED_SLOTS ==> #[trigger] slot_at(sector@, j) == slot_at(core, j),
                sector@.subrange(0, HEADER_SIZE as int) == core.subrange(0, HEADER_SIZE as int),
                sector@.subrange(SEED_TOTAL_SIZE as int, SEED_CORE_STORAGE_SIZE as int)
                    == core.subrange(SEED_TOTAL_SIZE as int, SEED_CORE_STORAGE_SIZE as int),
            decreases old_last - index,
        {
            proof { lemma_slot_regions_apart(index as int, (index + 1) as int); }
            let src = HEADER_SIZE + (index + 1) * SLOT_SIZE;
            let dst = HEADER_SIZE + index * SLOT_SIZE;
            let moved = crate::bytes::copy_range(sector.as_slice(), src, SLOT_SIZE);
            let ghost before = sector@;
            write_at(&mut sector, dst, moved.as_slice());
            proof {
                assert(moved@ == slot_at(before, index + 1));
                lemma_splice_read(before, dst as int, moved@);
                assert(slot_at(sector@, index as int) =~= moved@);
                assert forall|j: int| 0 <= j < MAX_SEED_SLOTS && j != index implies #[trigger] slot_at(sector@, j) == slot_at(before, j) by {
                    lemma_slot_regions_apart(j, index as int);
                    lemma_splice_outside(before, dst as int, moved@, HEADER_SIZE + j * SLOT_SIZE, HEADER_SIZE + (j + 1) * SLOT_SIZE);
                }
                lemma_splice_outside(before, dst as int, moved@, 0, HEADER_SIZE as int);
                lemma_splice_outside(before, dst as int, moved@, SEED_TOTAL_SIZE as int, SEED_CORE_STORAGE_SIZE as int);
            }
            index += 1;
        }
        proof { lemma_slot_regions_apart(old_last as int, if old_last == 0 { 1 } else { 0 }); }
        let last = HEADER_SIZE + old_last * SLOT_SIZE;
        let blank = ff_vec(SLOT_SIZE);
        let ghost before = sector@;
        write_at(&mut sector, last, blank.as_slice());
        proof {
            lemma_splice_read(before, last as int, blank@);
            assert(slot_at(sector@, old_last as int) =~= blank@);
            assert forall|j: int| 0 <= j < MAX_SEED_SLOTS && j != old_last implies #[trigger] slot_at(sector@, j) == slot_at(before, j) by {
                lemma_slot_regions_apart(j, old_last as int);
                lemma_splice_outside(before, last as int, blank@, HEADER_SIZE + j * SLOT_SIZE, HEADER_SIZE + (j + 1) * SLOT_SIZE);
            }
        }
        let hb = header_to_bytes(h);
        let ghost before2 = sector@;
        write_at(&mut sector, 0, hb.as_slice());
        proof {
            lemma_splice_read(before2, 0, hb@);
            assert forall|j: int| 0 <= j < MAX_SEED_SLOTS implies #[trigger] slot_at(sector@, j) == slot_at(before2, j) by {
                lemma_slot_regions_apart(j, if j == 0 { 1 } else { 0 });
                lemma_splice_outside(before2, 0, hb@, HEADER_SIZE + j * SLOT_SIZE, HEADER_SIZE + (j + 1) * SLOT_SIZE);
            }
        }
        let shifted = shift_labels(labels_before, deleted, old_last);
        proof {
            let v = labels_before@.map_values(|l: crate::types::SeedSlotLabel| super::records::label_view(l));
            if labels_all_valid(v) {
                lemma_shifted_valid(v, deleted as int, old_last as int);
                let sv = shifted@.map_values(|l: crate::types::SeedSlotLabel| super::records::label_view(l));
                assert forall|i: int| 0 <= i < shifted@.len() && super::records::label_entry_stored(#[trigger] shifted@[i])
                    implies super::records::spec_seed_label_valid(shifted@[i].label@) by {
                    assert(sv[i] == super::records::label_view(shifted@[i]));
                    assert(sv == shifted_labels(v, deleted as int, old_last as int));
                    assert(super::records::spec_seed_label_valid(sv[i].1));
                }
            }
        }
        let labels = match labels_table_bytes(shifted.as_slice()) {
            Some(b) => b,
            None => return Err(NvsError::InvalidLabel),
        };
        proof { super::records::lemma_label_table_len(shifted@); }
        let ghost before3 = sector@;
        write_at(&mut sector, (LABELS_ADDR - NVS_BASE_ADDR) as usize, labels.as_slice());
        proof {
            lemma_splice_outside(before3, rel(LABELS_ADDR as int), labels@, 0, HEADER_SIZE as int);
            assert forall|j: int| 0 <= j < MAX_SEED_SLOTS implies #[trigger] slot_at(sector@, j) == slot_at(before3, j) by {
                lemma_slot_regions_apart(j, if j == 0 { 1 } else { 0 });
                lemma_splice_outside(before3, rel(LABELS_ADDR as int), labels@, HEADER_SIZE + j * SLOT_SIZE, HEADER_SIZE + (j + 1) * SLOT_SIZE);
            }
        }
        proof { self.lemma_wf(); }
        let ghost img = self@;
        let r = self.write_seed_core_region(sector.as_slice());
        proof {
            assert forall|j: int| 0 <= j < MAX_SEED_SLOTS implies #[trigger] slot_at(self@, j) == slot_at(sector@, j) by {
                lemma_slot_regions_apart(j, if j == 0 { 1 } else { 0 });
                assert(slot_at(self@, j) =~= slot_at(sector@, j));
            }
            assert(self@.subrange(0, HEADER_SIZE as int) =~= sector@.subrange(0, HEADER_SIZE as int));
            assert(self@.subrange(SEED_CORE_STORAGE_SIZE as int, NVS_IMAGE_LEN as int)
                =~= img.subrange(SEED_CORE_STORAGE_SIZE as int, NVS_IMAGE_LEN as int));
        }
        r
    }
}


/// A slot of the image is read from its bytes in the seed-core sector.
pub proof fn lemma_stored_slot_at(img: Seq<u8>, core: Seq<u8>, j: int)
    requires
        img.len() == NVS_IMAGE_LEN,
        core == img.subrange(0, SEED_CORE_STORAGE_SIZE as int),
        0 <= j < MAX_SEED_SLOTS,
    ensures
        img_region(img, slot_addr(j), SLOT_SIZE as int) == slot_at(img, j),
        slot_at(core, j) == slot_at(img, j),
{
    lemma_slot_regions_apart(j, if j == 0 { 1 } else { 0 });
    assert(slot_at(core, j) =~= slot_at(img, j));
}

/// The header after deleting one of its slots.
pub open spec fn header_after_delete(h: HeaderView) -> HeaderView {
    let count = (h.slot_count - 1) as u8;
    HeaderView {
        slot_count: count,
        flags: if count == 0 { h.flags & !FLAG_INITIALIZED } else { h.flags },
        attempts: 0,
        ..h
    }
}

impl NvsStore {
    /// Delete a seed under the master key. Later slots and their labels
    /// move down; deleting the only seed leaves the store uninitialized. A
    /// wrong key is charged as a failed attempt.
    pub fn delete_seed_with_key<R: Fn(&[u8; 64]) -> ([u64; 6], [u64; 6])>(
        &mut self,
        master_key: &[u8; 32],
        slot_index: usize,
        root_pub: &R,
    ) -> (r: Result<(), NvsError>)
        requires
            old(self).wf(),
            forall|s: &[u8; 64]| call_requires(*root_pub, (s,)),
        ensures
            final(self).wf(),
            final(self).flash_view() == old(self).flash_view(),
            seed_deleted(old(self)@, final(self)@, master_key@, slot_index, *root_pub, r),
    {
        let (mut h, _used) = self.unlock_gate(true)?;
        if slot_index >= h.slot_count as usize {
            return Err(NvsError::InvalidSlot);
        }
        let ghost img0 = self@;
        let vr = self.verify_master_key(master_key, &h, root_pub);
        proof { assert(key_check(img0, h@, master_key@, *root_pub, vr)); }
        match vr {
            Ok(()) => {},
            Err(NvsError::WrongPin) => {
                let _ = self.record_wrong_pin_attempt();
                return Err(NvsError::WrongPin);
            },
            Err(e) => return Err(e),
        }
        let labels_before = match self.read_seed_labels() {
            Ok(l) => l,
            Err(_) => Vec::new(),
        };
        proof { lemma_stored_labels_valid(self@); }
        let ghost h0 = h;
        let last_index = (h.slot_count - 1) as usize;
        h.slot_count = h.slot_count - 1;
        if h.slot_count == 0 {
            h.flags = h.flags & !FLAG_INITIALIZED;
        }
        h.attempts = 0;
        proof {
            let f = h0.flags;
            assert(f & !1u8 == 0u8 ==> (f & !1u8) & !1u8 == 0u8) by (bit_vector);
            assert((f & !1u8) & 1u8 == 0u8) by (bit_vector);
            assert(h@ == header_after_delete(h0@));
            assert(header_valid(h));
            self.lemma_wf();
        }
        let ghost before = self@;
        let r = self.delete_seed_records_transaction(&h, slot_index, last_index, labels_before.as_slice());
        proof {
            if r is Ok {
                self.lemma_wf();
                let core = before.subrange(0, SEED_CORE_STORAGE_SIZE as int);
                super::records::lemma_header_roundtrip(h);
                assert(img_region(self@, NVS_BASE_ADDR as int, HEADER_SIZE as int) =~= self@.subrange(0, HEADER_SIZE as int));
                assert(header_bytes(h)[0] == 0x4Eu8);
                assert forall|j: int| 0 <= j < slot_index implies #[trigger] stored_slot(self@, j) == stored_slot(before, j) by {
                    lemma_stored_slot_at(self@, self@.subrange(0, SEED_CORE_STORAGE_SIZE as int), j);
                    lemma_stored_slot_at(before, core, j);
                }
                assert forall|j: int| slot_index <= j < h0.slot_count - 1 implies #[trigger] stored_slot(self@, j) == stored_slot(before, j + 1) by {
                    lemma_stored_slot_at(self@, self@.subrange(0, SEED_CORE_STORAGE_SIZE as int), j);
                    lemma_stored_slot_at(before, core, j + 1);
                }
                lemma_stored_slot_at(self@, self@.subrange(0, SEED_CORE_STORAGE_SIZE as int), last_index as int);
                assert(all_ff(ff_seq(SLOT_SIZE as nat)));
                assert forall|i: int| rel(super::layout::ATTEMPT_MARKS_ADDR as int) <= i < rel(super::layout::ATTEMPT_MARKS_END as int)
                    implies self@[i] == before[i] by {
                    assert(self@.subrange(SEED_CORE_STORAGE_SIZE as int, NVS_IMAGE_LEN as int)[i - SEED_CORE_STORAGE_SIZE]
                        == before.subrange(SEED_CORE_STORAGE_SIZE as int, NVS_IMAGE_LEN as int)[i - SEED_CORE_STORAGE_SIZE]);
                }
                lemma_marks_same(self@, before, MAX_PIN_ATTEMPTS as nat);
            }
        }
        r
    }
}


impl NvsStore {
    /// Unlock and, when failed attempts were recorded in the header, reset
    /// that counter.
    pub fn unlock_with_pepper<P: NvsPepperSource, R: Fn(&[u8; 64]) -> ([u64; 6], [u64; 6])>(
        &mut self,
        pin: &str,
        source: &mut P,
        root_pub: &R,
    ) -> (r: Result<(Vec<[u8; 64]>, [u8; 32]), NvsError>)
        requires
            old(self).wf(),
            forall|s: &[u8; 64]| call_requires(*root_pub, (s,)),
        ensures
            final(self).wf(),
            final(self).flash_view() == old(self).flash_view(),
            unlock_gate(old(self)@, true) matches Err(e) ==> r == Err::<(Vec<[u8; 64]>, [u8; 32]), NvsError>(e)
                && final(self)@ == old(self)@,
            exists|r0: Result<(Vec<[u8; 64]>, [u8; 32], bool), NvsError>|
                #[trigger] unlock_result(old(self)@, pin.spec_bytes(), true, *old(source), *root_pub, r0) && match r0 {
                    Ok((seeds, key, clear)) => r matches Ok((s2, k2)) && s2@ == seeds@ && k2 == key,
                    Err(e) => r == Err::<(Vec<[u8; 64]>, [u8; 32]), NvsError>(e) && final(self)@ == old(self)@,
                },
            r matches Ok((seeds, key)) ==> unlock_gate(old(self)@, true) matches Ok(h)
                && slots_unlocked(old(self)@, key@, *root_pub, seeds@, h.slot_count as int)
                && stored_header(final(self)@) == Some(if attempts_used(old(self)@, h) != 0 { HeaderView { attempts: 0, ..h } } else { h }),
    {
        let ghost img0 = self@;
        let r0 = self.unlock_with_pepper_readonly(pin, source, root_pub);
        proof { assert(unlock_result(img0, pin.spec_bytes(), true, *old(source), *root_pub, r0)); }
        let (seeds, mut key, clear) = match r0 {
            Ok(t) => t,
            Err(e) => return Err(e),
        };
        let mut h = match self.read_header() {
            Some(h) => h,
            None => {
                crate::crypto::zeroize_array(&mut key);
                return Err(NvsError::NotInitialized);
            },
        };
        if clear {
            proof { self.lemma_wf(); }
            let ghost before = self@;
            let ghost h0 = h;
            let _ = self.clear_attempts_if_needed(&mut h);
            proof {
                if h0.attempts != 0 {
                    lemma_header_written(before, h);
                }
            }
        }
        Ok((seeds, key))
    }

    /// Derive and check the master key for a PIN (header counter gate); a
    /// wrong PIN is charged in the header, a right one clears the counter.
    pub fn derive_master_key_for_pin_with_pepper<P: NvsPepperSource, R: Fn(&[u8; 64]) -> ([u64; 6], [u64; 6])>(
        &mut self,
        pin: &str,
        source: &mut P,
        root_pub: &R,
    ) -> (r: Result<[u8; 32], NvsError>)
        requires
            old(self).wf(),
            forall|s: &[u8; 64]| call_requires(*root_pub, (s,)),
        ensures
            final(self).wf(),
            final(self).flash_view() == old(self).flash_view(),
            pin_key_derived(old(self)@, final(self)@, pin.spec_bytes(), *old(source), *root_pub, r),
    {
        let (h, _used) = self.unlock_gate(true)?;
        let ghost before = self@;
        let kr = super::keys::derive_master_key_with_source(pin, &h, source);
        proof { assert(derived_key(pin.spec_bytes(), h@, *old(source), kr)); }
        let mut key = match kr {
            Ok(k) => k,
            Err(e) => return Err(e),
        };
        let vr = self.verify_master_key(&key, &h, root_pub);
        proof { assert(key_check(before, h@, key@, *root_pub, vr)); }
        match vr {
            Ok(()) => {},
            Err(NvsError::WrongPin) => {
                let _ = self.record_wrong_pin_attempt();
                crate::crypto::zeroize_array(&mut key);
                return Err(NvsError::WrongPin);
            },
            Err(e) => {
                crate::crypto::zeroize_array(&mut key);
                return Err(e);
            },
        }
        let _ = self.clear_pin_attempts();
        Ok(key)
    }
}


/// A seed-core rewrite goes through: the records fit the slots, every label
/// that would be stored is valid, and a calibration, if any, is valid.
pub open spec fn rewrite_accepted(n_records: nat, labels: Seq<crate::types::SeedSlotLabel>, calibration: Option<crate::types::TouchCalibration>) -> bool {
    &&& n_records <= MAX_SEED_SLOTS
    &&& labels_storable(labels)
    &&& calibration matches Some(c) ==> spec_touch_calibration_valid(c)
}

/// What a seed-core rewrite leaves after the slots: the calibration record
/// (erased without one), the label table, the GUI preferences (erased
/// without a theme), and erased bytes to the end of the sector.
pub open spec fn rewrite_tail(
    labels: Seq<crate::types::SeedSlotLabel>,
    calibration: Option<crate::types::TouchCalibration>,
    gui_theme: Option<u8>,
) -> Seq<u8> {
    (match calibration {
        Some(c) => calibration_bytes(c),
        None => ff_seq(CALIBRATION_SIZE as nat),
    }) + label_table(labels) + (match gui_theme {
        Some(t) => gui_prefs_bytes(t),
        None => ff_seq(GUI_PREFS_SIZE as nat),
    }) + ff_seq((SEED_CORE_STORAGE_SIZE - SEED_CORE_TOTAL_SIZE) as nat)
}

/// The image a committed seed-core rewrite leaves: the header, each record
/// in its slot, the remaining slots erased, the tail after the slots, and
/// everything past the seed-core sector as it was.
pub open spec fn rewrite_committed(before: Seq<u8>, after: Seq<u8>, prepared: PreparedSeedRewrite) -> bool {
    &&& after.len() == before.len()
    &&& after.subrange(0, HEADER_SIZE as int) == header_bytes(prepared.header)
    &&& forall|i: int| 0 <= i < prepared.records@.len() ==> #[trigger] slot_at(after, i) == slot_bytes(prepared.records@[i])
    &&& forall|i: int| prepared.records@.len() <= i < MAX_SEED_SLOTS ==> #[trigger] slot_at(after, i) == ff_seq(SLOT_SIZE as nat)
    &&& after.subrange(SEED_TOTAL_SIZE as int, SEED_CORE_STORAGE_SIZE as int)
        == rewrite_tail(prepared.labels@, prepared.calibration, prepared.gui_theme)
    &&& after.subrange(SEED_CORE_STORAGE_SIZE as int, NVS_IMAGE_LEN as int)
        == before.subrange(SEED_CORE_STORAGE_SIZE as int, NVS_IMAGE_LEN as int)
}

/// A prepared PIN change: a new header and every seed re-sealed under the
/// new key, with the labels, calibration and theme to keep.
pub struct PreparedSeedRewrite {
    pub header: Header,
    pub records: Vec<SlotRecord>,
    pub labels: Vec<crate::types::SeedSlotLabel>,
    pub calibration: Option<crate::types::TouchCalibration>,
    pub gui_theme: Option<u8>,
}

/// The header of a rewrite holding `count` seeds under `salt`.
pub open spec fn rewrite_header(salt: Seq<u8>, count: u8) -> HeaderView {
    HeaderView { version: VERSION, flags: FLAG_INITIALIZED, attempts: 0, slot_count: count, salt }
}

/// A rewrite prepared from `seeds`: the new header, every seed sealed under
/// a version-2 key of the PIN, with the root key `root_pub` gave for it, and
/// the labels, calibration and theme carried over.
pub open spec fn rewrite_prepared<R: Fn(&[u8; 64]) -> ([u64; 6], [u64; 6])>(
    p: PreparedSeedRewrite,
    key: Seq<u8>,
    pin: Seq<u8>,
    seeds: Seq<[u8; 64]>,
    labels: Seq<crate::types::SeedSlotLabel>,
    calibration: Option<crate::types::TouchCalibration>,
    gui_theme: Option<u8>,
    root_pub: R,
) -> bool {
    &&& p.header@ == rewrite_header(p.header.salt@, seeds.len() as u8)
    &&& exists|pepper: Seq<u8>| key == #[trigger] master_key_v2(pin, p.header.salt@, pepper)
    &&& p.records@.len() == seeds.len()
    &&& forall|i: int| 0 <= i < seeds.len() ==> (#[trigger] p.records@[i])@.enc_seed
        == crate::crypto::aes256gcm_seal(key, p.records@[i].nonce@, seeds[i]@)
    &&& forall|i: int| 0 <= i < seeds.len() ==> call_ensures(root_pub, (&seeds[i],), (#[trigger] p.records@[i].pub_x, p.records@[i].pub_y))
    &&& p.labels@.map_values(|l: crate::types::SeedSlotLabel| super::records::label_view(l))
        == labels.map_values(|l: crate::types::SeedSlotLabel| super::records::label_view(l))
    &&& p.calibration == calibration
    &&& p.gui_theme == gui_theme
}

impl NvsStore {
    /// Re-seal `seeds` under a key derived from `pin` with a fresh salt and
    /// the source's pepper; each record carries the root key `root_pub`
    /// gives for its seed.
    pub fn prepare_rewrite_seed_storage<P: NvsPepperSource, R: Fn(&[u8; 64]) -> ([u64; 6], [u64; 6])>(
        &self,
        pin: &str,
        seeds: &[[u8; 64]],
        labels: &[crate::types::SeedSlotLabel],
        calibration: Option<crate::types::TouchCalibration>,
        gui_theme: Option<u8>,
        source: &mut P,
        root_pub: &R,
    ) -> (r: Result<(PreparedSeedRewrite, [u8; 32]), NvsError>)
        requires
            forall|s: &[u8; 64]| call_requires(*root_pub, (s,)),
        ensures
            seeds@.len() == 0 ==> r == Err::<(PreparedSeedRewrite, [u8; 32]), NvsError>(NvsError::NotInitialized),
            seeds@.len() > MAX_SEED_SLOTS ==> r == Err::<(PreparedSeedRewrite, [u8; 32]), NvsError>(NvsError::Crypto),
            r matches Err(e) ==> e == NvsError::NotInitialized || e == NvsError::Crypto || source_error(*old(source), e),
            r matches Ok((p, key)) ==> rewrite_prepared(p, key@, pin.spec_bytes(), seeds@, labels@, calibration, gui_theme, *root_pub),
    {
        if seeds.len() == 0 {
            return Err(NvsError::NotInitialized);
        }
        if seeds.len() > MAX_SEED_SLOTS {
            return Err(NvsError::Crypto);
        }
        let mut stored_labels: Vec<crate::types::SeedSlotLabel> = Vec::new();
        let mut k: usize = 0;
        while k < labels.len()
            invariant
                k <= labels@.len(),
                stored_labels@.len() == k,
                stored_labels@.map_values(|l: crate::types::SeedSlotLabel| super::records::label_view(l))
                    == labels@.subrange(0, k as int).map_values(|l: crate::types::SeedSlotLabel| super::records::label_view(l)),
            decreases labels@.len() - k,
        {
            let l = crate::types::SeedSlotLabel { slot: labels[k].slot, label: labels[k].label.clone() };
            proof {
                assert(l.label@ == labels@[k as int].label@);
            }
            let ghost prev = stored_labels@;
            stored_labels.push(l);
            k += 1;
            proof {
                assert forall|j: int| 0 <= j < k implies super::records::label_view(#[trigger] stored_labels@[j])
                    == super::records::label_view(labels@[j]) by {
                    if j < k - 1 {
                        assert(stored_labels@[j] == prev[j]);
                        assert(prev.map_values(|l: crate::types::SeedSlotLabel| super::records::label_view(l))[j]
                            == labels@.subrange(0, k - 1).map_values(|l: crate::types::SeedSlotLabel| super::records::label_view(l))[j]);
                    }
                }
                assert(stored_labels@.map_values(|l: crate::types::SeedSlotLabel| super::records::label_view(l))
                    =~= labels@.subrange(0, k as int).map_values(|l: crate::types::SeedSlotLabel| super::records::label_view(l)));
            }
        }
        proof { assert(labels@.subrange(0, labels@.len() as int) =~= labels@); }
        let mut header = header_new_uninitialized(VERSION);
        header.slot_count = seeds.len() as u8;
        header_set_initialized(&mut header);
        proof {
            assert((0u8 | FLAG_INITIALIZED) == FLAG_INITIALIZED) by (bit_vector);
        }
        let salt = match random_bytes_32() {
            Ok(s) => s,
            Err(_) => return Err(NvsError::Crypto),
        };
        header.salt = salt;
        let ghost src0 = *source;
        let mut pepper = match nvs_v2_pepper_or_software(&header.salt, source) {
            Ok(p) => p,
            Err(e) => {
                proof {
                    let ans = choose|ans: Result<Option<[u8; 32]>, NvsError>| #[trigger] src0.pepper_answers(header.salt@, ans)
                        && pepper_choice(ans) == Err::<Seq<u8>, NvsError>(e);
                    assert(ans == Err::<Option<[u8; 32]>, NvsError>(e));
                    assert(src0.pepper_answers(header.salt@, Err::<Option<[u8; 32]>, NvsError>(e)));
                }
                return Err(e);
            },
        };
        let ghost pepper_used = pepper@;
        let mut key = match derive_master_key_for_header(pin, &header, Some(&pepper)) {
            Ok(k) => k,
            Err(e) => {
                crate::crypto::zeroize_array(&mut pepper);
                return Err(e);
            },
        };
        crate::crypto::zeroize_array(&mut pepper);
        assert(key@ == master_key_v2(pin.spec_bytes(), header.salt@, pepper_used));
        assert(header.flags == FLAG_INITIALIZED);
        assert(header.version == VERSION);
        assert(header.attempts == 0);
        assert(header.slot_count == seeds@.len() as u8);
        assert(header@ == rewrite_header(header.salt@, seeds@.len() as u8));
        let mut records: Vec<SlotRecord> = Vec::new();
        let mut i: usize = 0;
        while i < seeds.len()
            invariant
                i <= seeds@.len(),
                forall|s: &[u8; 64]| call_requires(*root_pub, (s,)),
                key@ == master_key_v2(pin.spec_bytes(), header.salt@, pepper_used),
                header@ == rewrite_header(header.salt@, seeds@.len() as u8),
                stored_labels@.map_values(|l: crate::types::SeedSlotLabel| super::records::label_view(l))
                    == labels@.map_values(|l: crate::types::SeedSlotLabel| super::records::label_view(l)),
                records@.len() == i,
                forall|j: int| 0 <= j < i ==> (#[trigger] records@[j])@.enc_seed
                    == crate::crypto::aes256gcm_seal(key@, records@[j].nonce@, seeds@[j]@),
                forall|j: int| 0 <= j < i ==> call_ensures(*root_pub, (&seeds@[j],), (#[trigger] records@[j].pub_x, records@[j].pub_y)),
            decreases seeds@.len() - i,
        {
            let pub_xy = root_pub(&seeds[i]);
            let rec = match encrypt_seed_record(&key, &seeds[i], pub_xy) {
                Ok(rec) => rec,
                Err(e) => {
                    crate::crypto::zeroize_array(&mut key);
                    return Err(e);
                },
            };
            proof {
                assert(rec.pub_x == pub_xy.0 && rec.pub_y == pub_xy.1) by {
                    assert(rec.pub_x@ == pub_xy.0@);
                    assert(rec.pub_y@ == pub_xy.1@);
                }
            }
            records.push(rec);
            i += 1;
        }
        header.attempts = 0;
        assert(key@ == master_key_v2(pin.spec_bytes(), header.salt@, pepper_used));
        let prepared = PreparedSeedRewrite { header, records, labels: stored_labels, calibration, gui_theme };
        assert(prepared.header@ == rewrite_header(prepared.header.salt@, seeds@.len() as u8));
        assert(key@ == master_key_v2(pin.spec_bytes(), prepared.header.salt@, pepper_used));
        assert(prepared.records@.len() == seeds@.len());
        assert(forall|i: int| 0 <= i < seeds@.len() ==> (#[trigger] prepared.records@[i])@.enc_seed
            == crate::crypto::aes256gcm_seal(key@, prepared.records@[i].nonce@, seeds@[i]@));
        assert(forall|i: int| 0 <= i < seeds@.len() ==> call_ensures(*root_pub, (&seeds@[i],), (#[trigger] prepared.records@[i].pub_x, prepared.records@[i].pub_y)));
        assert(prepared.labels@.map_values(|l: crate::types::SeedSlotLabel| super::records::label_view(l))
            == labels@.map_values(|l: crate::types::SeedSlotLabel| super::records::label_view(l)));
        assert(rewrite_prepared(prepared, key@, pin.spec_bytes(), seeds@, labels@, calibration, gui_theme, *root_pub));
        Ok((prepared, key))
    }
}


impl NvsStore {
    /// Write a whole new seed-core sector: the header, the records in the
    /// first slots, the other slots erased, the labels, and the calibration
    /// and theme when given.
    pub fn rewrite_seed_storage_transaction(
        &mut self,
        h: &Header,
        records: &[SlotRecord],
        labels: &[crate::types::SeedSlotLabel],
        calibration: Option<crate::types::TouchCalibration>,
        gui_theme: Option<u8>,
    ) -> (r: Result<(), NvsError>)
        requires
            old(self).wf(),
        ensures
            final(self).wf(),
            final(self).flash_view() == old(self).flash_view(),
            records@.len() > MAX_SEED_SLOTS ==> r == Err::<(), NvsError>(NvsError::Crypto),
            records@.len() <= MAX_SEED_SLOTS && !labels_storable(labels@)
                ==> r == Err::<(), NvsError>(NvsError::InvalidLabel),
            records@.len() <= MAX_SEED_SLOTS && labels_storable(labels@)
                && (calibration matches Some(c) && !spec_touch_calibration_valid(c))
                ==> r == Err::<(), NvsError>(NvsError::InvalidCalibration),
            r is Ok <== rewrite_accepted(records@.len(), labels@, calibration),
            r is Err ==> final(self)@ == old(self)@,
            r is Ok ==> {
                &&& records@.len() <= MAX_SEED_SLOTS
                &&& final(self)@.subrange(SEED_TOTAL_SIZE as int, SEED_CORE_STORAGE_SIZE as int)
                    == rewrite_tail(labels@, calibration, gui_theme)
                &&& final(self)@.subrange(0, HEADER_SIZE as int) == header_bytes(*h)
                &&& forall|i: int| 0 <= i < records@.len() ==> #[trigger] slot_at(final(self)@, i) == slot_bytes(records@[i])
                &&& forall|i: int| records@.len() <= i < MAX_SEED_SLOTS ==> #[trigger] slot_at(final(self)@, i) == ff_seq(SLOT_SIZE as nat)
                &&& final(self)@.subrange(SEED_CORE_STORAGE_SIZE as int, NVS_IMAGE_LEN as int)
                    == old(self)@.subrange(SEED_CORE_STORAGE_SIZE as int, NVS_IMAGE_LEN as int)
            },
            final(self).pending_view().len() >= old(self).pending_view().len(),
            final(self).pending_view().subrange(0, old(self).pending_view().len() as int) == old(self).pending_view(),
            r is Ok ==> header_erased_while(old(self)@, final(self).pending_view().subrange(
                old(self).pending_view().len() as int, final(self).pending_view().len() as int)),
    {
        if records.len() > MAX_SEED_SLOTS {
            return Err(NvsError::Crypto);
        }
        let mut sector = ff_vec(SEED_CORE_STORAGE_SIZE);
        let hb = header_to_bytes(h);
        write_at(&mut sector, 0, hb.as_slice());
        proof {
            lemma_splice_read(ff_seq(SEED_CORE_STORAGE_SIZE as nat), 0, hb@);
            assert forall|j: int| 0 <= j < MAX_SEED_SLOTS implies #[trigger] slot_at(sector@, j) == ff_seq(SLOT_SIZE as nat) by {
                lemma_slot_regions_apart(j, if j == 0 { 1 } else { 0 });
                lemma_splice_outside(ff_seq(SEED_CORE_STORAGE_SIZE as nat), 0, hb@, HEADER_SIZE + j * SLOT_SIZE, HEADER_SIZE + (j + 1) * SLOT_SIZE);
                assert(slot_at(sector@, j) =~= ff_seq(SLOT_SIZE as nat));
            }
        }
        let mut i: usize = 0;
        while i < records.len()
            invariant
                i <= records@.len() <= MAX_SEED_SLOTS,
                sector@.len() == SEED_CORE_STORAGE_SIZE,
                sector@.subrange(0, HEADER_SIZE as int) == header_bytes(*h),
                forall|j: int| 0 <= j < i ==> #[trigger] slot_at(sector@, j) == slot_bytes(records@[j]),
                forall|j: int| i <= j < MAX_SEED_SLOTS ==> #[trigger] slot_at(sector@, j) == ff_seq(SLOT_SIZE as nat),
            decreases records@.len() - i,
        {
            proof { lemma_slot_regions_apart(i as int, if i == 0 { 1 } else { 0 }); }
            let off = HEADER_SIZE + i * SLOT_SIZE;
            let sb = slot_to_bytes(&records[i]);
            let ghost before = sector@;
            write_at(&mut sector, off, sb.as_slice());
            proof {
                lemma_splice_read(before, off as int, sb@);
                assert(slot_at(sector@, i as int) =~= sb@);
                lemma_splice_outside(before, off as int, sb@, 0, HEADER_SIZE as int);
                assert forall|j: int| 0 <= j < MAX_SEED_SLOTS && j != i implies #[trigger] slot_at(sector@, j) == slot_at(before, j) by {
                    lemma_slot_regions_apart(j, i as int);
                    lemma_splice_outside(before, off as int, sb@, HEADER_SIZE + j * SLOT_SIZE, HEADER_SIZE + (j + 1) * SLOT_SIZE);
                }
            }
            i += 1;
        }
        let table = match labels_table_bytes(labels) {
            Some(b) => b,
            None => return Err(NvsError::InvalidLabel),
        };
        proof { super::records::lemma_label_table_len(labels@); }
        let calibration_record: Option<Vec<u8>> = match calibration {
            Some(c) => match super::records::touch_calibration_bytes(&c) {
                Some(b) => Some(b),
                None => return Err(NvsError::InvalidCalibration),
            },
            None => None,
        };
        let mut tail = ff_vec(SEED_CORE_STORAGE_SIZE - SEED_TOTAL_SIZE);
        if let Some(b) = &calibration_record {
            write_at(&mut tail, 0, b.as_slice());
        }
        write_at(&mut tail, CALIBRATION_SIZE, table.as_slice());
        if let Some(theme_id) = gui_theme {
            let g = super::records::gui_prefs_to_bytes(theme_id);
            write_at(&mut tail, CALIBRATION_SIZE + LABELS_SIZE, g.as_slice());
        }
        proof {
            assert(tail@ =~= rewrite_tail(labels@, calibration, gui_theme));
        }
        let ghost before = sector@;
        write_at(&mut sector, SEED_TOTAL_SIZE, tail.as_slice());
        proof {
            lemma_splice_read(before, SEED_TOTAL_SIZE as int, tail@);
            lemma_splice_outside(before, SEED_TOTAL_SIZE as int, tail@, 0, HEADER_SIZE as int);
            assert forall|j: int| 0 <= j < MAX_SEED_SLOTS implies #[trigger] slot_at(sector@, j) == slot_at(before, j) by {
                lemma_slot_regions_apart(j, if j == 0 { 1 } else { 0 });
                lemma_splice_outside(before, SEED_TOTAL_SIZE as int, tail@, HEADER_SIZE + j * SLOT_SIZE, HEADER_SIZE + (j + 1) * SLOT_SIZE);
            }
        }
        proof { self.lemma_wf(); }
        let ghost img = self@;
        let r = self.write_seed_core_region(sector.as_slice());
        proof {
            assert forall|j: int| 0 <= j < MAX_SEED_SLOTS implies #[trigger] slot_at(self@, j) == slot_at(sector@, j) by {
                lemma_slot_regions_apart(j, if j == 0 { 1 } else { 0 });
                assert(slot_at(self@, j) =~= slot_at(sector@, j));
            }
            assert(self@.subrange(0, HEADER_SIZE as int) =~= sector@.subrange(0, HEADER_SIZE as int));
            assert(self@.subrange(SEED_TOTAL_SIZE as int, SEED_CORE_STORAGE_SIZE as int)
                =~= sector@.subrange(SEED_TOTAL_SIZE as int, SEED_CORE_STORAGE_SIZE as int));
            assert(self@.subrange(SEED_CORE_STORAGE_SIZE as int, NVS_IMAGE_LEN as int)
                =~= img.subrange(SEED_CORE_STORAGE_SIZE as int, NVS_IMAGE_LEN as int));
        }
        r
    }

    pub fn commit_prepared_seed_rewrite(&mut self, prepared: PreparedSeedRewrite) -> (r: Result<(), NvsError>)
        requires
            old(self).wf(),
        ensures
            final(self).wf(),
            final(self).flash_view() == old(self).flash_view(),
            prepared.records@.len() > MAX_SEED_SLOTS ==> r == Err::<(), NvsError>(NvsError::Crypto),
            prepared.records@.len() <= MAX_SEED_SLOTS && !labels_storable(prepared.labels@)
                ==> r == Err::<(), NvsError>(NvsError::InvalidLabel),
            prepared.records@.len() <= MAX_SEED_SLOTS && labels_storable(prepared.labels@)
                && (prepared.calibration matches Some(c) && !spec_touch_calibration_valid(c))
                ==> r == Err::<(), NvsError>(NvsError::InvalidCalibration),
            r is Ok <== rewrite_accepted(prepared.records@.len(), prepared.labels@, prepared.calibration),
            r is Err ==> final(self)@ == old(self)@,
            r is Ok ==> rewrite_committed(old(self)@, final(self)@, prepared),
            final(self).pending_view().len() >= old(self).pending_view().len(),
            final(self).pending_view().subrange(0, old(self).pending_view().len() as int) == old(self).pending_view(),
            r is Ok ==> header_erased_while(old(self)@, final(self).pending_view().subrange(
                old(self).pending_view().len() as int, final(self).pending_view().len() as int)),
    {
        proof { self.lemma_wf(); }
        let r = self.rewrite_seed_storage_transaction(&prepared.header, prepared.records.as_slice(), prepared.labels.as_slice(),
            prepared.calibration, prepared.gui_theme);
        proof { self.lemma_wf(); }
        r
    }
}


/// After a rewrite of the header and the first slots, the header reads back,
/// and so does every record the store can hold.
pub proof fn lemma_rewritten_image(img: Seq<u8>, h: Header, records: Seq<SlotRecord>)
    requires
        img.len() == NVS_IMAGE_LEN,
        records.len() <= MAX_SEED_SLOTS,
        img.subrange(0, HEADER_SIZE as int) == header_bytes(h),
        forall|i: int| 0 <= i < records.len() ==> #[trigger] slot_at(img, i) == slot_bytes(records[i]),
    ensures
        header_valid(h) ==> stored_header(img) == Some(h@),
        forall|i: int| 0 <= i < records.len() && slot_record_valid(records[i])
            ==> #[trigger] stored_slot(img, i) == Some(records[i]@),
{
    if header_valid(h) {
        super::records::lemma_header_roundtrip(h);
        let hb = header_bytes(h);
        assert(img_region(img, NVS_BASE_ADDR as int, HEADER_SIZE as int) =~= hb);
        assert(hb[0] == 0x4Eu8);
    }
    let core = img.subrange(0, SEED_CORE_STORAGE_SIZE as int);
    assert forall|i: int| 0 <= i < records.len() && slot_record_valid(records[i])
        implies #[trigger] stored_slot(img, i) == Some(records[i]@) by {
        lemma_stored_slot_at(img, core, i);
        super::records::lemma_slot_roundtrip(records[i]);
        let sb = slot_bytes(records[i]);
        assert(sb[0] == 0x01u8);
    }
}

/// What a PIN change leaves: the seeds `seeds` that unlocked before, each
/// sealed in `recs` under the version-2 key of `pin`, the salt of header `h`
/// and `pepper`, with the root key `root_pub` gave for it; the rewrite's
/// header in place (unless its salt reads as erased); every record the store
/// can hold in its slot; and no failed attempt charged.
pub open spec fn pin_changed<R: Fn(&[u8; 64]) -> ([u64; 6], [u64; 6])>(
    before: Seq<u8>,
    after: Seq<u8>,
    pin: Seq<u8>,
    h: HeaderView,
    pepper: Seq<u8>,
    seeds: Seq<[u8; 64]>,
    recs: Seq<SlotView>,
    root_pub: R,
) -> bool {
    &&& exists|k: Seq<u8>| #[trigger] slots_unlocked(before, k, root_pub, seeds, seeds.len() as int)
    &&& 0 < seeds.len() <= MAX_SEED_SLOTS
    &&& h == rewrite_header(h.salt, seeds.len() as u8)
    &&& !all_ff(h.salt) ==> stored_header(after) == Some(h)
    &&& mark_count(after) == 0
    &&& recs.len() == seeds.len()
    &&& forall|i: int| 0 <= i < seeds.len() ==> #[trigger] recs[i]
        == sealed_slot(master_key_v2(pin, h.salt, pepper), recs[i].nonce, seeds[i]@, recs[i].pub_x, recs[i].pub_y)
    &&& forall|i: int| 0 <= i < seeds.len() ==> pub_seen(root_pub, seeds[i], #[trigger] recs[i])
    &&& forall|i: int| 0 <= i < seeds.len()
        && super::records::slot_fields_ok(recs[i].nonce, recs[i].enc_seed, recs[i].pub_x, recs[i].pub_y)
        ==> #[trigger] stored_slot(after, i) == Some(recs[i])
}

/// After a PIN change, the new PIN (with the pepper the change used)
/// unlocks exactly the seeds the old PIN unlocked: the lockout gate passes,
/// every successful opening returns those seeds in order, and no opening
/// fails while the root-key derivation gives the keys recorded with them.
/// Left out are the inputs a store cannot hold: a salt of all 0xFF bytes,
/// or a record whose nonce, ciphertext or root key reads as erased or empty.
pub proof fn lemma_unlock_after_change_pin<R: Fn(&[u8; 64]) -> ([u64; 6], [u64; 6])>(
    before: Seq<u8>,
    after: Seq<u8>,
    pin: Seq<u8>,
    h: HeaderView,
    pepper: Seq<u8>,
    seeds: Seq<[u8; 64]>,
    recs: Seq<SlotView>,
    root_pub: R,
    enforce_lockout: bool,
)
    requires
        pin_changed(before, after, pin, h, pepper, seeds, recs, root_pub),
        !all_ff(h.salt),
        forall|i: int| 0 <= i < recs.len() ==>
            super::records::slot_fields_ok(#[trigger] recs[i].nonce, recs[i].enc_seed, recs[i].pub_x, recs[i].pub_y),
    ensures
        ({
            let key = master_key_v2(pin, h.salt, pepper);
            &&& unlock_gate(after, enforce_lockout) == Ok::<HeaderView, NvsError>(h)
            &&& h.slot_count == seeds.len()
            &&& master_key_spec(pin, h.version, h.salt, Some(pepper)) == Some(key)
            &&& forall|out: Seq<[u8; 64]>| slots_unlocked(after, key, root_pub, out, h.slot_count as int)
                ==> out == seeds
            &&& (forall|i: int| 0 <= i < seeds.len() ==> #[trigger] pub_fixed(root_pub, seeds[i], recs[i].pub_x, recs[i].pub_y))
                ==> forall|e: NvsError| !first_failure(after, key, root_pub, h.slot_count as int, e)
        }),
{
    let key = master_key_v2(pin, h.salt, pepper);
    let n = seeds.len() as int;
    assert((FLAG_INITIALIZED & FLAG_INITIALIZED) != 0u8) by (bit_vector);
    assert(header_view_initialized(h));
    assert(attempts_used(after, h) == 0);
    assert(unlock_gate(after, enforce_lockout) == Ok::<HeaderView, NvsError>(h));
    assert forall|i: int| 0 <= i < n implies #[trigger] stored_slot(after, i) == Some(recs[i])
        && opens_to(key, recs[i], seeds[i]@) by {
        assert(super::records::slot_fields_ok(recs[i].nonce, recs[i].enc_seed, recs[i].pub_x, recs[i].pub_y));
        assert(recs[i] == sealed_slot(key, recs[i].nonce, seeds[i]@, recs[i].pub_x, recs[i].pub_y));
    }
    assert forall|out: Seq<[u8; 64]>| slots_unlocked(after, key, root_pub, out, h.slot_count as int)
        implies out == seeds by {
        assert forall|i: int| 0 <= i < n implies out[i] == seeds[i] by {
            assert(slot_unlocked(after, key, root_pub, i, out[i]));
            assert(stored_slot(after, i) == Some(recs[i]));
            assert(opens_to(key, recs[i], seeds[i]@));
            assert(out[i]@ == seeds[i]@);
            assert(out[i] == seeds[i]);
        }
        assert(out =~= seeds);
    }
    if forall|i: int| 0 <= i < seeds.len() ==> #[trigger] pub_fixed(root_pub, seeds[i], recs[i].pub_x, recs[i].pub_y) {
        assert forall|e: NvsError| !first_failure(after, key, root_pub, n, e) by {
            if first_failure(after, key, root_pub, n, e) {
                let i = choose|i: int| 0 <= i < n && slot_fails(after, key, root_pub, i, e)
                    && forall|j: int| 0 <= j < i ==> #[trigger] slot_opens(after, key, root_pub, j);
                assert(stored_slot(after, i) == Some(recs[i]) && opens_to(key, recs[i], seeds[i]@));
                if e == NvsError::Flash && mismatch_opening(key, root_pub, recs[i]) {
                    let q = choose|q: [u8; 64]| #[trigger] pub_mismatch_seen(root_pub, q, recs[i]) && opens_to(key, recs[i], q@)
                        && only_opening(key, recs[i], q@);
                    assert(q@ == seeds[i]@);
                    assert(q == seeds[i]);
                    assert(pub_fixed(root_pub, seeds[i], recs[i].pub_x, recs[i].pub_y));
                }
            }
        }
    }
}

impl NvsStore {
    /// Unlock with the old PIN and prepare re-sealing every seed under the
    /// new PIN, keeping labels, calibration and theme.
    #[verifier::spinoff_prover]
    pub fn prepare_change_pin_inner<P: NvsPepperSource, R: Fn(&[u8; 64]) -> ([u64; 6], [u64; 6])>(
        &self,
        old_pin: &str,
        new_pin: &str,
        source: &mut P,
        enforce_lockout: bool,
        root_pub: &R,
    ) -> (r: Result<(PreparedSeedRewrite, Vec<[u8; 64]>, [u8; 32]), NvsError>)
        requires
            self.wf(),
            forall|s: &[u8; 64]| call_requires(*root_pub, (s,)),
        ensures
            unlock_gate(self@, enforce_lockout) matches Err(e) ==> r == Err::<(PreparedSeedRewrite, Vec<[u8; 64]>, [u8; 32]), NvsError>(e),
            exists|r0: Result<(Vec<[u8; 64]>, [u8; 32], bool), NvsError>|
                #[trigger] unlock_result(self@, old_pin.spec_bytes(), enforce_lockout, *old(source), *root_pub, r0) && match r0 {
                    Err(e) => r matches Err(e2) && e2 == e,
                    Ok((seeds0, k0, c0)) => match r {
                        Ok((p, seeds, key)) => seeds@ == seeds0@,
                        Err(e) => e == NvsError::NotInitialized || e == NvsError::Crypto || exists|s2: P| #[trigger] source_error(s2, e),
                    },
                },
            r matches Ok((p, seeds, key)) ==> unlock_gate(self@, enforce_lockout) matches Ok(h)
                && (exists|old_key: Seq<u8>| #[trigger] slots_unlocked(self@, old_key, *root_pub, seeds@, h.slot_count as int)),
            r matches Ok((p, seeds, key)) ==> rewrite_prepared(p, key@, new_pin.spec_bytes(), seeds@, p.labels@, p.calibration, p.gui_theme, *root_pub)
                && p.calibration == super::prefs::stored_calibration(self@)
                && p.gui_theme == super::prefs::stored_theme(self@),
    {
        let ghost img0 = self@;
        let r0 = self.unlock_with_pepper_inner(old_pin, source, enforce_lockout, root_pub);
        proof { assert(unlock_result(img0, old_pin.spec_bytes(), enforce_lockout, *old(source), *root_pub, r0)); }
        let ghost src1 = *source;
        let (seeds, mut old_key, _clear) = match r0 {
            Ok(t) => t,
            Err(e) => return Err(e),
        };
        let ghost k0 = old_key@;
        let ghost hv = unlock_gate(self@, enforce_lockout)->Ok_0;
        proof {
            assert(unlock_gate(self@, enforce_lockout) matches Ok(h) && slots_unlocked(self@, k0, *root_pub, seeds@, h.slot_count as int));
            assert(slots_unlocked(self@, k0, *root_pub, seeds@, hv.slot_count as int));
        }
        crate::crypto::zeroize_array(&mut old_key);
        let labels = match self.read_seed_labels() {
            Ok(l) => l,
            Err(_) => Vec::new(),
        };
        let calibration = match self.read_touch_calibration() {
            Ok(c) => c,
            Err(_) => None,
        };
        let gui_theme = match self.read_gui_theme() {
            Ok(t) => t,
            Err(_) => None,
        };
        if seeds.len() == 0 {
            return Err(NvsError::NotInitialized);
        }
        let (prepared, new_key) = match self.prepare_rewrite_seed_storage(new_pin, seeds.as_slice(), labels.as_slice(),
            calibration, gui_theme, source, root_pub) {
            Ok(t) => t,
            Err(e) => {
                proof {
                    if source_error(src1, e) {
                        assert(source_error(src1, e));
                    }
                }
                return Err(e);
            },
        };
        proof {
            assert(slots_unlocked(self@, k0, *root_pub, seeds@, hv.slot_count as int));
            assert(unlock_gate(self@, enforce_lockout) matches Ok(h)
                && (exists|old_key: Seq<u8>| #[trigger] slots_unlocked(self@, old_key, *root_pub, seeds@, h.slot_count as int)));
        }
        let r = Ok((prepared, seeds, new_key));
        proof {
            assert(r->Ok_0.1@ == seeds@);
            assert(slots_unlocked(self@, k0, *root_pub, r->Ok_0.1@, hv.slot_count as int));
            assert(r matches Ok((p, seeds, key)) ==> unlock_gate(self@, enforce_lockout) matches Ok(h)
                && (exists|old_key: Seq<u8>| #[trigger] slots_unlocked(self@, old_key, *root_pub, seeds@, h.slot_count as int)));
        }
        r
    }

    /// Change the PIN: every seed is re-sealed under the new PIN. A wrong
    /// old PIN is recorded as a failed attempt; after a change the attempt
    /// marks are erased.
    pub fn change_pin_with_pepper<P: NvsPepperSource, R: Fn(&[u8; 64]) -> ([u64; 6], [u64; 6])>(
        &mut self,
        old_pin: &str,
        new_pin: &str,
        source: &mut P,
        root_pub: &R,
    ) -> (r: Result<(), NvsError>)
        requires
            old(self).wf(),
            forall|s: &[u8; 64]| call_requires(*root_pub, (s,)),
        ensures
            final(self).wf(),
            final(self).flash_view() == old(self).flash_view(),
            unlock_gate(old(self)@, true) matches Err(e) ==> r == Err::<(), NvsError>(e) && final(self)@ == old(self)@,
            r is Ok ==> mark_count(final(self)@) == 0,
            r is Ok ==> exists|h: HeaderView, pepper: Seq<u8>, seeds: Seq<[u8; 64]>, recs: Seq<SlotView>|
                #[trigger] pin_changed(old(self)@, final(self)@, new_pin.spec_bytes(), h, pepper, seeds, recs, *root_pub),
    {
        let ghost before = self@;
        let prepared = self.prepare_change_pin_inner(old_pin, new_pin, source, true, root_pub);
        let (prepared, seeds, mut new_key) = match prepared {
            Ok(p) => p,
            Err(NvsError::WrongPin) => {
                let _ = self.record_wrong_pin_attempt();
                return Err(NvsError::WrongPin);
            },
            Err(e) => return Err(e),
        };
        let ghost p = prepared;
        let ghost key = new_key@;
        let committed = self.commit_prepared_seed_rewrite(prepared);
        crate::crypto::zeroize_array(&mut new_key);
        if let Err(e) = committed {
            return Err(e);
        }
        proof { self.lemma_wf(); }
        let ghost img1 = self@;
        self.clear_attempt_marks();
        proof {
            let pin = new_pin.spec_bytes();
            let h = p.header@;
            let pepper = choose|pp: Seq<u8>| key == #[trigger] master_key_v2(pin, p.header.salt@, pp);
            let recs = p.records@.map_values(|r: SlotRecord| r@);
            let n = seeds@.len() as int;
            assert((FLAG_INITIALIZED & !FLAG_INITIALIZED) == 0u8) by (bit_vector);
            assert(!all_ff(h.salt) ==> header_valid(p.header));
            lemma_rewritten_image(img1, p.header, p.records@);
            assert forall|i: int| 0 <= i < n implies #[trigger] recs[i]
                == sealed_slot(master_key_v2(pin, h.salt, pepper), recs[i].nonce, seeds@[i]@, recs[i].pub_x, recs[i].pub_y) by {
                assert(p.records@[i]@.enc_seed == crate::crypto::aes256gcm_seal(key, p.records@[i].nonce@, seeds@[i]@));
            }
            assert forall|i: int| 0 <= i < n implies pub_seen(*root_pub, seeds@[i], #[trigger] recs[i]) by {
                assert(recs[i] == p.records@[i]@);
                let w = (p.records@[i].pub_x, p.records@[i].pub_y);
                assert(call_ensures(*root_pub, (&seeds@[i],), w) && w.0@ == recs[i].pub_x && w.1@ == recs[i].pub_y);
            }
            assert forall|i: int| 0 <= i < n
                && super::records::slot_fields_ok(recs[i].nonce, recs[i].enc_seed, recs[i].pub_x, recs[i].pub_y)
                implies #[trigger] stored_slot(self@, i) == Some(recs[i]) by {
                assert(recs[i] == p.records@[i]@);
                assert(slot_record_valid(p.records@[i]));
                assert(stored_slot(self@, i) == stored_slot(img1, i));
            }
            assert(pin_changed(before, self@, pin, h, pepper, seeds@, recs, *root_pub));
        }
        Ok(())
    }
}

impl NvsStore {
    /// First-time setup: prepares the store for `pin` and `seed64`, then
    /// writes it, reporting progress as it goes. Returns the master key and
    /// the slot the seed went to.
    pub fn initialize_pin_with_pepper_and_progress<P: NvsPepperSource, F: Fn(NvsInitStage)>(
        &mut self,
        pin: &str,
        seed64: &[u8; 64],
        pub_xy: ([u64; 6], [u64; 6]),
        source: &mut P,
        progress: &F,
    ) -> (r: Result<([u8; 32], u8), NvsError>)
        requires
            old(self).wf(),
            forall|st: NvsInitStage| call_requires(*progress, (st,)),
        ensures
            final(self).wf(),
            final(self).flash_view() == old(self).flash_view(),
            already_initialized(old(self)@) ==> r == Err::<([u8; 32], u8), NvsError>(NvsError::AlreadyInitialized)
                && final(self)@ == old(self)@,
            r is Err ==> final(self)@ == old(self)@,
            r matches Err(e) ==> init_refusal(old(self)@, *old(source), e),
            r matches Ok((key, slot)) ==> slot == 0 && exists|p: PreparedSeedInit| #![trigger p.header]
                p.header@ == init_header(p.header.salt@)
                && (exists|pepper: Seq<u8>| key@ == #[trigger] master_key_v2(pin.spec_bytes(), p.header.salt@, pepper))
                && p.slot_record@ == sealed_slot(key@, p.slot_record.nonce@, seed64@, pub_xy.0@, pub_xy.1@)
                && final(self)@ == splice(old(self)@, 0, init_core(old(self)@.subrange(0, SEED_CORE_STORAGE_SIZE as int),
                    p.header@, p.slot_record@)),
    {
        let (prepared, key, slot) = self.prepare_initialize_pin_with_pepper_and_progress(pin, seed64, pub_xy, source, progress)?;
        progress(NvsInitStage::WriteFlash);
        let ghost p = prepared;
        let _ = self.commit_prepared_initialize_pin(prepared);
        progress(NvsInitStage::Complete);
        proof {
            assert(p.header == p.header);
        }
        Ok((key, slot))
    }

    /// First-time setup with the given pepper source and no progress
    /// reports.
    pub fn initialize_pin_with_pepper<P: NvsPepperSource>(
        &mut self,
        pin: &str,
        seed64: &[u8; 64],
        pub_xy: ([u64; 6], [u64; 6]),
        source: &mut P,
    ) -> (r: Result<([u8; 32], u8), NvsError>)
        requires
            old(self).wf(),
        ensures
            final(self).wf(),
            final(self).flash_view() == old(self).flash_view(),
            already_initialized(old(self)@) ==> r == Err::<([u8; 32], u8), NvsError>(NvsError::AlreadyInitialized)
                && final(self)@ == old(self)@,
            r is Err ==> final(self)@ == old(self)@,
            r matches Err(e) ==> init_refusal(old(self)@, *old(source), e),
            r matches Ok((key, slot)) ==> slot == 0 && exists|p: PreparedSeedInit| #![trigger p.header]
                p.header@ == init_header(p.header.salt@)
                && (exists|pepper: Seq<u8>| key@ == #[trigger] master_key_v2(pin.spec_bytes(), p.header.salt@, pepper))
                && p.slot_record@ == sealed_slot(key@, p.slot_record.nonce@, seed64@, pub_xy.0@, pub_xy.1@)
                && final(self)@ == splice(old(self)@, 0, init_core(old(self)@.subrange(0, SEED_CORE_STORAGE_SIZE as int),
                    p.header@, p.slot_record@)),
    {
        let quiet = |_stage: NvsInitStage| {};
        self.initialize_pin_with_pepper_and_progress(pin, seed64, pub_xy, source, &quiet)
    }

    /// First-time setup with the software pepper.
    pub fn initialize_pin(&mut self, pin: &str, seed64: &[u8; 64], pub_xy: ([u64; 6], [u64; 6])) -> (r: Result<([u8; 32], u8), NvsError>)
        requires
            old(self).wf(),
        ensures
            final(self).wf(),
            final(self).flash_view() == old(self).flash_view(),
            already_initialized(old(self)@) ==> r == Err::<([u8; 32], u8), NvsError>(NvsError::AlreadyInitialized)
                && final(self)@ == old(self)@,
            r is Err ==> final(self)@ == old(self)@,
            r matches Err(e) ==> init_refusal(old(self)@, SoftwareNvsPepper, e),
            r matches Ok((key, slot)) ==> slot == 0 && exists|p: PreparedSeedInit| #![trigger p.header]
                p.header@ == init_header(p.header.salt@)
                && (exists|pepper: Seq<u8>| key@ == #[trigger] master_key_v2(pin.spec_bytes(), p.header.salt@, pepper))
                && p.slot_record@ == sealed_slot(key@, p.slot_record.nonce@, seed64@, pub_xy.0@, pub_xy.1@)
                && final(self)@ == splice(old(self)@, 0, init_core(old(self)@.subrange(0, SEED_CORE_STORAGE_SIZE as int),
                    p.header@, p.slot_record@)),
    {
        let mut pepper = SoftwareNvsPepper;
        self.initialize_pin_with_pepper(pin, seed64, pub_xy, &mut pepper)
    }

    /// Checks `pin` and derives the master key, with the software pepper.
    pub fn derive_master_key_for_pin<R: Fn(&[u8; 64]) -> ([u64; 6], [u64; 6])>(&mut self, pin: &str, root_pub: &R) -> (r: Result<[u8; 32], NvsError>)
        requires
            old(self).wf(),
            forall|s: &[u8; 64]| call_requires(*root_pub, (s,)),
        ensures
            final(self).wf(),
            final(self).flash_view() == old(self).flash_view(),
            pin_key_derived(old(self)@, final(self)@, pin.spec_bytes(), SoftwareNvsPepper, *root_pub, r),
    {
        let mut pepper = SoftwareNvsPepper;
        self.derive_master_key_for_pin_with_pepper(pin, &mut pepper, root_pub)
    }

    /// Prepares a PIN change, counting the old PIN against the lockout.
    pub fn prepare_change_pin_with_pepper<P: NvsPepperSource, R: Fn(&[u8; 64]) -> ([u64; 6], [u64; 6])>(
        &self,
        old_pin: &str,
        new_pin: &str,
        source: &mut P,
        root_pub: &R,
    ) -> (r: Result<(PreparedSeedRewrite, Vec<[u8; 64]>, [u8; 32]), NvsError>)
        requires
            self.wf(),
            forall|s: &[u8; 64]| call_requires(*root_pub, (s,)),
        ensures
            unlock_gate(self@, true) matches Err(e) ==> r == Err::<(PreparedSeedRewrite, Vec<[u8; 64]>, [u8; 32]), NvsError>(e),
            r matches Ok((p, seeds, key)) ==> unlock_gate(self@, true) matches Ok(h)
                && (exists|old_key: Seq<u8>| #[trigger] slots_unlocked(self@, old_key, *root_pub, seeds@, h.slot_count as int))
                && rewrite_prepared(p, key@, new_pin.spec_bytes(), seeds@, p.labels@, p.calibration, p.gui_theme, *root_pub),
    {
        self.prepare_change_pin_inner(old_pin, new_pin, source, true, root_pub)
    }

    /// Prepares a PIN change whose attempt was already charged with
    /// `begin_pin_attempt`, so the lockout gate is skipped.
    pub fn prepare_change_pin_with_pepper_precharged<P: NvsPepperSource, R: Fn(&[u8; 64]) -> ([u64; 6], [u64; 6])>(
        &self,
        old_pin: &str,
        new_pin: &str,
        source: &mut P,
        root_pub: &R,
    ) -> (r: Result<(PreparedSeedRewrite, Vec<[u8; 64]>, [u8; 32]), NvsError>)
        requires
            self.wf(),
            forall|s: &[u8; 64]| call_requires(*root_pub, (s,)),
        ensures
            unlock_gate(self@, false) matches Err(e) ==> r == Err::<(PreparedSeedRewrite, Vec<[u8; 64]>, [u8; 32]), NvsError>(e),
            r matches Ok((p, seeds, key)) ==> unlock_gate(self@, false) matches Ok(h)
                && (exists|old_key: Seq<u8>| #[trigger] slots_unlocked(self@, old_key, *root_pub, seeds@, h.slot_count as int))
                && rewrite_prepared(p, key@, new_pin.spec_bytes(), seeds@, p.labels@, p.calibration, p.gui_theme, *root_pub),
    {
        self.prepare_change_pin_inner(old_pin, new_pin, source, false, root_pub)
    }
}

} // verus!
