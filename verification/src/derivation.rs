//! BIP32 key derivation for the host: extended public keys, the master key
//! fingerprint and child signing secrets, all from the seeds the session
//! holds. The derivation itself is done by the `bip32` crate.
use vstd::prelude::*;
use bip32::{ChildNumber, DerivationPath, XPrv};
use ripemd::Digest;
use crate::crypto::{sha256, sha256_digest, zeroize_array};
use crate::session::{self, effective_active, Session};
use crate::types::CheetahPub;

verus! {

/// Bit 31 of a path element marks a hardened step.
pub const HARDENED_FLAG: u32 = 0x8000_0000;

/// An extended public key as reported to the host.
#[derive(Clone, Copy, Debug, PartialEq, Eq)]
pub struct Xpub {
    pub depth: u8,
    pub fp4: [u8; 4],
    pub child: u32,
    pub chain_code: [u8; 32],
    pub pubkey33: [u8; 33],
}

/// What one derivation along a path yields: the public side and the secret.
#[derive(Clone, Copy)]
pub struct DerivedKey {
    pub xpub: Xpub,
    pub secret: [u8; 32],
}

/// The key `bip32::XPrv::derive_from_path` derives from `seed` along the
/// steps `(index, hardened)`, or `None` where it fails.
pub uninterp spec fn bip32_derive(seed: Seq<u8>, steps: Seq<(u32, bool)>) -> Option<DerivedKey>;

/// The compressed public key of the root key `bip32::XPrv::new` makes from
/// `seed`, or `None` where it fails.
pub uninterp spec fn bip32_root_pubkey(seed: Seq<u8>) -> Option<Seq<u8>>;

/// RIPEMD-160 of a byte string, as computed by `ripemd`.
pub uninterp spec fn ripemd160(data: Seq<u8>) -> Seq<u8>;

/// The step a raw path element stands for: its low 31 bits and its
/// hardened bit.
pub open spec fn step_of(p: u32) -> (u32, bool) {
    (p & 0x7FFF_FFFF, p & HARDENED_FLAG != 0)
}

pub open spec fn steps_of(path: Seq<u32>) -> Seq<(u32, bool)> {
    path.map_values(|p: u32| step_of(p))
}

/// `bip32::XPrv::derive_from_path` on a 64-byte seed along a path built
/// with `ChildNumber::new(index, hardened)` for each step (each index is
/// below 2^31, so `new` accepts it). On success the extended public key's
/// depth, parent fingerprint, child number, chain code and compressed key
/// are copied out together with the private key bytes. The result is the
/// one named `bip32_derive`.
#[verifier::external_body]
fn xprv_derive_from_path(seed: &[u8; 64], steps: &[(u32, bool)]) -> (r: Result<DerivedKey, ()>)
    requires
        forall|i: int| 0 <= i < steps@.len() ==> (#[trigger] steps@[i]).0 < HARDENED_FLAG,
    ensures
        match bip32_derive(seed@, steps@) {
            Some(k) => r == Ok::<DerivedKey, ()>(k),
            None => r is Err,
        },
{
    let mut dp = DerivationPath::default();
    for &(index, hardened) in steps {
        dp.push(ChildNumber::new(index, hardened).map_err(|_| ())?);
    }
    let child = XPrv::derive_from_path(seed, &dp).map_err(|_| ())?;
    let attrs = child.attrs();
    let pubkey33 = bip32::PublicKey::to_bytes(child.public_key().public_key());
    let (depth, fp4, chain_code) = (attrs.depth, attrs.parent_fingerprint, attrs.chain_code);
    let xpub = Xpub { depth, fp4, child: u32::from(attrs.child_number), chain_code, pubkey33 };
    Ok(DerivedKey { xpub, secret: child.to_bytes() })
}

/// `bip32::XPrv::new` on a 64-byte seed, then the compressed encoding of
/// its public key; the bytes are those named `bip32_root_pubkey`.
#[verifier::external_body]
fn xprv_root_pubkey(seed: &[u8; 64]) -> (r: Result<[u8; 33], ()>)
    ensures
        match bip32_root_pubkey(seed@) {
            Some(p) => r matches Ok(k) && k@ == p,
            None => r is Err,
        },
{
    let root = XPrv::new(seed).map_err(|_| ())?;
    Ok(bip32::PublicKey::to_bytes(root.public_key().public_key()))
}

/// `ripemd::Ripemd160::digest`: the 20-byte digest named `ripemd160`.
#[verifier::external_body]
fn ripemd160_digest(data: &[u8]) -> (r: [u8; 20])
    ensures
        r@ == ripemd160(data@),
{
    ripemd::Ripemd160::digest(data).into()
}

/// A path given as raw elements, turned into `(index, hardened)` steps.
pub fn path_to_derivation(path: &[u32]) -> (steps: Vec<(u32, bool)>)
    ensures
        steps@ == steps_of(path@),
        forall|i: int| 0 <= i < steps@.len() ==> (#[trigger] steps@[i]).0 < HARDENED_FLAG,
{
    let mut steps: Vec<(u32, bool)> = Vec::new();
    let mut i: usize = 0;
    while i < path.len()
        invariant
            i <= path.len(),
            steps@ == steps_of(path@).subrange(0, i as int),
            forall|j: int| 0 <= j < steps@.len() ==> (#[trigger] steps@[j]).0 < HARDENED_FLAG,
        decreases path.len() - i,
    {
        let p = path[i];
        let index = p & 0x7FFF_FFFF;
        assert(index < HARDENED_FLAG) by (bit_vector)
            requires index == p & 0x7FFF_FFFF;
        steps.push((index, p & HARDENED_FLAG != 0));
        i += 1;
        assert(steps@ =~= steps_of(path@).subrange(0, i as int));
    }
    assert(steps_of(path@).subrange(0, path@.len() as int) =~= steps_of(path@));
    steps
}

/// The seed the host's requests act on: the active one.
pub open spec fn active_seed(s: Session) -> Option<[u8; 64]> {
    if s.view().slots.len() == 0 { None } else { Some(s.view().slots[effective_active(s.view())]) }
}

/// The extended public key at `path` under the active seed. Fails with no
/// seed held or where the derivation fails.
pub fn get_xpub(session: &Session, path: &[u32]) -> (r: Result<Xpub, ()>)
    ensures
        match active_seed(*session) {
            None => r is Err,
            Some(seed) => match bip32_derive(seed@, steps_of(path@)) {
                Some(k) => r == Ok::<Xpub, ()>(k.xpub),
                None => r is Err,
            },
        },
{
    let mut seed = session::get_active_seed_copy(session)?;
    let steps = path_to_derivation(path);
    let derived = xprv_derive_from_path(&seed, &steps);
    zeroize_array(&mut seed);
    match derived {
        Ok(mut k) => {
            let xpub = k.xpub;
            zeroize_array(&mut k.secret);
            Ok(xpub)
        },
        Err(()) => Err(()),
    }
}

/// The first four bytes of RIPEMD-160 over SHA-256 of a public key.
pub open spec fn fingerprint_of(pubkey: Seq<u8>) -> Seq<u8> {
    ripemd160(sha256(pubkey)).subrange(0, 4)
}

/// The fingerprint of the active seed's root public key.
pub fn master_fingerprint_for_active(session: &Session) -> (r: Result<[u8; 4], ()>)
    ensures
        match active_seed(*session) {
            None => r is Err,
            Some(seed) => match bip32_root_pubkey(seed@) {
                Some(p) => r matches Ok(fp) && fp@ == fingerprint_of(p),
                None => r is Err,
            },
        },
{
    let mut seed = session::get_active_seed_copy(session)?;
    let root = xprv_root_pubkey(&seed);
    zeroize_array(&mut seed);
    let pubkey = root?;
    let sha = sha256_digest(&pubkey);
    let ripe = ripemd160_digest(&sha);
    let fp4: [u8; 4] = [ripe[0], ripe[1], ripe[2], ripe[3]];
    assert(fp4@ =~= fingerprint_of(pubkey@));
    Ok(fp4)
}

/// The signing secret at `path` under the seed in `slot`. Fails for a slot
/// not held or where the derivation fails.
pub fn derive_signing_key_for_slot(session: &Session, path: &[u32], slot: usize) -> (r: Result<[u8; 32], ()>)
    ensures
        slot >= session.view().slots.len() ==> r is Err,
        slot < session.view().slots.len() ==> match bip32_derive(session.view().slots[slot as int]@, steps_of(path@)) {
            Some(k) => r == Ok::<[u8; 32], ()>(k.secret),
            None => r is Err,
        },
{
    let mut seed = session::get_seed_for_slot(session, slot)?;
    let steps = path_to_derivation(path);
    let derived = xprv_derive_from_path(&seed, &steps);
    zeroize_array(&mut seed);
    match derived {
        Ok(k) => Ok(k.secret),
        Err(()) => Err(()),
    }
}

/// The signing secret at `path` under the active seed.
pub fn derive_signing_key_active(session: &Session, path: &[u32]) -> (r: Result<[u8; 32], ()>)
    ensures
        match active_seed(*session) {
            None => r is Err,
            Some(seed) => match bip32_derive(seed@, steps_of(path@)) {
                Some(k) => r == Ok::<[u8; 32], ()>(k.secret),
                None => r is Err,
            },
        },
{
    let slot = session::active_slot_index(session)?;
    derive_signing_key_for_slot(session, path, slot)
}

/// The root public key of every seed in RAM, by slot, as `root_pub`
/// computes it.
pub fn collect_info_pubs_from_ram<R: Fn(&[u8; 64]) -> ([u64; 6], [u64; 6])>(session: &Session, root_pub: &R) -> (out: Vec<CheetahPub>)
    requires
        forall|s: &[u8; 64]| call_requires(*root_pub, (s,)),
    ensures
        out@.len() == session.view().slots.len(),
        forall|i: int| 0 <= i < out@.len() ==> (#[trigger] out@[i]).slot == i
            && call_ensures(*root_pub, (&session.view().slots[i],), (out@[i].x, out@[i].y)),
{
    let seeds = session::seed_slots_copy(session);
    let mut out: Vec<CheetahPub> = Vec::new();
    let mut i: usize = 0;
    while i < seeds.len()
        invariant
            seeds@ == session.view().slots,
            seeds@.len() <= crate::limits::MAX_SEED_SLOTS,
            i <= seeds.len(),
            out@.len() == i,
            forall|s: &[u8; 64]| call_requires(*root_pub, (s,)),
            forall|j: int| 0 <= j < i ==> (#[trigger] out@[j]).slot == j
                && call_ensures(*root_pub, (&seeds@[j],), (out@[j].x, out@[j].y)),
        decreases seeds.len() - i,
    {
        let (x, y) = root_pub(&seeds[i]);
        out.push(CheetahPub { slot: i as u8, x, y });
        i += 1;
    }
    out
}

} // verus!
