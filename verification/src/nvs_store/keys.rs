//! Master-key derivation from the PIN and the sealing of seed records.
use vstd::prelude::*;
use vstd::string::StringSliceAdditionalSpecFns;
use crate::crypto::{
    aes256gcm_decrypt_64, aes256gcm_encrypt_64, aes256gcm_seal, pbkdf2_hmac_sha256, pbkdf2_hmac_sha256_32,
    random_bytes_12, sha256, sha256_digest,
};
use super::layout::{NVS_V2_PEPPER_MESSAGE_LEN, PBKDF2_ROUNDS, VERSION_V1, VERSION_V2};
use super::records::{Header, HeaderView, SlotRecord, SlotView};
use super::store::NvsError;

verus! {

/// The fixed pepper used when no hardware pepper is available.
pub open spec fn software_pepper() -> Seq<u8> {
    seq![0x6Eu8, 0x6F, 0x63, 0x6B, 0x73, 0x74, 0x65, 0x72, 0x2D, 0x64, 0x65, 0x76, 0x2D, 0x6E, 0x76, 0x73,
        0x2D, 0x76, 0x32, 0x2D, 0x70, 0x65, 0x70, 0x70, 0x65, 0x72, 0x2D, 0x30, 0x30, 0x30, 0x30, 0x30]
}

/// Domain tag of the message a hardware pepper is computed over.
pub open spec fn pepper_domain() -> Seq<u8> {
    seq![0x6Eu8, 0x6F, 0x63, 0x6B, 0x73, 0x74, 0x65, 0x72, 0x2D, 0x6E, 0x76, 0x73, 0x2D, 0x76, 0x32]
}

/// Domain tag of the version-2 master key.
pub open spec fn master_domain() -> Seq<u8> {
    seq![0x6Eu8, 0x6F, 0x63, 0x6B, 0x73, 0x74, 0x65, 0x72, 0x2D, 0x6E, 0x76, 0x73, 0x2D, 0x6D, 0x61, 0x73,
        0x74, 0x65, 0x72, 0x2D, 0x76, 0x32]
}

pub fn software_pepper_bytes() -> (p: [u8; 32])
    ensures
        p@ == software_pepper(),
{
    let p: [u8; 32] = [0x6E, 0x6F, 0x63, 0x6B, 0x73, 0x74, 0x65, 0x72, 0x2D, 0x64, 0x65, 0x76, 0x2D, 0x6E, 0x76,
        0x73, 0x2D, 0x76, 0x32, 0x2D, 0x70, 0x65, 0x70, 0x70, 0x65, 0x72, 0x2D, 0x30, 0x30, 0x30, 0x30, 0x30];
    assert(p@ =~= software_pepper());
    p
}

fn push_all(out: &mut Vec<u8>, src: &[u8])
    ensures
        final(out)@ == old(out)@ + src@,
{
    let mut i: usize = 0;
    while i < src.len()
        invariant
            i <= src@.len(),
            out@ == old(out)@ + src@.subrange(0, i as int),
        decreases src@.len() - i,
    {
        out.push(src[i]);
        i += 1;
        assert(out@ =~= old(out)@ + src@.subrange(0, i as int));
    }
    assert(src@.subrange(0, src@.len() as int) =~= src@);
}

fn master_domain_bytes() -> (r: Vec<u8>)
    ensures
        r@ == master_domain(),
{
    let r = vec![0x6Eu8, 0x6F, 0x63, 0x6B, 0x73, 0x74, 0x65, 0x72, 0x2D, 0x6E, 0x76, 0x73, 0x2D, 0x6D, 0x61, 0x73,
        0x74, 0x65, 0x72, 0x2D, 0x76, 0x32];
    assert(r@ =~= master_domain());
    r
}

/// The message a hardware pepper is computed over: the domain tag, the
/// store salt and the device MAC address.
pub fn nvs_v2_pepper_message(salt: &[u8; 32], mac: &[u8; 6]) -> (out: [u8; 53])
    ensures
        out@ == pepper_domain() + salt@ + mac@,
        out@.len() == NVS_V2_PEPPER_MESSAGE_LEN,
{
    let mut out = [0u8; 53];
    let domain: [u8; 15] = [0x6E, 0x6F, 0x63, 0x6B, 0x73, 0x74, 0x65, 0x72, 0x2D, 0x6E, 0x76, 0x73, 0x2D, 0x76, 0x32];
    assert(domain@ =~= pepper_domain());
    let mut i: usize = 0;
    while i < 53
        invariant
            i <= 53,
            domain@ == pepper_domain(),
            forall|j: int| 0 <= j < i ==> out@[j] == (pepper_domain() + salt@ + mac@)[j],
        decreases 53 - i,
    {
        let b = if i < 15 { domain[i] } else if i < 47 { salt[i - 15] } else { mac[i - 47] };
        out[i] = b;
        i += 1;
    }
    assert(out@ =~= pepper_domain() + salt@ + mac@);
    out
}

/// A source of the version-2 pepper, keyed by the store salt. `Ok(None)`
/// selects the software pepper.
pub trait NvsPepperSource {
    /// Whether `answer` is an answer this source may give for `salt`.
    spec fn pepper_answers(&self, salt: Seq<u8>, answer: Result<Option<[u8; 32]>, NvsError>) -> bool;

    /// The pepper for `salt`: a pepper of its own, `None` to fall back on the
    /// software pepper, or an error.
    fn nvs_v2_pepper(&mut self, salt: &[u8; 32]) -> (r: Result<Option<[u8; 32]>, NvsError>)
        ensures
            old(self).pepper_answers(salt@, r);
}

/// The pepper source of devices without a hardware key: the software pepper.
pub struct SoftwareNvsPepper;

impl NvsPepperSource for SoftwareNvsPepper {
    open spec fn pepper_answers(&self, salt: Seq<u8>, answer: Result<Option<[u8; 32]>, NvsError>) -> bool {
        answer matches Ok(Some(p)) && p@ == software_pepper()
    }

    fn nvs_v2_pepper(&mut self, salt: &[u8; 32]) -> (r: Result<Option<[u8; 32]>, NvsError>)
        ensures
            r matches Ok(Some(p)) && p@ == software_pepper(),
    {
        Ok(Some(software_pepper_bytes()))
    }
}

/// The pepper a source's answer selects: its own, or the software pepper.
pub open spec fn pepper_choice(answer: Result<Option<[u8; 32]>, NvsError>) -> Result<Seq<u8>, NvsError> {
    match answer {
        Ok(Some(p)) => Ok(p@),
        Ok(None) => Ok(software_pepper()),
        Err(e) => Err(e),
    }
}

pub fn pepper_or_software(answer: Result<Option<[u8; 32]>, NvsError>) -> (r: Result<[u8; 32], NvsError>)
    ensures
        match r {
            Ok(p) => pepper_choice(answer) == Ok::<Seq<u8>, NvsError>(p@),
            Err(e) => pepper_choice(answer) == Err::<Seq<u8>, NvsError>(e),
        },
{
    match answer {
        Ok(Some(p)) => Ok(p),
        Ok(None) => Ok(software_pepper_bytes()),
        Err(e) => Err(e),
    }
}

/// Ask the source for the pepper of `salt`: its own pepper, the software
/// pepper where it has none, or its error.
pub fn nvs_v2_pepper_or_software<P: NvsPepperSource>(salt: &[u8; 32], source: &mut P) -> (r: Result<[u8; 32], NvsError>)
    ensures
        r matches Ok(p) ==> p@.len() == 32,
        exists|answer: Result<Option<[u8; 32]>, NvsError>| #[trigger] old(source).pepper_answers(salt@, answer)
            && match r {
                Ok(p) => pepper_choice(answer) == Ok::<Seq<u8>, NvsError>(p@),
                Err(e) => pepper_choice(answer) == Err::<Seq<u8>, NvsError>(e),
            },
{
    let answer = source.nvs_v2_pepper(salt);
    pepper_or_software(answer)
}

/// PBKDF2-HMAC-SHA256 of the PIN under the salt.
pub open spec fn pin_key(pin: Seq<u8>, salt: Seq<u8>) -> Seq<u8> {
    pbkdf2_hmac_sha256(pin, salt, PBKDF2_ROUNDS)
}

/// Version-2 key: SHA-256 of the domain tag, the PIN key and the pepper.
pub open spec fn master_key_v2(pin: Seq<u8>, salt: Seq<u8>, pepper: Seq<u8>) -> Seq<u8> {
    sha256(master_domain() + pin_key(pin, salt) + pepper)
}

/// The master key of a store of `version`; version 2 needs a pepper.
pub open spec fn master_key_spec(pin: Seq<u8>, version: u8, salt: Seq<u8>, pepper: Option<Seq<u8>>) -> Option<Seq<u8>> {
    if version == VERSION_V1 {
        Some(pin_key(pin, salt))
    } else if version == VERSION_V2 {
        match pepper {
            Some(p) => Some(master_key_v2(pin, salt, p)),
            None => None,
        }
    } else {
        None
    }
}

pub fn derive_master_key_v1(pin: &str, salt: &[u8; 32]) -> (r: Result<[u8; 32], NvsError>)
    ensures
        r matches Ok(k) && k@ == pin_key(pin.spec_bytes(), salt@),
{
    match pbkdf2_hmac_sha256_32(pin.as_bytes(), salt.as_slice(), PBKDF2_ROUNDS) {
        Ok(k) => Ok(k),
        Err(_) => Err(NvsError::Crypto),
    }
}

pub fn derive_master_key_v2(pin: &str, salt: &[u8; 32], pepper: &[u8; 32]) -> (r: Result<[u8; 32], NvsError>)
    ensures
        r matches Ok(k) && k@ == master_key_v2(pin.spec_bytes(), salt@, pepper@),
{
    let mut pin_key = derive_master_key_v1(pin, salt)?;
    let mut msg = master_domain_bytes();
    push_all(&mut msg, pin_key.as_slice());
    push_all(&mut msg, pepper.as_slice());
    let digest = sha256_digest(msg.as_slice());
    crate::crypto::zeroize_array(&mut pin_key);
    Ok(digest)
}

pub fn derive_master_key_for_header(pin: &str, h: &Header, pepper: Option<&[u8; 32]>) -> (r: Result<[u8; 32], NvsError>)
    ensures
        match master_key_spec(pin.spec_bytes(), h.version, h.salt@, match pepper { Some(p) => Some(p@), None => None }) {
            Some(k) => (r matches Ok(key) && key@ == k),
            None => r == Err::<[u8; 32], NvsError>(NvsError::Crypto),
        },
{
    if h.version == VERSION_V1 {
        derive_master_key_v1(pin, &h.salt)
    } else if h.version == VERSION_V2 {
        match pepper {
            Some(p) => derive_master_key_v2(pin, &h.salt, p),
            None => Err(NvsError::Crypto),
        }
    } else {
        Err(NvsError::Crypto)
    }
}

/// `r` is the key `k` names, or `Crypto` where there is none.
pub open spec fn key_result(k: Option<Seq<u8>>, r: Result<[u8; 32], NvsError>) -> bool {
    match k {
        Some(k) => r matches Ok(key) && key@ == k,
        None => r == Err::<[u8; 32], NvsError>(NvsError::Crypto),
    }
}

/// What deriving the key of header `h` for `pin` gives: for a version-2
/// header, an answer `source` may give for the salt, and then its error or
/// the key with the pepper it selects; otherwise the key without a pepper.
pub open spec fn derived_key<P: NvsPepperSource>(pin: Seq<u8>, h: HeaderView, source: P, r: Result<[u8; 32], NvsError>) -> bool {
    if h.version == VERSION_V2 {
        exists|ans: Result<Option<[u8; 32]>, NvsError>| #[trigger] source.pepper_answers(h.salt, ans)
            && match pepper_choice(ans) {
                Err(e) => r == Err::<[u8; 32], NvsError>(e),
                Ok(p) => key_result(master_key_spec(pin, h.version, h.salt, Some(p)), r),
            }
    } else {
        key_result(master_key_spec(pin, h.version, h.salt, None), r)
    }
}

/// Derive the key of `h`, asking the source for a pepper when the header is
/// version 2. A source error is returned as is.
pub fn derive_master_key_with_source<P: NvsPepperSource>(pin: &str, h: &Header, source: &mut P) -> (r: Result<[u8; 32], NvsError>)
    ensures
        derived_key(pin.spec_bytes(), h@, *old(source), r),
        h.version != VERSION_V1 && h.version != VERSION_V2 ==> r == Err::<[u8; 32], NvsError>(NvsError::Crypto),
        h.version == VERSION_V1 ==> (r matches Ok(k) && k@ == pin_key(pin.spec_bytes(), h.salt@)),
        h.version == VERSION_V2 ==> (r matches Ok(k) ==> exists|p: Seq<u8>| p.len() == 32
            && k@ == #[trigger] master_key_v2(pin.spec_bytes(), h.salt@, p)),
{
    if h.version == VERSION_V2 {
        let ghost src0 = *source;
        let mut pepper = match nvs_v2_pepper_or_software(&h.salt, source) {
            Ok(p) => p,
            Err(e) => {
                proof {
                    let ans = choose|ans: Result<Option<[u8; 32]>, NvsError>| #[trigger] src0.pepper_answers(h.salt@, ans)
                        && pepper_choice(ans) == Err::<Seq<u8>, NvsError>(e);
                    assert(src0.pepper_answers(h@.salt, ans));
                }
                return Err(e);
            },
        };
        let r = derive_master_key_for_header(pin, h, Some(&pepper));
        crate::crypto::zeroize_array(&mut pepper);
        r
    } else {
        derive_master_key_for_header(pin, h, None)
    }
}

/// A slot holding `seed` sealed under `key` with `nonce`.
pub open spec fn sealed_slot(key: Seq<u8>, nonce: Seq<u8>, seed: Seq<u8>, pub_x: Seq<u64>, pub_y: Seq<u64>) -> SlotView {
    SlotView { nonce, enc_seed: aes256gcm_seal(key, nonce, seed), pub_x, pub_y }
}

/// `seed` is the 64-byte plaintext that `slot` seals under `key`.
pub open spec fn opens_to(key: Seq<u8>, slot: SlotView, seed: Seq<u8>) -> bool {
    seed.len() == 64 && aes256gcm_seal(key, slot.nonce, seed) == slot.enc_seed
}

/// Seal a seed with a given nonce.
pub fn seal_seed_record(key: &[u8; 32], nonce: [u8; 12], seed: &[u8; 64], pub_xy: ([u64; 6], [u64; 6])) -> (r: Result<SlotRecord, NvsError>)
    ensures
        r matches Ok(rec) && rec@ == sealed_slot(key@, nonce@, seed@, pub_xy.0@, pub_xy.1@),
{
    match aes256gcm_encrypt_64(key, &nonce, seed) {
        Ok(enc_seed) => Ok(SlotRecord { nonce, enc_seed, pub_x: pub_xy.0, pub_y: pub_xy.1 }),
        Err(_) => Err(NvsError::Crypto),
    }
}

/// Seal a seed under a fresh random nonce.
pub fn encrypt_seed_record(key: &[u8; 32], seed: &[u8; 64], pub_xy: ([u64; 6], [u64; 6])) -> (r: Result<SlotRecord, NvsError>)
    ensures
        match r {
            Ok(rec) => rec@ == sealed_slot(key@, rec.nonce@, seed@, pub_xy.0@, pub_xy.1@),
            Err(e) => e == NvsError::Crypto,
        },
{
    let nonce = match random_bytes_12() {
        Ok(n) => n,
        Err(_) => return Err(NvsError::Crypto),
    };
    seal_seed_record(key, nonce, seed, pub_xy)
}

/// Open a slot: the one seed it seals under `key`, or `Crypto` when none does.
pub fn decrypt_seed(key: &[u8; 32], rec: &SlotRecord) -> (r: Result<[u8; 64], NvsError>)
    ensures
        match r {
            Ok(seed) => opens_to(key@, rec@, seed@) && forall|q: Seq<u8>| opens_to(key@, rec@, q) ==> q == seed@,
            Err(e) => e == NvsError::Crypto && forall|q: Seq<u8>| !opens_to(key@, rec@, q),
        },
{
    match aes256gcm_decrypt_64(key, &rec.nonce, &rec.enc_seed) {
        Ok(seed) => Ok(seed),
        Err(_) => Err(NvsError::Crypto),
    }
}

/// A sealed seed opens to itself, and to nothing else.
pub proof fn lemma_sealed_opens(key: Seq<u8>, nonce: Seq<u8>, seed: Seq<u8>, pub_x: Seq<u64>, pub_y: Seq<u64>)
    requires
        seed.len() == 64,
    ensures
        opens_to(key, sealed_slot(key, nonce, seed, pub_x, pub_y), seed),
{
}

} // verus!
