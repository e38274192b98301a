//! The secp256k1 requests answered from the active seed: the master
//! fingerprint, extended and plain public keys, and ECDSA signatures over a
//! digest. Key derivation is BIP32; the curve work is done by `k256`.
use vstd::prelude::*;
use k256::ecdsa::signature::hazmat::PrehashSigner;
use k256::ecdsa::{Signature, SigningKey};
use k256::elliptic_curve::sec1::ToEncodedPoint;
use crate::derivation::{
    active_seed, bip32_derive, bip32_root_pubkey, derive_signing_key_active, fingerprint_of, get_xpub,
    master_fingerprint_for_active, steps_of,
};
use crate::limits::ErrCode;
use crate::protocol::{is_err, Response};
use crate::session::Session;

verus! {

/// A request answered with a secp256k1 key or signature.
pub enum SigningRequest {
    GetFingerprint,
    GetPubkey { path: Vec<u32>, compressed: bool },
    SignDigest { path: Vec<u32>, digest32: [u8; 32] },
    GetXpub { path: Vec<u32> },
}

/// Why no signature was made: the secret is not a valid scalar, or the
/// signing itself failed.
#[derive(Clone, Copy, Debug, PartialEq, Eq, Structural)]
pub enum EcdsaFailure {
    BadKey,
    Signing,
}

/// The SEC1 encoding (compressed or not) of the public key of `secret`, as
/// `k256` computes it, or `None` when `secret` is not a valid scalar.
pub uninterp spec fn secp256k1_public_key(secret: Seq<u8>, compressed: bool) -> Option<Seq<u8>>;

/// The low-s ECDSA signature (RFC 6979 nonce) `k256` makes over `digest`
/// with `secret`, as `r || s`, or why it makes none.
pub uninterp spec fn ecdsa_prehash_signature(secret: Seq<u8>, digest: Seq<u8>) -> Result<Seq<u8>, EcdsaFailure>;

/// `SigningKey::from_bytes`, then the verifying key's SEC1 encoding
/// (`to_encoded_point`): 33 bytes compressed, 65 otherwise. The bytes are
/// those named `secp256k1_public_key`; a secret that is no valid scalar is
/// refused.
#[verifier::external_body]
fn k256_public_key(secret: &[u8; 32], compressed: bool) -> (r: Result<Vec<u8>, ()>)
    ensures
        match secp256k1_public_key(secret@, compressed) {
            Some(p) => r matches Ok(v) && v@ == p,
            None => r is Err,
        },
        r matches Ok(v) ==> v@.len() == if compressed { 33nat } else { 65nat },
{
    let sk = SigningKey::from_bytes(secret.into()).map_err(|_| ())?;
    Ok(sk.verifying_key().to_encoded_point(compressed).as_bytes().to_vec())
}

/// `SigningKey::from_bytes`, `PrehashSigner::sign_prehash` (deterministic
/// nonce), and `Signature::normalize_s` where s is high: the 64 signature
/// bytes named `ecdsa_prehash_signature`, or which of the two calls failed.
#[verifier::external_body]
fn k256_sign_prehash(secret: &[u8; 32], digest: &[u8; 32]) -> (r: Result<[u8; 64], EcdsaFailure>)
    ensures
        match ecdsa_prehash_signature(secret@, digest@) {
            Ok(s) => r matches Ok(sig) && sig@ == s,
            Err(e) => r == Err::<[u8; 64], EcdsaFailure>(e),
        },
{
    let sk = SigningKey::from_bytes(secret.into()).map_err(|_| EcdsaFailure::BadKey)?;
    let sig: Signature = sk.sign_prehash(digest).map_err(|_| EcdsaFailure::Signing)?;
    let sig = sig.normalize_s().unwrap_or(sig);
    let mut out = [0u8; 64];
    out.copy_from_slice(&sig.to_bytes());
    Ok(out)
}

/// The reply owed to `req` for a session whose active seed is `seed`.
pub open spec fn signing_reply_ok(r: Response, req: SigningRequest, seed: Option<[u8; 64]>, locked: bool) -> bool {
    match req {
        SigningRequest::GetFingerprint => match seed {
            None => is_err(r, ErrCode::NoSeed),
            Some(s) => match bip32_root_pubkey(s@) {
                None => is_err(r, ErrCode::NoSeed),
                Some(p) => r matches Response::OkFingerprint { fp4 } && fp4@ == fingerprint_of(p),
            },
        },
        SigningRequest::GetXpub { path } => match seed {
            None => is_err(r, ErrCode::NoSeed),
            Some(s) => match bip32_derive(s@, steps_of(path@)) {
                None => is_err(r, ErrCode::NoSeed),
                Some(k) => r == Response::OkXpub(k.xpub),
            },
        },
        SigningRequest::GetPubkey { path, compressed } => match seed {
            None => is_err(r, ErrCode::NoSeed),
            Some(s) => match bip32_derive(s@, steps_of(path@)) {
                None => is_err(r, ErrCode::NoSeed),
                Some(k) => match secp256k1_public_key(k.secret@, compressed) {
                    None => is_err(r, ErrCode::NoSeed),
                    Some(p) => if compressed {
                        r matches Response::OkPubkeyCompressed { compressed: c } && c@ == p
                    } else {
                        r matches Response::OkPubkey { uncompressed: u } && u@ == p
                    },
                },
            },
        },
        SigningRequest::SignDigest { path, digest32 } => if locked {
            is_err(r, ErrCode::DeviceLocked)
        } else {
            match seed {
                None => is_err(r, ErrCode::NoSeed),
                Some(s) => match bip32_derive(s@, steps_of(path@)) {
                    None => is_err(r, ErrCode::NoSeed),
                    Some(k) => match ecdsa_prehash_signature(k.secret@, digest32@) {
                        Ok(sig) => r matches Response::OkSig { sig64 } && sig64@ == sig,
                        Err(EcdsaFailure::BadKey) => is_err(r, ErrCode::NoSeed),
                        Err(EcdsaFailure::Signing) => is_err(r, ErrCode::Crypto),
                    },
                },
            }
        },
    }
}

/// Answers a secp256k1 request from the active seed. Signing is refused
/// while the device is locked; a missing seed or a failed derivation is
/// reported as no seed.
pub fn handle_request(session: &Session, req: &SigningRequest, locked: bool) -> (r: Response)
    ensures
        signing_reply_ok(r, *req, active_seed(*session), locked),
{
    match req {
        SigningRequest::GetFingerprint => match master_fingerprint_for_active(session) {
            Ok(fp4) => Response::OkFingerprint { fp4 },
            Err(()) => Response::Error { code: ErrCode::NoSeed },
        },
        SigningRequest::GetXpub { path } => match get_xpub(session, path.as_slice()) {
            Ok(x) => Response::OkXpub(x),
            Err(()) => Response::Error { code: ErrCode::NoSeed },
        },
        SigningRequest::GetPubkey { path, compressed } => {
            let mut sk = match derive_signing_key_active(session, path.as_slice()) {
                Ok(sk) => sk,
                Err(()) => return Response::Error { code: ErrCode::NoSeed },
            };
            let encoded = k256_public_key(&sk, *compressed);
            crate::crypto::zeroize_array(&mut sk);
            match encoded {
                Ok(v) => {
                    if *compressed {
                        let mut out = [0u8; 33];
                        let mut i: usize = 0;
                        while i < 33
                            invariant
                                v@.len() == 33,
                                i <= 33,
                                forall|j: int| 0 <= j < i ==> out@[j] == v@[j],
                            decreases 33 - i,
                        {
                            out[i] = v[i];
                            i += 1;
                        }
                        assert(out@ =~= v@);
                        Response::OkPubkeyCompressed { compressed: out }
                    } else {
                        let mut out = [0u8; 65];
                        let mut i: usize = 0;
                        while i < 65
                            invariant
                                v@.len() == 65,
                                i <= 65,
                                forall|j: int| 0 <= j < i ==> out@[j] == v@[j],
                            decreases 65 - i,
                        {
                            out[i] = v[i];
                            i += 1;
                        }
                        assert(out@ =~= v@);
                        Response::OkPubkey { uncompressed: out }
                    }
                },
                Err(()) => Response::Error { code: ErrCode::NoSeed },
            }
        },
        SigningRequest::SignDigest { path, digest32 } => {
            if locked {
                return Response::Error { code: ErrCode::DeviceLocked };
            }
            let mut sk = match derive_signing_key_active(session, path.as_slice()) {
                Ok(sk) => sk,
                Err(()) => return Response::Error { code: ErrCode::NoSeed },
            };
            let signed = k256_sign_prehash(&sk, digest32);
            crate::crypto::zeroize_array(&mut sk);
            match signed {
                Ok(sig64) => Response::OkSig { sig64 },
                Err(EcdsaFailure::BadKey) => Response::Error { code: ErrCode::NoSeed },
                Err(EcdsaFailure::Signing) => Response::Error { code: ErrCode::Crypto },
            }
        },
    }
}

} // verus!
