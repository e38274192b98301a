//! Calls into the cryptography crates. Each item below is trusted: Verus
//! believes its contract without reading its body.
use vstd::prelude::*;
use aes_gcm::aead::{AeadInPlace, KeyInit};
use zeroize::Zeroize;
use sha2::Digest;

verus! {

/// PBKDF2 with HMAC-SHA256 and a 32-byte output, as computed by `pbkdf2`.
pub uninterp spec fn pbkdf2_hmac_sha256(password: Seq<u8>, salt: Seq<u8>, rounds: u32) -> Seq<u8>;

/// PBKDF2 with HMAC-SHA512 and a 64-byte output, as computed by `pbkdf2`.
pub uninterp spec fn pbkdf2_hmac_sha512(password: Seq<u8>, salt: Seq<u8>, rounds: u32) -> Seq<u8>;

/// SHA-256 digest of a byte string, as computed by `sha2`.
pub uninterp spec fn sha256(data: Seq<u8>) -> Seq<u8>;

/// AES-256-GCM with empty associated data: ciphertext followed by the
/// 16-byte tag, as computed by `aes-gcm`.
pub uninterp spec fn aes256gcm_seal(key: Seq<u8>, nonce: Seq<u8>, plaintext: Seq<u8>) -> Seq<u8>;

/// `pbkdf2::pbkdf2::<Hmac<Sha256>>` into a 32-byte buffer. The crate's
/// source returns an error only when the PRF rejects the key length, which
/// HMAC never does; the result is the PBKDF2 output named above.
#[verifier::external_body]
pub(crate) fn pbkdf2_hmac_sha256_32(password: &[u8], salt: &[u8], rounds: u32) -> (r: Result<[u8; 32], ()>)
    ensures
        r is Ok,
        r matches Ok(k) ==> k@ == pbkdf2_hmac_sha256(password@, salt@, rounds),
{
    let mut out = [0u8; 32];
    pbkdf2::pbkdf2::<hmac::Hmac<sha2::Sha256>>(password, salt, rounds, &mut out).map_err(|_| ())?;
    Ok(out)
}

/// `pbkdf2::pbkdf2::<Hmac<Sha512>>` into a 64-byte buffer; as above, HMAC
/// accepts every key so the call succeeds.
#[verifier::external_body]
pub(crate) fn pbkdf2_hmac_sha512_64(password: &[u8], salt: &[u8], rounds: u32) -> (r: Result<[u8; 64], ()>)
    ensures
        r is Ok,
        r matches Ok(k) ==> k@ == pbkdf2_hmac_sha512(password@, salt@, rounds),
{
    let mut out = [0u8; 64];
    pbkdf2::pbkdf2::<hmac::Hmac<sha2::Sha512>>(password, salt, rounds, &mut out).map_err(|_| ())?;
    Ok(out)
}

/// `sha2::Sha256::digest`: the 32-byte digest named `sha256`.
#[verifier::external_body]
pub(crate) fn sha256_digest(data: &[u8]) -> (r: [u8; 32])
    ensures
        r@ == sha256(data@),
{
    sha2::Sha256::digest(data).into()
}

/// `Aes256Gcm::encrypt_in_place_detached` on a 64-byte plaintext with empty
/// associated data, the tag appended. The crate refuses only plaintexts
/// longer than 2^36 bytes, so the call succeeds and returns the named seal.
#[verifier::external_body]
pub(crate) fn aes256gcm_encrypt_64(key: &[u8; 32], nonce: &[u8; 12], plaintext: &[u8; 64]) -> (r: Result<[u8; 80], ()>)
    ensures
        r is Ok,
        r matches Ok(c) ==> c@ == aes256gcm_seal(key@, nonce@, plaintext@),
{
    let cipher = aes_gcm::Aes256Gcm::new(key.into());
    let mut out = [0u8; 80];
    out[..64].copy_from_slice(plaintext);
    let tag = cipher.encrypt_in_place_detached(nonce.into(), b"", &mut out[..64]).map_err(|_| ())?;
    out[64..].copy_from_slice(&tag);
    Ok(out)
}

/// `Aes256Gcm::decrypt_in_place_detached` of a 64-byte ciphertext followed
/// by its tag. The crate recomputes the tag over the ciphertext and
/// decrypts only when it matches; with the keystream fixed by key and nonce
/// the plaintext is determined by the ciphertext. So a success returns the
/// one plaintext that seals to `sealed`, and a failure means none does.
#[verifier::external_body]
pub(crate) fn aes256gcm_decrypt_64(key: &[u8; 32], nonce: &[u8; 12], sealed: &[u8; 80]) -> (r: Result<[u8; 64], ()>)
    ensures
        match r {
            Ok(p) => aes256gcm_seal(key@, nonce@, p@) == sealed@
                && forall|q: Seq<u8>| q.len() == 64 && aes256gcm_seal(key@, nonce@, q) == sealed@ ==> q == p@,
            Err(_) => forall|q: Seq<u8>| q.len() == 64 ==> aes256gcm_seal(key@, nonce@, q) != sealed@,
        },
{
    let cipher = aes_gcm::Aes256Gcm::new(key.into());
    let mut out = [0u8; 64];
    out.copy_from_slice(&sealed[..64]);
    let tag = aes_gcm::Tag::from_slice(&sealed[64..]);
    cipher.decrypt_in_place_detached(nonce.into(), b"", &mut out, tag).map_err(|_| ())?;
    Ok(out)
}

/// `getrandom::getrandom` into a 32-byte buffer. The bytes come from the
/// platform source; nothing is stated of them.
#[verifier::external_body]
pub(crate) fn random_bytes_32() -> (r: Result<[u8; 32], ()>) {
    let mut out = [0u8; 32];
    getrandom::getrandom(&mut out).map_err(|_| ())?;
    Ok(out)
}

/// `getrandom::getrandom` into a 12-byte buffer; nothing is stated of the bytes.
#[verifier::external_body]
pub(crate) fn random_bytes_12() -> (r: Result<[u8; 12], ()>) {
    let mut out = [0u8; 12];
    getrandom::getrandom(&mut out).map_err(|_| ())?;
    Ok(out)
}

/// `zeroize::Zeroize::zeroize` on a byte array: every byte becomes zero.
#[verifier::external_body]
pub(crate) fn zeroize_array<const N: usize>(a: &mut [u8; N])
    ensures
        final(a)@ == Seq::new(N as nat, |i: int| 0u8),
{
    a.zeroize();
}

} // verus!
