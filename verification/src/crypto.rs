//! Trusted boundary to the cryptographic collaborators: ed25519 signatures,
//! the SHA-256 digest, hex encoding of addresses, and the wall clock.
//!
//! Each wrapper's contract states only what the wrapped crate's source shows;
//! results that take pages to state (a digest, a signature) are given a name
//! by an uninterpreted spec function of the inputs alone.

use vstd::prelude::*;

use ed25519_dalek::{Keypair, PublicKey, SecretKey, Signature};
use sha2::{Digest, Sha256};

use crate::structures::{Pubkey, Seckey, SigBytes};

verus! {

/// The 32 public-key bytes that ed25519 derives from the given secret-key bytes.
pub uninterp spec fn pubkey_of(sk: Seq<u8>) -> Seq<u8>;

/// The 64 signature bytes that ed25519 produces for the given secret key and message.
pub uninterp spec fn signature_of(sk: Seq<u8>, msg: Seq<u8>) -> Seq<u8>;

/// Whether ed25519 verification accepts the signature bytes for the given
/// public-key bytes and message.
pub uninterp spec fn sig_verifies(pk: Seq<u8>, msg: Seq<u8>, sig: Seq<u8>) -> bool;

/// The 32-byte SHA-256 digest of the given bytes.
pub uninterp spec fn sha256_of(data: Seq<u8>) -> Seq<u8>;

/// The lowercase hex digit for a value below 16.
pub open spec fn hex_digit(n: int) -> char {
    if n == 0 {
        '0'
    } else if n == 1 {
        '1'
    } else if n == 2 {
        '2'
    } else if n == 3 {
        '3'
    } else if n == 4 {
        '4'
    } else if n == 5 {
        '5'
    } else if n == 6 {
        '6'
    } else if n == 7 {
        '7'
    } else if n == 8 {
        '8'
    } else if n == 9 {
        '9'
    } else if n == 10 {
        'a'
    } else if n == 11 {
        'b'
    } else if n == 12 {
        'c'
    } else if n == 13 {
        'd'
    } else if n == 14 {
        'e'
    } else {
        'f'
    }
}

/// Lowercase hex encoding: two digits per byte, high nibble first.
pub open spec fn hex_of(b: Seq<u8>) -> Seq<char> {
    Seq::new(
        b.len() * 2,
        |i: int| if i % 2 == 0 {
            hex_digit(b[i / 2] as int / 16)
        } else {
            hex_digit(b[i / 2] as int % 16)
        },
    )
}

/// Relies on ed25519_dalek::Keypair::generate with rand's OsRng: a fresh
/// keypair whose public half is derived from its secret half.
#[verifier::external_body]
pub(crate) fn generate_keypair() -> (r: (Pubkey, Seckey))
    ensures
        r.0@ == pubkey_of(r.1@),
{
    let mut csprng = rand::rngs::OsRng;
    let keypair = Keypair::generate(&mut csprng);
    (keypair.public.to_bytes(), keypair.secret.to_bytes())
}

/// Relies on ed25519_dalek's `Signer::sign` for `Keypair`: the signature is a
/// function of the secret key and message alone, and verifies under the
/// public key derived from that secret key.
#[verifier::external_body]
pub(crate) fn sign_bytes(sk: &Seckey, msg: &[u8]) -> (r: SigBytes)
    ensures
        r@ == signature_of(sk@, msg@),
        sig_verifies(pubkey_of(sk@), msg@, r@),
{
    let secret = SecretKey::from_bytes(sk).expect("a 32-byte secret key");
    let public = PublicKey::from(&secret);
    let keypair = Keypair { secret, public };
    ed25519_dalek::Signer::sign(&keypair, msg).to_bytes()
}

/// Relies on ed25519_dalek's `Verifier::verify` for `PublicKey`: acceptance is
/// a function of the key, message and signature bytes alone; key or signature
/// bytes rejected at parse time count as failed verification.
#[verifier::external_body]
pub(crate) fn verify_bytes(pk: &Pubkey, msg: &[u8], sig: &SigBytes) -> (r: bool)
    ensures
        r == sig_verifies(pk@, msg@, sig@),
{
    let public = match PublicKey::from_bytes(pk) {
        Ok(p) => p,
        Err(_) => return false,
    };
    let signature = match Signature::from_bytes(sig) {
        Ok(s) => s,
        Err(_) => return false,
    };
    ed25519_dalek::Verifier::verify(&public, msg, &signature).is_ok()
}

/// Relies on sha2::Sha256: a 32-byte digest that is a function of the input
/// bytes alone.
#[verifier::external_body]
pub(crate) fn sha256(data: &[u8]) -> (r: [u8; 32])
    ensures
        r@ == sha256_of(data@),
        r@.len() == 32,
{
    let mut hasher = Sha256::new();
    hasher.update(data);
    let digest = hasher.finalize();
    let mut out = [0u8; 32];
    out.copy_from_slice(digest.as_slice());
    out
}

/// Relies on hex::encode: two lowercase hex digits per byte, high nibble first.
#[verifier::external_body]
pub(crate) fn hex_encode(data: &[u8]) -> (r: String)
    ensures
        r@ == hex_of(data@),
{
    hex::encode(data)
}

/// Relies on std::time::SystemTime::now: whole seconds since the Unix epoch,
/// 0 for a clock reading before it. Nothing is promised of the value.
#[verifier::external_body]
pub(crate) fn now_seconds() -> u64 {
    match std::time::SystemTime::now().duration_since(std::time::UNIX_EPOCH) {
        Ok(d) => d.as_secs(),
        Err(_) => 0,
    }
}

} // verus!
