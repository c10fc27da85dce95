//! The public-key box: key pairs, nonces, the shared box of two sides, sealing
//! and opening.

use crypto_box::aead::Aead;
use vstd::prelude::*;

verus! {

/// The box of the crypto_box crate: the cipher with the key that two sides
/// share. It is derived once and carried along.
#[verifier::external_type_specification]
#[verifier::external_body]
pub struct ExSalsaBox(::crypto_box::SalsaBox);

/// The cipher's error. Only that there is one is looked at.
#[verifier::external_type_specification]
#[verifier::external_body]
pub struct ExAeadError(::crypto_box::aead::Error);

/// The public key that belongs to a secret key.
pub uninterp spec fn x25519_public(secret: Seq<u8>) -> Seq<u8>;

/// The key that the holder of `secret` shares with the holder of the secret
/// key of `peer`.
pub uninterp spec fn shared_key(secret: Seq<u8>, peer: Seq<u8>) -> Seq<u8>;

/// The shared key that a box holds.
pub uninterp spec fn box_key(shared: ::crypto_box::SalsaBox) -> Seq<u8>;

/// What sealing `plain` gives under the shared key `key` with `nonce`;
/// nothing where the cipher refuses.
pub uninterp spec fn box_sealed(key: Seq<u8>, nonce: Seq<u8>, plain: Seq<u8>) -> Option<Seq<u8>>;

/// What opening `sealed` gives under the shared key `key` with `nonce`;
/// nothing where `sealed` does not authenticate.
pub uninterp spec fn box_opened(key: Seq<u8>, nonce: Seq<u8>, sealed: Seq<u8>) -> Option<Seq<u8>>;

/// Whether both sides of a key exchange hold the same key: whoever holds the
/// secret key of the public key `peer` shares `key` with the holder of the
/// secret key of `public`.
pub open spec fn reciprocal(key: Seq<u8>, public: Seq<u8>, peer: Seq<u8>) -> bool {
    forall|other: Seq<u8>|
        other.len() == 32 && #[trigger] x25519_public(other) == peer ==> shared_key(other, public)
            == key
}

/// `SecretKey::generate` on the thread's random number generator: 32 random
/// bytes. Nothing is known of them.
#[verifier::external_body]
pub(crate) fn generate_secret() -> (r: [u8; 32]) {
    *::crypto_box::SecretKey::generate(&mut ::rand::thread_rng()).as_bytes()
}

/// `xsalsa20poly1305::generate_nonce` on the thread's random number generator:
/// 24 random bytes. Nothing is known of them.
#[verifier::external_body]
pub(crate) fn generate_nonce() -> (r: [u8; 24]) {
    ::xsalsa20poly1305::generate_nonce(&mut ::rand::thread_rng()).into()
}

/// `SecretKey::public_key`. The public key depends on the secret key alone.
#[verifier::external_body]
pub(crate) fn public_key(secret: &[u8; 32]) -> (r: [u8; 32])
    ensures
        r@ == x25519_public(secret@),
{
    *::crypto_box::SecretKey::from(*secret).public_key().as_bytes()
}

/// `Box::new`: the box of this side's secret key and the peer's public key.
/// The key it holds depends on the two keys alone, and the peer, with its
/// secret key and this side's public key, computes the same.
#[verifier::external_body]
pub(crate) fn shared_box(secret: &[u8; 32], peer: &[u8; 32]) -> (r: ::crypto_box::SalsaBox)
    ensures
        box_key(r) == shared_key(secret@, peer@),
        reciprocal(box_key(r), x25519_public(secret@), peer@),
{
    let key = ::crypto_box::SecretKey::from(*secret);
    ::crypto_box::Box::new(&::crypto_box::PublicKey::from(*peer), &key)
}

/// `Aead::encrypt` of the box. What comes out depends on the box's key, the
/// nonce and the plain bytes alone, and opens under the same key and nonce
/// to the plain bytes.
#[verifier::external_body]
fn box_seal(shared: &::crypto_box::SalsaBox, nonce: &[u8; 24], plain: &[u8]) -> (r: Result<
    Vec<u8>,
    ::crypto_box::aead::Error,
>)
    ensures
        r is Ok <==> box_sealed(box_key(*shared), nonce@, plain@) is Some,
        r matches Ok(c) ==> box_sealed(box_key(*shared), nonce@, plain@) == Some(c@),
        r matches Ok(c) ==> box_opened(box_key(*shared), nonce@, c@) == Some(plain@),
{
    shared.encrypt(&::xsalsa20poly1305::Nonce::from(*nonce), plain)
}

/// `Aead::decrypt` of the box. Whether `sealed` is accepted, and the bytes it
/// then gives, depend on the box's key, the nonce and `sealed` alone.
#[verifier::external_body]
fn box_open(shared: &::crypto_box::SalsaBox, nonce: &[u8; 24], sealed: &[u8]) -> (r: Result<
    Vec<u8>,
    ::crypto_box::aead::Error,
>)
    ensures
        r is Ok <==> box_opened(box_key(*shared), nonce@, sealed@) is Some,
        r matches Ok(p) ==> box_opened(box_key(*shared), nonce@, sealed@) == Some(p@),
{
    shared.decrypt(&::xsalsa20poly1305::Nonce::from(*nonce), sealed)
}

/// `bytes` as a key, where there are 32 of them.
pub fn key_of(bytes: &Vec<u8>) -> (r: Option<[u8; 32]>)
    ensures
        match r {
            Some(k) => bytes@.len() == 32 && k@ == bytes@,
            None => bytes@.len() != 32,
        },
{
    if bytes.len() != 32 {
        return None;
    }
    let mut key = [0u8; 32];
    let mut i: usize = 0;
    while i < 32
        invariant
            i <= 32,
            bytes@.len() == 32,
            forall|k: int| 0 <= k < i ==> key@[k] == bytes@[k],
        decreases 32 - i,
    {
        key[i] = bytes[i];
        i += 1;
    }
    assert(key@ =~= bytes@);
    Some(key)
}

/// `bytes` as a nonce, where there are 24 of them.
pub fn nonce_of(bytes: &Vec<u8>) -> (r: Option<[u8; 24]>)
    ensures
        match r {
            Some(n) => bytes@.len() == 24 && n@ == bytes@,
            None => bytes@.len() != 24,
        },
{
    if bytes.len() != 24 {
        return None;
    }
    let mut nonce = [0u8; 24];
    let mut i: usize = 0;
    while i < 24
        invariant
            i <= 24,
            bytes@.len() == 24,
            forall|k: int| 0 <= k < i ==> nonce@[k] == bytes@[k],
        decreases 24 - i,
    {
        nonce[i] = bytes[i];
        i += 1;
    }
    assert(nonce@ =~= bytes@);
    Some(nonce)
}

/// Whether two nonces hold the same bytes.
pub fn same_nonce(a: &[u8; 24], b: &[u8; 24]) -> (r: bool)
    ensures
        r == (a@ == b@),
{
    let mut i: usize = 0;
    while i < 24
        invariant
            i <= 24,
            forall|k: int| 0 <= k < i ==> a@[k] == b@[k],
        decreases 24 - i,
    {
        if a[i] != b[i] {
            return false;
        }
        i += 1;
    }
    assert(a@ =~= b@);
    true
}

/// Seals `plain` under the box. What comes out opens again, under the same
/// key and nonce, to `plain`.
pub fn seal(shared: &::crypto_box::SalsaBox, nonce: &[u8; 24], plain: &[u8]) -> (r: Option<Vec<u8>>)
    ensures
        match r {
            Some(c) => box_sealed(box_key(*shared), nonce@, plain@) == Some(c@) && box_opened(
                box_key(*shared),
                nonce@,
                c@,
            ) == Some(plain@),
            None => box_sealed(box_key(*shared), nonce@, plain@) is None,
        },
{
    match box_seal(shared, nonce, plain) {
        Ok(c) => Some(c),
        Err(_) => None,
    }
}

/// Opens `sealed` under the box.
pub fn open(shared: &::crypto_box::SalsaBox, nonce: &[u8; 24], sealed: &[u8]) -> (r: Option<Vec<u8>>)
    ensures
        match r {
            Some(p) => box_opened(box_key(*shared), nonce@, sealed@) == Some(p@),
            None => box_opened(box_key(*shared), nonce@, sealed@) is None,
        },
{
    match box_open(shared, nonce, sealed) {
        Ok(p) => Some(p),
        Err(_) => None,
    }
}

} // verus!
