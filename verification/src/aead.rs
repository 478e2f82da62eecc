//! ChaCha20-Poly1305 with empty associated data, and the source of fresh keys.
//!
//! The cipher itself is the `ring` crate's. This module gives its results
//! names, so that the codec's contracts can speak of them, and states the
//! few facts about them that the codec relies on.

use ring::aead::{Aad, LessSafeKey, Nonce, UnboundKey, CHACHA20_POLY1305};
use ring::error::Unspecified;
use ring::rand::{generate, SystemRandom};
use vstd::prelude::*;

verus! {

/// Length in bytes of a ChaCha20-Poly1305 key.
pub const KEY_LEN: usize = 32;

/// Length in bytes of the Poly1305 tag that sealing appends.
pub const TAG_LEN: usize = 16;

/// The longest plaintext that one nonce may seal: 2^32 - 1 blocks of 64 bytes.
pub const MAX_PLAINTEXT_LEN: u64 = 274_877_906_880;

#[verifier::external_type_specification]
#[verifier::external_body]
pub struct ExUnspecified(ring::error::Unspecified);

/// The ciphertext and tag that ChaCha20-Poly1305 produces for `plain` under
/// a 32-byte `key` and a 12-byte `nonce`, with empty associated data.
pub uninterp spec fn chacha20_poly1305_sealed(
    key: Seq<u8>,
    nonce: Seq<u8>,
    plain: Seq<u8>,
) -> Seq<u8>;

/// The plaintext that ChaCha20-Poly1305 recovers from `sealed` (ciphertext
/// followed by tag) under `key` and `nonce`, with empty associated data, or
/// `None` where the tag does not authenticate the ciphertext.
pub uninterp spec fn chacha20_poly1305_opened(
    key: Seq<u8>,
    nonce: Seq<u8>,
    sealed: Seq<u8>,
) -> Option<Seq<u8>>;

/// Calls `ring::aead::LessSafeKey::seal_in_place_append_tag` with empty
/// associated data, on a `CHACHA20_POLY1305` key that `UnboundKey::new`
/// makes of `key`. A `SealingKey` whose nonce sequence yields `nonce` seals
/// by the same call.
///
/// Trusted: sealing succeeds exactly when the plaintext is no longer than
/// `MAX_PLAINTEXT_LEN`; the result is the ciphertext, as long as the
/// plaintext, followed by the 16-byte tag; and opening that result under the
/// same key and nonce gives the plaintext back.
#[verifier::external_body]
pub(crate) fn seal(key: &[u8], nonce: [u8; 12], plain: Vec<u8>) -> (r: Result<
    Vec<u8>,
    Unspecified,
>)
    requires
        key@.len() == KEY_LEN,
    ensures
        r is Ok <==> plain@.len() <= MAX_PLAINTEXT_LEN,
        r matches Ok(sealed) ==> {
            &&& sealed@ == chacha20_poly1305_sealed(key@, nonce@, plain@)
            &&& sealed@.len() == plain@.len() + TAG_LEN
            &&& chacha20_poly1305_opened(key@, nonce@, sealed@) == Some(plain@)
        },
{
    let key = LessSafeKey::new(UnboundKey::new(&CHACHA20_POLY1305, key)?);
    let mut in_out = plain;
    key.seal_in_place_append_tag(Nonce::assume_unique_for_key(nonce), Aad::from(b""), &mut in_out)?;
    Ok(in_out)
}

/// Calls `ring::aead::LessSafeKey::open_in_place` with empty associated
/// data, on a `CHACHA20_POLY1305` key that `UnboundKey::new` makes of `key`
/// and on a copy of `sealed`.
///
/// Trusted: the call succeeds exactly when the tag authenticates the
/// ciphertext, and then returns the plaintext, which is 16 bytes shorter
/// than the input.
#[verifier::external_body]
pub(crate) fn open(key: &[u8], nonce: [u8; 12], sealed: &[u8]) -> (r: Result<Vec<u8>, Unspecified>)
    requires
        key@.len() == KEY_LEN,
    ensures
        r is Ok <==> chacha20_poly1305_opened(key@, nonce@, sealed@) is Some,
        r matches Ok(plain) ==> {
            &&& chacha20_poly1305_opened(key@, nonce@, sealed@) == Some(plain@)
            &&& plain@.len() + TAG_LEN == sealed@.len()
        },
{
    let key = LessSafeKey::new(UnboundKey::new(&CHACHA20_POLY1305, key)?);
    let mut in_out = sealed.to_vec();
    let nonce = Nonce::assume_unique_for_key(nonce);
    let plain_len = key.open_in_place(nonce, Aad::from(b""), &mut in_out)?.len();
    in_out.truncate(plain_len);
    Ok(in_out)
}

/// Calls `ring::rand::generate` on a `SystemRandom` for 32 bytes.
///
/// Nothing is claimed of the bytes, nor that the call succeeds.
#[verifier::external_body]
pub(crate) fn fresh_key() -> (r: Result<[u8; 32], Unspecified>) {
    let rng = SystemRandom::new();
    Ok(generate::<[u8; 32]>(&rng)?.expose())
}

} // verus!
