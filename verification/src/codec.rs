//! The resource codec: LZ4 framing inside ChaCha20-Poly1305 sealing.
//!
//! A guest is compressed into a size-prepended LZ4 frame, and the frame is
//! sealed under a key that is used for this one message only, with the single
//! nonce of a sequence of length one. Decoding opens the sealed bytes and
//! decompresses the frame.

use crate::aead::{
    chacha20_poly1305_opened, chacha20_poly1305_sealed, open, seal, KEY_LEN, MAX_PLAINTEXT_LEN,
    TAG_LEN,
};
use crate::crypto::{single_nonce, NonceSeq};
use crate::endian::le_bytes;
use crate::error::{CodecError, EncodeError};
use crate::lz4::{
    can_frame, compress_prepend_size, decompress_size_prepended, decompressible, frameable,
    is_decompressible, lemma_short_frame_is_decompressible, lz4_decompressed, max_frame_len,
    MAX_FF_RUN,
};
use vstd::prelude::*;

verus! {

/// What decoding `sealed` under `key` gives.
///
/// A key that is not 32 bytes long is a bad key. Data that is shorter than
/// the tag, or that the cipher does not open, fails authentication. An
/// authenticated frame that the decompressor cannot be given, or that it
/// rejects, fails decompression.
pub open spec fn decoded(key: Seq<u8>, sealed: Seq<u8>) -> Result<Seq<u8>, CodecError> {
    if key.len() != KEY_LEN {
        Err(CodecError::BadKey)
    } else if sealed.len() < TAG_LEN {
        Err(CodecError::AuthFailure)
    } else {
        match chacha20_poly1305_opened(key, single_nonce(), sealed) {
            None => Err(CodecError::AuthFailure),
            Some(frame) => if !decompressible(frame) {
                Err(CodecError::DecompressFailure)
            } else {
                match lz4_decompressed(frame) {
                    None => Err(CodecError::DecompressFailure),
                    Some(plain) => Ok(plain),
                }
            },
        }
    }
}

/// Whether `frame` is a size-prepended LZ4 frame of `plain`, and one that
/// the decompressor can be given.
pub open spec fn is_frame_of(frame: Seq<u8>, plain: Seq<u8>) -> bool {
    &&& 4 <= frame.len() <= max_frame_len(plain.len())
    &&& frame.subrange(0, 4) == le_bytes(plain.len(), 4)
    &&& decompressible(frame)
    &&& lz4_decompressed(frame) == Some(plain)
}

/// Whether `sealed` is an encoding of `plain` under `key`: some LZ4 frame of
/// `plain`, sealed with the single nonce, which makes it longer by the tag.
pub open spec fn is_encoding_of(sealed: Seq<u8>, key: Seq<u8>, plain: Seq<u8>) -> bool {
    exists|frame: Seq<u8>|
        #![trigger is_frame_of(frame, plain)]
        {
            &&& is_frame_of(frame, plain)
            &&& sealed == chacha20_poly1305_sealed(key, single_nonce(), frame)
            &&& sealed.len() == frame.len() + TAG_LEN
        }
}

/// Data that the cipher rejects fails authentication, whatever else holds
/// of it: it decodes to nothing and is not mistaken for a malformed frame.
pub proof fn lemma_rejected_data_fails_authentication(key: Seq<u8>, sealed: Seq<u8>)
    ensures
        key.len() == KEY_LEN && chacha20_poly1305_opened(key, single_nonce(), sealed) is None
            ==> decoded(key, sealed) == Err::<Seq<u8>, CodecError>(CodecError::AuthFailure),
        key.len() == KEY_LEN && sealed.len() < TAG_LEN ==> decoded(key, sealed) == Err::<
            Seq<u8>,
            CodecError,
        >(CodecError::AuthFailure),
{
}

/// The nonce under which every resource is sealed and opened.
fn resource_nonce() -> (nonce: [u8; 12])
    ensures
        nonce@ == single_nonce(),
{
    let mut nonces = NonceSeq::new(1);
    match nonces.advance() {
        Some(nonce) => nonce,
        None => {
            // Never taken: a fresh sequence of length one yields a nonce.
            proof {
                assert(false);
            }
            [0u8; 12]
        },
    }
}

/// Seals a frame under `key` with the single nonce.
///
/// Fails with `UnreadableFrame` exactly where the decompressor could not be
/// given the frame back, and else with `GuestTooLarge` exactly where the
/// frame is longer than one nonce may seal. The result is the sealing of
/// the frame, longer than it by the tag, and opens to the frame.
pub fn seal_frame(key: &[u8; 32], frame: Vec<u8>) -> (r: Result<Vec<u8>, EncodeError>)
    ensures
        match r {
            Ok(sealed) => {
                &&& decompressible(frame@)
                &&& frame@.len() <= MAX_PLAINTEXT_LEN
                &&& sealed@ == chacha20_poly1305_sealed(key@, single_nonce(), frame@)
                &&& sealed@.len() == frame@.len() + TAG_LEN
                &&& chacha20_poly1305_opened(key@, single_nonce(), sealed@) == Some(frame@)
            },
            Err(e) => if !decompressible(frame@) {
                e == EncodeError::UnreadableFrame
            } else {
                e == EncodeError::GuestTooLarge && frame@.len() > MAX_PLAINTEXT_LEN
            },
        },
{
    if !is_decompressible(frame.as_slice()) {
        return Err(EncodeError::UnreadableFrame);
    }
    match seal(key.as_slice(), resource_nonce(), frame) {
        Ok(sealed) => Ok(sealed),
        Err(_) => Err(EncodeError::GuestTooLarge),
    }
}

/// Compresses `plain` and seals the frame under `key`.
///
/// Fails with `GuestTooLarge` exactly where the guest cannot be framed, and
/// else only with `UnreadableFrame`, where the compressor's frame holds a run
/// of bytes `0xFF` that the decompressor cannot be given; a guest whose
/// frame is sure to be shorter than such a run is always encoded. The
/// result decodes to `plain` under the same key.
pub fn encode(key: &[u8; 32], plain: &[u8]) -> (r: Result<Vec<u8>, EncodeError>)
    ensures
        match r {
            Ok(sealed) => {
                &&& frameable(plain@.len())
                &&& is_encoding_of(sealed@, key@, plain@)
                &&& decoded(key@, sealed@) == Ok::<Seq<u8>, CodecError>(plain@)
                &&& 4 + TAG_LEN <= sealed@.len() <= max_frame_len(plain@.len()) + TAG_LEN
            },
            Err(e) => if !frameable(plain@.len()) {
                e == EncodeError::GuestTooLarge
            } else {
                e == EncodeError::UnreadableFrame && max_frame_len(plain@.len()) >= MAX_FF_RUN
            },
        },
{
    if !can_frame(plain.len()) {
        return Err(EncodeError::GuestTooLarge);
    }
    let frame = compress_prepend_size(plain);
    let ghost frame_bytes = frame@;
    proof {
        if frame_bytes.len() < MAX_FF_RUN {
            lemma_short_frame_is_decompressible(frame_bytes, plain@.len());
        }
        assert(frame_bytes.len() <= MAX_PLAINTEXT_LEN) by (nonlinear_arith)
            requires
                frame_bytes.len() <= 24 + plain@.len() * 110 / 100,
                plain@.len() <= u32::MAX,
        ;
    }
    match seal_frame(key, frame) {
        Ok(sealed) => {
            assert(is_frame_of(frame_bytes, plain@));
            Ok(sealed)
        },
        Err(e) => Err(e),
    }
}

/// Opens `sealed` under `key` and decompresses the frame inside.
///
/// Fails with `BadKey` unless the key is 32 bytes long, with `AuthFailure`
/// where the data is shorter than the tag or the tag does not authenticate
/// the ciphertext, and with `DecompressFailure` where the authenticated
/// frame is malformed.
pub fn decode(key: &[u8], sealed: &[u8]) -> (r: Result<Vec<u8>, CodecError>)
    ensures
        match r {
            Ok(plain) => decoded(key@, sealed@) == Ok::<Seq<u8>, CodecError>(plain@),
            Err(e) => decoded(key@, sealed@) == Err::<Seq<u8>, CodecError>(e),
        },
        key@.len() != KEY_LEN ==> r == Err::<Vec<u8>, CodecError>(CodecError::BadKey),
        key@.len() == KEY_LEN && sealed@.len() < TAG_LEN ==> r == Err::<Vec<u8>, CodecError>(
            CodecError::AuthFailure,
        ),
{
    if key.len() != KEY_LEN {
        return Err(CodecError::BadKey);
    }
    if sealed.len() < TAG_LEN {
        return Err(CodecError::AuthFailure);
    }
    let frame = match open(key, resource_nonce(), sealed) {
        Ok(frame) => frame,
        Err(_) => {
            return Err(CodecError::AuthFailure);
        },
    };
    if !is_decompressible(frame.as_slice()) {
        return Err(CodecError::DecompressFailure);
    }
    match decompress_size_prepended(frame.as_slice()) {
        Ok(plain) => Ok(plain),
        Err(_) => Err(CodecError::DecompressFailure),
    }
}

} // verus!
