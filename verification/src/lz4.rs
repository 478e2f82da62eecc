//! LZ4 block compression with a prepended size, as the `lz4_flex` crate does it.
//!
//! The decompressor sums the extension bytes of a length in 32 bits, and it
//! allocates what the frame announces. So it is only given frames whose
//! lengths stay within bounds: [`decompressible`] says which, and
//! [`is_decompressible`] tests it.

use crate::endian::{le_bytes, le_value, lemma_le_value_of_le_bytes, lemma_radix_pow_widths, read_uint_le};
use lz4_flex::block::DecompressError;
use vstd::prelude::*;

verus! {

#[verifier::external_type_specification]
#[verifier::external_body]
pub struct ExDecompressError(lz4_flex::block::DecompressError);

/// A frame is not handed to the decompressor if it holds this many bytes
/// `0xFF` in a row: a length that long need not fit 32 bits.
pub const MAX_FF_RUN: usize = 0x80_0000;

/// The bytes that a size-prepended LZ4 frame decompresses to, or `None`
/// where the frame is malformed.
pub uninterp spec fn lz4_decompressed(frame: Seq<u8>) -> Option<Seq<u8>>;

/// Whether a guest of `len` bytes can be framed: its length must fit the
/// 32-bit prefix, and the compressor's worst-case buffer must fit `usize`.
pub open spec fn frameable(len: nat) -> bool {
    len <= u32::MAX && len * 110 + 2400 <= usize::MAX
}

/// An upper bound on the length of the frame of a guest of `len` bytes.
pub open spec fn max_frame_len(len: nat) -> nat {
    24 + len * 110 / 100
}

/// The number of bytes `0xFF` in a row that end right before index `i`.
pub open spec fn ff_run(s: Seq<u8>, i: int) -> nat
    decreases i,
{
    if i <= 0 || i > s.len() || s[i - 1] != 0xffu8 {
        0
    } else {
        ff_run(s, i - 1) + 1
    }
}

/// The uncompressed size that a frame announces in its first four bytes.
pub open spec fn announced_len(frame: Seq<u8>) -> nat {
    le_value(frame.subrange(0, 4))
}

/// Whether a frame may be handed to the decompressor: it holds the size
/// prefix, the size that it announces can be allocated, and nowhere in it
/// stand `MAX_FF_RUN` bytes `0xFF` in a row.
pub open spec fn decompressible(frame: Seq<u8>) -> bool {
    &&& frame.len() >= 4
    &&& announced_len(frame) <= isize::MAX
    &&& forall|i: int| 0 <= i <= frame.len() ==> #[trigger] ff_run(frame, i) < MAX_FF_RUN
}

/// A run of bytes is no longer than what precedes its end.
pub proof fn lemma_ff_run_bound(s: Seq<u8>, i: int)
    ensures
        ff_run(s, i) <= i || i < 0,
        ff_run(s, i) <= s.len(),
    decreases i,
{
    if !(i <= 0 || i > s.len() || s[i - 1] != 0xffu8) {
        lemma_ff_run_bound(s, i - 1);
    }
}

/// A frame that is shorter than the longest run allowed, and that starts
/// with the length of a guest that can be framed, can be decompressed.
pub proof fn lemma_short_frame_is_decompressible(frame: Seq<u8>, len: nat)
    requires
        4 <= frame.len() < MAX_FF_RUN,
        frameable(len),
        frame.subrange(0, 4) == le_bytes(len, 4),
    ensures
        decompressible(frame),
{
    lemma_radix_pow_widths();
    lemma_le_value_of_le_bytes(len, 4);
    assert forall|i: int| 0 <= i <= frame.len() implies #[trigger] ff_run(frame, i)
        < MAX_FF_RUN by {
        lemma_ff_run_bound(frame, i);
    }
}

/// Whether a guest of `len` bytes can be framed on this machine.
pub fn can_frame(len: usize) -> (ok: bool)
    ensures
        ok == frameable(len as nat),
{
    len <= 0xffff_ffff && len <= (usize::MAX - 2400) / 110
}

/// Whether `frame` may be handed to the decompressor.
pub fn is_decompressible(frame: &[u8]) -> (ok: bool)
    ensures
        ok == decompressible(frame@),
{
    if frame.len() < 4 {
        return false;
    }
    let announced: u64 = read_uint_le(frame, 0, 4);
    if announced > isize::MAX as u64 {
        return false;
    }
    let mut run: usize = 0;
    let mut i: usize = 0;
    while i < frame.len()
        invariant
            i <= frame@.len(),
            run == ff_run(frame@, i as int),
            forall|k: int| 0 <= k <= i ==> #[trigger] ff_run(frame@, k) < MAX_FF_RUN,
        decreases frame@.len() - i,
    {
        if frame[i] == 0xffu8 {
            run = run + 1;
            if run >= MAX_FF_RUN {
                assert(ff_run(frame@, i + 1) >= MAX_FF_RUN);
                return false;
            }
        } else {
            run = 0;
        }
        i = i + 1;
    }
    true
}

/// Calls `lz4_flex::compress_prepend_size`.
///
/// Trusted: the frame starts with the input's length as four little-endian
/// bytes, is no longer than the buffer that the compressor sets aside for
/// it, and decompresses to the input. The compressed bytes themselves
/// depend on the target's word size, so they stay unnamed.
#[verifier::external_body]
pub(crate) fn compress_prepend_size(input: &[u8]) -> (frame: Vec<u8>)
    requires
        frameable(input@.len()),
    ensures
        4 <= frame@.len() <= max_frame_len(input@.len()),
        frame@.subrange(0, 4) == le_bytes(input@.len(), 4),
        lz4_decompressed(frame@) == Some(input@),
{
    lz4_flex::compress_prepend_size(input)
}

/// Calls `lz4_flex::decompress_size_prepended`.
///
/// Trusted: on a frame that is `decompressible` the call returns, and its
/// result depends on the frame's bytes alone. Other frames are kept from
/// it: on a long run of bytes `0xFF` its 32-bit sum of a length overflows,
/// and an announced size beyond `isize::MAX` cannot be allocated.
#[verifier::external_body]
pub(crate) fn decompress_size_prepended(frame: &[u8]) -> (r: Result<Vec<u8>, DecompressError>)
    requires
        decompressible(frame@),
    ensures
        r is Ok <==> lz4_decompressed(frame@) is Some,
        r matches Ok(plain) ==> lz4_decompressed(frame@) == Some(plain@),
{
    lz4_flex::decompress_size_prepended(frame)
}

} // verus!
