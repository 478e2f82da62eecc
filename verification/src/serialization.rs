//! The on-disk records of a container: resources and the end marker.
//!
//! A resource is stored as the length of its data (eight little-endian
//! bytes), its 32-byte key, and the data. The end marker is the magic `etar`
//! followed by two little-endian 64-bit integers. Nothing separates one
//! record from the next.

use crate::aead::{fresh_key, KEY_LEN, TAG_LEN};
use crate::codec::{decode, decoded, encode, is_encoding_of};
use crate::endian::{
    le_bytes, le_value, lemma_le_bytes_len, lemma_le_bytes_of_le_value, lemma_le_value_bound,
    lemma_le_value_of_le_bytes, lemma_radix_pow_widths, push_u64_le, read_u64_le,
};
use crate::error::{CodecError, EncodeError, FormatError, MagicError};
use crate::lz4::{can_frame, frameable, max_frame_len, MAX_FF_RUN};
use vstd::prelude::*;
use vstd::slice::{slice_subrange, slice_to_vec};

verus! {

/// On-disk size of the end marker.
pub const END_MARKER_LEN: usize = 20;

/// On-disk size of what precedes a resource's data: its length and its key.
pub const RESOURCE_HEADER_LEN: usize = 40;

/// The four bytes `etar` that open the end marker.
pub open spec fn magic() -> Seq<u8> {
    seq![0x65u8, 0x74u8, 0x61u8, 0x72u8]
}

/// End marker for Tardis's manifest.
///
/// The end marker tells the loader where the manifest starts and how many
/// resources it holds. It is placed at the end of the file so that the
/// loader always knows where to look for it.
#[derive(Debug, Clone, Copy, PartialEq, Eq, Structural)]
pub struct EndMarker {
    /// The location in the binary where the manifest starts.
    pub manifest_start: u64,
    /// The number of resources in the manifest.
    pub n_resources: u64,
}

/// The 20 bytes that stand for `marker` on disk.
pub open spec fn end_marker_bytes(marker: EndMarker) -> Seq<u8> {
    magic() + le_bytes(marker.manifest_start as nat, 8) + le_bytes(marker.n_resources as nat, 8)
}

/// The end marker that the 20 bytes `tail` hold, if they start with the magic.
pub open spec fn parsed_end_marker(tail: Seq<u8>) -> Option<EndMarker> {
    if tail.len() == END_MARKER_LEN && tail.subrange(0, 4) == magic() {
        Some(
            EndMarker {
                manifest_start: le_value(tail.subrange(4, 12)) as u64,
                n_resources: le_value(tail.subrange(12, 20)) as u64,
            },
        )
    } else {
        None
    }
}

/// Parsing a serialized end marker gives the marker back, and a serialized
/// end marker is 20 bytes long and starts with the magic.
pub proof fn lemma_end_marker_round_trip(marker: EndMarker)
    ensures
        end_marker_bytes(marker).len() == END_MARKER_LEN,
        end_marker_bytes(marker).subrange(0, 4) == magic(),
        parsed_end_marker(end_marker_bytes(marker)) == Some(marker),
{
    let start = le_bytes(marker.manifest_start as nat, 8);
    let count = le_bytes(marker.n_resources as nat, 8);
    let bytes = end_marker_bytes(marker);
    lemma_le_bytes_len(marker.manifest_start as nat, 8);
    lemma_le_bytes_len(marker.n_resources as nat, 8);
    lemma_radix_pow_widths();
    lemma_le_value_of_le_bytes(marker.manifest_start as nat, 8);
    lemma_le_value_of_le_bytes(marker.n_resources as nat, 8);
    assert(bytes.subrange(4, 12) =~= start);
    assert(bytes.subrange(12, 20) =~= count);
}

/// Whatever parses as an end marker is the serialization of that marker.
pub proof fn lemma_end_marker_parse_is_exact(tail: Seq<u8>)
    requires
        parsed_end_marker(tail) is Some,
    ensures
        end_marker_bytes(parsed_end_marker(tail).unwrap()) == tail,
{
    let start = tail.subrange(4, 12);
    let count = tail.subrange(12, 20);
    lemma_le_value_bound(start);
    lemma_le_value_bound(count);
    lemma_radix_pow_widths();
    lemma_le_bytes_of_le_value(start);
    lemma_le_bytes_of_le_value(count);
}

impl EndMarker {
    /// Return the number of bytes (on-disk) required to represent an `EndMarker`.
    pub fn nbytes() -> (n: usize)
        ensures
            n == END_MARKER_LEN,
    {
        20
    }

    /// Serializes the marker.
    pub fn to_bytes(&self) -> (out: Vec<u8>)
        ensures
            out@ == end_marker_bytes(*self),
            out@.len() == END_MARKER_LEN,
            out@.subrange(0, 4) == magic(),
    {
        let mut out: Vec<u8> = Vec::with_capacity(20);
        out.push(0x65u8);
        out.push(0x74u8);
        out.push(0x61u8);
        out.push(0x72u8);
        push_u64_le(&mut out, self.manifest_start);
        push_u64_le(&mut out, self.n_resources);
        proof {
            lemma_end_marker_round_trip(*self);
        }
        out
    }

    /// Parses the trailing 20 bytes of a container. Fails unless `tail` is
    /// 20 bytes long and starts with the magic.
    pub fn from_bytes(tail: &[u8]) -> (r: Result<EndMarker, MagicError>)
        ensures
            match r {
                Ok(marker) => parsed_end_marker(tail@) == Some(marker),
                Err(_) => parsed_end_marker(tail@) is None,
            },
    {
        if tail.len() != 20 {
            return Err(MagicError);
        }
        if tail[0] != 0x65u8 || tail[1] != 0x74u8 || tail[2] != 0x61u8 || tail[3] != 0x72u8 {
            return Err(MagicError);
        }
        assert(tail@.subrange(0, 4) =~= magic());
        let manifest_start = read_u64_le(tail, 4);
        let n_resources = read_u64_le(tail, 12);
        Ok(EndMarker { manifest_start, n_resources })
    }
}

/// Block of data that contains the compressed executable that Tardis
/// decompresses in memory.
#[derive(Debug)]
pub struct TardisResource {
    /// The encryption key for the resource.
    pub key: [u8; 32],
    /// The data contained in the resource: ciphertext followed by the tag.
    pub data: Vec<u8>,
}

/// A resource as contracts see it.
pub struct ResourceView {
    pub key: Seq<u8>,
    pub data: Seq<u8>,
}

impl ResourceView {
    /// The length that the resource's header announces.
    pub open spec fn length(self) -> nat {
        self.data.len()
    }

    /// The number of bytes that the resource takes on disk.
    pub open spec fn disk_len(self) -> nat {
        RESOURCE_HEADER_LEN as nat + self.data.len()
    }

    /// Whether the resource can be stored: a 32-byte key, and a data length
    /// that fits the 64-bit length field.
    pub open spec fn storable(self) -> bool {
        self.key.len() == KEY_LEN && self.data.len() <= u64::MAX
    }

    /// The bytes that stand for the resource on disk.
    pub open spec fn bytes(self) -> Seq<u8> {
        le_bytes(self.length(), 8) + self.key + self.data
    }
}

impl View for TardisResource {
    type V = ResourceView;

    open spec fn view(&self) -> ResourceView {
        ResourceView { key: self.key@, data: self.data@ }
    }
}

/// The resource that starts at `offset` in `bytes`, with the number of bytes
/// that it takes up, if `bytes` is long enough to hold all of it.
pub open spec fn parsed_resource(bytes: Seq<u8>, offset: int) -> Option<(ResourceView, int)> {
    if 0 <= offset && offset + RESOURCE_HEADER_LEN <= bytes.len() {
        let length = le_value(bytes.subrange(offset, offset + 8));
        if offset + RESOURCE_HEADER_LEN + length <= bytes.len() {
            Some(
                (
                    ResourceView {
                        key: bytes.subrange(offset + 8, offset + 40),
                        data: bytes.subrange(offset + 40, offset + 40 + length),
                    },
                    RESOURCE_HEADER_LEN + length,
                ),
            )
        } else {
            None
        }
    } else {
        None
    }
}

/// A serialized resource is 40 bytes longer than its data.
pub proof fn lemma_resource_bytes_len(r: ResourceView)
    requires
        r.key.len() == KEY_LEN,
    ensures
        r.bytes().len() == r.disk_len(),
{
    lemma_le_bytes_len(r.data.len(), 8);
}

/// A serialized resource parses back to itself wherever it stands in a byte
/// string, and parsing consumes exactly its on-disk length.
pub proof fn lemma_resource_round_trip(before: Seq<u8>, r: ResourceView, after: Seq<u8>)
    requires
        r.storable(),
    ensures
        parsed_resource(before + r.bytes() + after, before.len() as int) == Some(
            (r, r.disk_len() as int),
        ),
{
    let all = before + r.bytes() + after;
    let at = before.len() as int;
    lemma_le_bytes_len(r.data.len(), 8);
    lemma_radix_pow_widths();
    lemma_le_value_of_le_bytes(r.data.len(), 8);
    assert(all.subrange(at, at + 8) =~= le_bytes(r.data.len(), 8));
    assert(all.subrange(at + 8, at + 40) =~= r.key);
    assert(all.subrange(at + 40, at + 40 + r.data.len()) =~= r.data);
}

/// Whatever parses as a resource is, byte for byte, the serialization of
/// that resource.
pub proof fn lemma_resource_parse_is_exact(bytes: Seq<u8>, offset: int)
    requires
        parsed_resource(bytes, offset) is Some,
    ensures
        ({
            let (r, used) = parsed_resource(bytes, offset).unwrap();
            &&& r.storable()
            &&& used == r.disk_len()
            &&& bytes.subrange(offset, offset + used) == r.bytes()
        }),
{
    let (r, used) = parsed_resource(bytes, offset).unwrap();
    let field = bytes.subrange(offset, offset + 8);
    lemma_le_value_bound(field);
    lemma_radix_pow_widths();
    lemma_le_bytes_of_le_value(field);
}

impl TardisResource {
    /// Compress a block of data and store it in a [`TardisResource`] under
    /// the given key.
    ///
    /// Fails with `GuestTooLarge` exactly where the guest cannot be framed,
    /// and else only with `UnreadableFrame`, which no guest meets whose frame
    /// is sure to be shorter than the longest run allowed. The resource
    /// decodes to `data`.
    pub fn compress_with_key(data: &[u8], key: [u8; 32]) -> (r: Result<Self, EncodeError>)
        ensures
            match r {
                Ok(res) => {
                    &&& frameable(data@.len())
                    &&& res.key == key
                    &&& is_encoding_of(res.data@, key@, data@)
                    &&& decoded(res.key@, res.data@) == Ok::<Seq<u8>, CodecError>(data@)
                    &&& 4 + TAG_LEN <= res.data@.len() <= max_frame_len(data@.len()) + TAG_LEN
                },
                Err(e) => if !frameable(data@.len()) {
                    e == EncodeError::GuestTooLarge
                } else {
                    e == EncodeError::UnreadableFrame && max_frame_len(data@.len()) >= MAX_FF_RUN
                },
            },
    {
        match encode(&key, data) {
            Ok(sealed) => Ok(TardisResource { key, data: sealed }),
            Err(e) => Err(e),
        }
    }

    /// Compress a block of data and store it in a [`TardisResource`] under
    /// a fresh random key.
    ///
    /// Fails with `GuestTooLarge` exactly where the guest cannot be framed.
    /// Else it fails only with `NoEntropy`, where the system's random
    /// number generator fails, or with `UnreadableFrame`, which no guest
    /// meets whose frame is sure to be shorter than the longest run
    /// allowed. Whatever key was drawn, the resource decodes to `data`.
    pub fn compress(data: &[u8]) -> (r: Result<Self, EncodeError>)
        ensures
            match r {
                Ok(res) => {
                    &&& frameable(data@.len())
                    &&& is_encoding_of(res.data@, res.key@, data@)
                    &&& decoded(res.key@, res.data@) == Ok::<Seq<u8>, CodecError>(data@)
                    &&& 4 + TAG_LEN <= res.data@.len() <= max_frame_len(data@.len()) + TAG_LEN
                },
                Err(e) => if !frameable(data@.len()) {
                    e == EncodeError::GuestTooLarge
                } else {
                    ||| e == EncodeError::NoEntropy
                    ||| e == EncodeError::UnreadableFrame && max_frame_len(data@.len())
                        >= MAX_FF_RUN
                },
            },
    {
        if !can_frame(data.len()) {
            return Err(EncodeError::GuestTooLarge);
        }
        match fresh_key() {
            Ok(key) => TardisResource::compress_with_key(data, key),
            Err(_) => Err(EncodeError::NoEntropy),
        }
    }

    /// Decompress the data block and return it.
    ///
    /// Fails with `AuthFailure` where the data is shorter than the tag or
    /// the tag does not authenticate the data under the stored key, and
    /// with `DecompressFailure` where the authenticated frame is malformed.
    pub fn decompress(self) -> (r: Result<Vec<u8>, CodecError>)
        ensures
            match r {
                Ok(plain) => decoded(self.key@, self.data@) == Ok::<Seq<u8>, CodecError>(plain@),
                Err(e) => decoded(self.key@, self.data@) == Err::<Seq<u8>, CodecError>(e)
                    && e != CodecError::BadKey,
            },
            self.data@.len() < TAG_LEN ==> r == Err::<Vec<u8>, CodecError>(
                CodecError::AuthFailure,
            ),
    {
        decode(self.key.as_slice(), self.data.as_slice())
    }

    /// Return the length of the [`TardisResource`] after it's converted to a
    /// byte string: the 40-byte header and the data. A length beyond
    /// `usize`, which no vector in memory has, is given as `usize::MAX`.
    pub fn len(&self) -> (n: usize)
        ensures
            n == if self@.disk_len() <= usize::MAX {
                self@.disk_len()
            } else {
                usize::MAX as nat
            },
            self@.disk_len() == 8 + 32 + self.data@.len(),
    {
        self.data.len().saturating_add(40)
    }

    /// Returns `true` if there isn't any data stored in the [`TardisResource`].
    pub fn is_empty(&self) -> (b: bool)
        ensures
            b == (self.data@.len() == 0),
    {
        self.data.is_empty()
    }

    /// Serializes the resource: the data's length, the key, the data.
    pub fn to_bytes(&self) -> (out: Vec<u8>)
        ensures
            out@ == self@.bytes(),
            out@.len() == 8 + 32 + self.data@.len(),
    {
        let mut out: Vec<u8> = Vec::new();
        push_u64_le(&mut out, self.data.len() as u64);
        out.extend_from_slice(self.key.as_slice());
        out.extend_from_slice(self.data.as_slice());
        proof {
            lemma_le_bytes_len(self.data@.len(), 8);
        }
        out
    }

    /// Parses the resource that starts at `offset` in `bytes`, and returns
    /// it with the number of bytes that it takes up. Fails where `bytes`
    /// ends before the header or before the announced data does.
    pub fn from_bytes(bytes: &[u8], offset: usize) -> (r: Result<(Self, usize), FormatError>)
        ensures
            match r {
                Ok((res, used)) => parsed_resource(bytes@, offset as int) == Some((res@, used as int)),
                Err(_) => parsed_resource(bytes@, offset as int) is None,
            },
    {
        let total: usize = bytes.len();
        if offset > total || total - offset < 40 {
            return Err(FormatError);
        }
        let length: u64 = read_u64_le(bytes, offset);
        let room: usize = total - offset - 40;
        if length > room as u64 {
            return Err(FormatError);
        }
        let length: usize = length as usize;
        let mut key: [u8; 32] = [0u8; 32];
        let mut i: usize = 0;
        while i < 32
            invariant
                i <= 32,
                offset + 40 <= total == bytes@.len(),
                forall|j: int| 0 <= j < i ==> key@[j] == bytes@[offset + 8 + j],
            decreases 32 - i,
        {
            key[i] = bytes[offset + 8 + i];
            i = i + 1;
        }
        let data = slice_to_vec(slice_subrange(bytes, offset + 40, offset + 40 + length));
        assert(key@ =~= bytes@.subrange(offset + 8, offset + 40));
        Ok((TardisResource { key, data }, 40 + length))
    }
}

} // verus!
