//! Error types of the packer and the loader.

use vstd::prelude::*;

verus! {

/// Why a resource could not be decoded.
#[derive(Debug, Clone, Copy, PartialEq, Eq, Structural)]
pub enum CodecError {
    /// The key is not 32 bytes long.
    BadKey,
    /// The authentication tag does not match: the resource was corrupted,
    /// truncated or tampered with.
    AuthFailure,
    /// The authenticated plaintext is not a well-formed LZ4 frame.
    DecompressFailure,
}

/// Why a guest could not be encoded.
#[derive(Debug, Clone, Copy, PartialEq, Eq, Structural)]
pub enum EncodeError {
    /// The guest is too large for the 32-bit length prefix of the LZ4 frame.
    GuestTooLarge,
    /// The compressor returned a frame that the decompressor cannot be
    /// given: it holds a run of bytes `0xFF` that is too long.
    UnreadableFrame,
    /// The operating system did not supply random bytes for a fresh key.
    NoEntropy,
}

/// The trailing bytes of a file do not start with the container's magic.
#[derive(Debug, Clone, Copy, PartialEq, Eq, Structural)]
pub struct MagicError;

/// A byte slice is too short for the resource that it announces.
#[derive(Debug, Clone, Copy, PartialEq, Eq, Structural)]
pub struct FormatError;

/// Everything that can go wrong while packing or loading.
#[derive(Debug)]
pub enum TardisError {
    /// Error involving accessing the filesystem (e.g. to read an input
    /// executable or write its contents to disk).
    FilesystemError(String),
    /// The end marker is missing or has the wrong magic, or walking the
    /// manifest underruns or overruns the space before the end marker.
    ContainerMalformed,
    /// A resource failed authentication.
    AuthFailure,
    /// A resource authenticated but did not decompress.
    DecompressFailure,
    /// Reading the own image or writing the guest failed.
    IoFailure,
    /// `memfd_create` failed, or `execveat` returned.
    SyscallFailure,
}

impl TardisError {
    /// The loader-level error that a codec error amounts to. A key of the
    /// wrong length cannot come out of a parsed container, so it counts as a
    /// malformed one.
    pub open spec fn of_codec(e: CodecError) -> TardisError {
        match e {
            CodecError::AuthFailure => TardisError::AuthFailure,
            CodecError::DecompressFailure => TardisError::DecompressFailure,
            CodecError::BadKey => TardisError::ContainerMalformed,
        }
    }

    /// Maps a codec error to the loader's taxonomy.
    pub fn from_codec(e: CodecError) -> (r: TardisError)
        ensures
            r == TardisError::of_codec(e),
    {
        match e {
            CodecError::AuthFailure => TardisError::AuthFailure,
            CodecError::DecompressFailure => TardisError::DecompressFailure,
            CodecError::BadKey => TardisError::ContainerMalformed,
        }
    }

    /// The status with which a process that failed with this error exits.
    pub open spec fn spec_exit_code(self) -> i32 {
        match self {
            TardisError::FilesystemError(_) => 1,
            TardisError::ContainerMalformed => 2,
            TardisError::AuthFailure => 3,
            TardisError::DecompressFailure => 4,
            TardisError::IoFailure => 5,
            TardisError::SyscallFailure => 6,
        }
    }

    /// The exit status for this error; never zero.
    pub fn exit_code(&self) -> (code: i32)
        ensures
            code == self.spec_exit_code(),
            code != 0,
    {
        match self {
            TardisError::FilesystemError(_) => 1,
            TardisError::ContainerMalformed => 2,
            TardisError::AuthFailure => 3,
            TardisError::DecompressFailure => 4,
            TardisError::IoFailure => 5,
            TardisError::SyscallFailure => 6,
        }
    }
}

} // verus!
