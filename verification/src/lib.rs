//! Container format, resource codec and loader rules of the Tardis
//! executable packer.
//!
//! Tardis packs native executables into one self-extracting file. The file
//! starts with a loader, holds one compressed and sealed resource per guest,
//! and ends with a marker that tells the loader where the resources start.
//! When the file runs, the loader decodes each guest into an anonymous
//! memory file and executes it from there.
//!
//! - [`endian`]: the byte encodings of the integers on the wire.
//! - [`crypto`]: the nonce schedule.
//! - [`aead`], [`lz4`]: the cipher and the compressor, which are outside
//!   crates, with what this library relies on of them, and the test that
//!   decides which frames the decompressor is given.
//! - [`codec`]: encoding a guest and decoding a resource.
//! - [`serialization`]: the on-disk records, resources and end marker.
//! - [`container`]: building a container and walking its manifest.
//! - [`loader`]: the loader's decisions as a state machine.
//! - [`exec_args`]: the argument and environment vectors of a guest.
//! - [`error`]: the error types.

pub mod aead;
pub mod codec;
pub mod container;
pub mod crypto;
pub mod endian;
pub mod error;
pub mod exec_args;
pub mod loader;
pub mod lz4;
pub mod serialization;
