//! The decoding half of a compact, canonical, fixed-width binary format.
//!
//! A [`ByteSource`] wraps an owned buffer and hands out bytes; the
//! [`BorshDeserialize`] trait fixes, type by type, what decoding means on
//! bytes alone and proves the executable decoders against it. Declared
//! sizes from untrusted input never drive allocation beyond the input's own
//! length, NaN float patterns are rejected for portability, and a top-level
//! decode must consume its input exactly.

pub mod buffers;
pub mod collections;
pub mod composites;
pub mod de;
pub mod error;
pub mod laws;
pub mod net;
pub mod roundtrip;
pub mod scalars;
pub mod source;
pub mod wire;

pub use scalars::Float32;
pub use scalars::Float64;

pub use de::BorshDeserialize;
pub use error::Error;
pub use error::ErrorKind;
pub use source::ByteSource;
