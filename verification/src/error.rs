use vstd::prelude::*;

verus! {

/// Why a decode attempt failed.
///
/// Every failure of the decoder is one of these values; no malformed input
/// makes a verified function of this crate panic.
#[derive(Clone, Copy, Debug, PartialEq, Eq, Structural)]
pub enum Error {
    /// Fewer bytes remain in the source than a read required.
    UnexpectedEof,
    /// A top-level decode succeeded but left bytes unread.
    NotAllBytesRead,
    /// A string's payload was not valid UTF-8.
    InvalidUtf8,
    /// A float's bit pattern was a NaN, which the format forbids for
    /// portability: signalling and quiet NaN encodings differ across
    /// architectures.
    NanDisallowed,
    /// A socket-address discriminant byte was neither 0 nor 1; carries the
    /// offending byte.
    InvalidSocketAddrVariant(u8),
    /// A length-prefixed buffer declared more bytes than remain in the
    /// source, so the allocation it asks for is refused up front.
    LengthExceedsRemaining,
}

/// The coarse taxonomy of failures, as an I/O layer would label them.
#[derive(Clone, Copy, Debug, PartialEq, Eq, Structural)]
pub enum ErrorKind {
    UnexpectedEof,
    InvalidData,
    InvalidInput,
}

impl Error {
    /// Which kind of the taxonomy this error belongs to.
    pub open spec fn spec_kind(&self) -> ErrorKind {
        match self {
            Error::UnexpectedEof => ErrorKind::UnexpectedEof,
            Error::NotAllBytesRead => ErrorKind::InvalidData,
            Error::InvalidUtf8 => ErrorKind::InvalidData,
            Error::NanDisallowed => ErrorKind::InvalidInput,
            Error::InvalidSocketAddrVariant(_) => ErrorKind::InvalidInput,
            Error::LengthExceedsRemaining => ErrorKind::InvalidInput,
        }
    }

    /// The taxonomy kind of this error.
    pub fn kind(&self) -> (k: ErrorKind)
        ensures
            k == self.spec_kind(),
    {
        match self {
            Error::UnexpectedEof => ErrorKind::UnexpectedEof,
            Error::NotAllBytesRead => ErrorKind::InvalidData,
            Error::InvalidUtf8 => ErrorKind::InvalidData,
            Error::NanDisallowed => ErrorKind::InvalidInput,
            Error::InvalidSocketAddrVariant(_) => ErrorKind::InvalidInput,
            Error::LengthExceedsRemaining => ErrorKind::InvalidInput,
        }
    }
}

} // verus!
