//! Error kinds for the link engine. Every fallible step returns a typed
//! error so the caller can tell a channel failure from a damaged frame,
//! a protocol violation, or a malformed image blob.

use vstd::prelude::*;

verus! {

/// One error kind per failure cause.
///
/// `Io` covers channel read/write failures and timeouts (raised by the
/// unverified channel driver, never by this library's own logic).
/// `FrameTooShort`, `TruncatedEscape` and `ChecksumMismatch` are framing
/// errors; `BadChunkMarker` and `UnknownTransferCommand` are protocol
/// errors of the bulk transfer; `BadBlobLength`, `InvalidDate` and
/// `InvalidName` are data errors of the image blob parser.
#[derive(Clone, Copy, Debug, PartialEq, Eq, Structural)]
pub enum WqvError {
    /// Channel read or write failed or timed out.
    Io,
    /// Fewer than 4 bytes remained after unescaping a frame interior.
    FrameTooShort,
    /// A frame interior ended in the middle of an escape sequence.
    TruncatedEscape,
    /// The trailing 16-bit checksum did not match the recomputed sum.
    ChecksumMismatch,
    /// A data chunk did not start with the chunk marker byte.
    BadChunkMarker,
    /// A transfer frame's command was not in the rotation table.
    UnknownTransferCommand,
    /// The transferred blob was not exactly the expected length.
    BadBlobLength,
    /// The blob's date fields did not form a valid calendar date and time.
    InvalidDate,
    /// The blob's name field held bytes that are not plain text.
    InvalidName,
}

impl WqvError {
    /// True of the framing errors: a frame arrived but was damaged.
    pub open spec fn is_framing(self) -> bool {
        self == WqvError::FrameTooShort || self == WqvError::TruncatedEscape
            || self == WqvError::ChecksumMismatch
    }

    /// True of the protocol errors: a well-formed frame broke the transfer rules.
    pub open spec fn is_protocol(self) -> bool {
        self == WqvError::BadChunkMarker || self == WqvError::UnknownTransferCommand
    }

    /// True of the data errors: the assembled blob was malformed.
    pub open spec fn is_data(self) -> bool {
        self == WqvError::BadBlobLength || self == WqvError::InvalidDate
            || self == WqvError::InvalidName
    }
}

} // verus!
