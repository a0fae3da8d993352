//! The closed set of failure kinds of the library, with conversions to and
//! from the platform's I/O error.

use vstd::prelude::*;

verus! {

/// `std::io::Error`, declared so that an [`Error::Io`] variant can carry the
/// platform error that an open or a synchronization barrier reported.
#[verifier::external_type_specification]
#[verifier::external_body]
pub struct ExIoError(std::io::Error);

/// Errors that can occur when working with the packet framework.
#[derive(Debug)]
pub enum Error {
    /// I/O error from the underlying system.
    Io(std::io::Error),
    /// The operation cannot make progress now; retry after a sync or a poll.
    WouldBlock,
    /// Binding to the interface failed; the message names the interface.
    BindFail(String),
    /// A ring index at or past the effective ring count, reported verbatim.
    InvalidRingIndex(usize),
    /// A payload longer than the ring's buffer size, with the length reported
    /// verbatim.
    PacketTooLarge(usize),
    /// Not enough free slots in the TX ring for the requested size.
    InsufficientSpace,
    /// The framework is not available on this platform.
    UnsupportedPlatform(String),
    /// The requested feature is absent from the fallback path.
    FallbackUnsupported(String),
}

impl Error {
    /// A short human-readable description of the error.
    pub fn message(&self) -> String {
        match self {
            Error::Io(_) => "I/O error".to_owned(),
            Error::WouldBlock => "Operation would block".to_owned(),
            Error::BindFail(_) => "Failed to bind to interface".to_owned(),
            Error::InvalidRingIndex(_) => "Invalid ring index".to_owned(),
            Error::PacketTooLarge(_) => "Packet too large for ring buffer".to_owned(),
            Error::InsufficientSpace => "Not enough space in ring buffer".to_owned(),
            Error::UnsupportedPlatform(_) => "Platform not yet supported".to_owned(),
            Error::FallbackUnsupported(_) => "Feature not supported in fallback mode".to_owned(),
        }
    }

    /// Embeds the error into a platform I/O error: an [`Error::Io`] variant
    /// passes its inner error through; every other variant is wrapped with
    /// the `Other` kind.
    pub fn into_io_error(self) -> (r: std::io::Error)
        ensures
            self matches Error::Io(e) ==> r == e,
    {
        match self {
            Error::Io(e) => e,
            other => {
                let msg = other.message();
                new_other_io_error(msg)
            },
        }
    }
}

/// Relies on `std::io::Error::new`: builds an error of the `Other` kind
/// around the given description.
#[verifier::external_body]
fn new_other_io_error(msg: String) -> std::io::Error {
    std::io::Error::new(std::io::ErrorKind::Other, msg)
}

impl From<std::io::Error> for Error {
    /// Wraps a platform I/O error in the [`Error::Io`] variant.
    fn from(e: std::io::Error) -> (r: Error)
        ensures
            r == Error::Io(e),
    {
        Error::Io(e)
    }
}

impl vstd::std_specs::convert::FromSpecImpl<std::io::Error> for Error {
    open spec fn obeys_from_spec() -> bool {
        true
    }

    open spec fn from_spec(e: std::io::Error) -> Error {
        Error::Io(e)
    }
}

} // verus!
