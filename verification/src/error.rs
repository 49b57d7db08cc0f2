//! The ways in which a request can fail.

use vstd::prelude::*;

verus! {

/// A failure that is reported to the client.
///
/// A colour code that cannot be read is no failure: it stands for a default
/// colour.
#[derive(Clone, Copy, Debug, PartialEq, Eq, Structural)]
pub enum EmogenError {
    /// The text of the request does not decode to UTF-8.
    Decode,
    /// The font could not be had.
    FontUnavailable,
    /// The picture could not be written in the container that was asked for.
    Encode,
}

} // verus!
