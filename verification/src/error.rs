//! Failures a scan step can surface.

use vstd::prelude::*;

verus! {

/// The result of a scan step that could not produce a space.
///
/// No failure is recovered or retried internally: every failure is returned
/// as the value of the current pull, and a failed step does not guarantee
/// that the cursor has advanced.
#[derive(Clone, Copy, Debug, PartialEq, Eq, Structural)]
pub enum Error {
    /// The field codec could not interpret the byte at the cursor as a
    /// header tag.
    UnknownHeader,
    /// A continuation field immediately follows a free field with no open
    /// live run: the buffer is corrupted (a continuation pointing into
    /// nothing).
    InvalidHeader,
}

} // verus!
