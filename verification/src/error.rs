//! Error kinds raised by the mapped-file operations.

use vstd::prelude::*;

verus! {

/// Every failure a mapped-file operation can surface.
///
/// Each kind carries enough context to diagnose the failure without looking
/// inside the library: the path involved, the underlying cause reported by
/// the backing store, or the requested versus available byte range.
#[derive(Debug)]
pub enum Error {
    /// The backing handle could not be created or opened.
    OpenFailed { path: String, cause: String },
    /// The mapping call over an open handle failed.
    MmapFailed { cause: String },
    /// Changing the backing handle's length failed.
    TruncationFailed { path: String, cause: String },
    /// A flush, length-set or delete failure not covered by the kinds above.
    IO { cause: String },
    /// A range accessor asked for bytes past the mapped length: the request
    /// needed `requested` bytes but only `available` were mapped.
    Bounds { requested: u64, available: u64 },
}

impl Error {
    /// True exactly when this is the bounds-violation kind with the given
    /// request and mapped length.
    pub open spec fn is_bounds(self, requested: nat, available: nat) -> bool {
        self matches Error::Bounds { requested: r, available: a } && r == requested && a
            == available
    }
}

/// `x` clamped to the largest value a `u64` error field can report.
pub open spec fn sat64(x: nat) -> nat {
    if x > u64::MAX {
        u64::MAX as nat
    } else {
        x
    }
}

/// The bounds error for an access of `len` bytes at `offset` against a
/// region of `available` bytes.
pub fn range_err(offset: usize, len: usize, available: usize) -> (e: Error)
    ensures
        e.is_bounds(sat64(offset as nat + len as nat), available as nat),
{
    Error::Bounds {
        requested: (offset as u64).saturating_add(len as u64),
        available: available as u64,
    }
}

} // verus!
