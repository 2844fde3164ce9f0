//! Video memory figures.

use vstd::prelude::*;

verus! {

/// Whole mebibytes in `bytes` (rounded down), as the video memory row shows them.
pub fn mebibytes(bytes: u64) -> (res: u64)
    ensures
        res == bytes / 1048576,
{
    bytes / (1024 * 1024)
}

} // verus!
