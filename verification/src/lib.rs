//! Concurrent regex search over zstd-compressed files: the verified core.
//!
//! The library holds the logic of the pipeline: splitting a decompressed
//! byte stream into lines, locating and highlighting pattern matches,
//! counting read progress per file, aggregating progress across files,
//! and the per-file decisions (empty file, directory, symlink, bad
//! pattern). File and terminal I/O, the decompressor, and the task
//! scheduler stay outside and hand the library plain values.

use vstd::prelude::*;

pub mod aggregate;
pub mod errors;
pub mod pattern;
pub mod progress;
pub mod sink;
pub mod task;
pub mod text;

pub use progress::Progress;

verus! {

/// Saturating addition on `usize`: the sum, capped at `usize::MAX`.
pub open spec fn sat_add(a: nat, b: nat) -> nat {
    if a + b <= usize::MAX {
        a + b
    } else {
        usize::MAX as nat
    }
}

/// Executable saturating addition, exact against `sat_add`.
pub fn saturating_add_usize(a: usize, b: usize) -> (r: usize)
    ensures
        r == sat_add(a as nat, b as nat),
        r >= a,
        r >= b,
{
    if b <= usize::MAX - a {
        a + b
    } else {
        usize::MAX
    }
}

} // verus!
