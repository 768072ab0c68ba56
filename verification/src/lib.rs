//! Compiles operator-typed flow commands into the binary descriptors that a
//! packet-classification engine consumes: an attribute record, a pattern of
//! match items and a list of actions. Beside the command line stands the
//! description of a pool of packet buffers.

use vstd::prelude::*;

pub mod cmdline;
pub mod mempool;
pub mod mlx5_raw;

verus! {

/// The sum of two numbers that do not overflow.
pub fn add(left: u64, right: u64) -> (sum: u64)
    requires
        left + right <= u64::MAX,
    ensures
        sum == left + right,
{
    left + right
}

} // verus!
