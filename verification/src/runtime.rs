//! The synchronous facade over the transport: the host-facing call blocks
//! the calling thread on one completion function and hands its value back.

use vstd::prelude::*;

verus! {

/// Blocks on `run` until it completes and returns its value. The completion
/// function wraps the transport's own driving loop; whatever it returns
/// satisfies its own postcondition, which is all a caller may assume of a
/// wire round trip.
pub fn block_on<T, F: FnOnce() -> T>(run: F) -> (r: T)
    requires
        run.requires(()),
    ensures
        run.ensures((), r),
{
    run()
}

} // verus!
