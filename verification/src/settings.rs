//! Configuration values that shape how a session buffers publications.

use vstd::prelude::*;

verus! {

/// What a full queue does with a publication that does not fit.
#[derive(Clone, Copy, Debug, PartialEq, Eq, Structural)]
pub enum QueueFullAction {
    /// Turn the incoming publication away and keep what is queued.
    DropNew,
    /// Evict the oldest queued publication and admit the incoming one.
    DropOld,
}

} // verus!
