//! Recorded operation sequences.

use vstd::prelude::*;

verus! {

/// One recorded operation. The integers are raw material: the replay derives
/// from them which table an operation goes to and which descriptor it names.
#[derive(Debug, Clone, Copy, PartialEq, Eq)]
pub enum ReproOp {
    /// A fork-like event: one more table, made as a deep clone.
    DeepClone,
    Allocate { kernel_fd: i32 },
    AllocateMin { min_fd: i32, kernel_fd: i32 },
    AllocateAt { vfd: i32, kernel_fd: i32 },
    Deallocate { vfd: i32 },
    Duplicate { old_vfd: i32 },
    DuplicateAt { old_vfd: i32, new_vfd: i32 },
}

/// A sequence of operations to replay, in order.
#[derive(Debug, Clone)]
pub struct ReproCase {
    pub ops: Vec<ReproOp>,
}

} // verus!
