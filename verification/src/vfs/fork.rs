//! Operations as values, and the independence of the two tables of a fork.
//!
//! What a table shows, the entry behind each descriptor and the descriptor
//! that the next allocation would yield, is a function of its mapping. So a
//! table whose mapping is what its own operations alone make of it shows no
//! trace of anything done to another table.

use crate::vfs::entry::FdEntry;
use crate::vfs::fdtable::{has_free_from, lowest_free, user_floor, FdTable, FIRST_USER_FD};
use crate::vfs::laws::law_lowest_free_is_unique;
use vstd::prelude::*;

verus! {

/// One operation on a table, as a value.
#[derive(Debug, PartialEq, Eq)]
pub enum TableOp {
    Allocate { entry: FdEntry },
    AllocateMin { min_vfd: i32, entry: FdEntry },
    AllocateAt { vfd: i32, entry: FdEntry },
    Deallocate { vfd: i32 },
    Duplicate { old_vfd: i32 },
    DuplicateAt { old_vfd: i32, new_vfd: i32 },
}

impl Clone for TableOp {
    /// The same operation, with a structural copy of its entry.
    fn clone(&self) -> (copy: Self)
        ensures
            copy == *self,
    {
        match self {
            TableOp::Allocate { entry } => TableOp::Allocate { entry: entry.clone() },
            TableOp::AllocateMin { min_vfd, entry } => TableOp::AllocateMin {
                min_vfd: *min_vfd,
                entry: entry.clone(),
            },
            TableOp::AllocateAt { vfd, entry } => TableOp::AllocateAt {
                vfd: *vfd,
                entry: entry.clone(),
            },
            TableOp::Deallocate { vfd } => TableOp::Deallocate { vfd: *vfd },
            TableOp::Duplicate { old_vfd } => TableOp::Duplicate { old_vfd: *old_vfd },
            TableOp::DuplicateAt { old_vfd, new_vfd } => TableOp::DuplicateAt {
                old_vfd: *old_vfd,
                new_vfd: *new_vfd,
            },
        }
    }
}

/// The operation can be carried out on a table with the mapping `m`: it does
/// not ask for a descriptor where none is left, nor for the ceiling itself.
pub open spec fn can_apply(m: Map<i32, FdEntry>, op: TableOp) -> bool {
    match op {
        TableOp::Allocate { .. } => has_free_from(m, FIRST_USER_FD),
        TableOp::AllocateMin { min_vfd, .. } => has_free_from(m, user_floor(min_vfd)),
        TableOp::AllocateAt { vfd, .. } => vfd < i32::MAX,
        TableOp::Deallocate { .. } => true,
        TableOp::Duplicate { old_vfd } => m.contains_key(old_vfd) ==> has_free_from(
            m,
            FIRST_USER_FD,
        ),
        TableOp::DuplicateAt { old_vfd, new_vfd } => m.contains_key(old_vfd) ==> new_vfd
            < i32::MAX,
    }
}

/// The mapping that the operation makes of `m`, where it can be carried out.
pub open spec fn applied(m: Map<i32, FdEntry>, op: TableOp) -> Map<i32, FdEntry> {
    match op {
        TableOp::Allocate { entry } => m.insert(lowest_free(m, FIRST_USER_FD), entry),
        TableOp::AllocateMin { min_vfd, entry } => m.insert(
            lowest_free(m, user_floor(min_vfd)),
            entry,
        ),
        TableOp::AllocateAt { vfd, entry } => m.insert(vfd, entry),
        TableOp::Deallocate { vfd } => m.remove(vfd),
        TableOp::Duplicate { old_vfd } => if m.contains_key(old_vfd) {
            m.insert(lowest_free(m, FIRST_USER_FD), m[old_vfd])
        } else {
            m
        },
        TableOp::DuplicateAt { old_vfd, new_vfd } => if m.contains_key(old_vfd) {
            m.insert(new_vfd, m[old_vfd])
        } else {
            m
        },
    }
}

/// The mapping after the operation: what it makes of `m` where it can be
/// carried out, and `m` itself where it cannot.
pub open spec fn after(m: Map<i32, FdEntry>, op: TableOp) -> Map<i32, FdEntry> {
    if can_apply(m, op) {
        applied(m, op)
    } else {
        m
    }
}

/// An operation after a fork: on the child, or on the parent.
#[derive(Debug, PartialEq, Eq)]
pub struct ForkOp {
    pub on_child: bool,
    pub op: TableOp,
}

/// The mapping that the operations of one side, in their order, make of `m`.
/// The operations of the other side do not count.
pub open spec fn ran(m: Map<i32, FdEntry>, ops: Seq<ForkOp>, on_child: bool) -> Map<i32, FdEntry>
    decreases ops.len(),
{
    if ops.len() == 0 {
        m
    } else {
        let before = ran(m, ops.drop_last(), on_child);
        if ops.last().on_child == on_child {
            after(before, ops.last().op)
        } else {
            before
        }
    }
}

/// A sequence of operations that are all on the other side makes nothing of
/// `m`: whatever is done to one table of a fork, the other stays as it was.
pub proof fn law_other_side_leaves_no_trace(m: Map<i32, FdEntry>, ops: Seq<ForkOp>, on_child: bool)
    requires
        forall|i: int| 0 <= i < ops.len() ==> (#[trigger] ops[i]).on_child != on_child,
    ensures
        ran(m, ops, on_child) == m,
    decreases ops.len(),
{
    if ops.len() > 0 {
        assert forall|i: int| 0 <= i < ops.drop_last().len() implies (#[trigger] ops.drop_last()[i]).on_child
            != on_child by {
            assert(ops.drop_last()[i] == ops[i]);
        }
        law_other_side_leaves_no_trace(m, ops.drop_last(), on_child);
    }
}

impl FdTable {
    /// Carry out an operation given as a value, and say whether it was carried
    /// out. An operation that asks for a descriptor where none is left, or
    /// for the ceiling itself, is not carried out and changes nothing.
    pub fn apply(&mut self, op: TableOp) -> (done: bool)
        requires
            old(self).wf(),
        ensures
            final(self).wf(),
            done == can_apply(old(self)@, op),
            final(self)@ == after(old(self)@, op),
            !done ==> final(self).next_vfd() == old(self).next_vfd() && final(self).free_set()
                == old(self).free_set(),
    {
        match op {
            TableOp::Allocate { entry } => {
                if self.is_full() {
                    return false;
                }
                let vfd: i32 = self.allocate(entry);
                proof {
                    law_lowest_free_is_unique(old(self)@, FIRST_USER_FD, vfd, vfd);
                }
                true
            },
            TableOp::AllocateMin { min_vfd, entry } => {
                if self.lowest_free_from(min_vfd).is_none() {
                    return false;
                }
                let vfd: i32 = self.allocate_min(min_vfd, entry);
                proof {
                    law_lowest_free_is_unique(old(self)@, user_floor(min_vfd), vfd, vfd);
                }
                true
            },
            TableOp::AllocateAt { vfd, entry } => {
                if vfd == i32::MAX {
                    return false;
                }
                self.allocate_at(vfd, entry);
                true
            },
            TableOp::Deallocate { vfd } => {
                self.deallocate(vfd);
                true
            },
            TableOp::Duplicate { old_vfd } => {
                if self.get(old_vfd).is_some() && self.is_full() {
                    return false;
                }
                match self.duplicate(old_vfd) {
                    Some(vfd) => {
                        proof {
                            law_lowest_free_is_unique(old(self)@, FIRST_USER_FD, vfd, vfd);
                        }
                    },
                    None => {},
                }
                true
            },
            TableOp::DuplicateAt { old_vfd, new_vfd } => {
                if new_vfd == i32::MAX && self.get(old_vfd).is_some() {
                    return false;
                }
                self.duplicate_at(old_vfd, new_vfd);
                true
            },
        }
    }

    /// Fork this table and carry out a sequence of operations, each on the
    /// child or on the parent, in the order given. The child is returned.
    ///
    /// Each of the two tables ends up with the mapping that its own
    /// operations alone make of the mapping at the fork: the two share no
    /// state, so neither shows a trace of what was done to the other.
    pub fn fork_and_run(&mut self, ops: &Vec<ForkOp>) -> (child: FdTable)
        requires
            old(self).wf(),
        ensures
            final(self).wf(),
            child.wf(),
            final(self)@ == ran(old(self)@, ops@, false),
            child@ == ran(old(self)@, ops@, true),
    {
        let mut child = self.deep_clone();
        let mut i: usize = 0;
        while i < ops.len()
            invariant
                i <= ops.len(),
                self.wf(),
                child.wf(),
                self@ == ran(old(self)@, ops@.take(i as int), false),
                child@ == ran(old(self)@, ops@.take(i as int), true),
            decreases ops.len() - i,
        {
            proof {
                let upto = ops@.take(i + 1);
                assert(upto.drop_last() =~= ops@.take(i as int));
                assert(upto.last() == ops@[i as int]);
            }
            let op = ops[i].op.clone();
            if ops[i].on_child {
                child.apply(op);
            } else {
                self.apply(op);
            }
            i = i + 1;
        }
        assert(ops@.take(ops.len() as int) =~= ops@);
        child
    }
}

} // verus!
