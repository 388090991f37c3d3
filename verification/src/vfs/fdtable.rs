//! The per-process virtual file descriptor table.
//!
//! The table is a map from virtual descriptors to entries, together with the
//! bookkeeping that makes "lowest unused descriptor" cheap to find: a
//! high-water mark and the set of unused descriptors below it.

use crate::vfs::entry::FdEntry;
use std::collections::{BTreeSet, HashMap};
use vstd::prelude::*;

verus! {

/// Standard input.
pub const STDIN_FILENO: i32 = 0;

/// Standard output.
pub const STDOUT_FILENO: i32 = 1;

/// Standard error.
pub const STDERR_FILENO: i32 = 2;

/// The lowest descriptor that allocation ever hands out.
pub const FIRST_USER_FD: i32 = 3;

/// The entry that a standard descriptor starts out with: a passthrough to the
/// kernel descriptor of the same number, with no flags and no path.
pub open spec fn standard_entry(fd: i32) -> FdEntry {
    FdEntry::Passthrough { kernel_fd: fd, flags: 0, path: None }
}

/// The mapping of a freshly made table: the three standard descriptors.
pub open spec fn standard_map() -> Map<i32, FdEntry> {
    Map::<i32, FdEntry>::empty().insert(STDIN_FILENO, standard_entry(STDIN_FILENO)).insert(
        STDOUT_FILENO,
        standard_entry(STDOUT_FILENO),
    ).insert(STDERR_FILENO, standard_entry(STDERR_FILENO))
}

/// The floor that a requested minimum is raised to: allocation never goes
/// below `FIRST_USER_FD`.
pub open spec fn user_floor(min_vfd: i32) -> i32 {
    if min_vfd < FIRST_USER_FD {
        FIRST_USER_FD
    } else {
        min_vfd
    }
}

/// `vfd` is the lowest descriptor at or above `floor`, and below the ceiling
/// `i32::MAX`, that `m` does not map.
pub open spec fn is_lowest_free(m: Map<i32, FdEntry>, floor: i32, vfd: i32) -> bool {
    &&& floor <= vfd < i32::MAX
    &&& !m.contains_key(vfd)
    &&& forall|u: i32| floor <= u < vfd ==> m.contains_key(u)
}

/// What allocation from `floor` yields on `m`, where `m` has an unused
/// descriptor at or above `floor` and below the ceiling.
pub open spec fn lowest_free(m: Map<i32, FdEntry>, floor: i32) -> i32 {
    choose|vfd: i32| is_lowest_free(m, floor, vfd)
}

/// Some descriptor at or above `floor`, and below the ceiling, is unused in `m`.
pub open spec fn has_free_from(m: Map<i32, FdEntry>, floor: i32) -> bool {
    exists|u: i32| floor <= u < i32::MAX && !m.contains_key(u)
}

/// What a lookup of `vfd` in `m` yields.
pub open spec fn entry_at(m: Map<i32, FdEntry>, vfd: i32) -> Option<FdEntry> {
    if m.contains_key(vfd) {
        Some(m[vfd])
    } else {
        None
    }
}

/// What `vfd` translates to in `m`: the kernel descriptor of a passthrough
/// entry, and nothing for a virtual entry or an unmapped descriptor.
pub open spec fn translated(m: Map<i32, FdEntry>, vfd: i32) -> Option<i32> {
    match entry_at(m, vfd) {
        Some(entry) => entry.spec_kernel_fd(),
        None => None,
    }
}

/// The high-water mark after a descriptor `vfd` has been put in use.
pub open spec fn raised_mark(mark: i32, vfd: i32) -> int {
    if vfd >= mark {
        vfd + 1
    } else {
        mark as int
    }
}

/// The bookkeeping matches the mapping `m`: every mapped descriptor lies below
/// `mark`, and `free` is exactly the unused descriptors from `FIRST_USER_FD`
/// up to `mark`. So no descriptor is both mapped and free, and no gap below
/// the mark is ever lost to allocation.
pub open spec fn consistent(m: Map<i32, FdEntry>, mark: i32, free: Set<i32>) -> bool {
    &&& FIRST_USER_FD <= mark
    &&& forall|v: i32| #[trigger] m.contains_key(v) ==> v < mark
    &&& forall|v: i32| #[trigger]
        free.contains(v) <==> (FIRST_USER_FD <= v < mark && !m.contains_key(v))
}

/// Calls `BTreeSet::pop_first`, which removes the first element of the set and
/// returns it; the first element is always the minimum. On an empty set it
/// returns `None` and changes nothing.
#[verifier::external_body]
fn pop_lowest(set: &mut BTreeSet<i32>) -> (lowest: Option<i32>)
    ensures
        match lowest {
            Some(v) => {
                &&& old(set)@.contains(v)
                &&& forall|u: i32| old(set)@.contains(u) ==> v <= u
                &&& final(set)@ == old(set)@.remove(v)
            },
            None => old(set)@ == Set::<i32>::empty() && final(set)@ == old(set)@,
        },
{
    set.pop_first()
}

/// Per-process file descriptor table that virtualises file descriptors.
///
/// A value of this type is one table. `deep_clone` makes a second, independent
/// one; sharing a single table among threads is done by whoever owns it.
#[derive(Debug)]
pub struct FdTable {
    /// Mapping from virtual descriptor to what it refers to.
    entries: HashMap<i32, FdEntry>,
    /// Every mapped descriptor lies below this mark.
    next_vfd: i32,
    /// The unused descriptors between `FIRST_USER_FD` and the mark.
    free_fds: BTreeSet<i32>,
}

impl View for FdTable {
    type V = Map<i32, FdEntry>;

    /// The table as a mapping from virtual descriptors to entries.
    closed spec fn view(&self) -> Map<i32, FdEntry> {
        self.entries@
    }
}

impl Default for FdTable {
    /// A new table with the standard descriptors.
    fn default() -> (table: Self)
        ensures
            table.wf(),
            table@ == standard_map(),
            table.next_vfd() == FIRST_USER_FD,
            table.free_set() == Set::<i32>::empty(),
    {
        FdTable::new()
    }
}

impl FdTable {
    /// The high-water mark: the smallest descriptor that monotonic growth has
    /// never reached.
    pub closed spec fn next_vfd(&self) -> i32 {
        self.next_vfd
    }

    /// The descriptors that are recorded as released and ready for reuse.
    pub closed spec fn free_set(&self) -> Set<i32> {
        self.free_fds@
    }

    /// Well-formedness: the mark and the free set are consistent with the
    /// mapping.
    pub open spec fn wf(&self) -> bool {
        consistent(self@, self.next_vfd(), self.free_set())
    }

    /// Create a new table with the standard descriptors (stdin, stdout, stderr).
    pub fn new() -> (table: Self)
        ensures
            table.wf(),
            table@ == standard_map(),
            table.next_vfd() == FIRST_USER_FD,
            table.free_set() == Set::<i32>::empty(),
    {
        let mut entries: HashMap<i32, FdEntry> = HashMap::new();
        entries.insert(
            STDIN_FILENO,
            FdEntry::Passthrough { kernel_fd: STDIN_FILENO, flags: 0, path: None },
        );
        entries.insert(
            STDOUT_FILENO,
            FdEntry::Passthrough { kernel_fd: STDOUT_FILENO, flags: 0, path: None },
        );
        entries.insert(
            STDERR_FILENO,
            FdEntry::Passthrough { kernel_fd: STDERR_FILENO, flags: 0, path: None },
        );
        FdTable { entries, next_vfd: FIRST_USER_FD, free_fds: BTreeSet::new() }
    }

    /// Create a deep clone of this table, as a fork does: the copy starts out
    /// equal to this table and shares nothing with it.
    pub fn deep_clone(&self) -> (copy: Self)
        ensures
            copy@ == self@,
            copy.next_vfd() == self.next_vfd(),
            copy.free_set() == self.free_set(),
            self.wf() ==> copy.wf(),
    {
        FdTable {
            entries: self.entries.clone(),
            next_vfd: self.next_vfd,
            free_fds: self.free_fds.clone(),
        }
    }

    /// The number of descriptors that the table maps.
    pub fn entry_count(&self) -> (count: usize)
        ensures
            count == self@.len(),
    {
        self.entries.len()
    }

    /// The high-water mark; see `next_vfd`.
    pub fn high_water_mark(&self) -> (mark: i32)
        ensures
            mark == self.next_vfd(),
    {
        self.next_vfd
    }

    /// The number of descriptors that are recorded as released.
    pub fn free_count(&self) -> (count: usize)
        ensures
            count == self.free_set().len(),
    {
        self.free_fds.len()
    }

    /// Whether every descriptor from `FIRST_USER_FD` up to the ceiling is in use,
    /// so that `allocate` has nothing left to hand out.
    pub fn is_full(&self) -> (full: bool)
        requires
            self.wf(),
        ensures
            full == !has_free_from(self@, FIRST_USER_FD),
    {
        let full = self.free_fds.is_empty() && self.next_vfd == i32::MAX;
        proof {
            if full {
                assert forall|u: i32| FIRST_USER_FD <= u < i32::MAX implies self@.contains_key(
                    u,
                ) by {
                    assert(!self.free_set().contains(u));
                }
            } else if self.next_vfd == i32::MAX {
                let u = choose|u: i32| self.free_fds@.contains(u);
                assert(self.free_set().contains(u));
                assert(FIRST_USER_FD <= u < i32::MAX && !self@.contains_key(u));
            } else {
                assert(!self@.contains_key(self.next_vfd));
            }
        }
        full
    }

    /// Find the lowest unused descriptor at or above `min_vfd`, and never below
    /// `FIRST_USER_FD`, by a scan upwards. `None` means that every descriptor
    /// from there to the ceiling is in use.
    pub fn lowest_free_from(&self, min_vfd: i32) -> (found: Option<i32>)
        ensures
            match found {
                Some(vfd) => is_lowest_free(self@, user_floor(min_vfd), vfd),
                None => !has_free_from(self@, user_floor(min_vfd)),
            },
    {
        let mut fd: i32 = if min_vfd < FIRST_USER_FD {
            FIRST_USER_FD
        } else {
            min_vfd
        };
        while fd < i32::MAX
            invariant
                user_floor(min_vfd) <= fd <= i32::MAX,
                forall|u: i32| user_floor(min_vfd) <= u < fd ==> self@.contains_key(u),
            decreases i32::MAX - fd,
        {
            if !self.entries.contains_key(&fd) {
                return Some(fd);
            }
            fd = fd + 1;
        }
        None
    }

    /// Record every unused descriptor from the mark up to, but not including,
    /// `vfd` as free, and raise the mark past `vfd`. The descriptors skipped
    /// over stay available to `allocate`.
    fn fill_gaps(&mut self, vfd: i32)
        requires
            FIRST_USER_FD <= old(self).next_vfd <= vfd < i32::MAX,
        ensures
            final(self).entries@ == old(self).entries@,
            final(self).next_vfd == vfd + 1,
            forall|v: i32|
                final(self).free_fds@.contains(v) <==> (old(self).free_fds@.contains(v) || (old(
                    self,
                ).next_vfd <= v < vfd && !old(self).entries@.contains_key(v))),
    {
        let mut fd: i32 = self.next_vfd;
        while fd < vfd
            invariant
                FIRST_USER_FD <= old(self).next_vfd <= fd <= vfd < i32::MAX,
                self.entries@ == old(self).entries@,
                self.next_vfd == old(self).next_vfd,
                forall|v: i32|
                    self.free_fds@.contains(v) <==> (old(self).free_fds@.contains(v) || (old(
                        self,
                    ).next_vfd <= v < fd && !old(self).entries@.contains_key(v))),
            decreases vfd - fd,
        {
            if fd >= FIRST_USER_FD && !self.entries.contains_key(&fd) {
                self.free_fds.insert(fd);
            }
            fd = fd + 1;
        }
        self.next_vfd = vfd + 1;
    }

    /// Allocate a new virtual descriptor for the given entry.
    ///
    /// This uses the lowest available descriptor number, as POSIX requires: the
    /// smallest one from `FIRST_USER_FD` up that is not in use.
    pub fn allocate(&mut self, entry: FdEntry) -> (vfd: i32)
        requires
            old(self).wf(),
            has_free_from(old(self)@, FIRST_USER_FD),
        ensures
            final(self).wf(),
            is_lowest_free(old(self)@, FIRST_USER_FD, vfd),
            final(self)@ == old(self)@.insert(vfd, entry),
            final(self).next_vfd() == raised_mark(old(self).next_vfd(), vfd),
    {
        let vfd: i32 = match pop_lowest(&mut self.free_fds) {
            Some(free_fd) => free_fd,
            None => {
                // Nothing below the mark is unused, so the mark itself is the
                // lowest unused descriptor; the table is not full, so the mark
                // is below the ceiling.
                let next: i32 = self.next_vfd;
                proof {
                    let u = choose|u: i32|
                        FIRST_USER_FD <= u < i32::MAX && !old(self)@.contains_key(u);
                    assert(!old(self).free_set().contains(u));
                }
                self.next_vfd = next + 1;
                next
            },
        };
        proof {
            // Every user descriptor below `vfd` lies below the mark and is not
            // free, so it is mapped.
            assert forall|u: i32| FIRST_USER_FD <= u < vfd implies old(self)@.contains_key(u) by {
                assert(!old(self).free_set().contains(u));
            }
        }
        self.entries.insert(vfd, entry);
        vfd
    }

    /// Allocate a new virtual descriptor at or above the specified minimum.
    ///
    /// This is what `fcntl` with `F_DUPFD` asks for. The minimum is raised to
    /// `FIRST_USER_FD` where it lies below.
    pub fn allocate_min(&mut self, min_vfd: i32, entry: FdEntry) -> (vfd: i32)
        requires
            old(self).wf(),
            has_free_from(old(self)@, user_floor(min_vfd)),
        ensures
            final(self).wf(),
            is_lowest_free(old(self)@, user_floor(min_vfd), vfd),
            final(self)@ == old(self)@.insert(vfd, entry),
            final(self).next_vfd() == raised_mark(old(self).next_vfd(), vfd),
    {
        let vfd: i32 = match self.lowest_free_from(min_vfd) {
            Some(vfd) => vfd,
            None => vstd::pervasive::unreached(),
        };
        if vfd >= self.next_vfd {
            self.fill_gaps(vfd);
        }
        self.free_fds.remove(&vfd);
        self.entries.insert(vfd, entry);
        vfd
    }

    /// Allocate a specific virtual descriptor, as `dup2` does.
    ///
    /// Returns the entry that was at `vfd` before, if there was one, so that the
    /// caller can release what it referred to.
    pub fn allocate_at(&mut self, vfd: i32, entry: FdEntry) -> (prior: Option<FdEntry>)
        requires
            old(self).wf(),
            vfd < i32::MAX,
        ensures
            final(self).wf(),
            prior == entry_at(old(self)@, vfd),
            final(self)@ == old(self)@.insert(vfd, entry),
            final(self).next_vfd() == raised_mark(old(self).next_vfd(), vfd),
    {
        self.free_fds.remove(&vfd);
        if vfd >= self.next_vfd {
            self.fill_gaps(vfd);
        }
        self.entries.insert(vfd, entry)
    }

    /// Translate a virtual descriptor to a kernel descriptor.
    ///
    /// Returns the kernel descriptor if the entry is a passthrough, and `None`
    /// if it is virtual or the descriptor is not mapped.
    pub fn translate(&self, vfd: i32) -> (kernel_fd: Option<i32>)
        ensures
            kernel_fd == translated(self@, vfd),
    {
        match self.entries.get(&vfd) {
            Some(entry) => entry.kernel_fd(),
            None => None,
        }
    }

    /// Get a copy of the full entry for a virtual descriptor.
    pub fn get(&self, vfd: i32) -> (entry: Option<FdEntry>)
        ensures
            entry == entry_at(self@, vfd),
    {
        match self.entries.get(&vfd) {
            Some(entry) => Some(entry.clone()),
            None => None,
        }
    }

    /// Deallocate a virtual descriptor and mark it as available for reuse.
    ///
    /// Returns the entry that was removed, if there was one. A standard
    /// descriptor is removed like any other but never handed out again by
    /// allocation.
    pub fn deallocate(&mut self, vfd: i32) -> (removed: Option<FdEntry>)
        requires
            old(self).wf(),
        ensures
            final(self).wf(),
            removed == entry_at(old(self)@, vfd),
            final(self)@ == old(self)@.remove(vfd),
            final(self).next_vfd() == old(self).next_vfd(),
            final(self).free_set() == if removed is Some && vfd >= FIRST_USER_FD {
                old(self).free_set().insert(vfd)
            } else {
                old(self).free_set()
            },
    {
        match self.entries.remove(&vfd) {
            Some(entry) => {
                if vfd >= FIRST_USER_FD {
                    self.free_fds.insert(vfd);
                }
                Some(entry)
            },
            None => {
                assert(self.entries@ =~= old(self).entries@);
                None
            },
        }
    }

    /// Duplicate a virtual descriptor, as `dup` does: the copy of the entry
    /// goes to the lowest available descriptor, which is returned. `None` means
    /// that `old_vfd` is not mapped, and then nothing changes.
    pub fn duplicate(&mut self, old_vfd: i32) -> (new_vfd: Option<i32>)
        requires
            old(self).wf(),
            old(self)@.contains_key(old_vfd) ==> has_free_from(old(self)@, FIRST_USER_FD),
        ensures
            final(self).wf(),
            match new_vfd {
                Some(vfd) => {
                    &&& old(self)@.contains_key(old_vfd)
                    &&& is_lowest_free(old(self)@, FIRST_USER_FD, vfd)
                    &&& final(self)@ == old(self)@.insert(vfd, old(self)@[old_vfd])
                    &&& final(self).next_vfd() == raised_mark(old(self).next_vfd(), vfd)
                },
                None => {
                    &&& !old(self)@.contains_key(old_vfd)
                    &&& final(self)@ == old(self)@
                    &&& final(self).next_vfd() == old(self).next_vfd()
                },
            },
    {
        match self.get(old_vfd) {
            Some(entry) => Some(self.allocate(entry)),
            None => None,
        }
    }

    /// Duplicate a virtual descriptor to a specific new descriptor, as `dup2`
    /// does. Returns the entry that was at `new_vfd` before, if there was one.
    /// Where `old_vfd` is not mapped the result is `None` and nothing changes.
    pub fn duplicate_at(&mut self, old_vfd: i32, new_vfd: i32) -> (prior: Option<FdEntry>)
        requires
            old(self).wf(),
            old(self)@.contains_key(old_vfd) ==> new_vfd < i32::MAX,
        ensures
            final(self).wf(),
            old(self)@.contains_key(old_vfd) ==> {
                &&& prior == entry_at(old(self)@, new_vfd)
                &&& final(self)@ == old(self)@.insert(new_vfd, old(self)@[old_vfd])
                &&& final(self).next_vfd() == raised_mark(old(self).next_vfd(), new_vfd)
            },
            !old(self)@.contains_key(old_vfd) ==> {
                &&& prior is None
                &&& final(self)@ == old(self)@
                &&& final(self).next_vfd() == old(self).next_vfd()
            },
    {
        match self.get(old_vfd) {
            Some(entry) => self.allocate_at(new_vfd, entry),
            None => None,
        }
    }
}

} // verus!
