//! Laws of the descriptor table.
//!
//! Every operation of the table is specified by what it does to the mapping
//! from descriptors to entries, so the laws are stated over such mappings:
//! `m.insert(vfd, entry)` is the mapping after an allocation that yielded
//! `vfd`, `m.remove(vfd)` the mapping after a deallocation, and
//! `is_lowest_free(m, floor, vfd)` says that an allocation on `m` yields `vfd`.

use crate::vfs::entry::FdEntry;
use crate::vfs::fdtable::{
    entry_at, has_free_from, is_lowest_free, lowest_free, standard_entry, standard_map, user_floor,
    FdTable, FIRST_USER_FD, STDERR_FILENO, STDIN_FILENO,
};
use vstd::prelude::*;

verus! {

/// The three standard descriptors are mapped, each to the passthrough entry
/// of its own number.
pub open spec fn standard_fds_intact(m: Map<i32, FdEntry>) -> bool {
    forall|fd: i32|
        STDIN_FILENO <= fd <= STDERR_FILENO ==> #[trigger] m.contains_key(fd) && m[fd]
            == standard_entry(fd)
}

/// A fresh table maps the three standard descriptors, each to a passthrough
/// of the kernel descriptor with the same number, and nothing else.
pub proof fn law_fresh_table_has_standard_fds()
    ensures
        standard_fds_intact(standard_map()),
        forall|fd: i32|
            STDIN_FILENO <= fd <= STDERR_FILENO ==> (#[trigger] standard_map()[fd]).spec_kernel_fd()
                == Some(fd),
        forall|fd: i32| #[trigger]
            standard_map().contains_key(fd) <==> STDIN_FILENO <= fd <= STDERR_FILENO,
{
}

/// Allocation never touches a standard descriptor: whatever floor at or above
/// `FIRST_USER_FD` it starts from, the standard descriptors stay as they were.
pub proof fn law_allocation_keeps_standard_fds(
    m: Map<i32, FdEntry>,
    floor: i32,
    vfd: i32,
    entry: FdEntry,
)
    requires
        standard_fds_intact(m),
        FIRST_USER_FD <= floor,
        is_lowest_free(m, floor, vfd),
    ensures
        standard_fds_intact(m.insert(vfd, entry)),
{
    law_placement_keeps_standard_fds(m, vfd, entry);
}

/// Placing an entry at a descriptor other than the standard three leaves the
/// standard descriptors as they were.
pub proof fn law_placement_keeps_standard_fds(m: Map<i32, FdEntry>, vfd: i32, entry: FdEntry)
    requires
        standard_fds_intact(m),
        vfd < STDIN_FILENO || vfd > STDERR_FILENO,
    ensures
        standard_fds_intact(m.insert(vfd, entry)),
{
    assert forall|fd: i32| STDIN_FILENO <= fd <= STDERR_FILENO implies #[trigger] m.insert(
        vfd,
        entry,
    ).contains_key(fd) && m.insert(vfd, entry)[fd] == standard_entry(fd) by {
        assert(m.contains_key(fd));
    }
}

/// Releasing a descriptor other than the standard three leaves the standard
/// descriptors as they were.
pub proof fn law_release_keeps_standard_fds(m: Map<i32, FdEntry>, vfd: i32)
    requires
        standard_fds_intact(m),
        vfd < STDIN_FILENO || vfd > STDERR_FILENO,
    ensures
        standard_fds_intact(m.remove(vfd)),
{
    assert forall|fd: i32| STDIN_FILENO <= fd <= STDERR_FILENO implies #[trigger] m.remove(
        vfd,
    ).contains_key(fd) && m.remove(vfd)[fd] == standard_entry(fd) by {
        assert(m.contains_key(fd));
    }
}

/// What allocation yields is the minimum of the unused descriptors at or
/// above the floor: no unused descriptor from the floor up lies below it.
pub proof fn law_lowest_free_is_minimum(m: Map<i32, FdEntry>, floor: i32, vfd: i32, other: i32)
    requires
        is_lowest_free(m, floor, vfd),
        floor <= other,
        !m.contains_key(other),
    ensures
        vfd <= other,
{
}

/// The mapping and the floor determine what allocation yields.
pub proof fn law_lowest_free_is_unique(m: Map<i32, FdEntry>, floor: i32, a: i32, b: i32)
    requires
        is_lowest_free(m, floor, a),
        is_lowest_free(m, floor, b),
    ensures
        a == b,
        lowest_free(m, floor) == a,
        has_free_from(m, floor),
{
    let chosen = lowest_free(m, floor);
    assert(is_lowest_free(m, floor, chosen));
}

/// Where a descriptor at or above the floor is unused, allocation has a
/// descriptor to yield.
pub proof fn law_lowest_free_exists(m: Map<i32, FdEntry>, floor: i32)
    requires
        has_free_from(m, floor),
    ensures
        is_lowest_free(m, floor, lowest_free(m, floor)),
{
    let witness = choose|u: i32| floor <= u < i32::MAX && !m.contains_key(u);
    lemma_lowest_free_below(m, floor, witness);
}

/// Below any unused descriptor lies the lowest unused one.
proof fn lemma_lowest_free_below(m: Map<i32, FdEntry>, floor: i32, unused: i32)
    requires
        floor <= unused < i32::MAX,
        !m.contains_key(unused),
    ensures
        exists|vfd: i32| is_lowest_free(m, floor, vfd),
    decreases unused - floor,
{
    if forall|u: i32| floor <= u < unused ==> m.contains_key(u) {
        assert(is_lowest_free(m, floor, unused));
    } else {
        let lower = choose|u: i32| floor <= u < unused && !m.contains_key(u);
        lemma_lowest_free_below(m, floor, lower);
    }
}

/// After an entry has been placed at `vfd`, the descriptor holds that entry,
/// every descriptor mapped before is still mapped, and every other one to
/// what it was mapped to before.
pub proof fn law_placement_installs_and_keeps(
    m: Map<i32, FdEntry>,
    vfd: i32,
    entry: FdEntry,
    other: i32,
)
    requires
        m.contains_key(other),
    ensures
        entry_at(m.insert(vfd, entry), vfd) == Some(entry),
        m.insert(vfd, entry).contains_key(other),
        other != vfd ==> m.insert(vfd, entry)[other] == m[other],
{
}

/// A descriptor that placement at `vfd` skipped over is not lost: while
/// `gap`, a user descriptor below `vfd`, is unused, the next plain allocation
/// yields a descriptor no higher than `gap`, and so never one above `vfd`.
pub proof fn law_gap_is_served_before_higher(
    m: Map<i32, FdEntry>,
    vfd: i32,
    entry: FdEntry,
    gap: i32,
    next: i32,
)
    requires
        FIRST_USER_FD <= gap < vfd,
        !m.contains_key(gap),
        is_lowest_free(m.insert(vfd, entry), FIRST_USER_FD, next),
    ensures
        next <= gap,
        next < vfd,
{
    if gap < next {
        assert(m.insert(vfd, entry).contains_key(gap));
    }
}

/// A released user descriptor is what the very next allocation yields,
/// provided that no user descriptor below it is unused.
pub proof fn law_released_is_next(m: Map<i32, FdEntry>, vfd: i32, next: i32)
    requires
        FIRST_USER_FD <= vfd,
        forall|u: i32| FIRST_USER_FD <= u < vfd ==> m.contains_key(u),
        is_lowest_free(m.remove(vfd), FIRST_USER_FD, next),
    ensures
        next == vfd,
{
    if next < vfd {
        assert(m.contains_key(next));
        assert(m.remove(vfd).contains_key(next));
    } else if next > vfd {
        assert(m.remove(vfd).contains_key(vfd));
    }
}

/// Allocating an entry and then deallocating the descriptor it got returns
/// that entry and restores the mapping.
pub proof fn law_allocate_then_deallocate(
    m: Map<i32, FdEntry>,
    floor: i32,
    vfd: i32,
    entry: FdEntry,
)
    requires
        is_lowest_free(m, floor, vfd),
    ensures
        entry_at(m.insert(vfd, entry), vfd) == Some(entry),
        m.insert(vfd, entry).remove(vfd) == m,
{
    assert(m.insert(vfd, entry).remove(vfd) =~= m);
}

/// After a duplication the old and the new descriptor hold equal entries:
/// the same kernel descriptor, or the same virtual file object.
pub proof fn law_duplicate_shares_entry(m: Map<i32, FdEntry>, old_vfd: i32, new_vfd: i32)
    requires
        m.contains_key(old_vfd),
    ensures
        ({
            let after = m.insert(new_vfd, m[old_vfd]);
            &&& after.contains_key(old_vfd)
            &&& after.contains_key(new_vfd)
            &&& after[new_vfd] == after[old_vfd]
            &&& after[new_vfd].spec_kernel_fd() == after[old_vfd].spec_kernel_fd()
            &&& after[new_vfd].spec_file_ops() == after[old_vfd].spec_file_ops()
        }),
{
}

/// The first allocation on a fresh table yields `FIRST_USER_FD`.
pub proof fn law_first_allocation(vfd: i32)
    requires
        is_lowest_free(standard_map(), FIRST_USER_FD, vfd),
    ensures
        vfd == FIRST_USER_FD,
{
    assert(!standard_map().contains_key(FIRST_USER_FD));
}

/// A requested minimum below `FIRST_USER_FD` counts as `FIRST_USER_FD`, so
/// allocation at or above it yields what plain allocation yields.
pub proof fn law_minimum_is_floored(m: Map<i32, FdEntry>, min_vfd: i32, vfd: i32)
    requires
        min_vfd <= FIRST_USER_FD,
    ensures
        user_floor(min_vfd) == FIRST_USER_FD,
        is_lowest_free(m, user_floor(min_vfd), vfd) <==> is_lowest_free(m, FIRST_USER_FD, vfd),
        has_free_from(m, user_floor(min_vfd)) <==> has_free_from(m, FIRST_USER_FD),
{
}

/// A standard descriptor that has been released is never handed out again:
/// the next allocation yields what it would have yielded without the release.
pub proof fn law_standard_fd_is_never_reissued(m: Map<i32, FdEntry>, fd: i32, vfd: i32)
    requires
        fd < FIRST_USER_FD,
    ensures
        is_lowest_free(m.remove(fd), FIRST_USER_FD, vfd) <==> is_lowest_free(
            m,
            FIRST_USER_FD,
            vfd,
        ),
{
    if is_lowest_free(m.remove(fd), FIRST_USER_FD, vfd) {
        assert forall|u: i32| FIRST_USER_FD <= u < vfd implies m.contains_key(u) by {
            assert(m.remove(fd).contains_key(u));
        }
    }
    if is_lowest_free(m, FIRST_USER_FD, vfd) {
        assert forall|u: i32| FIRST_USER_FD <= u < vfd implies m.remove(fd).contains_key(u) by {
            assert(m.contains_key(u));
        }
    }
}

/// In a well-formed table no descriptor is both mapped and free, every free
/// descriptor is a user descriptor below the mark, and every user descriptor
/// below the mark is either mapped or free: none is lost.
pub proof fn law_bookkeeping_is_consistent(table: FdTable, vfd: i32)
    requires
        table.wf(),
    ensures
        FIRST_USER_FD <= table.next_vfd(),
        table@.contains_key(vfd) ==> vfd < table.next_vfd() && !table.free_set().contains(vfd),
        table.free_set().contains(vfd) ==> FIRST_USER_FD <= vfd < table.next_vfd(),
        FIRST_USER_FD <= vfd < table.next_vfd() ==> (table@.contains_key(vfd)
            != table.free_set().contains(vfd)),
{
}

/// On a well-formed table the lowest unused user descriptor is the minimum
/// of the free set where that is not empty, and the mark where it is: plain
/// allocation reuses released descriptors first and grows the table last.
pub proof fn law_allocation_reuses_first(table: FdTable, vfd: i32)
    requires
        table.wf(),
        is_lowest_free(table@, FIRST_USER_FD, vfd),
    ensures
        table.free_set() != Set::<i32>::empty() ==> table.free_set().contains(vfd) && forall|
            u: i32,
        | table.free_set().contains(u) ==> vfd <= u,
        table.free_set() == Set::<i32>::empty() ==> vfd == table.next_vfd(),
{
    if table.free_set() != Set::<i32>::empty() {
        assert(exists|u: i32| table.free_set().contains(u)) by {
            if forall|u: i32| !table.free_set().contains(u) {
                assert(table.free_set() =~= Set::<i32>::empty());
            }
        }
        let u = choose|u: i32| table.free_set().contains(u);
        assert(vfd <= u) by {
            if u < vfd {
                assert(table@.contains_key(u));
            }
        }
        assert forall|w: i32| table.free_set().contains(w) implies vfd <= w by {
            if w < vfd {
                assert(table@.contains_key(w));
            }
        }
    } else {
        if vfd < table.next_vfd() {
            assert(table.free_set().contains(vfd));
        } else if vfd > table.next_vfd() {
            assert(table@.contains_key(table.next_vfd()));
        }
    }
}

} // verus!
