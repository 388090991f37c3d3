//! What holds of every replay: the table conforms to its reference model, so
//! a replay that names user descriptors only, and stays clear of the ceiling,
//! always passes; the tables of a fleet are independent of each other; and
//! a table that disagrees with its model has a first difference to report.

use crate::repro::case::ReproOp;
use crate::repro::keys::key_rank;
use crate::repro::model::{
    chosen_existing, has_unused_from, is_lowest_unused, key_of_rank,
    lemma_lowest_unused_is_unique, magnitude, model_at,
};
use crate::repro::semantics::{
    agrees, differs_at, first_difference, is_first_difference, allocation_step, derived_min, destination, duplication_at_step, duplication_step,
    fleet_apply, fleet_step, initial_fleet, pair_step, passthrough_entry, placement_step,
    release_step, replay, replay_from, table_index, Pair, MAX_TABLES, SPOT_CHECK_END,
};
use crate::vfs::entry::FdEntry;
use crate::vfs::fdtable::{
    has_free_from, lowest_free, translated, user_floor, FIRST_USER_FD,
};
use crate::vfs::laws::law_lowest_free_exists;
use vstd::prelude::*;

verus! {

/// A finite, non-empty model has a highest key.
proof fn lemma_highest_key_exists(model: Map<i32, i32>)
    requires
        model.dom().finite(),
        model.dom().len() > 0,
    ensures
        exists|high: i32|
            model.contains_key(high) && forall|other: i32| #[trigger]
                model.contains_key(other) ==> other <= high,
    decreases model.dom().len(),
{
    let x = model.dom().choose();
    let rest = model.remove(x);
    if rest.dom().len() == 0 {
        assert forall|other: i32| #[trigger] model.contains_key(other) implies other <= x by {
            if other != x {
                assert(rest.dom().contains(other));
            }
        }
    } else {
        lemma_highest_key_exists(rest);
        let high_rest = choose|high: i32|
            rest.contains_key(high) && forall|other: i32| #[trigger]
                rest.contains_key(other) ==> other <= high;
        let high = if x > high_rest {
            x
        } else {
            high_rest
        };
        assert forall|other: i32| #[trigger] model.contains_key(other) implies other <= high by {
            if other != x {
                assert(rest.contains_key(other));
            }
        }
        assert(model.contains_key(high));
    }
}

/// A finite model has a key of every rank below the number of its keys.
pub proof fn lemma_key_of_rank_exists(model: Map<i32, i32>, rank: nat)
    requires
        model.dom().finite(),
        rank < model.dom().len(),
    ensures
        model.contains_key(key_of_rank(model, rank)),
        key_rank(model, key_of_rank(model, rank)) == rank,
    decreases model.dom().len(),
{
    lemma_highest_key_exists(model);
    let high = choose|high: i32|
        model.contains_key(high) && forall|other: i32| #[trigger]
            model.contains_key(other) ==> other <= high;
    let rest = model.remove(high);
    if rank == model.dom().len() - 1 {
        assert(model.dom().filter(|other: i32| other < high) =~= rest.dom());
        assert(key_rank(model, high) == rank);
    } else {
        lemma_key_of_rank_exists(rest, rank);
        let key = key_of_rank(rest, rank);
        assert(model.dom().filter(|other: i32| other < key) =~= rest.dom().filter(
            |other: i32| other < key,
        )) by {
            assert(rest.contains_key(key));
            assert(key <= high);
        }
        assert(model.contains_key(key) && key_rank(model, key) == rank);
    }
}

/// What the replay aims an operation at is a key of the model or the fallback.
pub proof fn lemma_chosen_is_key_or_fallback(model: Map<i32, i32>, seed: i32, fallback: i32)
    requires
        model.dom().finite(),
    ensures
        chosen_existing(model, seed, fallback) == fallback || model.contains_key(
            chosen_existing(model, seed, fallback),
        ),
{
    if model.dom().len() != 0 && magnitude(seed) % 3 == 0 {
        let rank = magnitude(seed) % model.dom().len();
        lemma_key_of_rank_exists(model, rank);
    }
}

/// The operation names user descriptors only, each place it puts an entry
/// at lying below `limit`.
pub open spec fn in_user_range(op: ReproOp, limit: i32) -> bool {
    match op {
        ReproOp::DeepClone => true,
        ReproOp::Allocate { .. } => true,
        ReproOp::AllocateMin { min_fd, .. } => min_fd < limit,
        ReproOp::AllocateAt { vfd, .. } => FIRST_USER_FD <= vfd < limit,
        ReproOp::Deallocate { vfd } => FIRST_USER_FD <= vfd,
        ReproOp::Duplicate { old_vfd } => FIRST_USER_FD <= old_vfd,
        ReproOp::DuplicateAt { old_vfd, new_vfd } => FIRST_USER_FD <= old_vfd && FIRST_USER_FD
            <= new_vfd < limit,
    }
}

/// By how much one step can raise the highest descriptor in use: an
/// `AllocateMin` may start ten above it.
pub const STEP_REACH: i32 = 11;

/// The table is its model plus the standard descriptors: it maps the three
/// standard descriptors and the model's keys and nothing else, each key to a
/// plain passthrough of the model's kernel descriptor, and every key is a
/// user descriptor below `bound`.
pub open spec fn tracks(pair: Pair, bound: int) -> bool {
    &&& pair.model.dom().finite()
    &&& forall|v: i32| #[trigger]
        pair.table.contains_key(v) <==> (0 <= v < FIRST_USER_FD || pair.model.contains_key(v))
    &&& forall|v: i32| #[trigger]
        pair.model.contains_key(v) ==> FIRST_USER_FD <= v < bound && pair.table[v]
            == passthrough_entry(pair.model[v])
}

/// A table that tracks its model agrees with it.
pub proof fn lemma_tracking_agrees(pair: Pair, bound: int)
    requires
        tracks(pair, bound),
    ensures
        agrees(pair.table, pair.model),
{
    assert forall|vfd: i32| #[trigger] pair.model.contains_key(vfd) implies translated(
        pair.table,
        vfd,
    ) == Some(pair.model[vfd]) by {
        assert(pair.table.contains_key(vfd));
    }
    assert forall|vfd: i32| FIRST_USER_FD <= vfd < SPOT_CHECK_END implies #[trigger] translated(
        pair.table,
        vfd,
    ) == model_at(pair.model, vfd) by {
        if pair.model.contains_key(vfd) {
            assert(pair.table.contains_key(vfd));
        } else {
            assert(!pair.table.contains_key(vfd));
        }
    }
}

/// On a table that tracks its model, allocation from a user floor below the
/// ceiling yields on both sides the same descriptor, at most `bound` or the
/// floor.
proof fn lemma_allocation_conforms(
    pair: Pair,
    bound: int,
    floor: i32,
    kernel_fd: i32,
    min: Option<i32>,
)
    requires
        tracks(pair, bound),
        FIRST_USER_FD <= floor,
        FIRST_USER_FD <= bound,
        floor < i32::MAX,
        bound < i32::MAX,
    ensures
        allocation_step(pair, floor, kernel_fd, min) is Next,
        tracks(
            allocation_step(pair, floor, kernel_fd, min)->Next_0,
            if floor >= bound {
                floor + 1
            } else {
                bound + 1
            },
        ),
{
    let top: i32 = if floor >= bound {
        floor
    } else {
        bound as i32
    };
    assert(!pair.model.contains_key(top));
    assert(!pair.table.contains_key(top));
    assert(has_free_from(pair.table, floor));
    assert(has_unused_from(pair.model, floor));
    law_lowest_free_exists(pair.table, floor);
    let vfd = lowest_free(pair.table, floor);
    assert(vfd <= top) by {
        if vfd > top {
            assert(pair.table.contains_key(top));
        }
    }
    assert(is_lowest_unused(pair.model, floor, vfd)) by {
        assert forall|u: i32| floor <= u < vfd implies #[trigger] pair.model.contains_key(u) by {
            assert(pair.table.contains_key(u));
        }
    }
    lemma_lowest_unused_is_unique(pair.model, floor, vfd);
    let after = allocation_step(pair, floor, kernel_fd, min)->Next_0;
    assert(after.table == pair.table.insert(vfd, passthrough_entry(kernel_fd)));
    assert(after.model == pair.model.insert(vfd, kernel_fd));
    assert forall|v: i32| #[trigger]
        after.table.contains_key(v) <==> (0 <= v < FIRST_USER_FD || after.model.contains_key(
            v,
        )) by {
        if v != vfd {
            assert(pair.table.contains_key(v) <==> (0 <= v < FIRST_USER_FD
                || pair.model.contains_key(v)));
        }
    }
}

/// On a table that tracks its model, placement at a user descriptor below
/// the bound conforms.
proof fn lemma_placement_conforms(pair: Pair, bound: int, target: i32, kernel_fd: i32)
    requires
        tracks(pair, bound),
        FIRST_USER_FD <= target < bound,
        bound <= i32::MAX,
    ensures
        placement_step(pair, target, kernel_fd) is Next,
        tracks(placement_step(pair, target, kernel_fd)->Next_0, bound),
{
    assert(pair.table.contains_key(target) <==> pair.model.contains_key(target));
    let after = placement_step(pair, target, kernel_fd)->Next_0;
    assert forall|v: i32| #[trigger]
        after.table.contains_key(v) <==> (0 <= v < FIRST_USER_FD || after.model.contains_key(
            v,
        )) by {
        if v != target {
            assert(pair.table.contains_key(v) <==> (0 <= v < FIRST_USER_FD
                || pair.model.contains_key(v)));
        }
    }
}

/// On a table that tracks its model, releasing a user descriptor conforms.
proof fn lemma_release_conforms(pair: Pair, bound: int, target: i32)
    requires
        tracks(pair, bound),
        FIRST_USER_FD <= target,
    ensures
        release_step(pair, target) is Next,
        tracks(release_step(pair, target)->Next_0, bound),
{
    assert(pair.table.contains_key(target) <==> pair.model.contains_key(target));
    let after = release_step(pair, target)->Next_0;
    assert forall|v: i32| #[trigger]
        after.table.contains_key(v) <==> (0 <= v < FIRST_USER_FD || after.model.contains_key(
            v,
        )) by {
        if v != target {
            assert(pair.table.contains_key(v) <==> (0 <= v < FIRST_USER_FD
                || pair.model.contains_key(v)));
        }
    }
}

/// On a table that tracks its model, duplicating a user descriptor conforms.
proof fn lemma_duplication_conforms(pair: Pair, bound: int, src: i32)
    requires
        tracks(pair, bound),
        FIRST_USER_FD <= src,
        FIRST_USER_FD <= bound < i32::MAX,
    ensures
        duplication_step(pair, src) is Next,
        tracks(duplication_step(pair, src)->Next_0, bound + 1),
{
    assert(pair.table.contains_key(src) <==> pair.model.contains_key(src));
    if pair.model.contains_key(src) {
        lemma_allocation_conforms(pair, bound, FIRST_USER_FD, pair.model[src], None);
        assert(pair.table[src] == passthrough_entry(pair.model[src]));
        assert(duplication_step(pair, src) == allocation_step(
            pair,
            FIRST_USER_FD,
            pair.model[src],
            None,
        ));
    }
}

/// On a table that tracks its model, duplicating a user descriptor onto a
/// user descriptor below the bound conforms.
proof fn lemma_duplication_at_conforms(pair: Pair, bound: int, src: i32, dst: i32)
    requires
        tracks(pair, bound),
        FIRST_USER_FD <= src,
        FIRST_USER_FD <= dst < bound,
        bound <= i32::MAX,
    ensures
        duplication_at_step(pair, src, dst) is Next,
        tracks(duplication_at_step(pair, src, dst)->Next_0, bound),
{
    assert(pair.table.contains_key(src) <==> pair.model.contains_key(src));
    assert(pair.table.contains_key(dst) <==> pair.model.contains_key(dst));
    if pair.model.contains_key(src) {
        lemma_placement_conforms(pair, bound, dst, pair.model[src]);
        assert(pair.table[src] == passthrough_entry(pair.model[src]));
        assert(duplication_at_step(pair, src, dst) == placement_step(pair, dst, pair.model[src]));
    }
}

/// One operation in user range, on a table that tracks its model with room
/// to the ceiling, conforms, and the table tracks its model afterwards.
pub proof fn lemma_pair_step_conforms(pair: Pair, bound: int, op: ReproOp, limit: i32)
    requires
        tracks(pair, bound),
        in_user_range(op, limit),
        FIRST_USER_FD <= limit <= bound,
        bound + STEP_REACH < i32::MAX,
    ensures
        pair_step(pair, op) is Next,
        tracks(pair_step(pair, op)->Next_0, bound + STEP_REACH),
{
    match op {
        ReproOp::DeepClone => {},
        ReproOp::Allocate { kernel_fd } => {
            lemma_allocation_conforms(pair, bound, FIRST_USER_FD, kernel_fd, None);
        },
        ReproOp::AllocateMin { min_fd, kernel_fd } => {
            lemma_chosen_is_key_or_fallback(pair.model, min_fd, FIRST_USER_FD);
            let floor = user_floor(derived_min(pair.model, min_fd));
            assert(floor <= bound + STEP_REACH - 1);
            lemma_allocation_conforms(
                pair,
                bound,
                floor,
                kernel_fd,
                Some(derived_min(pair.model, min_fd)),
            );
        },
        ReproOp::AllocateAt { vfd, kernel_fd } => {
            lemma_chosen_is_key_or_fallback(pair.model, vfd, vfd);
            lemma_placement_conforms(pair, bound, chosen_existing(pair.model, vfd, vfd), kernel_fd);
        },
        ReproOp::Deallocate { vfd } => {
            lemma_chosen_is_key_or_fallback(pair.model, vfd, vfd);
            lemma_release_conforms(pair, bound, chosen_existing(pair.model, vfd, vfd));
        },
        ReproOp::Duplicate { old_vfd } => {
            lemma_chosen_is_key_or_fallback(pair.model, old_vfd, old_vfd);
            lemma_duplication_conforms(pair, bound, chosen_existing(pair.model, old_vfd, old_vfd));
        },
        ReproOp::DuplicateAt { old_vfd, new_vfd } => {
            lemma_chosen_is_key_or_fallback(pair.model, old_vfd, old_vfd);
            lemma_chosen_is_key_or_fallback(pair.model, new_vfd, new_vfd);
            lemma_duplication_at_conforms(
                pair,
                bound,
                chosen_existing(pair.model, old_vfd, old_vfd),
                destination(pair.model, new_vfd),
            );
        },
    }
}

/// Every table of the fleet tracks its model.
pub open spec fn all_track(fleet: Seq<Pair>, bound: int) -> bool {
    &&& 1 <= fleet.len() <= MAX_TABLES
    &&& forall|i: int| 0 <= i < fleet.len() ==> tracks(#[trigger] fleet[i], bound)
}

/// One whole step in user range, on a fleet whose tables track their models
/// with room to the ceiling, goes on, to a fleet whose tables track their
/// models.
pub proof fn lemma_fleet_step_conforms(fleet: Seq<Pair>, bound: int, op: ReproOp, limit: i32)
    requires
        all_track(fleet, bound),
        in_user_range(op, limit),
        FIRST_USER_FD <= limit <= bound,
        bound + STEP_REACH < i32::MAX,
    ensures
        fleet_step(fleet, op) is Next,
        all_track(fleet_step(fleet, op)->Next_0, bound + STEP_REACH),
{
    match op {
        ReproOp::DeepClone => {
            assert(tracks(fleet[0], bound));
        },
        _ => {
            let i = table_index(op, fleet.len()) as int;
            assert(tracks(fleet[i], bound));
            lemma_pair_step_conforms(fleet[i], bound, op, limit);
        },
    }
    let after = fleet_apply(fleet, op)->Next_0;
    assert forall|i: int| 0 <= i < after.len() implies tracks(
        #[trigger] after[i],
        bound + STEP_REACH,
    ) by {
        if i < fleet.len() {
            assert(tracks(fleet[i], bound));
        }
    }
    assert forall|i: int| 0 <= i < after.len() implies agrees(
        #[trigger] after[i].table,
        after[i].model,
    ) by {
        lemma_tracking_agrees(after[i], bound + STEP_REACH);
    }
}

/// A replay in user range, from a fleet whose tables track their models,
/// passes as long as the steps left cannot reach the ceiling.
pub proof fn lemma_replay_conforms(
    fleet: Seq<Pair>,
    bound: int,
    ops: Seq<ReproOp>,
    step: nat,
    limit: i32,
)
    requires
        all_track(fleet, bound),
        forall|i: int| 0 <= i < ops.len() ==> in_user_range(#[trigger] ops[i], limit),
        FIRST_USER_FD <= limit <= bound,
        bound + STEP_REACH * ops.len() < i32::MAX,
    ensures
        replay_from(fleet, ops, step) is Passed,
    decreases ops.len(),
{
    if ops.len() > 0 {
        assert(in_user_range(ops[0], limit));
        lemma_fleet_step_conforms(fleet, bound, ops[0], limit);
        let after = fleet_step(fleet, ops[0])->Next_0;
        assert forall|i: int| 0 <= i < ops.skip(1).len() implies in_user_range(
            #[trigger] ops.skip(1)[i],
            limit,
        ) by {
            assert(ops.skip(1)[i] == ops[i + 1]);
        }
        lemma_replay_conforms(after, bound + STEP_REACH, ops.skip(1), step + 1, limit);
    }
}

/// The table conforms to the reference model: a replay from a fresh table
/// passes whenever every operation names user descriptors only, each place
/// it puts an entry at lying below `limit`, and `limit` leaves the recorded
/// number of steps room to the ceiling.
pub proof fn law_user_range_replay_passes(ops: Seq<ReproOp>, limit: i32)
    requires
        forall|i: int| 0 <= i < ops.len() ==> in_user_range(#[trigger] ops[i], limit),
        FIRST_USER_FD <= limit,
        limit + STEP_REACH * ops.len() < i32::MAX,
    ensures
        replay(ops) is Passed,
{
    let start = initial_fleet();
    assert(start[0].model.dom().finite());
    assert(tracks(start[0], limit as int));
    lemma_replay_conforms(start, limit as int, ops, 0, limit);
}

/// The tables of a fleet are independent: a deep clone adds a table that
/// starts out equal to the first and leaves every table as it was, and any
/// other operation changes at most the table it goes to, whatever it does
/// there.
pub proof fn law_tables_are_independent(fleet: Seq<Pair>, op: ReproOp, other: int)
    requires
        fleet.len() >= 1,
        fleet_apply(fleet, op) is Next,
        0 <= other < fleet.len(),
    ensures
        ({
            let after = fleet_apply(fleet, op)->Next_0;
            &&& op is DeepClone ==> after[other] == fleet[other]
            &&& op is DeepClone && fleet.len() < MAX_TABLES ==> after.len() == fleet.len() + 1
                && after[fleet.len() as int] == fleet[0]
            &&& !(op is DeepClone) ==> after.len() == fleet.len()
            &&& !(op is DeepClone) && other != table_index(op, fleet.len()) ==> after[other]
                == fleet[other]
        }),
{
}

/// Below a descriptor of the model at which table and model differ lies the
/// first such descriptor.
proof fn lemma_first_differing_key(table: Map<i32, FdEntry>, model: Map<i32, i32>, key: i32)
    requires
        model.contains_key(key),
        differs_at(table, model, key),
    ensures
        exists|vfd: i32| is_first_difference(table, model, vfd),
    decreases key - i32::MIN,
{
    if forall|k: i32| #[trigger] model.contains_key(k) && k < key ==> !differs_at(table, model, k) {
        assert(is_first_difference(table, model, key));
    } else {
        let lower = choose|k: i32|
            #[trigger] model.contains_key(k) && k < key && differs_at(table, model, k);
        lemma_first_differing_key(table, model, lower);
    }
}

/// Where no descriptor of the model differs, below a descriptor of the
/// spot-check range at which table and model differ lies the first such
/// descriptor.
proof fn lemma_first_differing_spot(table: Map<i32, FdEntry>, model: Map<i32, i32>, spot: i32)
    requires
        forall|k: i32| #[trigger] model.contains_key(k) ==> !differs_at(table, model, k),
        FIRST_USER_FD <= spot < SPOT_CHECK_END,
        differs_at(table, model, spot),
    ensures
        exists|vfd: i32| is_first_difference(table, model, vfd),
    decreases spot - FIRST_USER_FD,
{
    if forall|u: i32| FIRST_USER_FD <= u < spot ==> !#[trigger] differs_at(table, model, u) {
        assert(is_first_difference(table, model, spot));
    } else {
        let lower = choose|u: i32|
            FIRST_USER_FD <= u < spot && #[trigger] differs_at(table, model, u);
        lemma_first_differing_spot(table, model, lower);
    }
}

/// A table that does not agree with its model has a place where the
/// comparison first meets a difference, and a table that agrees has none.
pub proof fn law_disagreement_has_a_first_difference(table: Map<i32, FdEntry>, model: Map<i32, i32>)
    ensures
        !agrees(table, model) ==> is_first_difference(
            table,
            model,
            first_difference(table, model),
        ),
        agrees(table, model) ==> forall|vfd: i32| !is_first_difference(table, model, vfd),
{
    if !agrees(table, model) {
        if exists|k: i32| #[trigger] model.contains_key(k) && differs_at(table, model, k) {
            let k = choose|k: i32| #[trigger] model.contains_key(k) && differs_at(table, model, k);
            lemma_first_differing_key(table, model, k);
        } else {
            assert(exists|u: i32|
                FIRST_USER_FD <= u < SPOT_CHECK_END && #[trigger] differs_at(table, model, u)) by {
                if forall|u: i32|
                    FIRST_USER_FD <= u < SPOT_CHECK_END ==> !#[trigger] differs_at(table, model, u) {
                    assert forall|vfd: i32| #[trigger] model.contains_key(vfd) implies translated(
                        table,
                        vfd,
                    ) == Some(model[vfd]) by {
                        assert(!differs_at(table, model, vfd));
                    }
                    assert forall|vfd: i32|
                        FIRST_USER_FD <= vfd < SPOT_CHECK_END implies #[trigger] translated(
                        table,
                        vfd,
                    ) == model_at(model, vfd) by {
                        assert(!differs_at(table, model, vfd));
                    }
                }
            }
            let u = choose|u: i32|
                FIRST_USER_FD <= u < SPOT_CHECK_END && #[trigger] differs_at(table, model, u);
            lemma_first_differing_spot(table, model, u);
        }
    } else {
        assert forall|vfd: i32| !is_first_difference(table, model, vfd) by {
            if model.contains_key(vfd) {
                assert(translated(table, vfd) == Some(model[vfd]));
            }
        }
    }
}

} // verus!
