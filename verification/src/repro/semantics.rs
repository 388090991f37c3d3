//! What a replay means: the tables and their reference models as plain
//! mappings, and the effect of each recorded operation on them.

use crate::repro::case::ReproOp;
use crate::repro::mismatch::Mismatch;
use crate::repro::model::{
    chosen_existing, has_unused_from, lowest_unused, magnitude, model_at,
};
use crate::vfs::entry::FdEntry;
use crate::vfs::fdtable::{
    entry_at, has_free_from, lowest_free, standard_map, translated, user_floor, FIRST_USER_FD,
};
use vstd::prelude::*;

verus! {

/// The replay keeps at most this many tables.
pub const MAX_TABLES: usize = 4;

/// The descriptors from `FIRST_USER_FD` up to, but not including, this one are
/// compared after every step, whether or not the model has them.
pub const SPOT_CHECK_END: i32 = 120;

/// One table, as the mapping it holds, with its reference model.
pub struct Pair {
    pub table: Map<i32, FdEntry>,
    pub model: Map<i32, i32>,
}

/// How one step of a replay ends.
pub enum Step<T> {
    /// Table and model behaved alike; the replay goes on from this state.
    Next(T),
    /// Table and model disagreed, about this.
    Mismatch(Mismatch),
    /// The step asked for a descriptor where none is left below the ceiling.
    Exhausted,
}

/// How a replay ends.
pub enum Verdict {
    /// Every step left every table equivalent to its model.
    Passed,
    /// The step with this index, counted from zero, showed this disagreement.
    Mismatch { step: nat, mismatch: Mismatch },
    /// The step with this index ran out of descriptors.
    Exhausted { step: nat },
}

/// The entry that the replay installs for a kernel descriptor.
pub open spec fn passthrough_entry(kernel_fd: i32) -> FdEntry {
    FdEntry::Passthrough { kernel_fd, flags: 0, path: None }
}

/// The table agrees with its model: every descriptor of the model translates
/// to the model's kernel descriptor, and over the spot-check range the table
/// translates exactly what the model has.
pub open spec fn agrees(table: Map<i32, FdEntry>, model: Map<i32, i32>) -> bool {
    &&& forall|vfd: i32| #[trigger]
        model.contains_key(vfd) ==> translated(table, vfd) == Some(model[vfd])
    &&& forall|vfd: i32|
        FIRST_USER_FD <= vfd < SPOT_CHECK_END ==> #[trigger] translated(table, vfd) == model_at(
            model,
            vfd,
        )
}

/// Table and model differ at `vfd`: the table translates it to something else
/// than the model has for it.
pub open spec fn differs_at(table: Map<i32, FdEntry>, model: Map<i32, i32>, vfd: i32) -> bool {
    translated(table, vfd) != model_at(model, vfd)
}

/// `vfd` is where the comparison of a table with its model first meets a
/// difference. The comparison goes through the descriptors of the model in
/// ascending order, and then through the spot-check range in ascending order.
pub open spec fn is_first_difference(
    table: Map<i32, FdEntry>,
    model: Map<i32, i32>,
    vfd: i32,
) -> bool {
    &&& differs_at(table, model, vfd)
    &&& if model.contains_key(vfd) {
        forall|k: i32| #[trigger] model.contains_key(k) && k < vfd ==> !differs_at(table, model, k)
    } else {
        &&& FIRST_USER_FD <= vfd < SPOT_CHECK_END
        &&& forall|k: i32| #[trigger] model.contains_key(k) ==> !differs_at(table, model, k)
        &&& forall|u: i32|
            FIRST_USER_FD <= u < vfd ==> !#[trigger] differs_at(table, model, u)
    }
}

/// The descriptor at which the comparison first meets a difference, where
/// table and model do not agree.
pub open spec fn first_difference(table: Map<i32, FdEntry>, model: Map<i32, i32>) -> i32 {
    choose|vfd: i32| is_first_difference(table, model, vfd)
}

/// What the comparison reports for a difference at `vfd`.
pub open spec fn difference_at(table: Map<i32, FdEntry>, model: Map<i32, i32>, vfd: i32) -> Mismatch {
    Mismatch::Translate { vfd, expected: model_at(model, vfd), got: translated(table, vfd) }
}

/// What the comparison of a table with its model reports, where the two do
/// not agree: the first difference it meets.
pub open spec fn difference_of(table: Map<i32, FdEntry>, model: Map<i32, i32>) -> Mismatch {
    difference_at(table, model, first_difference(table, model))
}

/// The integer of an operation that decides which table it goes to.
pub open spec fn selector(op: ReproOp) -> i32 {
    match op {
        ReproOp::DeepClone => 0,
        ReproOp::Allocate { kernel_fd } => kernel_fd,
        ReproOp::AllocateMin { min_fd, .. } => min_fd,
        ReproOp::AllocateAt { vfd, .. } => vfd,
        ReproOp::Deallocate { vfd } => vfd,
        ReproOp::Duplicate { old_vfd } => old_vfd,
        ReproOp::DuplicateAt { old_vfd, .. } => old_vfd,
    }
}

/// The index of the table that an operation goes to, among `count` tables.
pub open spec fn table_index(op: ReproOp, count: nat) -> nat {
    magnitude(selector(op)) % count
}

/// The minimum that an `AllocateMin` asks for. Where the model is not empty
/// and `min_fd` is even, it is taken relative to a descriptor in use:
/// that descriptor plus the magnitude of `min_fd` modulo eleven, capped at the
/// ceiling and not below `FIRST_USER_FD`. Otherwise it is `min_fd` itself.
pub open spec fn derived_min(model: Map<i32, i32>, min_fd: i32) -> i32 {
    if model.dom().len() != 0 && magnitude(min_fd) % 2 == 0 {
        let base = chosen_existing(model, min_fd, FIRST_USER_FD);
        let raised = base + magnitude(min_fd) % 11;
        if raised > i32::MAX {
            i32::MAX
        } else if raised < FIRST_USER_FD {
            FIRST_USER_FD
        } else {
            raised as i32
        }
    } else {
        min_fd
    }
}

/// The destination of a `DuplicateAt`: where the model is not empty and
/// `new_vfd` is even, a descriptor picked as for the source, else `new_vfd`.
pub open spec fn destination(model: Map<i32, i32>, new_vfd: i32) -> i32 {
    if model.dom().len() != 0 && magnitude(new_vfd) % 2 == 0 {
        chosen_existing(model, new_vfd, new_vfd)
    } else {
        new_vfd
    }
}

/// An allocation from `floor` on both sides, compared by the descriptor it
/// yields. `min` is the minimum that was asked for, if one was.
pub open spec fn allocation_step(
    pair: Pair,
    floor: i32,
    kernel_fd: i32,
    min: Option<i32>,
) -> Step<Pair> {
    if !has_unused_from(pair.model, floor) || !has_free_from(pair.table, floor) {
        Step::Exhausted
    } else {
        let expected = lowest_unused(pair.model, floor);
        let got = lowest_free(pair.table, floor);
        if got != expected {
            Step::Mismatch(
                match min {
                    Some(min_fd) => Mismatch::AllocateMin { min_fd, expected, got },
                    None => Mismatch::Allocate { expected, got },
                },
            )
        } else {
            Step::Next(
                Pair {
                    table: pair.table.insert(got, passthrough_entry(kernel_fd)),
                    model: pair.model.insert(got, kernel_fd),
                },
            )
        }
    }
}

/// A placement at `target` on both sides, compared by what was there before.
pub open spec fn placement_step(pair: Pair, target: i32, kernel_fd: i32) -> Step<Pair> {
    let expected = model_at(pair.model, target);
    let got = translated(pair.table, target);
    if target == i32::MAX {
        Step::Exhausted
    } else if got != expected {
        Step::Mismatch(Mismatch::AllocateAt { vfd: target, expected, got })
    } else {
        Step::Next(
            Pair {
                table: pair.table.insert(target, passthrough_entry(kernel_fd)),
                model: pair.model.insert(target, kernel_fd),
            },
        )
    }
}

/// A release of `target` on both sides, compared by what was removed.
pub open spec fn release_step(pair: Pair, target: i32) -> Step<Pair> {
    let expected = model_at(pair.model, target);
    let got = translated(pair.table, target);
    if got != expected {
        Step::Mismatch(Mismatch::Deallocate { vfd: target, expected, got })
    } else {
        Step::Next(Pair { table: pair.table.remove(target), model: pair.model.remove(target) })
    }
}

/// A duplication of `src` on both sides, compared by whether it succeeds and
/// by the descriptor it yields.
pub open spec fn duplication_step(pair: Pair, src: i32) -> Step<Pair> {
    if pair.table.contains_key(src) && !has_free_from(pair.table, FIRST_USER_FD) {
        Step::Exhausted
    } else if !pair.model.contains_key(src) && !pair.table.contains_key(src) {
        Step::Next(pair)
    } else if pair.model.contains_key(src) && pair.table.contains_key(src) {
        if !has_unused_from(pair.model, FIRST_USER_FD) {
            Step::Exhausted
        } else {
            let expected = lowest_unused(pair.model, FIRST_USER_FD);
            let got = lowest_free(pair.table, FIRST_USER_FD);
            if got != expected {
                Step::Mismatch(Mismatch::DuplicateTarget { old_vfd: src, expected, got })
            } else {
                Step::Next(
                    Pair {
                        table: pair.table.insert(got, pair.table[src]),
                        model: pair.model.insert(got, pair.model[src]),
                    },
                )
            }
        }
    } else {
        Step::Mismatch(
            Mismatch::Duplicate {
                old_vfd: src,
                expected: model_at(pair.model, src),
                got: if pair.table.contains_key(src) {
                    Some(lowest_free(pair.table, FIRST_USER_FD))
                } else {
                    None
                },
            },
        )
    }
}

/// A duplication of `src` onto `dst` on both sides, compared by what was at
/// `dst` before. Where only the table has `src`, the model cannot tell unless
/// something was at `dst`: the table then changes and the model does not.
pub open spec fn duplication_at_step(pair: Pair, src: i32, dst: i32) -> Step<Pair> {
    let table_after = if pair.table.contains_key(src) {
        pair.table.insert(dst, pair.table[src])
    } else {
        pair.table
    };
    let prior = if pair.table.contains_key(src) {
        entry_at(pair.table, dst)
    } else {
        None
    };
    if pair.table.contains_key(src) && dst == i32::MAX {
        Step::Exhausted
    } else if !pair.model.contains_key(src) {
        if prior is Some {
            Step::Mismatch(Mismatch::DuplicateAtMissing { old_vfd: src, new_vfd: dst })
        } else {
            Step::Next(Pair { table: table_after, model: pair.model })
        }
    } else {
        let expected = model_at(pair.model, dst);
        let got = match prior {
            Some(entry) => entry.spec_kernel_fd(),
            None => None,
        };
        if got != expected {
            Step::Mismatch(Mismatch::DuplicateAt { old_vfd: src, new_vfd: dst, expected, got })
        } else {
            Step::Next(
                Pair { table: table_after, model: pair.model.insert(dst, pair.model[src]) },
            )
        }
    }
}

/// The effect of one operation on the table it goes to and on that table's
/// model. `DeepClone` changes neither; it adds a table instead.
pub open spec fn pair_step(pair: Pair, op: ReproOp) -> Step<Pair> {
    match op {
        ReproOp::DeepClone => Step::Next(pair),
        ReproOp::Allocate { kernel_fd } => allocation_step(pair, FIRST_USER_FD, kernel_fd, None),
        ReproOp::AllocateMin { min_fd, kernel_fd } => allocation_step(
            pair,
            user_floor(derived_min(pair.model, min_fd)),
            kernel_fd,
            Some(derived_min(pair.model, min_fd)),
        ),
        ReproOp::AllocateAt { vfd, kernel_fd } => placement_step(
            pair,
            chosen_existing(pair.model, vfd, vfd),
            kernel_fd,
        ),
        ReproOp::Deallocate { vfd } => release_step(pair, chosen_existing(pair.model, vfd, vfd)),
        ReproOp::Duplicate { old_vfd } => duplication_step(
            pair,
            chosen_existing(pair.model, old_vfd, old_vfd),
        ),
        ReproOp::DuplicateAt { old_vfd, new_vfd } => duplication_at_step(
            pair,
            chosen_existing(pair.model, old_vfd, old_vfd),
            destination(pair.model, new_vfd),
        ),
    }
}

/// Every table of the fleet agrees with its model.
pub open spec fn all_agree(fleet: Seq<Pair>) -> bool {
    forall|i: int| 0 <= i < fleet.len() ==> agrees(#[trigger] fleet[i].table, fleet[i].model)
}

/// `i` is the index of the first table of the fleet that does not agree with
/// its model.
pub open spec fn is_first_disagreeing(fleet: Seq<Pair>, i: int) -> bool {
    &&& 0 <= i < fleet.len()
    &&& !agrees(fleet[i].table, fleet[i].model)
    &&& forall|j: int| 0 <= j < i ==> agrees(#[trigger] fleet[j].table, fleet[j].model)
}

/// What the comparison of every table with its model reports, where not all
/// agree: the first difference of the first table that does not agree.
pub open spec fn fleet_difference(fleet: Seq<Pair>) -> Mismatch {
    let i = choose|i: int| is_first_disagreeing(fleet, i);
    difference_of(fleet[i].table, fleet[i].model)
}

/// The effect of one operation on the fleet. `DeepClone` appends a copy of
/// the first pair while the fleet is below `MAX_TABLES`; any other operation
/// changes the pair it goes to and no other.
pub open spec fn fleet_apply(fleet: Seq<Pair>, op: ReproOp) -> Step<Seq<Pair>> {
    match op {
        ReproOp::DeepClone => Step::Next(
            if fleet.len() < MAX_TABLES {
                fleet.push(fleet[0])
            } else {
                fleet
            },
        ),
        _ => {
            let i = table_index(op, fleet.len()) as int;
            match pair_step(fleet[i], op) {
                Step::Next(pair) => Step::Next(fleet.update(i, pair)),
                Step::Mismatch(mismatch) => Step::Mismatch(mismatch),
                Step::Exhausted => Step::Exhausted,
            }
        },
    }
}

/// One whole step: the operation, then the comparison of every table with
/// its model.
pub open spec fn fleet_step(fleet: Seq<Pair>, op: ReproOp) -> Step<Seq<Pair>> {
    match fleet_apply(fleet, op) {
        Step::Next(after) => if all_agree(after) {
            Step::Next(after)
        } else {
            Step::Mismatch(fleet_difference(after))
        },
        Step::Mismatch(mismatch) => Step::Mismatch(mismatch),
        Step::Exhausted => Step::Exhausted,
    }
}

/// The fleet that a replay starts from: one fresh table with an empty model.
pub open spec fn initial_fleet() -> Seq<Pair> {
    seq![Pair { table: standard_map(), model: Map::<i32, i32>::empty() }]
}

/// The verdict on replaying `ops` from `fleet`, where the first of them is
/// step number `step`.
pub open spec fn replay_from(fleet: Seq<Pair>, ops: Seq<ReproOp>, step: nat) -> Verdict
    decreases ops.len(),
{
    if ops.len() == 0 {
        Verdict::Passed
    } else {
        match fleet_step(fleet, ops[0]) {
            Step::Next(after) => replay_from(after, ops.skip(1), step + 1),
            Step::Mismatch(mismatch) => Verdict::Mismatch { step, mismatch },
            Step::Exhausted => Verdict::Exhausted { step },
        }
    }
}

/// The verdict on replaying `ops` from a single fresh table.
pub open spec fn replay(ops: Seq<ReproOp>) -> Verdict {
    replay_from(initial_fleet(), ops, 0)
}

} // verus!
