//! The replay itself: real tables driven side by side with their models.

use crate::repro::case::{ReproCase, ReproOp};
use crate::repro::keys::lemma_keys_ascend;
use crate::repro::mismatch::{failure_text, mismatch_text, Mismatch};
use crate::repro::model::{
    choose_existing, first_unused_from, lemma_lowest_unused_is_unique, model_at, unsigned_abs,
};
use crate::repro::semantics::{
    agrees, all_agree, derived_min, destination, difference_at, difference_of, differs_at,
    first_difference, fleet_apply, fleet_difference, fleet_step, initial_fleet,
    is_first_difference, is_first_disagreeing, pair_step, passthrough_entry, replay, replay_from,
    table_index, Pair, Step, Verdict, MAX_TABLES, SPOT_CHECK_END,
};
use crate::vfs::entry::FdEntry;
use crate::vfs::fdtable::{translated, FdTable, FIRST_USER_FD};
use crate::vfs::laws::law_lowest_free_is_unique;
use std::collections::BTreeMap;
use vstd::prelude::*;
use vstd::std_specs::iter::IteratorSpec;

verus! {

/// How the step of one table and its model ended.
#[derive(Debug, Clone, Copy, PartialEq, Eq)]
pub enum Report {
    Done,
    Failed(Mismatch),
    Exhausted,
}

/// How a replay ended.
#[derive(Debug, Clone, PartialEq, Eq)]
pub enum Outcome {
    /// Every step left every table equivalent to its model.
    Passed,
    /// The step with this index showed this disagreement; the message says
    /// so in words.
    Failed { step: usize, mismatch: Mismatch, message: String },
    /// The step with this index ran out of descriptors.
    Exhausted { step: usize },
}

impl Outcome {
    /// The outcome without its message.
    pub open spec fn verdict(&self) -> Verdict {
        match *self {
            Outcome::Passed => Verdict::Passed,
            Outcome::Failed { step, mismatch, .. } => Verdict::Mismatch {
                step: step as nat,
                mismatch,
            },
            Outcome::Exhausted { step } => Verdict::Exhausted { step: step as nat },
        }
    }
}

/// Whether two optional kernel descriptors are the same.
fn same(a: Option<i32>, b: Option<i32>) -> (eq: bool)
    ensures
        eq == (a == b),
{
    match (a, b) {
        (Some(x), Some(y)) => x == y,
        (None, None) => true,
        _ => false,
    }
}

/// What the model has for `vfd`.
fn model_get(model: &BTreeMap<i32, i32>, vfd: i32) -> (kernel_fd: Option<i32>)
    ensures
        kernel_fd == model_at(model@, vfd),
{
    match model.get(&vfd) {
        Some(kernel_fd) => Some(*kernel_fd),
        None => None,
    }
}

/// The entry that the replay installs for a kernel descriptor.
fn passthrough(kernel_fd: i32) -> (entry: FdEntry)
    ensures
        entry == passthrough_entry(kernel_fd),
{
    FdEntry::Passthrough { kernel_fd, flags: 0, path: None }
}

/// Where the comparison first meets a difference, there is no other such
/// place.
pub proof fn lemma_first_difference_is_unique(
    table: Map<i32, FdEntry>,
    model: Map<i32, i32>,
    vfd: i32,
)
    requires
        is_first_difference(table, model, vfd),
    ensures
        first_difference(table, model) == vfd,
        difference_of(table, model) == difference_at(table, model, vfd),
        !agrees(table, model),
{
    let chosen = first_difference(table, model);
    assert(is_first_difference(table, model, chosen));
    if model.contains_key(vfd) {
        assert(model.contains_key(chosen));
    } else {
        assert(!model.contains_key(chosen));
    }
}

/// Compare a table with its model: every descriptor of the model in ascending
/// order, then the spot-check range in ascending order. The result is the
/// first difference met, if there is one.
pub fn find_difference(table: &FdTable, model: &BTreeMap<i32, i32>) -> (found: Option<Mismatch>)
    ensures
        found is None <==> agrees(table@, model@),
        found matches Some(mismatch) ==> is_first_difference(
            table@,
            model@,
            first_difference(table@, model@),
        ) && mismatch == difference_of(table@, model@),
{
    let count: usize = model.len();
    let keys = model.keys();
    let ghost all = keys.remaining().unref();
    proof {
        lemma_keys_ascend(keys.remaining());
    }
    let mut seen: usize = 0;
    for key in it: keys
        invariant
            seen == it.index(),
            it.seq().unref() == all,
            all.len() == count,
            all.to_set() == model@.dom(),
            forall|a: int, b: int| 0 <= a < b < all.len() ==> all[a] < all[b],
            forall|j: int| 0 <= j < seen ==> !differs_at(table@, model@, #[trigger] all[j]),
    {
        let vfd: i32 = *key;
        let expected = model_get(model, vfd);
        let got = table.translate(vfd);
        if !same(got, expected) {
            proof {
                assert(all[seen as int] == vfd);
                assert(all.to_set().contains(vfd));
                assert forall|k: i32| #[trigger] model@.contains_key(k) && k < vfd implies !differs_at(
                    table@,
                    model@,
                    k,
                ) by {
                    assert(all.to_set().contains(k));
                    let a = choose|a: int| 0 <= a < all.len() && all[a] == k;
                    if a > seen {
                        assert(all[seen as int] < all[a]);
                    }
                }
                lemma_first_difference_is_unique(table@, model@, vfd);
            }
            return Some(Mismatch::Translate { vfd, expected, got });
        }
        seen = seen + 1;
    }
    proof {
        assert forall|k: i32| #[trigger] model@.contains_key(k) implies !differs_at(
            table@,
            model@,
            k,
        ) by {
            assert(all.to_set().contains(k));
            let a = choose|a: int| 0 <= a < all.len() && all[a] == k;
            assert(!differs_at(table@, model@, all[a]));
        }
    }
    let mut vfd: i32 = FIRST_USER_FD;
    while vfd < SPOT_CHECK_END
        invariant
            FIRST_USER_FD <= vfd <= SPOT_CHECK_END,
            forall|k: i32| #[trigger] model@.contains_key(k) ==> !differs_at(table@, model@, k),
            forall|u: i32|
                FIRST_USER_FD <= u < vfd ==> !#[trigger] differs_at(table@, model@, u),
        decreases SPOT_CHECK_END - vfd,
    {
        let expected = model_get(model, vfd);
        let got = table.translate(vfd);
        if !same(got, expected) {
            proof {
                lemma_first_difference_is_unique(table@, model@, vfd);
            }
            return Some(Mismatch::Translate { vfd, expected, got });
        }
        vfd = vfd + 1;
    }
    proof {
        assert forall|k: i32| #[trigger] model@.contains_key(k) implies translated(table@, k)
            == Some(model@[k]) by {
            assert(!differs_at(table@, model@, k));
        }
        assert forall|u: i32| FIRST_USER_FD <= u < SPOT_CHECK_END implies #[trigger] translated(
            table@,
            u,
        ) == model_at(model@, u) by {
            assert(!differs_at(table@, model@, u));
        }
    }
    None
}

/// Compare a table with its model, as `find_difference` does. `Err` carries
/// the first difference met, in words.
pub fn assert_model_matches(table: &FdTable, model: &BTreeMap<i32, i32>) -> (result: Result<
    (),
    String,
>)
    ensures
        result is Ok <==> agrees(table@, model@),
        result matches Err(text) ==> is_first_difference(
            table@,
            model@,
            first_difference(table@, model@),
        ) && text@ == mismatch_text(difference_of(table@, model@)),
{
    match find_difference(table, model) {
        None => Ok(()),
        Some(mismatch) => Err(mismatch.message()),
    }
}

/// The minimum that an `AllocateMin` asks for; see `derived_min`.
fn derive_min(model: &BTreeMap<i32, i32>, min_fd: i32) -> (min: i32)
    ensures
        min == derived_min(model@, min_fd),
{
    let abs: u32 = unsigned_abs(min_fd);
    if !model.is_empty() && abs % 2 == 0 {
        let base: i32 = choose_existing(model, min_fd, FIRST_USER_FD);
        let raised: i64 = base as i64 + (abs % 11) as i64;
        if raised > i32::MAX as i64 {
            i32::MAX
        } else if raised < FIRST_USER_FD as i64 {
            FIRST_USER_FD
        } else {
            raised as i32
        }
    } else {
        min_fd
    }
}

/// The destination of a `DuplicateAt`; see `destination`.
fn derive_destination(model: &BTreeMap<i32, i32>, new_vfd: i32) -> (dst: i32)
    ensures
        dst == destination(model@, new_vfd),
{
    let abs: u32 = unsigned_abs(new_vfd);
    if !model.is_empty() && abs % 2 == 0 {
        choose_existing(model, new_vfd, new_vfd)
    } else {
        new_vfd
    }
}

/// The kernel descriptor of an entry that an operation handed back, if it
/// handed one back and that is a passthrough.
fn kernel_fd_of(entry: &Option<FdEntry>) -> (kernel_fd: Option<i32>)
    ensures
        kernel_fd == match *entry {
            Some(e) => e.spec_kernel_fd(),
            None => None,
        },
{
    match entry {
        Some(e) => e.kernel_fd(),
        None => None,
    }
}

/// Replay an `Allocate` on one table and its model.
fn replay_allocate(table: &mut FdTable, model: &mut BTreeMap<i32, i32>, kernel_fd: i32) -> (report:
    Report)
    requires
        old(table).wf(),
    ensures
        final(table).wf(),
        reported(
            pair_step((Pair { table: old(table)@, model: old(model)@ }), ReproOp::Allocate {
                kernel_fd,
            }),
            report,
            final(table)@,
            final(model)@,
        ),
{
    let expected: i32 = match first_unused_from(model, FIRST_USER_FD) {
        Some(vfd) => vfd,
        None => {
            return Report::Exhausted;
        },
    };
    if table.is_full() {
        return Report::Exhausted;
    }
    let got: i32 = table.allocate(passthrough(kernel_fd));
    proof {
        lemma_lowest_unused_is_unique(old(model)@, FIRST_USER_FD, expected);
        law_lowest_free_is_unique(old(table)@, FIRST_USER_FD, got, got);
    }
    if got != expected {
        return Report::Failed(Mismatch::Allocate { expected, got });
    }
    model.insert(got, kernel_fd);
    Report::Done
}

/// Replay an `AllocateMin` on one table and its model.
fn replay_allocate_min(
    table: &mut FdTable,
    model: &mut BTreeMap<i32, i32>,
    min_fd: i32,
    kernel_fd: i32,
) -> (report: Report)
    requires
        old(table).wf(),
    ensures
        final(table).wf(),
        reported(
            pair_step((Pair { table: old(table)@, model: old(model)@ }), ReproOp::AllocateMin {
                min_fd,
                kernel_fd,
            }),
            report,
            final(table)@,
            final(model)@,
        ),
{
    let min: i32 = derive_min(model, min_fd);
    let floor: i32 = if min < FIRST_USER_FD {
        FIRST_USER_FD
    } else {
        min
    };
    let expected: i32 = match first_unused_from(model, floor) {
        Some(vfd) => vfd,
        None => {
            return Report::Exhausted;
        },
    };
    if table.lowest_free_from(min).is_none() {
        return Report::Exhausted;
    }
    let got: i32 = table.allocate_min(min, passthrough(kernel_fd));
    proof {
        lemma_lowest_unused_is_unique(old(model)@, floor, expected);
        law_lowest_free_is_unique(old(table)@, floor, got, got);
    }
    if got != expected {
        return Report::Failed(Mismatch::AllocateMin { min_fd: min, expected, got });
    }
    model.insert(got, kernel_fd);
    Report::Done
}

/// Replay an `AllocateAt` on one table and its model.
fn replay_allocate_at(
    table: &mut FdTable,
    model: &mut BTreeMap<i32, i32>,
    vfd: i32,
    kernel_fd: i32,
) -> (report: Report)
    requires
        old(table).wf(),
    ensures
        final(table).wf(),
        reported(
            pair_step((Pair { table: old(table)@, model: old(model)@ }), ReproOp::AllocateAt {
                vfd,
                kernel_fd,
            }),
            report,
            final(table)@,
            final(model)@,
        ),
{
    let target: i32 = choose_existing(model, vfd, vfd);
    if target == i32::MAX {
        return Report::Exhausted;
    }
    let expected = model_get(model, target);
    let prior = table.allocate_at(target, passthrough(kernel_fd));
    let got = kernel_fd_of(&prior);
    if !same(got, expected) {
        return Report::Failed(Mismatch::AllocateAt { vfd: target, expected, got });
    }
    model.insert(target, kernel_fd);
    Report::Done
}

/// Replay a `Deallocate` on one table and its model.
fn replay_deallocate(table: &mut FdTable, model: &mut BTreeMap<i32, i32>, vfd: i32) -> (report:
    Report)
    requires
        old(table).wf(),
    ensures
        final(table).wf(),
        reported(
            pair_step((Pair { table: old(table)@, model: old(model)@ }), ReproOp::Deallocate {
                vfd,
            }),
            report,
            final(table)@,
            final(model)@,
        ),
{
    let target: i32 = choose_existing(model, vfd, vfd);
    let expected = model.remove(&target);
    let removed = table.deallocate(target);
    let got = kernel_fd_of(&removed);
    if !same(got, expected) {
        return Report::Failed(Mismatch::Deallocate { vfd: target, expected, got });
    }
    Report::Done
}

/// Replay a `Duplicate` on one table and its model.
fn replay_duplicate(table: &mut FdTable, model: &mut BTreeMap<i32, i32>, old_vfd: i32) -> (report:
    Report)
    requires
        old(table).wf(),
    ensures
        final(table).wf(),
        reported(
            pair_step((Pair { table: old(table)@, model: old(model)@ }), ReproOp::Duplicate {
                old_vfd,
            }),
            report,
            final(table)@,
            final(model)@,
        ),
{
    let src: i32 = choose_existing(model, old_vfd, old_vfd);
    let expected_kernel = model_get(model, src);
    if table.is_full() && table.get(src).is_some() {
        return Report::Exhausted;
    }
    let got = table.duplicate(src);
    match (expected_kernel, got) {
        (None, None) => Report::Done,
        (Some(kernel_fd), Some(new_vfd)) => {
            let expected: i32 = match first_unused_from(model, FIRST_USER_FD) {
                Some(vfd) => vfd,
                None => {
                    return Report::Exhausted;
                },
            };
            proof {
                lemma_lowest_unused_is_unique(old(model)@, FIRST_USER_FD, expected);
                law_lowest_free_is_unique(old(table)@, FIRST_USER_FD, new_vfd, new_vfd);
            }
            if new_vfd != expected {
                return Report::Failed(
                    Mismatch::DuplicateTarget { old_vfd: src, expected, got: new_vfd },
                );
            }
            model.insert(new_vfd, kernel_fd);
            Report::Done
        },
        (expected, got) => Report::Failed(Mismatch::Duplicate { old_vfd: src, expected, got }),
    }
}

/// Replay a `DuplicateAt` on one table and its model.
fn replay_duplicate_at(
    table: &mut FdTable,
    model: &mut BTreeMap<i32, i32>,
    old_vfd: i32,
    new_vfd: i32,
) -> (report: Report)
    requires
        old(table).wf(),
    ensures
        final(table).wf(),
        reported(
            pair_step((Pair { table: old(table)@, model: old(model)@ }), ReproOp::DuplicateAt {
                old_vfd,
                new_vfd,
            }),
            report,
            final(table)@,
            final(model)@,
        ),
{
    let src: i32 = choose_existing(model, old_vfd, old_vfd);
    let dst: i32 = derive_destination(model, new_vfd);
    let expected_kernel = model_get(model, src);
    let expected_at_dst = model_get(model, dst);
    if dst == i32::MAX && table.get(src).is_some() {
        return Report::Exhausted;
    }
    let prior = table.duplicate_at(src, dst);
    match expected_kernel {
        None => {
            if prior.is_some() {
                return Report::Failed(Mismatch::DuplicateAtMissing { old_vfd: src, new_vfd: dst });
            }
            Report::Done
        },
        Some(kernel_fd) => {
            let got = kernel_fd_of(&prior);
            if !same(got, expected_at_dst) {
                return Report::Failed(
                    Mismatch::DuplicateAt {
                        old_vfd: src,
                        new_vfd: dst,
                        expected: expected_at_dst,
                        got,
                    },
                );
            }
            model.insert(dst, kernel_fd);
            Report::Done
        },
    }
}

/// The report matches what the step means: it goes on from the state that
/// table and model are in, or it names the mismatch, or it is exhausted.
pub open spec fn reported(
    step: Step<Pair>,
    report: Report,
    table: Map<i32, FdEntry>,
    model: Map<i32, i32>,
) -> bool {
    match step {
        Step::Next(pair) => report is Done && table == pair.table && model == pair.model,
        Step::Mismatch(mismatch) => report == Report::Failed(mismatch),
        Step::Exhausted => report is Exhausted,
    }
}

/// Replay one operation on the table it goes to and on that table's model.
pub fn apply_to_pair(table: &mut FdTable, model: &mut BTreeMap<i32, i32>, op: ReproOp) -> (report:
    Report)
    requires
        old(table).wf(),
    ensures
        final(table).wf(),
        reported(
            pair_step((Pair { table: old(table)@, model: old(model)@ }), op),
            report,
            final(table)@,
            final(model)@,
        ),
{
    match op {
        ReproOp::DeepClone => Report::Done,
        ReproOp::Allocate { kernel_fd } => replay_allocate(table, model, kernel_fd),
        ReproOp::AllocateMin { min_fd, kernel_fd } => replay_allocate_min(
            table,
            model,
            min_fd,
            kernel_fd,
        ),
        ReproOp::AllocateAt { vfd, kernel_fd } => replay_allocate_at(table, model, vfd, kernel_fd),
        ReproOp::Deallocate { vfd } => replay_deallocate(table, model, vfd),
        ReproOp::Duplicate { old_vfd } => replay_duplicate(table, model, old_vfd),
        ReproOp::DuplicateAt { old_vfd, new_vfd } => replay_duplicate_at(
            table,
            model,
            old_vfd,
            new_vfd,
        ),
    }
}

/// The fleet that the tables and models stand for.
pub open spec fn fleet_of(tables: Seq<FdTable>, models: Seq<BTreeMap<i32, i32>>) -> Seq<Pair> {
    Seq::new(tables.len(), |i: int| Pair { table: tables[i]@, model: models[i]@ })
}

/// The index of the table that an operation goes to, among `count` tables.
fn index_for(op: ReproOp, count: usize) -> (idx: usize)
    requires
        count > 0,
    ensures
        idx == table_index(op, count as nat),
        idx < count,
{
    let selector: i32 = match op {
        ReproOp::DeepClone => 0,
        ReproOp::Allocate { kernel_fd } => kernel_fd,
        ReproOp::AllocateMin { min_fd, .. } => min_fd,
        ReproOp::AllocateAt { vfd, .. } => vfd,
        ReproOp::Deallocate { vfd } => vfd,
        ReproOp::Duplicate { old_vfd } => old_vfd,
        ReproOp::DuplicateAt { old_vfd, .. } => old_vfd,
    };
    (unsigned_abs(selector) as usize) % count
}

/// Replay one operation on the fleet: a `DeepClone` adds a table while there
/// is room, any other operation goes to one table and its model and leaves
/// every other table and model as it was.
pub fn apply_to_fleet(
    tables: &mut Vec<FdTable>,
    models: &mut Vec<BTreeMap<i32, i32>>,
    op: ReproOp,
) -> (report: Report)
    requires
        1 <= old(tables).len() == old(models).len() <= MAX_TABLES,
        forall|i: int| 0 <= i < old(tables).len() ==> old(tables)[i].wf(),
    ensures
        1 <= final(tables).len() == final(models).len() <= MAX_TABLES,
        forall|i: int| 0 <= i < final(tables).len() ==> final(tables)[i].wf(),
        match fleet_apply(fleet_of(old(tables)@, old(models)@), op) {
            Step::Next(fleet) => report is Done && fleet_of(final(tables)@, final(models)@)
                == fleet,
            Step::Mismatch(mismatch) => report == Report::Failed(mismatch),
            Step::Exhausted => report is Exhausted,
        },
{
    let ghost before = fleet_of(tables@, models@);
    match op {
        ReproOp::DeepClone => {
            if tables.len() < MAX_TABLES {
                let table = tables[0].deep_clone();
                let model = models[0].clone();
                tables.push(table);
                models.push(model);
                assert(fleet_of(tables@, models@) =~= before.push(before[0]));
            }
            Report::Done
        },
        _ => {
            let idx: usize = index_for(op, tables.len());
            let report = apply_to_pair(&mut tables[idx], &mut models[idx], op);
            proof {
                if let Step::Next(pair) = pair_step(before[idx as int], op) {
                    assert(fleet_of(tables@, models@) =~= before.update(idx as int, pair));
                }
            }
            report
        },
    }
}

/// Compare every table with its model, in order. The result is the first
/// difference of the first table that does not agree, if there is one.
pub fn check_fleet(tables: &Vec<FdTable>, models: &Vec<BTreeMap<i32, i32>>) -> (found: Option<
    Mismatch,
>)
    requires
        tables.len() == models.len(),
    ensures
        found is None <==> all_agree(fleet_of(tables@, models@)),
        found matches Some(mismatch) ==> mismatch == fleet_difference(
            fleet_of(tables@, models@),
        ),
{
    let ghost fleet = fleet_of(tables@, models@);
    let mut i: usize = 0;
    while i < tables.len()
        invariant
            i <= tables.len() == models.len(),
            fleet == fleet_of(tables@, models@),
            forall|j: int| 0 <= j < i ==> agrees(#[trigger] fleet[j].table, fleet[j].model),
        decreases tables.len() - i,
    {
        match find_difference(&tables[i], &models[i]) {
            None => {},
            Some(mismatch) => {
                proof {
                    assert(fleet[i as int].table == tables[i as int]@);
                    assert(fleet[i as int].model == models[i as int]@);
                    assert(is_first_disagreeing(fleet, i as int));
                    let chosen = choose|c: int| is_first_disagreeing(fleet, c);
                    assert(is_first_disagreeing(fleet, chosen));
                    assert(chosen == i);
                }
                return Some(mismatch);
            },
        }
        i = i + 1;
    }
    None
}

/// Replay a case from a single fresh table: apply each operation to the table
/// it goes to and to that table's model, and after every step compare every
/// table with its model. The replay stops at the first step that shows a
/// disagreement or that runs out of descriptors.
pub fn replay_case(case: &ReproCase) -> (outcome: Outcome)
    ensures
        outcome.verdict() == replay(case.ops@),
        outcome matches Outcome::Failed { step, mismatch, message } ==> message@ == failure_text(
            step,
            mismatch,
        ),
{
    let mut tables: Vec<FdTable> = Vec::new();
    let mut models: Vec<BTreeMap<i32, i32>> = Vec::new();
    tables.push(FdTable::new());
    models.push(BTreeMap::new());
    assert(fleet_of(tables@, models@) =~= initial_fleet());
    assert(case.ops@.skip(0) =~= case.ops@);
    let mut step: usize = 0;
    while step < case.ops.len()
        invariant
            step <= case.ops.len(),
            1 <= tables.len() == models.len() <= MAX_TABLES,
            forall|i: int| 0 <= i < tables.len() ==> tables[i].wf(),
            replay(case.ops@) == replay_from(
                fleet_of(tables@, models@),
                case.ops@.skip(step as int),
                step as nat,
            ),
        decreases case.ops.len() - step,
    {
        let op: ReproOp = case.ops[step];
        let ghost before = fleet_of(tables@, models@);
        let ghost rest = case.ops@.skip(step as int);
        assert(rest[0] == op);
        assert(rest.skip(1) =~= case.ops@.skip(step + 1));
        match apply_to_fleet(&mut tables, &mut models, op) {
            Report::Done => {},
            Report::Failed(mismatch) => {
                return Outcome::Failed { step, mismatch, message: mismatch.message_at(step) };
            },
            Report::Exhausted => {
                return Outcome::Exhausted { step };
            },
        }
        match check_fleet(&tables, &models) {
            None => {},
            Some(mismatch) => {
                return Outcome::Failed { step, mismatch, message: mismatch.message_at(step) };
            },
        }
        assert(fleet_step(before, op) == Step::Next(fleet_of(tables@, models@)));
        step = step + 1;
    }
    Outcome::Passed
}

/// Replay a case and report whether every table stayed equivalent to its
/// model at every step. `Err` carries the first disagreement in words, with
/// the index of its step in front. A case that runs out of descriptors cannot
/// be judged and is left out.
pub fn run_case(case: &ReproCase) -> (result: Result<(), String>)
    requires
        !(replay(case.ops@) is Exhausted),
    ensures
        match result {
            Ok(()) => replay(case.ops@) is Passed,
            Err(message) => match replay(case.ops@) {
                Verdict::Mismatch { step, mismatch } => step <= usize::MAX && message@
                    == failure_text(step as usize, mismatch),
                _ => false,
            },
        },
{
    match replay_case(case) {
        Outcome::Passed => Ok(()),
        Outcome::Failed { message, .. } => Err(message),
        Outcome::Exhausted { .. } => vstd::pervasive::unreached(),
    }
}

} // verus!
