use agentfs_sandbox::vfs::entry::{FdEntry, FileOpsHandle};
use agentfs_sandbox::vfs::fdtable::FdTable;
use agentfs_sandbox::vfs::fork::{ForkOp, TableOp};

fn p(kernel_fd: i32) -> FdEntry {
    FdEntry::Passthrough { kernel_fd, flags: 0, path: None }
}

fn snapshot(table: &FdTable) -> Vec<Option<FdEntry>> {
    (-2..40).map(|vfd| table.get(vfd)).collect()
}

#[test]
fn apply_carries_out_each_operation() {
    let mut table = FdTable::new();
    assert!(table.apply(TableOp::Allocate { entry: p(100) }));
    assert_eq!(table.translate(3), Some(100));
    assert!(table.apply(TableOp::AllocateMin { min_vfd: 7, entry: p(101) }));
    assert_eq!(table.translate(7), Some(101));
    assert!(table.apply(TableOp::AllocateAt { vfd: 9, entry: p(102) }));
    assert_eq!(table.translate(9), Some(102));
    assert!(table.apply(TableOp::Duplicate { old_vfd: 9 }));
    assert_eq!(table.translate(4), Some(102));
    assert!(table.apply(TableOp::DuplicateAt { old_vfd: 3, new_vfd: 9 }));
    assert_eq!(table.translate(9), Some(100));
    assert!(table.apply(TableOp::Deallocate { vfd: 3 }));
    assert_eq!(table.translate(3), None);
    // Unmapped sources: carried out, nothing changes.
    let before = snapshot(&table);
    assert!(table.apply(TableOp::Duplicate { old_vfd: 30 }));
    assert!(table.apply(TableOp::DuplicateAt { old_vfd: 30, new_vfd: 31 }));
    assert!(table.apply(TableOp::DuplicateAt { old_vfd: 30, new_vfd: i32::MAX }));
    assert!(table.apply(TableOp::Deallocate { vfd: 30 }));
    assert_eq!(snapshot(&table), before);
    assert_eq!(table.allocate(p(1)), 3);
}

#[test]
fn apply_refuses_the_ceiling() {
    let mut table = FdTable::new();
    table.allocate(p(100));
    let before = snapshot(&table);
    assert!(!table.apply(TableOp::AllocateAt { vfd: i32::MAX, entry: p(1) }));
    assert!(!table.apply(TableOp::AllocateMin { min_vfd: i32::MAX, entry: p(1) }));
    assert!(!table.apply(TableOp::DuplicateAt { old_vfd: 3, new_vfd: i32::MAX }));
    assert_eq!(snapshot(&table), before);
    assert_eq!(table.get(i32::MAX), None);
    assert_eq!(table.allocate(p(1)), 4);
    assert_eq!(table.entry_count(), 5);
    assert_eq!(table.high_water_mark(), 5);
    assert_eq!(table.free_count(), 0);
}

#[test]
fn bookkeeping_counts() {
    let mut table = FdTable::new();
    assert_eq!((table.entry_count(), table.high_water_mark(), table.free_count()), (3, 3, 0));
    table.allocate(p(1));
    table.allocate_at(10, p(2));
    assert_eq!((table.entry_count(), table.high_water_mark(), table.free_count()), (5, 11, 6));
    table.deallocate(3);
    table.deallocate(0);
    assert_eq!((table.entry_count(), table.high_water_mark(), table.free_count()), (3, 11, 7));
    table.allocate(p(3));
    assert_eq!((table.entry_count(), table.high_water_mark(), table.free_count()), (4, 11, 6));
}

fn on_child(op: TableOp) -> ForkOp {
    ForkOp { on_child: true, op }
}

fn on_parent(op: TableOp) -> ForkOp {
    ForkOp { on_child: false, op }
}

fn some_ops(seed: i32) -> Vec<TableOp> {
    vec![
        TableOp::Allocate { entry: p(seed) },
        TableOp::AllocateAt { vfd: 12, entry: p(seed + 1) },
        TableOp::Deallocate { vfd: 3 },
        TableOp::Duplicate { old_vfd: 12 },
        TableOp::AllocateMin { min_vfd: 6, entry: p(seed + 2) },
        TableOp::DuplicateAt { old_vfd: 4, new_vfd: 1 },
        TableOp::Deallocate { vfd: 2 },
        TableOp::Allocate {
            entry: FdEntry::Virtual { file_ops: FileOpsHandle { id: 9 }, flags: 1, path: None },
        },
    ]
}

#[test]
fn operations_on_the_child_leave_the_parent_alone() {
    let mut parent = FdTable::new();
    parent.allocate(p(100));
    parent.allocate(p(101));
    parent.deallocate(3);
    let before = snapshot(&parent);
    let ops: Vec<ForkOp> = some_ops(500).into_iter().map(on_child).collect();
    let child = parent.fork_and_run(&ops);
    assert_eq!(snapshot(&parent), before);
    // The next allocation of the parent is what it was going to be.
    assert_eq!(parent.allocate(p(1)), 3);
    // The child is what the operations make of the parent's state at the fork.
    let mut alone = FdTable::new();
    alone.allocate(p(100));
    alone.allocate(p(101));
    alone.deallocate(3);
    for op in some_ops(500) {
        alone.apply(op);
    }
    assert_eq!(snapshot(&child), snapshot(&alone));
    assert_ne!(snapshot(&child), before);
}

#[test]
fn operations_on_the_parent_leave_the_child_alone() {
    let mut parent = FdTable::new();
    parent.allocate(p(100));
    let before = snapshot(&parent);
    let ops: Vec<ForkOp> = some_ops(700).into_iter().map(on_parent).collect();
    let mut child = parent.fork_and_run(&ops);
    assert_eq!(snapshot(&child), before);
    assert_eq!(child.allocate(p(1)), 4);
    assert_eq!(parent.translate(12), Some(701));
}

#[test]
fn interleaved_operations_do_not_mix() {
    let mut parent = FdTable::new();
    parent.allocate(p(100));
    let mut ops = Vec::new();
    for (a, b) in some_ops(500).into_iter().zip(some_ops(700)) {
        ops.push(on_child(a));
        ops.push(on_parent(b));
    }
    let child = parent.fork_and_run(&ops);
    let mut child_alone = FdTable::new();
    child_alone.allocate(p(100));
    for op in some_ops(500) {
        child_alone.apply(op);
    }
    let mut parent_alone = FdTable::new();
    parent_alone.allocate(p(100));
    for op in some_ops(700) {
        parent_alone.apply(op);
    }
    assert_eq!(snapshot(&child), snapshot(&child_alone));
    assert_eq!(snapshot(&parent), snapshot(&parent_alone));
    assert_ne!(snapshot(&child), snapshot(&parent));
}

#[test]
fn fork_without_operations_copies_the_table() {
    let mut parent = FdTable::new();
    parent.allocate(p(100));
    let child = parent.fork_and_run(&Vec::new());
    assert_eq!(snapshot(&child), snapshot(&parent));
}
