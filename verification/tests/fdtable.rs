use agentfs_sandbox::vfs::entry::{FdEntry, FileOpsHandle};
use agentfs_sandbox::vfs::fdtable::{
    FdTable, FIRST_USER_FD, STDERR_FILENO, STDIN_FILENO, STDOUT_FILENO,
};
use std::path::PathBuf;

fn p(kernel_fd: i32) -> FdEntry {
    FdEntry::Passthrough { kernel_fd, flags: 0, path: None }
}

#[test]
fn test_standard_fds() {
    let table = FdTable::new();

    assert_eq!(table.translate(0), Some(0)); // stdin
    assert_eq!(table.translate(1), Some(1)); // stdout
    assert_eq!(table.translate(2), Some(2)); // stderr
}

#[test]
fn test_allocate() {
    let mut table = FdTable::new();

    let entry1 = FdEntry::Passthrough { kernel_fd: 100, flags: 0, path: None };
    let vfd1 = table.allocate(entry1);
    assert_eq!(vfd1, 3); // First non-standard FD
    assert_eq!(table.translate(3), Some(100));

    let entry2 = FdEntry::Passthrough { kernel_fd: 101, flags: 0, path: None };
    let vfd2 = table.allocate(entry2);
    assert_eq!(vfd2, 4);
    assert_eq!(table.translate(4), Some(101));
}

#[test]
fn test_deallocate() {
    let mut table = FdTable::new();

    let entry = FdEntry::Passthrough { kernel_fd: 100, flags: 0, path: None };
    let vfd = table.allocate(entry);
    assert_eq!(table.translate(vfd), Some(100));

    let entry = table.deallocate(vfd);
    assert!(entry.is_some());
    assert_eq!(entry.unwrap().kernel_fd(), Some(100));

    assert_eq!(table.translate(vfd), None);
}

#[test]
fn test_duplicate() {
    let mut table = FdTable::new();

    let entry = FdEntry::Passthrough { kernel_fd: 100, flags: 0, path: None };
    let vfd1 = table.allocate(entry);
    let vfd2 = table.duplicate(vfd1).unwrap();

    assert_ne!(vfd1, vfd2);
    assert_eq!(table.translate(vfd1), Some(100));
    assert_eq!(table.translate(vfd2), Some(100));
}

#[test]
fn test_duplicate_at() {
    let mut table = FdTable::new();

    let entry = FdEntry::Passthrough { kernel_fd: 100, flags: 0, path: None };
    let vfd1 = table.allocate(entry);
    let result = table.duplicate_at(vfd1, 10);

    // Nothing was at descriptor 10 before.
    assert!(result.is_none());
    assert_eq!(table.translate(10), Some(100));
}

#[test]
fn constants_name_the_standard_descriptors() {
    assert_eq!(STDIN_FILENO, 0);
    assert_eq!(STDOUT_FILENO, 1);
    assert_eq!(STDERR_FILENO, 2);
    assert_eq!(FIRST_USER_FD, 3);
}

#[test]
fn fresh_table_holds_exactly_the_standard_entries() {
    let table = FdTable::new();
    for fd in 0..3 {
        assert_eq!(table.get(fd), Some(p(fd)));
        let entry = table.get(fd).unwrap();
        assert_eq!(entry.flags(), 0);
        assert_eq!(entry.path(), None);
        assert_eq!(entry.file_ops(), None);
    }
    assert_eq!(table.get(3), None);
    assert_eq!(table.get(-1), None);
    assert_eq!(table.translate(3), None);
    assert!(!table.is_full());
}

#[test]
fn first_allocation_yields_three() {
    let mut table = FdTable::new();
    assert_eq!(table.allocate(p(7)), 3);
}

#[test]
fn scenario_basic_allocation() {
    let mut table = FdTable::new();
    assert_eq!(table.allocate(p(100)), 3);
    assert_eq!(table.allocate(p(101)), 4);
    assert_eq!(table.translate(3), Some(100));
    assert_eq!(table.translate(4), Some(101));
}

#[test]
fn scenario_reuse_after_free() {
    let mut table = FdTable::new();
    assert_eq!(table.allocate(p(100)), 3);
    assert_eq!(table.allocate(p(101)), 4);
    assert_eq!(table.deallocate(3), Some(p(100)));
    // The freed 3 is reused before 5.
    assert_eq!(table.allocate(p(102)), 3);
    assert_eq!(table.translate(3), Some(102));
    assert_eq!(table.allocate(p(103)), 5);
}

#[test]
fn scenario_dup2_into_hole_repopulates_gaps() {
    let mut table = FdTable::new();
    assert_eq!(table.allocate(p(100)), 3);
    assert_eq!(table.allocate_at(10, p(200)), None);
    assert_eq!(table.allocate(p(300)), 4);
    assert_eq!(table.allocate(p(301)), 5);
    assert_eq!(table.allocate(p(302)), 6);
    assert_eq!(table.allocate(p(303)), 7);
    assert_eq!(table.allocate(p(304)), 8);
    assert_eq!(table.allocate(p(305)), 9);
    // 10 is taken; 11 is the next slot past it.
    assert_eq!(table.allocate(p(307)), 11);
    assert_eq!(table.translate(10), Some(200));
    assert_eq!(table.translate(9), Some(305));
    assert_eq!(table.translate(11), Some(307));
}

#[test]
fn scenario_dup2_overwrite() {
    let mut table = FdTable::new();
    assert_eq!(table.allocate(p(100)), 3);
    assert_eq!(table.allocate_at(3, p(200)), Some(p(100)));
    assert_eq!(table.translate(3), Some(200));
    assert_eq!(table.allocate(p(1)), 4);
}

#[test]
fn scenario_duplicate() {
    let mut table = FdTable::new();
    assert_eq!(table.allocate(p(100)), 3);
    assert_eq!(table.duplicate(3), Some(4));
    assert_eq!(table.translate(3), Some(100));
    assert_eq!(table.translate(4), Some(100));
}

#[test]
fn scenario_fork_independence() {
    let mut t1 = FdTable::new();
    assert_eq!(t1.allocate(p(100)), 3);
    let mut t2 = t1.deep_clone();
    assert_eq!(t2.translate(3), Some(100));
    assert_eq!(t2.allocate(p(200)), 4);
    assert_eq!(t2.translate(4), Some(200));
    assert_eq!(t1.translate(4), None);
    // And the other way round.
    assert_eq!(t1.deallocate(3), Some(p(100)));
    assert_eq!(t2.translate(3), Some(100));
    assert_eq!(t1.allocate(p(300)), 3);
    assert_eq!(t2.allocate(p(201)), 5);
}

#[test]
fn deep_clone_carries_the_free_set() {
    let mut t1 = FdTable::new();
    for k in 0..5 {
        t1.allocate(p(100 + k));
    }
    t1.deallocate(5);
    t1.deallocate(4);
    let mut t2 = t1.deep_clone();
    assert_eq!(t2.allocate(p(1)), 4);
    assert_eq!(t2.allocate(p(2)), 5);
    assert_eq!(t2.allocate(p(3)), 8);
    assert_eq!(t1.allocate(p(4)), 4);
}

#[test]
fn allocate_min_is_floored_at_first_user_fd() {
    let mut a = FdTable::new();
    let mut b = FdTable::new();
    assert_eq!(a.allocate_min(2, p(10)), 3);
    assert_eq!(b.allocate_min(3, p(10)), 3);
    assert_eq!(a.allocate_min(-7, p(11)), 4);
    assert_eq!(a.allocate_min(0, p(12)), 5);
    assert_eq!(a.translate(3), Some(10));
    assert_eq!(b.translate(3), Some(10));
}

#[test]
fn allocate_min_never_reissues_a_released_standard_fd() {
    let mut table = FdTable::new();
    assert_eq!(table.deallocate(0), Some(p(0)));
    assert_eq!(table.allocate_min(0, p(10)), 3);
    assert_eq!(table.translate(0), None);
}

#[test]
fn allocate_min_skips_ahead_and_keeps_the_gap() {
    let mut table = FdTable::new();
    assert_eq!(table.allocate(p(100)), 3);
    assert_eq!(table.allocate_min(8, p(200)), 8);
    assert_eq!(table.allocate_min(8, p(201)), 9);
    // The descriptors skipped over are served first, lowest first.
    assert_eq!(table.allocate(p(300)), 4);
    assert_eq!(table.allocate(p(301)), 5);
    assert_eq!(table.allocate_min(6, p(302)), 6);
    assert_eq!(table.allocate(p(303)), 7);
    assert_eq!(table.allocate(p(304)), 10);
}

#[test]
fn allocate_min_takes_a_freed_descriptor_above_the_minimum() {
    let mut table = FdTable::new();
    for k in 0..6 {
        assert_eq!(table.allocate(p(k)), 3 + k);
    }
    table.deallocate(4);
    table.deallocate(6);
    assert_eq!(table.allocate_min(5, p(60)), 6);
    assert_eq!(table.allocate(p(40)), 4);
    assert_eq!(table.allocate(p(90)), 9);
}

#[test]
fn allocate_at_a_freed_descriptor_takes_it_out_of_the_free_set() {
    let mut table = FdTable::new();
    assert_eq!(table.allocate(p(100)), 3);
    assert_eq!(table.allocate(p(101)), 4);
    assert_eq!(table.deallocate(3), Some(p(100)));
    assert_eq!(table.allocate_at(3, p(200)), None);
    assert_eq!(table.allocate(p(102)), 5);
    assert_eq!(table.translate(3), Some(200));
}

#[test]
fn allocate_at_keeps_lower_descriptors() {
    let mut table = FdTable::new();
    assert_eq!(table.allocate(p(100)), 3);
    assert_eq!(table.allocate(p(101)), 4);
    assert_eq!(table.allocate_at(20, p(200)), None);
    assert_eq!(table.get(20), Some(p(200)));
    assert_eq!(table.translate(3), Some(100));
    assert_eq!(table.translate(4), Some(101));
    for fd in 0..3 {
        assert_eq!(table.translate(fd), Some(fd));
    }
}

#[test]
fn allocate_at_can_replace_a_standard_descriptor() {
    let mut table = FdTable::new();
    assert_eq!(table.allocate_at(1, p(50)), Some(p(1)));
    assert_eq!(table.translate(1), Some(50));
    assert_eq!(table.allocate(p(60)), 3);
}

#[test]
fn deallocated_descriptor_is_the_next_allocated() {
    let mut table = FdTable::new();
    for k in 0..4 {
        table.allocate(p(k));
    }
    assert_eq!(table.deallocate(5), Some(p(2)));
    assert_eq!(table.allocate(p(9)), 5);
}

#[test]
fn lower_free_descriptor_wins_over_the_last_released() {
    let mut table = FdTable::new();
    for k in 0..4 {
        table.allocate(p(k));
    }
    table.deallocate(3);
    table.deallocate(5);
    assert_eq!(table.allocate(p(9)), 3);
    assert_eq!(table.allocate(p(9)), 5);
    assert_eq!(table.allocate(p(9)), 7);
}

#[test]
fn allocate_then_deallocate_returns_the_entry() {
    let mut table = FdTable::new();
    let entry = FdEntry::Passthrough {
        kernel_fd: 42,
        flags: 0o2000,
        path: Some(PathBuf::from("/tmp/some/file")),
    };
    let vfd = table.allocate(entry.clone());
    assert_eq!(table.deallocate(vfd), Some(entry));
    assert_eq!(table.get(vfd), None);
    assert_eq!(table.deallocate(vfd), None);
}

#[test]
fn deallocating_standard_fds_does_not_free_them() {
    let mut table = FdTable::new();
    assert_eq!(table.deallocate(0), Some(p(0)));
    assert_eq!(table.deallocate(1), Some(p(1)));
    assert_eq!(table.deallocate(2), Some(p(2)));
    assert_eq!(table.translate(0), None);
    assert_eq!(table.allocate(p(100)), 3);
    assert_eq!(table.allocate(p(101)), 4);
    // They can be made again explicitly.
    assert_eq!(table.allocate_at(0, p(0)), None);
    assert_eq!(table.translate(0), Some(0));
}

#[test]
fn deallocating_an_unmapped_descriptor_changes_nothing() {
    let mut table = FdTable::new();
    assert_eq!(table.deallocate(7), None);
    assert_eq!(table.deallocate(-3), None);
    assert_eq!(table.allocate(p(1)), 3);
    assert_eq!(table.allocate(p(2)), 4);
}

#[test]
fn duplicate_of_an_unmapped_descriptor_is_none() {
    let mut table = FdTable::new();
    assert_eq!(table.duplicate(9), None);
    assert_eq!(table.duplicate_at(9, 4), None);
    assert_eq!(table.get(4), None);
    assert_eq!(table.allocate(p(1)), 3);
}

#[test]
fn duplicate_of_a_standard_descriptor() {
    let mut table = FdTable::new();
    assert_eq!(table.duplicate(1), Some(3));
    assert_eq!(table.translate(3), Some(1));
}

#[test]
fn duplicate_shares_the_virtual_handle() {
    let mut table = FdTable::new();
    let entry = FdEntry::Virtual {
        file_ops: FileOpsHandle { id: 77 },
        flags: 1,
        path: Some(PathBuf::from("/virtual")),
    };
    let vfd = table.allocate(entry.clone());
    let dup = table.duplicate(vfd).unwrap();
    assert_eq!(dup, 4);
    let a = table.get(vfd).unwrap();
    let b = table.get(dup).unwrap();
    assert_eq!(a.file_ops(), Some(&FileOpsHandle { id: 77 }));
    assert_eq!(a.file_ops(), b.file_ops());
    assert_eq!(a, b);
    assert_eq!(a.kernel_fd(), None);
    assert_eq!(table.translate(vfd), None);
    assert_eq!(table.translate(dup), None);
}

#[test]
fn duplicate_at_returns_the_entry_it_replaces() {
    let mut table = FdTable::new();
    assert_eq!(table.allocate(p(100)), 3);
    assert_eq!(table.allocate(p(101)), 4);
    assert_eq!(table.duplicate_at(3, 4), Some(p(101)));
    assert_eq!(table.translate(4), Some(100));
    assert_eq!(table.duplicate_at(3, 3), Some(p(100)));
    assert_eq!(table.translate(3), Some(100));
}

#[test]
fn duplicate_at_repopulates_gaps() {
    let mut table = FdTable::new();
    assert_eq!(table.allocate(p(100)), 3);
    assert_eq!(table.duplicate_at(3, 6), None);
    assert_eq!(table.allocate(p(1)), 4);
    assert_eq!(table.allocate(p(2)), 5);
    assert_eq!(table.allocate(p(3)), 7);
}

#[test]
fn lowest_free_from_scans_upwards() {
    let mut table = FdTable::new();
    assert_eq!(table.lowest_free_from(0), Some(3));
    table.allocate(p(1));
    table.allocate(p(2));
    table.allocate_at(6, p(3));
    assert_eq!(table.lowest_free_from(3), Some(5));
    assert_eq!(table.lowest_free_from(6), Some(7));
    assert_eq!(table.lowest_free_from(1000), Some(1000));
    assert_eq!(table.lowest_free_from(i32::MAX), None);
    assert_eq!(table.lowest_free_from(i32::MAX - 1), Some(i32::MAX - 1));
}

#[test]
fn entry_accessors() {
    let pass = FdEntry::Passthrough { kernel_fd: 9, flags: 5, path: Some(PathBuf::from("/a")) };
    assert_eq!(pass.kernel_fd(), Some(9));
    assert_eq!(pass.flags(), 5);
    assert_eq!(pass.path(), Some(&PathBuf::from("/a")));
    assert_eq!(pass.file_ops(), None);
    let virt = FdEntry::Virtual { file_ops: FileOpsHandle { id: 3 }, flags: 6, path: None };
    assert_eq!(virt.kernel_fd(), None);
    assert_eq!(virt.flags(), 6);
    assert_eq!(virt.path(), None);
    assert_eq!(virt.file_ops(), Some(&FileOpsHandle { id: 3 }));
}

#[test]
fn entry_clone_is_a_structural_copy() {
    let pass = FdEntry::Passthrough { kernel_fd: 9, flags: 5, path: Some(PathBuf::from("/a/b")) };
    assert_eq!(pass.clone(), pass);
    let virt = FdEntry::Virtual {
        file_ops: FileOpsHandle { id: 3 },
        flags: 6,
        path: Some(PathBuf::from("rel")),
    };
    assert_eq!(virt.clone(), virt);
    assert_ne!(virt.clone(), pass);
}

#[test]
fn get_returns_a_copy_with_the_path() {
    let mut table = FdTable::new();
    let entry = FdEntry::Passthrough {
        kernel_fd: 9,
        flags: 5,
        path: Some(PathBuf::from("/etc/hosts")),
    };
    let vfd = table.allocate(entry.clone());
    assert_eq!(table.get(vfd), Some(entry.clone()));
    let dup = table.duplicate(vfd).unwrap();
    assert_eq!(table.get(dup), Some(entry));
}
