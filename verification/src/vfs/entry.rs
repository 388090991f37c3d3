//! What a virtual file descriptor refers to.

use std::path::PathBuf;
use vstd::prelude::*;

verus! {

/// `std::path::PathBuf`, carried through the table without being looked into.
#[verifier::external_type_specification]
#[verifier::external_body]
pub struct ExPathBuf(std::path::PathBuf);

/// Calls `PathBuf::clone`. The contract claims that the copy is the same path
/// as the one it was made from.
#[verifier::external_body]
fn clone_path(path: &PathBuf) -> (copy: PathBuf)
    ensures
        copy == *path,
{
    path.clone()
}

/// Names a set of virtual-file operations kept by whoever services the I/O.
///
/// The table never looks behind the handle: two handles refer to the same
/// file object exactly when their `id`s are equal.
#[derive(Clone, Copy, Debug, PartialEq, Eq, Structural)]
pub struct FileOpsHandle {
    pub id: u64,
}

/// Information about a virtualised file descriptor.
#[derive(Debug, PartialEq, Eq)]
pub enum FdEntry {
    /// I/O is delegated to a real kernel descriptor.
    Passthrough { kernel_fd: i32, flags: i32, path: Option<PathBuf> },
    /// I/O is serviced in-process through a virtual file object.
    Virtual { file_ops: FileOpsHandle, flags: i32, path: Option<PathBuf> },
}

impl FdEntry {
    /// The kernel descriptor behind a passthrough entry; a virtual entry has none.
    pub open spec fn spec_kernel_fd(&self) -> Option<i32> {
        match *self {
            FdEntry::Passthrough { kernel_fd, .. } => Some(kernel_fd),
            FdEntry::Virtual { .. } => None,
        }
    }

    /// The open flags recorded with the entry.
    pub open spec fn spec_flags(&self) -> i32 {
        match *self {
            FdEntry::Passthrough { flags, .. } => flags,
            FdEntry::Virtual { flags, .. } => flags,
        }
    }

    /// The path recorded with the entry, if any.
    pub open spec fn spec_path(&self) -> Option<PathBuf> {
        match *self {
            FdEntry::Passthrough { path, .. } => path,
            FdEntry::Virtual { path, .. } => path,
        }
    }

    /// The virtual file object behind a virtual entry; a passthrough entry has none.
    pub open spec fn spec_file_ops(&self) -> Option<FileOpsHandle> {
        match *self {
            FdEntry::Passthrough { .. } => None,
            FdEntry::Virtual { file_ops, .. } => Some(file_ops),
        }
    }

    /// Get the kernel file descriptor if this is a passthrough file.
    #[verifier::when_used_as_spec(spec_kernel_fd)]
    pub fn kernel_fd(&self) -> (fd: Option<i32>)
        ensures
            fd == self.spec_kernel_fd(),
    {
        match self {
            FdEntry::Passthrough { kernel_fd, .. } => Some(*kernel_fd),
            FdEntry::Virtual { .. } => None,
        }
    }

    /// Get the flags for this entry.
    #[verifier::when_used_as_spec(spec_flags)]
    pub fn flags(&self) -> (flags: i32)
        ensures
            flags == self.spec_flags(),
    {
        match self {
            FdEntry::Passthrough { flags, .. } => *flags,
            FdEntry::Virtual { flags, .. } => *flags,
        }
    }

    /// Get the path for this entry.
    pub fn path(&self) -> (path: Option<&PathBuf>)
        ensures
            match path {
                Some(p) => self.spec_path() == Some(*p),
                None => self.spec_path() is None,
            },
    {
        match self {
            FdEntry::Passthrough { path, .. } => path.as_ref(),
            FdEntry::Virtual { path, .. } => path.as_ref(),
        }
    }

    /// Get the virtual file object of a virtual entry.
    pub fn file_ops(&self) -> (ops: Option<&FileOpsHandle>)
        ensures
            match ops {
                Some(h) => self.spec_file_ops() == Some(*h),
                None => self.spec_file_ops() is None,
            },
    {
        match self {
            FdEntry::Passthrough { .. } => None,
            FdEntry::Virtual { file_ops, .. } => Some(file_ops),
        }
    }
}

impl Clone for FdEntry {
    /// A structural copy: same shape, same descriptor or handle, same flags, same path.
    fn clone(&self) -> (copy: Self)
        ensures
            copy == *self,
    {
        match self {
            FdEntry::Passthrough { kernel_fd, flags, path } => {
                let path = match path {
                    Some(p) => Some(clone_path(p)),
                    None => None,
                };
                FdEntry::Passthrough { kernel_fd: *kernel_fd, flags: *flags, path }
            },
            FdEntry::Virtual { file_ops, flags, path } => {
                let path = match path {
                    Some(p) => Some(clone_path(p)),
                    None => None,
                };
                FdEntry::Virtual { file_ops: *file_ops, flags: *flags, path }
            },
        }
    }
}

} // verus!
