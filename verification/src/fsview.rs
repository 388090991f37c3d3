//! Reading the stored file system: file modes, paths into the tree, and the
//! lines of a listing.
//!
//! The queries against the store are made elsewhere; here are the rules that
//! say what the rows mean.

use vstd::prelude::*;
use vstd::string::{StrSliceExecFns, StringExecFns};

verus! {

/// The inode of the root directory.
pub const ROOT_INO: i64 = 1;

/// The bits of a mode that say what kind of file it is.
pub const S_IFMT: u32 = 0o170000;

/// The kind bits of a directory.
pub const S_IFDIR: u32 = 0o040000;

/// The kind bits of a regular file.
pub const S_IFREG: u32 = 0o100000;

/// What kind of file a mode describes, as far as reading cares.
#[derive(Debug, Clone, Copy, PartialEq, Eq)]
pub enum FileKind {
    Directory,
    Regular,
    Other,
}

/// The kind of file that `mode` describes.
pub open spec fn kind_of(mode: u32) -> FileKind {
    if mode & S_IFMT == S_IFDIR {
        FileKind::Directory
    } else if mode & S_IFMT == S_IFREG {
        FileKind::Regular
    } else {
        FileKind::Other
    }
}

/// Tell the kind of a file from its mode.
pub fn file_kind(mode: u32) -> (kind: FileKind)
    ensures
        kind == kind_of(mode),
{
    if mode & S_IFMT == S_IFDIR {
        FileKind::Directory
    } else if mode & S_IFMT == S_IFREG {
        FileKind::Regular
    } else {
        FileKind::Other
    }
}

/// Why a file cannot be read out.
#[derive(Debug, Clone, Copy, PartialEq, Eq)]
pub enum NotReadable {
    IsDirectory,
    NotRegular,
}

/// Only a regular file can be read out.
pub fn check_readable(mode: u32) -> (result: Result<(), NotReadable>)
    ensures
        result == match kind_of(mode) {
            FileKind::Directory => Err::<(), NotReadable>(NotReadable::IsDirectory),
            FileKind::Regular => Ok(()),
            FileKind::Other => Err(NotReadable::NotRegular),
        },
{
    match file_kind(mode) {
        FileKind::Directory => Err(NotReadable::IsDirectory),
        FileKind::Regular => Ok(()),
        FileKind::Other => Err(NotReadable::NotRegular),
    }
}

/// The components that are left to split off `rest` when `current` holds the
/// characters of the component begun so far: components end at a slash, and
/// empty ones are dropped.
pub open spec fn split_components(rest: Seq<char>, current: Seq<char>) -> Seq<Seq<char>>
    decreases rest.len(),
{
    if rest.len() == 0 {
        finished(current)
    } else if rest[0] == '/' {
        finished(current) + split_components(rest.skip(1), Seq::empty())
    } else {
        split_components(rest.skip(1), current.push(rest[0]))
    }
}

/// A component that has ended, unless it is empty.
pub open spec fn finished(current: Seq<char>) -> Seq<Seq<char>> {
    if current.len() == 0 {
        Seq::empty()
    } else {
        seq![current]
    }
}

/// The components of a path: the non-empty pieces between its slashes.
pub open spec fn components_of(path: Seq<char>) -> Seq<Seq<char>> {
    split_components(path, Seq::empty())
}

/// The texts of a vector of strings.
pub open spec fn texts(strings: Seq<String>) -> Seq<Seq<char>> {
    strings.map_values(|s: String| s@)
}

/// Split a path into its components, from the root down. Leading, trailing
/// and repeated slashes separate nothing.
pub fn path_components(path: &str) -> (components: Vec<String>)
    ensures
        texts(components@) == components_of(path@),
{
    let mut components: Vec<String> = Vec::new();
    let len: usize = path.unicode_len();
    let mut start: usize = 0;
    let mut i: usize = 0;
    assert(path@.skip(0) =~= path@);
    assert(path@.subrange(0, 0) =~= Seq::<char>::empty());
    assert(texts(components@) =~= Seq::<Seq<char>>::empty());
    for c in it: path.chars()
        invariant
            it.seq() == path@,
            len == path@.len(),
            i == it.index(),
            start <= i,
            components_of(path@) == texts(components@) + split_components(
                path@.skip(i as int),
                path@.subrange(start as int, i as int),
            ),
    {
        proof {
            let rest = path@.skip(i as int);
            assert(rest[0] == c);
            assert(rest.skip(1) =~= path@.skip(i + 1));
            assert(path@.subrange(start as int, i as int).push(c) =~= path@.subrange(
                start as int,
                i + 1,
            ));
            assert(path@.subrange(i + 1, i + 1) =~= Seq::<char>::empty());
        }
        if c == '/' {
            if start < i {
                let piece = String::from_str(path.substring_char(start, i));
                let ghost before = components@;
                components.push(piece);
                assert(texts(components@) =~= texts(before) + seq![piece@]);
            }
            start = i + 1;
        }
        i = i + 1;
    }
    assert(path@.skip(i as int) =~= Seq::<char>::empty());
    if start < i {
        let piece = String::from_str(path.substring_char(start, i));
        let ghost before = components@;
        components.push(piece);
        assert(texts(components@) =~= texts(before) + seq![piece@]);
    }
    components
}

/// Whether a listing can start at `path`: only the root can be listed.
pub fn check_listable(path: &str) -> (ok: bool)
    ensures
        ok == (path@ == "/"@),
{
    proof {
        reveal_strlit("/");
    }
    if path.unicode_len() != 1 {
        false
    } else {
        let first = path.get_char(0);
        assert(first == '/' ==> path@ =~= "/"@);
        first == '/'
    }
}

/// One line of a listing.
#[derive(Debug, Clone, PartialEq, Eq)]
pub struct Listed {
    /// `d` for a directory, `f` for anything else.
    pub type_char: char,
    /// The path of the entry, from the root, without a leading slash.
    pub path: String,
    /// Whether the entry is a directory, whose entries are to be listed too.
    pub descend: bool,
}

/// The path of the entry `name` in the directory with the path `prefix`:
/// the root's entries stand by their names alone.
pub open spec fn joined(prefix: Seq<char>, name: Seq<char>) -> Seq<char> {
    if prefix.len() == 0 {
        name
    } else {
        prefix + "/"@ + name
    }
}

/// What a listing shows for an entry `name`, found with `mode` in the
/// directory with the path `prefix`.
pub fn list_entry(prefix: &str, name: &str, mode: u32) -> (listed: Listed)
    ensures
        listed.descend == (kind_of(mode) is Directory),
        listed.type_char == if kind_of(mode) is Directory {
            'd'
        } else {
            'f'
        },
        listed.path@ == joined(prefix@, name@),
{
    let is_dir = match file_kind(mode) {
        FileKind::Directory => true,
        _ => false,
    };
    let path = if prefix.unicode_len() == 0 {
        String::from_str(name)
    } else {
        String::from_str(prefix).concat("/").concat(name)
    };
    Listed { type_char: if is_dir { 'd' } else { 'f' }, path, descend: is_dir }
}

} // verus!
