//! A verified virtual file descriptor table for a syscall-interception sandbox,
//! with the rules that surround it.
//!
//! - [`vfs`] holds the table itself. It maps the descriptor numbers that a
//!   guest program observes to the kernel descriptors or virtual file objects
//!   that stand behind them, and hands out numbers by the POSIX rule: always
//!   the lowest one that is unused. Its laws are proved over the mapping that
//!   the table stands for.
//! - [`repro`] replays recorded sequences of operations on real tables, side
//!   by side with a reference model, and proves that the table conforms to
//!   the model.
//! - [`agent`] says which agent identifiers are safe to use in file names and
//!   where the database of an agent lives.
//! - [`fsview`] holds the rules for reading the stored file system: file
//!   modes, paths into the tree and the lines of a listing.

pub mod agent;
pub mod fsview;
pub mod repro;
pub mod vfs;
