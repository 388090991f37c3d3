//! Descriptor virtualisation: the entry model, the per-process table, the
//! laws of the table, and the independence of the tables of a fork.

pub mod entry;
pub mod fdtable;
pub mod fork;
pub mod laws;
