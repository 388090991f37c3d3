//! Replaying recorded operation sequences against a reference model.
//!
//! - [`case`]: what a recording holds.
//! - [`model`] and [`keys`]: the reference model of one table and how the
//!   replay reads it.
//! - [`mismatch`]: what a replay reports when table and model disagree, and
//!   in which words.
//! - [`semantics`]: what a replay means, over plain mappings.
//! - [`harness`]: the replay itself, on real tables.
//! - [`conformance`]: the proof that the table conforms to the model.

pub mod case;
pub mod conformance;
pub mod harness;
pub mod keys;
pub mod mismatch;
pub mod model;
pub mod semantics;
