//! Utilities for safely generating unique, non-colliding file paths and
//! creating append-only files without clobbering existing ones.
//!
//! The core of the crate is the incremental file-naming and guarded
//! append-creation subsystem in [`file`]: it validates that a path can
//! structurally denote a file, computes the next available incremented
//! sibling name against a snapshot of existing paths, and plans the guarded
//! creation of that file.  All of that logic is verified; the thin layer
//! that touches the real filesystem lives outside this crate and feeds it
//! plain values.

pub mod app;
pub mod array;
pub mod decimal;
pub mod enum_unitary;
pub mod file;
pub mod log;
pub mod numeric;
pub mod properties;
