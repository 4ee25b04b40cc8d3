//! Housekeeping for a private temporary workspace: which stale entries to
//! remove, how much space a subtree holds, which mounted volume hosts a path,
//! and the status snapshot handed to the host application.
//!
//! The rules work on plain values. Reading and changing the file system and
//! reading the mounted volumes is left to the caller, who feeds listings and
//! volumes in and carries removals out.

pub mod error;
pub mod housekeeping;
pub mod listing;
pub mod locator;
pub mod probe;
pub mod profile;
pub mod report;
pub mod retention;
pub mod sweep;
pub mod sweep_laws;
pub mod walk;
pub mod walk_growth;
pub mod walk_laws;
