//! What the caller reports of a directory: its entries, or that it could not
//! be read.

use vstd::prelude::*;
use crate::retention::Timestamp;

verus! {

/// What kind of thing an entry is. A link is told by what it is itself, not
/// by what it points to.
#[derive(Debug, Clone, Copy, PartialEq, Eq, Structural)]
pub enum EntryKind {
    /// A regular file.
    File,
    /// A directory.
    Directory,
    /// Anything else: a symbolic link, a socket, a device.
    Other,
}

/// One entry of a directory, as far as housekeeping reads it.
#[derive(Debug, Clone, PartialEq, Eq)]
pub struct DirectoryEntry {
    /// Where the entry lives.
    pub path: String,
    /// When it was last modified, if the platform can tell.
    pub modified: Option<Timestamp>,
    /// What the entry is.
    pub kind: EntryKind,
    /// Its own length in bytes, as its metadata gives it.
    pub len: u64,
}

/// The outcome of looking at one entry of a directory.
#[derive(Debug, Clone, PartialEq, Eq)]
pub enum EntryProbe {
    /// The entry or its metadata could not be read.
    Unreadable,
    /// The entry was read.
    Found(DirectoryEntry),
}

/// The outcome of listing one directory.
#[derive(Debug, Clone, PartialEq, Eq)]
pub enum DirListing {
    /// The directory itself could not be listed.
    Unreadable,
    /// Its entries, in the order the platform gave them.
    Entries(Vec<EntryProbe>),
}

} // verus!
