//! Time as the sweep sees it: instants, the retention window, and the rule
//! that decides whether an entry has outlived it.

use vstd::prelude::*;

verus! {

/// Hours an entry may stay untouched before it is swept.
pub const TEMP_RETENTION_HOURS: u64 = 24;

/// Nanoseconds in a second.
pub const NANOS_PER_SEC: i128 = 1_000_000_000;

/// Seconds in an hour.
pub const SECS_PER_HOUR: u64 = 3600;

/// An instant: nanoseconds since the Unix epoch, negative before it.
#[derive(Debug, Clone, Copy, PartialEq, Eq, Structural)]
pub struct Timestamp {
    pub unix_nanos: i128,
}

impl Timestamp {
    /// The instant `secs` seconds and `subsec_nanos` nanoseconds after the
    /// epoch.
    pub fn after_epoch(secs: u64, subsec_nanos: u32) -> (at: Timestamp)
        ensures
            at.unix_nanos == secs * NANOS_PER_SEC + subsec_nanos,
    {
        Timestamp { unix_nanos: (secs as i128) * NANOS_PER_SEC + (subsec_nanos as i128) }
    }

    /// The instant `secs` seconds and `subsec_nanos` nanoseconds before the
    /// epoch.
    pub fn before_epoch(secs: u64, subsec_nanos: u32) -> (at: Timestamp)
        ensures
            at.unix_nanos == -(secs * NANOS_PER_SEC + subsec_nanos),
    {
        Timestamp { unix_nanos: -((secs as i128) * NANOS_PER_SEC + (subsec_nanos as i128)) }
    }
}

/// The longest time an entry may go unmodified and still be kept.
#[derive(Debug, Clone, Copy, PartialEq, Eq, Structural)]
pub struct RetentionWindow {
    pub secs: u64,
}

impl RetentionWindow {
    /// The window's length in nanoseconds.
    pub open spec fn nanos(self) -> int {
        self.secs * NANOS_PER_SEC
    }

    /// Seconds in `hours` hours, capped at `u64::MAX`.
    pub open spec fn hours_as_secs(hours: u64) -> u64 {
        if hours * SECS_PER_HOUR > u64::MAX {
            u64::MAX
        } else {
            (hours * SECS_PER_HOUR) as u64
        }
    }

    /// A window of `hours` hours. A length beyond what `u64` seconds can
    /// hold is cut to `u64::MAX` seconds.
    pub fn from_hours(hours: u64) -> (window: RetentionWindow)
        ensures
            window.secs == Self::hours_as_secs(hours),
    {
        match hours.checked_mul(SECS_PER_HOUR) {
            Some(secs) => RetentionWindow { secs },
            None => RetentionWindow { secs: u64::MAX },
        }
    }
}

/// The latest modification time that still counts as stale: `now` minus the
/// retention window, as a mathematical integer.
pub open spec fn cutoff(now: Timestamp, retention: RetentionWindow) -> int {
    now.unix_nanos - retention.nanos()
}

/// Whether an entry last modified at `modified` is due for removal at `now`.
///
/// An entry whose modification time is unknown counts as infinitely old. The
/// boundary is inclusive: an entry modified exactly at the cutoff is stale.
pub open spec fn is_stale_at(
    modified: Option<Timestamp>,
    now: Timestamp,
    retention: RetentionWindow,
) -> bool {
    match modified {
        None => true,
        Some(at) => at.unix_nanos <= cutoff(now, retention),
    }
}

/// Decides whether an entry last modified at `modified` is due for removal.
pub fn is_stale(modified: Option<Timestamp>, now: Timestamp, retention: RetentionWindow) -> (stale:
    bool)
    ensures
        stale == is_stale_at(modified, now, retention),
{
    match modified {
        None => true,
        Some(at) => {
            let window: i128 = (retention.secs as i128) * NANOS_PER_SEC;
            match now.unix_nanos.checked_sub(window) {
                Some(limit) => at.unix_nanos <= limit,
                // The cutoff lies before every representable instant.
                None => false,
            }
        },
    }
}

} // verus!
