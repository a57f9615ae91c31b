//! Instants on the UTC time line, held as whole seconds since the Unix epoch and
//! confined to the range that `chrono` can represent.

use vstd::prelude::*;
use chrono::DateTime;

verus! {

/// The earliest representable instant: the first second of the year -262143.
pub const MIN_TIMESTAMP: i64 = -8_334_601_228_800;

/// The latest representable instant: the last second of the year 262142.
pub const MAX_TIMESTAMP: i64 = 8_210_266_876_799;

/// Whether `secs` seconds since the epoch name a representable instant.
pub open spec fn representable(secs: int) -> bool {
    MIN_TIMESTAMP <= secs <= MAX_TIMESTAMP
}

/// Asks `chrono::DateTime::from_timestamp`, with no nanoseconds, whether it can
/// build a UTC date and time from `secs`. It can exactly when the day that
/// `secs` falls on lies between 1 January -262143 and 31 December 262142,
/// which are the two bounds above.
#[verifier::external_body]
fn chrono_accepts(secs: i64) -> (r: bool)
    ensures
        r == representable(secs as int),
{
    DateTime::from_timestamp(secs, 0).is_some()
}

/// An instant in UTC, to the second.
#[derive(Debug, Clone, Copy, PartialEq, Eq, PartialOrd, Ord, Hash)]
pub struct Instant {
    secs: i64,
}

impl View for Instant {
    type V = int;

    closed spec fn view(&self) -> int {
        self.secs as int
    }
}

impl Instant {
    #[verifier::type_invariant]
    spec fn in_range(self) -> bool {
        representable(self.secs as int)
    }

    /// The instant `secs` seconds after the epoch (before it, if negative), or
    /// `None` if that is out of range.
    pub fn from_timestamp(secs: i64) -> (r: Option<Instant>)
        ensures
            match r {
                Some(t) => representable(secs as int) && t@ == secs,
                None => !representable(secs as int),
            },
    {
        if chrono_accepts(secs) {
            Some(Instant { secs })
        } else {
            None
        }
    }

    /// Seconds since the epoch.
    pub fn timestamp(&self) -> (secs: i64)
        ensures
            secs == self@,
            representable(secs as int),
    {
        proof {
            use_type_invariant(self);
        }
        self.secs
    }

    /// The instant `seconds` later (earlier, if negative), or `None` if that is
    /// out of range.
    pub fn checked_add_seconds(&self, seconds: i64) -> (r: Option<Instant>)
        ensures
            match r {
                Some(t) => representable(self@ + seconds) && t@ == self@ + seconds,
                None => !representable(self@ + seconds),
            },
    {
        proof {
            use_type_invariant(self);
        }
        match self.secs.checked_add(seconds) {
            Some(sum) => Instant::from_timestamp(sum),
            None => None,
        }
    }

    /// The seconds elapsed from `earlier` to `self`; negative if `self` comes
    /// first.
    pub fn seconds_since(&self, earlier: &Instant) -> (elapsed: i64)
        ensures
            elapsed == self@ - earlier@,
    {
        proof {
            use_type_invariant(self);
            use_type_invariant(earlier);
        }
        self.secs - earlier.secs
    }

    /// Whether `self` comes strictly before `other`.
    pub fn is_before(&self, other: &Instant) -> (r: bool)
        ensures
            r == (self@ < other@),
    {
        self.secs < other.secs
    }
}

} // verus!
