//! Points in time as the ledger reports them.
//!
//! The ledger gives a time as an unsigned count of seconds since the start of
//! 1970 (UTC). Such a count is only kept when the calendar can show it; the
//! calendar is that of `chrono`, which ends with the year 262142.

use vstd::prelude::*;

verus! {

/// The calendar's last second: 31 December 262142, 23:59:59 UTC, counted from
/// the start of 1970.
pub const MAX_CALENDAR_SECS: i64 = 8_210_266_876_799;

/// Whether the calendar has a date and time for this count of seconds.
pub open spec fn in_calendar(secs: nat) -> bool {
    secs <= MAX_CALENDAR_SECS
}

/// Asks `chrono::DateTime::from_timestamp` for the moment `secs` seconds from
/// the start of 1970, with no nanoseconds, and tells whether it has one.
///
/// Trusted: for a count that is not negative, `from_timestamp` returns `None`
/// exactly when the day of `secs` lies after the year 262142, which is when
/// `secs` is above `MAX_CALENDAR_SECS`.
#[verifier::external_body]
fn calendar_has(secs: i64) -> (known: bool)
    requires
        0 <= secs,
    ensures
        known == in_calendar(secs as nat),
{
    ::chrono::DateTime::from_timestamp(secs, 0).is_some()
}

/// A count of seconds since the start of 1970 that the calendar can show.
#[derive(Clone, Copy, Debug, PartialEq, Eq, Structural)]
pub struct Timestamp {
    secs: i64,
}

impl View for Timestamp {
    type V = int;

    closed spec fn view(&self) -> int {
        self.secs as int
    }
}

impl Timestamp {
    #[verifier::type_invariant]
    spec fn shown_by_calendar(&self) -> bool {
        0 <= self.secs <= MAX_CALENDAR_SECS
    }

    /// Keeps `secs` if the calendar can show it.
    ///
    /// Returns `None` exactly for the counts above `MAX_CALENDAR_SECS`.
    pub fn from_epoch_secs(secs: u64) -> (converted: Option<Timestamp>)
        ensures
            match converted {
                Some(timestamp) => timestamp@ == secs && in_calendar(secs as nat),
                None => !in_calendar(secs as nat),
            },
    {
        if secs > i64::MAX as u64 {
            return None;
        }
        let signed = secs as i64;
        if calendar_has(signed) {
            Some(Timestamp { secs: signed })
        } else {
            None
        }
    }

    /// The count of seconds, which lies between `0` and `MAX_CALENDAR_SECS`.
    pub fn epoch_secs(&self) -> (secs: i64)
        ensures
            secs == self@,
            0 <= secs <= MAX_CALENDAR_SECS,
    {
        proof {
            use_type_invariant(self);
        }
        self.secs
    }
}

} // verus!
