//! Wall-clock readings, to the second.

use vstd::prelude::*;

verus! {

/// The number of seconds in a minute.
pub const SECONDS_PER_MINUTE: u64 = 60;

/// A wall-clock reading: whole seconds since the Unix epoch. Two instants
/// are equal exactly when they name the same second.
#[derive(Clone, Copy, Debug, PartialEq, Eq, Structural)]
pub struct Instant {
    pub seconds_since_unix_epoch: u64,
}

impl Instant {
    /// The instant that lies `seconds` after the epoch.
    pub fn new(seconds: u64) -> (r: Instant)
        ensures
            r.seconds_since_unix_epoch == seconds,
    {
        Instant { seconds_since_unix_epoch: seconds }
    }

    /// Whole minutes since the epoch.
    pub open spec fn minute(self) -> int {
        self.seconds_since_unix_epoch as int / 60
    }

    /// The second within the minute, from 0 to 59.
    pub open spec fn second_of_minute(self) -> int {
        self.seconds_since_unix_epoch as int % 60
    }

    /// The first second of this instant's minute.
    pub open spec fn minute_start(self) -> Instant {
        Instant {
            seconds_since_unix_epoch: (self.seconds_since_unix_epoch - self.seconds_since_unix_epoch
                % 60) as u64,
        }
    }

    /// Whole minutes since the epoch.
    pub fn minutes(&self) -> (r: u64)
        ensures
            r == self.minute(),
            r * 60 <= u64::MAX,
    {
        self.seconds_since_unix_epoch / SECONDS_PER_MINUTE
    }

    /// The second within the minute, from 0 to 59.
    pub fn seconds_marginal(&self) -> (r: u64)
        ensures
            r == self.second_of_minute(),
            r < 60,
    {
        self.seconds_since_unix_epoch % SECONDS_PER_MINUTE
    }

    /// The instant at which this instant's minute began.
    pub fn rounded_to_minutes(&self) -> (r: Instant)
        ensures
            r == self.minute_start(),
            r.minute() == self.minute(),
            r.second_of_minute() == 0,
            r.seconds_since_unix_epoch <= self.seconds_since_unix_epoch,
    {
        Instant {
            seconds_since_unix_epoch: self.seconds_since_unix_epoch - self.seconds_since_unix_epoch
                % SECONDS_PER_MINUTE,
        }
    }
}

} // verus!
