use vstd::prelude::*;

use crate::datetime::utc_now;
use crate::types::UtcDateTime;

verus! {

/// A source of the current time.
pub trait Clock {
    fn now(&self) -> UtcDateTime;
}

/// The system clock.
pub struct DefaultClock;

impl Clock for DefaultClock {
    fn now(&self) -> (r: UtcDateTime) {
        let (secs, nanos) = utc_now();
        UtcDateTime { secs, nanos }
    }
}

pub fn default() -> (r: DefaultClock) {
    DefaultClock
}

} // verus!
