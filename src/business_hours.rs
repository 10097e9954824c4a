use vstd::prelude::*;

use crate::active_hours::UtcTime;
use crate::types::{Gate, GateState, GateView, UtcDateTime};

verus! {

pub const SECONDS_PER_DAY: i64 = 86400;

pub const NANOS_PER_SECOND_U64: u64 = 1000000000;

#[derive(Clone, Copy, Debug, PartialEq, Eq, Structural)]
pub enum Weekday {
    Monday,
    Tuesday,
    Wednesday,
    Thursday,
    Friday,
    Saturday,
    Sunday,
}

/// The weekday with this number, counting from Monday as 0.
pub open spec fn weekday_from_index(i: int) -> Weekday {
    if i == 0 {
        Weekday::Monday
    } else if i == 1 {
        Weekday::Tuesday
    } else if i == 2 {
        Weekday::Wednesday
    } else if i == 3 {
        Weekday::Thursday
    } else if i == 4 {
        Weekday::Friday
    } else if i == 5 {
        Weekday::Saturday
    } else {
        Weekday::Sunday
    }
}

/// The UTC weekday of an instant; 1970-01-01 was a Thursday.
pub open spec fn weekday_of(secs: int) -> Weekday {
    weekday_from_index((secs / 86400 + 3) % 7)
}

/// Nanoseconds since the instant's UTC midnight.
pub open spec fn nanos_of_day(t: UtcDateTime) -> int {
    (t.secs % 86400) * 1000000000 + t.nanos
}

pub open spec fn weekday_name(d: Weekday) -> Seq<char> {
    match d {
        Weekday::Monday => "monday"@,
        Weekday::Tuesday => "tuesday"@,
        Weekday::Wednesday => "wednesday"@,
        Weekday::Thursday => "thursday"@,
        Weekday::Friday => "friday"@,
        Weekday::Saturday => "saturday"@,
        Weekday::Sunday => "sunday"@,
    }
}

impl Weekday {
    /// The lowercase English name, as used for keys of a stored week.
    pub fn as_str(self) -> (r: &'static str)
        ensures
            r@ == weekday_name(self),
    {
        match self {
            Weekday::Monday => "monday",
            Weekday::Tuesday => "tuesday",
            Weekday::Wednesday => "wednesday",
            Weekday::Thursday => "thursday",
            Weekday::Friday => "friday",
            Weekday::Saturday => "saturday",
            Weekday::Sunday => "sunday",
        }
    }

    fn from_index(i: i64) -> (r: Weekday)
        requires
            0 <= i < 7,
        ensures
            r == weekday_from_index(i as int),
    {
        if i == 0 {
            Weekday::Monday
        } else if i == 1 {
            Weekday::Tuesday
        } else if i == 2 {
            Weekday::Wednesday
        } else if i == 3 {
            Weekday::Thursday
        } else if i == 4 {
            Weekday::Friday
        } else if i == 5 {
            Weekday::Saturday
        } else {
            Weekday::Sunday
        }
    }
}

impl UtcDateTime {
    /// The UTC weekday of this instant.
    pub fn weekday(&self) -> (r: Weekday)
        ensures
            r == weekday_of(self.secs as int),
    {
        let secs = self.secs;
        assert(i64::MIN <= secs as int / 86400 <= i64::MAX);
        let days = secs.checked_div_euclid(SECONDS_PER_DAY).unwrap();
        assert(days as int + 3 <= i64::MAX);
        let i = (days + 3).checked_rem_euclid(7).unwrap();
        Weekday::from_index(i)
    }

    /// Nanoseconds since this instant's UTC midnight.
    pub fn nanos_from_midnight(&self) -> (r: u64)
        ensures
            r == nanos_of_day(*self),
    {
        let sod = self.secs.checked_rem_euclid(SECONDS_PER_DAY).unwrap();
        assert(0 <= sod < 86400);
        sod as u64 * NANOS_PER_SECOND_U64 + self.nanos as u64
    }
}

/// The opening window of a weekday, both ends included.
#[derive(Clone, Copy, Debug, PartialEq, Eq, Structural)]
pub struct BusinessTimes {
    pub start: UtcTime,
    pub end: UtcTime,
}

/// Whether `t`'s time of day lies before the window's start or after its end.
pub open spec fn outside_window(b: BusinessTimes, t: UtcDateTime) -> bool {
    nanos_of_day(t) < b.start.seconds() * 1000000000 || nanos_of_day(t) > b.end.seconds()
        * 1000000000
}

impl BusinessTimes {
    /// Whether the instant's time of day (its date ignored) falls outside
    /// `[start, end]`.
    pub fn is_outside_of_business_times(&self, date_to_check: UtcDateTime) -> (r: bool)
        ensures
            r == outside_window(*self, date_to_check),
    {
        let t = date_to_check.nanos_from_midnight();
        let start = self.start.seconds_from_midnight() as u64 * NANOS_PER_SECOND_U64;
        let end = self.end.seconds_from_midnight() as u64 * NANOS_PER_SECOND_U64;
        t < start || t > end
    }
}

/// The opening window of each weekday; a day without one is closed all day.
#[derive(Clone, Copy, Debug, PartialEq, Eq, Structural)]
pub struct BusinessWeek {
    pub monday: Option<BusinessTimes>,
    pub tuesday: Option<BusinessTimes>,
    pub wednesday: Option<BusinessTimes>,
    pub thursday: Option<BusinessTimes>,
    pub friday: Option<BusinessTimes>,
    pub saturday: Option<BusinessTimes>,
    pub sunday: Option<BusinessTimes>,
}

pub open spec fn hm(hour: u8, minute: u8) -> UtcTime {
    UtcTime { hour, minute, second: 0 }
}

/// Mon 07:00–18:30, Tue 08:00–18:00, Wed 08:00–17:00, Thu 08:00–18:00,
/// Fri 10:00–16:00, closed at the weekend.
pub open spec fn default_week() -> BusinessWeek {
    BusinessWeek {
        monday: Some(BusinessTimes { start: hm(7, 0), end: hm(18, 30) }),
        tuesday: Some(BusinessTimes { start: hm(8, 0), end: hm(18, 0) }),
        wednesday: Some(BusinessTimes { start: hm(8, 0), end: hm(17, 0) }),
        thursday: Some(BusinessTimes { start: hm(8, 0), end: hm(18, 0) }),
        friday: Some(BusinessTimes { start: hm(10, 0), end: hm(16, 0) }),
        saturday: None,
        sunday: None,
    }
}

pub open spec fn times_on(w: BusinessWeek, d: Weekday) -> Option<BusinessTimes> {
    match d {
        Weekday::Monday => w.monday,
        Weekday::Tuesday => w.tuesday,
        Weekday::Wednesday => w.wednesday,
        Weekday::Thursday => w.thursday,
        Weekday::Friday => w.friday,
        Weekday::Saturday => w.saturday,
        Weekday::Sunday => w.sunday,
    }
}

/// Closed at `t`: no window on `t`'s weekday, or `t` outside of it.
pub open spec fn closed_at(w: BusinessWeek, t: UtcDateTime) -> bool {
    match times_on(w, weekday_of(t.secs as int)) {
        None => true,
        Some(b) => outside_window(b, t),
    }
}

/// `g` as a reader sees it at `t`: forced closed while the week is closed.
pub open spec fn masked(w: BusinessWeek, t: UtcDateTime, g: GateView) -> GateView {
    if closed_at(w, t) {
        GateView { state: GateState::Closed, ..g }
    } else {
        g
    }
}

fn window(sh: u8, sm: u8, eh: u8, em: u8) -> (r: BusinessTimes)
    requires
        sh <= 23 && sm <= 59 && eh <= 23 && em <= 59,
    ensures
        r.start == hm(sh, sm),
        r.end == hm(eh, em),
{
    BusinessTimes {
        start: UtcTime { hour: sh, minute: sm, second: 0 },
        end: UtcTime { hour: eh, minute: em, second: 0 },
    }
}

impl BusinessWeek {
    pub fn business_times_by_weekday(&self, weekday: Weekday) -> (r: &Option<BusinessTimes>)
        ensures
            *r == times_on(*self, weekday),
    {
        match weekday {
            Weekday::Monday => &self.monday,
            Weekday::Tuesday => &self.tuesday,
            Weekday::Wednesday => &self.wednesday,
            Weekday::Thursday => &self.thursday,
            Weekday::Friday => &self.friday,
            Weekday::Saturday => &self.saturday,
            Weekday::Sunday => &self.sunday,
        }
    }

    /// Mon 07:00–18:30, Tue 08:00–18:00, Wed 08:00–17:00, Thu 08:00–18:00,
    /// Fri 10:00–16:00, closed at the weekend.
    pub fn default() -> (r: BusinessWeek)
        ensures
            r == default_week(),
    {
        BusinessWeek {
            monday: Some(window(7, 0, 18, 30)),
            tuesday: Some(window(8, 0, 18, 0)),
            wednesday: Some(window(8, 0, 17, 0)),
            thursday: Some(window(8, 0, 18, 0)),
            friday: Some(window(10, 0, 16, 0)),
            saturday: None,
            sunday: None,
        }
    }
}

/// Whether the week is closed at `time_to_check`.
pub fn is_outside_of_business_times(business_week: &BusinessWeek, time_to_check: UtcDateTime) -> (r:
    bool)
    ensures
        r == closed_at(*business_week, time_to_check),
{
    match business_week.business_times_by_weekday(time_to_check.weekday()) {
        None => true,
        Some(hours) => hours.is_outside_of_business_times(time_to_check),
    }
}

/// `gate` as handed to a reader at `utc`: its state forced to `Closed` while
/// the week is closed, every other field untouched. Nothing is stored.
pub fn close_if_time(business_week: &BusinessWeek, utc: UtcDateTime, gate: Gate) -> (r: Gate)
    ensures
        r@ == masked(*business_week, utc, gate@),
{
    if is_outside_of_business_times(business_week, utc) {
        Gate {
            key: gate.key,
            state: GateState::Closed,
            comments: gate.comments,
            last_updated: gate.last_updated,
            display_order: gate.display_order,
        }
    } else {
        gate
    }
}

/// The evaluator over a fixed week.
pub struct DefaultDateTimeCircuitBreaker {
    pub business_week: BusinessWeek,
}

impl DefaultDateTimeCircuitBreaker {
    pub fn is_closed(&self, utc: UtcDateTime) -> (r: bool)
        ensures
            r == closed_at(self.business_week, utc),
    {
        is_outside_of_business_times(&self.business_week, utc)
    }

    pub fn close_if_time(&self, utc: UtcDateTime, gate: Gate) -> (r: Gate)
        ensures
            r@ == masked(self.business_week, utc, gate@),
    {
        close_if_time(&self.business_week, utc, gate)
    }
}

/// The evaluator over the default week.
pub fn default() -> (r: DefaultDateTimeCircuitBreaker)
    ensures
        r.business_week == default_week(),
{
    DefaultDateTimeCircuitBreaker { business_week: BusinessWeek::default() }
}

} // verus!
