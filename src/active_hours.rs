use vstd::prelude::*;

verus! {

/// A wall-clock time of day in UTC, to the second.
#[derive(Clone, Copy, Debug, PartialEq, Eq, Structural)]
pub struct UtcTime {
    pub hour: u8,
    pub minute: u8,
    pub second: u8,
}

impl UtcTime {
    /// A real time of day: hour up to 23, minute and second up to 59.
    pub open spec fn wf(self) -> bool {
        self.hour <= 23 && self.minute <= 59 && self.second <= 59
    }

    /// Seconds since midnight.
    pub open spec fn seconds(self) -> int {
        self.hour * 3600 + self.minute * 60 + self.second
    }

    pub fn _new(hour: u8, minute: u8, second: u8) -> (r: Result<UtcTime, &'static str>)
        ensures
            r is Ok <==> (hour <= 23 && minute <= 59 && second <= 59),
            r matches Ok(t) ==> t.hour == hour && t.minute == minute && t.second == second,
    {
        if hour <= 23 && minute <= 59 && second <= 59 {
            Ok(UtcTime { hour, minute, second })
        } else {
            Err(
                "Invalid time format: must have 0 <= hour <= 23, 0 <= minute <= 59 and 0 <= second <= 59",
            )
        }
    }

    /// Seconds since midnight.
    pub fn seconds_from_midnight(&self) -> (r: u32)
        ensures
            r == self.seconds(),
    {
        self.hour as u32 * 3600 + self.minute as u32 * 60 + self.second as u32
    }

    /// `HH:MM:SS`, each part with two digits.
    pub fn to_hms_string(&self) -> (r: String)
        requires
            self.wf(),
        ensures
            r@ == hms_text(*self),
    {
        proof {
            reveal_strlit(":");
        }
        let mut r = two_digits(self.hour);
        r.append(":");
        let m = two_digits(self.minute);
        r.append(m.as_str());
        r.append(":");
        let s = two_digits(self.second);
        r.append(s.as_str());
        assert(r@ =~= hms_text(*self));
        r
    }

    /// `HH:MM:SSZ`.
    pub fn _to_string(&self) -> (r: String)
        requires
            self.wf(),
        ensures
            r@ == hms_text(*self) + seq!['Z'],
    {
        let mut r = self.to_hms_string();
        r.append("Z");
        proof {
            reveal_strlit("Z");
        }
        r
    }
}

pub open spec fn digit_char(d: int) -> char {
    if d == 0 {
        '0'
    } else if d == 1 {
        '1'
    } else if d == 2 {
        '2'
    } else if d == 3 {
        '3'
    } else if d == 4 {
        '4'
    } else if d == 5 {
        '5'
    } else if d == 6 {
        '6'
    } else if d == 7 {
        '7'
    } else if d == 8 {
        '8'
    } else {
        '9'
    }
}

/// A number below 100 in two decimal digits.
pub open spec fn two_digit_text(n: int) -> Seq<char> {
    seq![digit_char(n / 10), digit_char(n % 10)]
}

pub open spec fn hms_text(t: UtcTime) -> Seq<char> {
    two_digit_text(t.hour as int) + seq![':'] + two_digit_text(t.minute as int) + seq![':']
        + two_digit_text(t.second as int)
}

pub(crate) fn digit_str(d: u8) -> (r: &'static str)
    requires
        d <= 9,
    ensures
        r@ == seq![digit_char(d as int)],
{
    proof {
        reveal_strlit("0");
        reveal_strlit("1");
        reveal_strlit("2");
        reveal_strlit("3");
        reveal_strlit("4");
        reveal_strlit("5");
        reveal_strlit("6");
        reveal_strlit("7");
        reveal_strlit("8");
        reveal_strlit("9");
    }
    if d == 0 {
        "0"
    } else if d == 1 {
        "1"
    } else if d == 2 {
        "2"
    } else if d == 3 {
        "3"
    } else if d == 4 {
        "4"
    } else if d == 5 {
        "5"
    } else if d == 6 {
        "6"
    } else if d == 7 {
        "7"
    } else if d == 8 {
        "8"
    } else {
        assert(seq!['9'] =~= "9"@);
        "9"
    }
}

fn two_digits(n: u8) -> (r: String)
    requires
        n < 100,
    ensures
        r@ == two_digit_text(n as int),
{
    let mut r = String::from_str(digit_str(n / 10));
    r.append(digit_str(n % 10));
    assert(r@ =~= two_digit_text(n as int));
    r
}

/// An opening window of one day.
#[derive(Clone, Copy, Debug, PartialEq, Eq, Structural)]
pub struct ActiveHours {
    pub start: UtcTime,
    pub end: UtcTime,
}

/// The opening window of each weekday, if any.
#[derive(Clone, Copy, Debug, PartialEq, Eq, Structural)]
pub struct ActiveHoursPerWeek {
    pub monday: Option<ActiveHours>,
    pub tuesday: Option<ActiveHours>,
    pub wednesday: Option<ActiveHours>,
    pub thursday: Option<ActiveHours>,
    pub friday: Option<ActiveHours>,
    pub saturday: Option<ActiveHours>,
    pub sunday: Option<ActiveHours>,
}

impl ActiveHoursPerWeek {
    /// A week without any window.
    pub fn new() -> (r: ActiveHoursPerWeek)
        ensures
            r.monday is None && r.tuesday is None && r.wednesday is None && r.thursday is None
                && r.friday is None && r.saturday is None && r.sunday is None,
    {
        ActiveHoursPerWeek {
            monday: None,
            tuesday: None,
            wednesday: None,
            thursday: None,
            friday: None,
            saturday: None,
            sunday: None,
        }
    }
}

} // verus!
