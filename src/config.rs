use vstd::prelude::*;

use crate::active_hours::{hms_text, UtcTime};
use crate::business_hours::{times_on, weekday_name, BusinessTimes, BusinessWeek, Weekday};
use crate::record::{field, is_text, text_field, Attribute, AttributeValue, decode_string, find_field};

verus! {

/// The hour, minute and second that chrono's `NaiveTime::parse_from_str`
/// reads from a text in the format `%H:%M:%S`, if it reads one.
pub uninterp spec fn hms_parsed(s: Seq<char>) -> Option<(int, int, int)>;

/// Relies on chrono's `NaiveTime::parse_from_str(s, "%H:%M:%S")`, read back
/// through `Timelike::hour`, `minute` and `second`, which are documented to lie
/// in 0..=23, 0..=59 and 0..=59.
#[verifier::external_body]
fn parse_hms(s: &str) -> (r: Option<(u32, u32, u32)>)
    ensures
        r matches Some(p) ==> hms_parsed(s@) == Some((p.0 as int, p.1 as int, p.2 as int)) && p.0 < 24
            && p.1 < 60 && p.2 < 60,
        r is None ==> hms_parsed(s@) is None,
{
    chrono::NaiveTime::parse_from_str(s, "%H:%M:%S").ok().map(
        |t| (chrono::Timelike::hour(&t), chrono::Timelike::minute(&t), chrono::Timelike::second(&t)),
    )
}

/// The stored configuration: an id and the business week.
#[derive(Clone, Debug, PartialEq, Eq)]
pub struct Config {
    pub id: String,
    pub business_week: BusinessWeek,
}

pub open spec fn time_field(rec: Seq<Attribute>, name: Seq<char>) -> Option<UtcTime> {
    match text_field(rec, name) {
        Some(t) => match hms_parsed(t) {
            Some(p) => if 0 <= p.0 < 24 && 0 <= p.1 < 60 && 0 <= p.2 < 60 {
                Some(UtcTime { hour: p.0 as u8, minute: p.1 as u8, second: p.2 as u8 })
            } else {
                None
            },
            None => None,
        },
        None => None,
    }
}

/// The window that a record of `start` and `end` describes.
pub open spec fn decoded_times(rec: Seq<Attribute>) -> Option<BusinessTimes> {
    let start = time_field(rec, "start"@);
    let end = time_field(rec, "end"@);
    if start is Some && end is Some {
        Some(BusinessTimes { start: start.unwrap(), end: end.unwrap() })
    } else {
        None
    }
}

/// A day of a stored week: no map under its name is a day without window
/// (`Some(None)`); a map that is no window does not decode (`None`).
pub open spec fn decoded_day(rec: Seq<Attribute>, day: Weekday) -> Option<Option<BusinessTimes>> {
    match field(rec, weekday_name(day)) {
        Some(AttributeValue::M(m)) => match decoded_times(m@) {
            Some(b) => Some(Some(b)),
            None => None,
        },
        _ => Some(None),
    }
}

/// The week that a stored map of weekday names describes.
pub open spec fn decoded_week(rec: Seq<Attribute>) -> Option<BusinessWeek> {
    let days = seq![
        decoded_day(rec, Weekday::Monday),
        decoded_day(rec, Weekday::Tuesday),
        decoded_day(rec, Weekday::Wednesday),
        decoded_day(rec, Weekday::Thursday),
        decoded_day(rec, Weekday::Friday),
        decoded_day(rec, Weekday::Saturday),
        decoded_day(rec, Weekday::Sunday),
    ];
    if forall|i: int| 0 <= i < 7 ==> (#[trigger] days[i]) is Some {
        Some(
            BusinessWeek {
                monday: days[0].unwrap(),
                tuesday: days[1].unwrap(),
                wednesday: days[2].unwrap(),
                thursday: days[3].unwrap(),
                friday: days[4].unwrap(),
                saturday: days[5].unwrap(),
                sunday: days[6].unwrap(),
            },
        )
    } else {
        None
    }
}

fn decode_time(name: &str, rec: &Vec<Attribute>) -> (r: Result<UtcTime, String>)
    ensures
        r matches Ok(t) ==> time_field(rec@, name@) == Some(t),
        r is Err ==> time_field(rec@, name@) is None,
{
    let text = decode_string(name, rec)?;
    match parse_hms(text.as_str()) {
        Some((h, m, s)) => Ok(UtcTime { hour: h as u8, minute: m as u8, second: s as u8 }),
        None => {
            let mut e = String::from_str("field ");
            e.append(name);
            e.append(" could not be parsed as naive time");
            Err(e)
        },
    }
}

pub fn decode_business_times(rec: &Vec<Attribute>) -> (r: Result<BusinessTimes, String>)
    ensures
        r matches Ok(b) ==> decoded_times(rec@) == Some(b),
        r is Err ==> decoded_times(rec@) is None,
{
    let start = decode_time("start", rec)?;
    let end = decode_time("end", rec)?;
    Ok(BusinessTimes { start, end })
}

pub fn decode_optional_day(day: Weekday, rec: &Vec<Attribute>) -> (r: Result<Option<BusinessTimes>, String>)
    ensures
        r matches Ok(d) ==> decoded_day(rec@, day) == Some(d),
        r is Err ==> decoded_day(rec@, day) is None,
{
    match find_field(rec, day.as_str()) {
        Some(AttributeValue::M(m)) => match decode_business_times(m) {
            Ok(b) => Ok(Some(b)),
            Err(e) => Err(e),
        },
        _ => Ok(None),
    }
}

/// Reads a week back from its stored map.
pub fn decode_business_week(rec: &Vec<Attribute>) -> (r: Result<BusinessWeek, String>)
    ensures
        r matches Ok(w) ==> decoded_week(rec@) == Some(w),
        r is Err ==> decoded_week(rec@) is None,
{
    let monday = decode_optional_day(Weekday::Monday, rec)?;
    let tuesday = decode_optional_day(Weekday::Tuesday, rec)?;
    let wednesday = decode_optional_day(Weekday::Wednesday, rec)?;
    let thursday = decode_optional_day(Weekday::Thursday, rec)?;
    let friday = decode_optional_day(Weekday::Friday, rec)?;
    let saturday = decode_optional_day(Weekday::Saturday, rec)?;
    let sunday = decode_optional_day(Weekday::Sunday, rec)?;
    Ok(BusinessWeek { monday, tuesday, wednesday, thursday, friday, saturday, sunday })
}

/// The stored map of a window: `start` and `end` as `HH:MM:SS`.
pub open spec fn encodes_times(rec: Seq<Attribute>, b: BusinessTimes) -> bool {
    &&& rec.len() == 2
    &&& rec[0].name@ == "start"@ && is_text(rec[0].value, hms_text(b.start))
    &&& rec[1].name@ == "end"@ && is_text(rec[1].value, hms_text(b.end))
}

/// The weekdays that have a window, Monday first.
pub open spec fn window_days(w: BusinessWeek) -> Seq<Weekday> {
    let s0 = Seq::<Weekday>::empty();
    let s1 = if w.monday is Some { s0.push(Weekday::Monday) } else { s0 };
    let s2 = if w.tuesday is Some { s1.push(Weekday::Tuesday) } else { s1 };
    let s3 = if w.wednesday is Some { s2.push(Weekday::Wednesday) } else { s2 };
    let s4 = if w.thursday is Some { s3.push(Weekday::Thursday) } else { s3 };
    let s5 = if w.friday is Some { s4.push(Weekday::Friday) } else { s4 };
    let s6 = if w.saturday is Some { s5.push(Weekday::Saturday) } else { s5 };
    if w.sunday is Some { s6.push(Weekday::Sunday) } else { s6 }
}

/// Entry `i` of `rec` is the window of `days[i]`, named by that weekday.
pub open spec fn entries_match(rec: Seq<Attribute>, days: Seq<Weekday>, w: BusinessWeek) -> bool {
    &&& days.len() == rec.len()
    &&& forall|i: int| 0 <= i < rec.len() ==> {
        &&& (#[trigger] rec[i]).name@ == weekday_name(days[i])
        &&& times_on(w, days[i]) matches Some(b)
        &&& rec[i].value matches AttributeValue::M(m) && encodes_times(m@, b)
    }
}

/// The stored map of a week: one entry per day with a window, named by the
/// weekday, Monday first.
pub open spec fn encodes_week(rec: Seq<Attribute>, w: BusinessWeek) -> bool {
    entries_match(rec, window_days(w), w)
}

proof fn lemma_step(
    before: Seq<Attribute>,
    after: Seq<Attribute>,
    days: Seq<Weekday>,
    w: BusinessWeek,
    day: Weekday,
)
    requires
        entries_match(before, days, w),
        times_on(w, day) is None ==> after == before,
        times_on(w, day) matches Some(b) ==> after.len() == before.len() + 1 && after.drop_last() == before
            && after.last().name@ == weekday_name(day) && (after.last().value matches AttributeValue::M(m)
            && encodes_times(m@, b)),
    ensures
        entries_match(after, if times_on(w, day) is Some { days.push(day) } else { days }, w),
{
    if times_on(w, day) is Some {
        let d2 = days.push(day);
        assert forall|i: int| 0 <= i < after.len() implies {
            &&& (#[trigger] after[i]).name@ == weekday_name(d2[i])
            &&& times_on(w, d2[i]) matches Some(b)
            &&& after[i].value matches AttributeValue::M(m) && encodes_times(m@, b)
        } by {
            if i < before.len() {
                assert(after[i] == after.drop_last()[i]);
                assert(after[i] == before[i]);
            }
        }
    }
}

pub fn encode_business_times(b: &BusinessTimes) -> (r: Vec<Attribute>)
    requires
        b.start.wf() && b.end.wf(),
    ensures
        encodes_times(r@, *b),
{
    let mut r: Vec<Attribute> = Vec::new();
    r.push(Attribute { name: "start".to_owned(), value: AttributeValue::S(b.start.to_hms_string()) });
    r.push(Attribute { name: "end".to_owned(), value: AttributeValue::S(b.end.to_hms_string()) });
    r
}

pub open spec fn week_wf(w: BusinessWeek) -> bool {
    forall|d: Weekday| #[trigger] times_on(w, d) matches Some(b) ==> b.start.wf() && b.end.wf()
}

fn times_wf(times: &Option<BusinessTimes>) -> (r: bool)
    ensures
        r == (times matches Some(b) ==> b.start.wf() && b.end.wf()),
{
    match times {
        Some(b) => b.start.hour <= 23 && b.start.minute <= 59 && b.start.second <= 59 && b.end.hour <= 23
            && b.end.minute <= 59 && b.end.second <= 59,
        None => true,
    }
}

/// Whether every window of the week holds real times of day.
pub fn is_week_wf(w: &BusinessWeek) -> (r: bool)
    ensures
        r == week_wf(*w),
{
    let r = times_wf(&w.monday) && times_wf(&w.tuesday) && times_wf(&w.wednesday) && times_wf(&w.thursday)
        && times_wf(&w.friday) && times_wf(&w.saturday) && times_wf(&w.sunday);
    proof {
        if !r {
            if !(w.monday matches Some(b) ==> b.start.wf() && b.end.wf()) {
                assert(times_on(*w, Weekday::Monday) == w.monday);
            } else if !(w.tuesday matches Some(b) ==> b.start.wf() && b.end.wf()) {
                assert(times_on(*w, Weekday::Tuesday) == w.tuesday);
            } else if !(w.wednesday matches Some(b) ==> b.start.wf() && b.end.wf()) {
                assert(times_on(*w, Weekday::Wednesday) == w.wednesday);
            } else if !(w.thursday matches Some(b) ==> b.start.wf() && b.end.wf()) {
                assert(times_on(*w, Weekday::Thursday) == w.thursday);
            } else if !(w.friday matches Some(b) ==> b.start.wf() && b.end.wf()) {
                assert(times_on(*w, Weekday::Friday) == w.friday);
            } else if !(w.saturday matches Some(b) ==> b.start.wf() && b.end.wf()) {
                assert(times_on(*w, Weekday::Saturday) == w.saturday);
            } else {
                assert(times_on(*w, Weekday::Sunday) == w.sunday);
            }
        }
    }
    r
}

fn push_day(r: &mut Vec<Attribute>, Ghost(w): Ghost<BusinessWeek>, day: Weekday, times: &Option<BusinessTimes>)
    requires
        times matches Some(b) ==> b.start.wf() && b.end.wf(),
        times == times_on(w, day),
    ensures
        times is None ==> final(r)@ == old(r)@,
        times matches Some(b) ==> final(r)@.len() == old(r)@.len() + 1 && final(r)@.drop_last() == old(r)@
            && final(r)@.last().name@ == weekday_name(day) && (final(r)@.last().value matches AttributeValue::M(m)
            && encodes_times(m@, *b)),
{
    match times {
        Some(b) => {
            r.push(Attribute { name: day.as_str().to_owned(), value: AttributeValue::M(encode_business_times(b)) });
            assert(r@.drop_last() =~= old(r)@);
        },
        None => {},
    }
}

/// The stored map of a week.
pub fn encode_business_week(w: &BusinessWeek) -> (r: Vec<Attribute>)
    requires
        week_wf(*w),
    ensures
        encodes_week(r@, *w),
{
    let mut r: Vec<Attribute> = Vec::new();
    assert(entries_match(r@, Seq::empty(), *w));
    let ghost r0 = r@;
    push_day(&mut r, Ghost(*w), Weekday::Monday, &w.monday);
    proof { lemma_step(r0, r@, Seq::empty(), *w, Weekday::Monday); }
    let ghost d1 = if w.monday is Some { Seq::<Weekday>::empty().push(Weekday::Monday) } else { Seq::<Weekday>::empty() };
    let ghost r1 = r@;
    push_day(&mut r, Ghost(*w), Weekday::Tuesday, &w.tuesday);
    proof { lemma_step(r1, r@, d1, *w, Weekday::Tuesday); }
    let ghost d2 = if w.tuesday is Some { d1.push(Weekday::Tuesday) } else { d1 };
    let ghost r2 = r@;
    push_day(&mut r, Ghost(*w), Weekday::Wednesday, &w.wednesday);
    proof { lemma_step(r2, r@, d2, *w, Weekday::Wednesday); }
    let ghost d3 = if w.wednesday is Some { d2.push(Weekday::Wednesday) } else { d2 };
    let ghost r3 = r@;
    push_day(&mut r, Ghost(*w), Weekday::Thursday, &w.thursday);
    proof { lemma_step(r3, r@, d3, *w, Weekday::Thursday); }
    let ghost d4 = if w.thursday is Some { d3.push(Weekday::Thursday) } else { d3 };
    let ghost r4 = r@;
    push_day(&mut r, Ghost(*w), Weekday::Friday, &w.friday);
    proof { lemma_step(r4, r@, d4, *w, Weekday::Friday); }
    let ghost d5 = if w.friday is Some { d4.push(Weekday::Friday) } else { d4 };
    let ghost r5 = r@;
    push_day(&mut r, Ghost(*w), Weekday::Saturday, &w.saturday);
    proof { lemma_step(r5, r@, d5, *w, Weekday::Saturday); }
    let ghost d6 = if w.saturday is Some { d5.push(Weekday::Saturday) } else { d5 };
    let ghost r6 = r@;
    push_day(&mut r, Ghost(*w), Weekday::Sunday, &w.sunday);
    proof { lemma_step(r6, r@, d6, *w, Weekday::Sunday); }
    r
}

/// The configuration that a stored record of `id` and `business_week`
/// describes.
pub open spec fn decoded_config(rec: Seq<Attribute>) -> Option<(Seq<char>, BusinessWeek)> {
    let id = text_field(rec, "id"@);
    let week = match field(rec, "business_week"@) {
        Some(AttributeValue::M(m)) => decoded_week(m@),
        _ => None,
    };
    if id is Some && week is Some {
        Some((id.unwrap(), week.unwrap()))
    } else {
        None
    }
}

impl Config {
    /// The default configuration: the default business week under `DefaultId`.
    pub fn default() -> (r: Config)
        ensures
            r.id@ == "DefaultId"@,
            r.business_week == crate::business_hours::default_week(),
            week_wf(r.business_week),
    {
        Config { id: "DefaultId".to_owned(), business_week: BusinessWeek::default() }
    }

    /// The stored record: `id` and the week's map under `business_week`.
    pub fn encode(&self) -> (r: Vec<Attribute>)
        requires
            week_wf(self.business_week),
        ensures
            r@.len() == 2,
            r@[0].name@ == "id"@ && is_text(r@[0].value, self.id@),
            r@[1].name@ == "business_week"@,
            r@[1].value matches AttributeValue::M(m) && encodes_week(m@, self.business_week),
    {
        let mut r: Vec<Attribute> = Vec::new();
        r.push(Attribute { name: "id".to_owned(), value: AttributeValue::S(self.id.clone()) });
        r.push(
            Attribute {
                name: "business_week".to_owned(),
                value: AttributeValue::M(encode_business_week(&self.business_week)),
            },
        );
        r
    }

    /// Reads a configuration back from its stored record.
    pub fn decode(rec: &Vec<Attribute>) -> (r: Result<Config, String>)
        ensures
            r matches Ok(c) ==> decoded_config(rec@) == Some((c.id@, c.business_week)),
            r is Err ==> decoded_config(rec@) is None,
    {
        let id = decode_string("id", rec)?;
        match find_field(rec, "business_week") {
            Some(AttributeValue::M(m)) => {
                let business_week = decode_business_week(m)?;
                Ok(Config { id, business_week })
            },
            _ => Err("field business_week could not be parsed as map".to_owned()),
        }
    }
}

} // verus!
