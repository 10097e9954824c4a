use vstd::prelude::*;

use crate::active_hours::{digit_char, digit_str};
use crate::types::{UtcDateTime, MAX_UNIX_SECONDS, MIN_UNIX_SECONDS, NANOS_PER_SECOND};

verus! {

/// What chrono's `to_rfc3339` writes for the instant `secs`.`nanos` in UTC.
pub uninterp spec fn rfc3339_text(secs: int, nanos: int) -> Seq<char>;

/// The instant, as seconds since the Unix epoch and nanoseconds, that
/// chrono's `parse_from_rfc3339` reads from a text, if it reads one.
pub uninterp spec fn rfc3339_instant(s: Seq<char>) -> Option<(int, int)>;

/// Relies on chrono's `DateTime::<Utc>::to_rfc3339` (through
/// `DateTime::from_timestamp`, defined on the whole range admitted here): the
/// RFC 3339 text of the instant, which depends on the instant alone.
#[verifier::external_body]
fn format_rfc3339(secs: i64, nanos: u32) -> (r: String)
    requires
        MIN_UNIX_SECONDS <= secs <= MAX_UNIX_SECONDS,
        nanos < NANOS_PER_SECOND,
    ensures
        r@ == rfc3339_text(secs as int, nanos as int),
{
    chrono::DateTime::<chrono::Utc>::from_timestamp(secs, nanos).map(|d| d.to_rfc3339()).unwrap_or_default()
}

/// Relies on chrono's `DateTime::parse_from_rfc3339`, read back through
/// `timestamp` and `timestamp_subsec_nanos`: the instant that the text
/// denotes, or `None` when chrono refuses the text.
#[verifier::external_body]
fn parse_rfc3339(s: &str) -> (r: Option<(i64, u32)>)
    ensures
        r matches Some(p) ==> rfc3339_instant(s@) == Some((p.0 as int, p.1 as int)),
        r is None ==> rfc3339_instant(s@) is None,
{
    chrono::DateTime::parse_from_rfc3339(s).ok().map(|d| (d.timestamp(), d.timestamp_subsec_nanos()))
}

/// Relies on chrono's `Utc::now`: the system clock's reading, as seconds since
/// the Unix epoch and nanoseconds.
#[verifier::external_body]
pub(crate) fn utc_now() -> (r: (i64, u32)) {
    let d = chrono::Utc::now();
    (d.timestamp(), d.timestamp_subsec_nanos())
}

/// The instant that an RFC 3339 text denotes, when the library can hold it.
pub open spec fn instant_of(s: Seq<char>) -> Option<UtcDateTime> {
    match rfc3339_instant(s) {
        Some(p) => if MIN_UNIX_SECONDS <= p.0 <= MAX_UNIX_SECONDS && 0 <= p.1 < NANOS_PER_SECOND {
            Some(UtcDateTime { secs: p.0 as i64, nanos: p.1 as u32 })
        } else {
            None
        },
        None => None,
    }
}

impl UtcDateTime {
    /// The RFC 3339 text of this instant, e.g. `2023-04-12T20:10:57+00:00`.
    pub fn to_rfc3339(&self) -> (r: String)
        requires
            self.wf(),
        ensures
            r@ == rfc3339_text(self.secs as int, self.nanos as int),
    {
        format_rfc3339(self.secs, self.nanos)
    }

    /// Reads an RFC 3339 text, in any offset, as an instant in UTC.
    pub fn parse_from_rfc3339(s: &str) -> (r: Option<UtcDateTime>)
        ensures
            r == instant_of(s@),
            r matches Some(t) ==> t.wf(),
    {
        match parse_rfc3339(s) {
            Some((secs, nanos)) => UtcDateTime::new(secs, nanos),
            None => None,
        }
    }
}

/// The decimal digits of `n`, without leading zeros.
pub open spec fn decimal_text(n: nat) -> Seq<char>
    decreases n,
{
    if n < 10 {
        seq![digit_char(n as int)]
    } else {
        decimal_text(n / 10).push(digit_char((n % 10) as int))
    }
}

pub open spec fn is_digit(c: char) -> bool {
    '0' <= c <= '9'
}

pub open spec fn digit_value(c: char) -> nat {
    (c as u32 - '0' as u32) as nat
}

/// The number that a string of decimal digits writes.
pub open spec fn digits_value(s: Seq<char>) -> nat
    decreases s.len(),
{
    if s.len() == 0 {
        0
    } else {
        digits_value(s.drop_last()) * 10 + digit_value(s.last())
    }
}

/// What a decimal numeral denotes, when it is one and fits in a `u32`.
pub open spec fn decimal_u32(s: Seq<char>) -> Option<u32> {
    if s.len() > 0 && (forall|i: int| 0 <= i < s.len() ==> is_digit(#[trigger] s[i])) && digits_value(s)
        <= u32::MAX {
        Some(digits_value(s) as u32)
    } else {
        None
    }
}

proof fn lemma_digit_char(d: int)
    requires
        0 <= d < 10,
    ensures
        is_digit(digit_char(d)),
        digit_value(digit_char(d)) == d,
{
}

/// Reading back the digits of `n` gives `n`.
pub proof fn lemma_decimal_round_trip(n: nat)
    ensures
        decimal_text(n).len() > 0,
        forall|i: int| 0 <= i < decimal_text(n).len() ==> is_digit(#[trigger] decimal_text(n)[i]),
        digits_value(decimal_text(n)) == n,
    decreases n,
{
    if n < 10 {
        lemma_digit_char(n as int);
        let s = decimal_text(n);
        assert(s.drop_last() =~= Seq::<char>::empty());
        assert(digits_value(s) == digits_value(s.drop_last()) * 10 + digit_value(s.last()));
    } else {
        lemma_decimal_round_trip(n / 10);
        lemma_digit_char((n % 10) as int);
        let s = decimal_text(n);
        assert(s.drop_last() =~= decimal_text(n / 10));
        assert(s.last() == digit_char((n % 10) as int));
        assert(digits_value(s) == digits_value(decimal_text(n / 10)) * 10 + digit_value(s.last()));
        assert((n / 10) * 10 + n % 10 == n);
        assert forall|i: int| 0 <= i < s.len() implies is_digit(#[trigger] s[i]) by {
            if i < s.len() - 1 {
                assert(s[i] == decimal_text(n / 10)[i]);
            }
        }
    }
}

/// `n` in decimal.
pub fn u32_to_decimal(n: u32) -> (r: String)
    ensures
        r@ == decimal_text(n as nat),
    decreases n,
{
    if n < 10 {
        String::from_str(digit_str(n as u8))
    } else {
        let mut r = u32_to_decimal(n / 10);
        r.append(digit_str((n % 10) as u8));
        r
    }
}

proof fn lemma_digits_value_prefix(s: Seq<char>, i: int)
    requires
        0 <= i <= s.len(),
        forall|j: int| 0 <= j < s.len() ==> is_digit(#[trigger] s[j]),
    ensures
        digits_value(s.subrange(0, i)) <= digits_value(s),
    decreases s.len(),
{
    if i < s.len() {
        let t = s.drop_last();
        assert forall|j: int| 0 <= j < t.len() implies is_digit(#[trigger] t[j]) by {
            assert(t[j] == s[j]);
        }
        lemma_digits_value_prefix(t, i);
        assert(t.subrange(0, i) =~= s.subrange(0, i));
    } else {
        assert(s.subrange(0, i) =~= s);
    }
}

/// Reads a decimal numeral of at most `u32::MAX`.
pub fn parse_decimal_u32(s: &str) -> (r: Option<u32>)
    ensures
        r == decimal_u32(s@),
{
    let n = s.unicode_len();
    if n == 0 {
        return None;
    }
    let mut v: u64 = 0;
    let mut i: usize = 0;
    while i < n
        invariant
            n == s@.len(),
            i <= n,
            forall|j: int| 0 <= j < i ==> is_digit(#[trigger] s@[j]),
            v == digits_value(s@.subrange(0, i as int)),
            v <= u32::MAX,
        decreases n - i,
    {
        let c = s.get_char(i);
        if !('0' <= c && c <= '9') {
            return None;
        }
        let d = (c as u32 - '0' as u32) as u64;
        assert(s@.subrange(0, i + 1).drop_last() =~= s@.subrange(0, i as int));
        v = v * 10 + d;
        if v > 4294967295 {
            proof {
                if forall|j: int| 0 <= j < s@.len() ==> is_digit(#[trigger] s@[j]) {
                    lemma_digits_value_prefix(s@, i + 1);
                }
            }
            return None;
        }
        i = i + 1;
    }
    assert(s@.subrange(0, n as int) =~= s@);
    Some(v as u32)
}

} // verus!
