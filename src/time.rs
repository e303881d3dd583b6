//! Times of day at minute precision and their `HH:MM` text.
use chrono::Timelike;
use vstd::prelude::*;

use crate::text::{two_digit_string, two_digits};

verus! {

/// Minutes in one day.
pub const MINUTES_PER_DAY: u32 = 1440;

/// A wall-clock time of day, without seconds or time zone.
#[derive(Clone, Copy, Debug, PartialEq, Eq, Structural)]
pub struct TimeOfDay {
    hour: u32,
    minute: u32,
}

/// The `HH:MM` text of a time: two digits each, no seconds.
pub open spec fn hh_mm(t: TimeOfDay) -> Seq<char> {
    two_digits(t.spec_hour() as nat) + seq![':'] + two_digits(t.spec_minute() as nat)
}

/// The time `hour:minute`.
pub open spec fn time_at(hour: u32, minute: u32) -> TimeOfDay {
    TimeOfDay::spec_new(hour, minute)
}

/// What chrono reads from a text with the format `%H:%M`: hour and minute,
/// or nothing where the text does not match.
pub uninterp spec fn parsed_hour_minute(s: Seq<char>) -> Option<(u32, u32)>;

/// Relies on chrono's `NaiveTime::parse_from_str` with the format `%H:%M`
/// and on `Timelike::hour` / `Timelike::minute`, which stay below 24 and 60.
#[verifier::external_body]
fn parse_hour_minute(s: &str) -> (r: Option<(u32, u32)>)
    ensures
        r == parsed_hour_minute(s@),
        r matches Some((h, m)) ==> h < 24 && m < 60,
{
    match chrono::NaiveTime::parse_from_str(s, "%H:%M") {
        Ok(t) => Some((t.hour(), t.minute())),
        Err(_) => None,
    }
}

impl TimeOfDay {
    /// Hour below 24, minute below 60.
    #[verifier::type_invariant]
    spec fn wf(&self) -> bool {
        self.hour < 24 && self.minute < 60
    }

    /// The hour, from 0 to 23.
    pub closed spec fn spec_hour(&self) -> u32 {
        self.hour
    }

    /// The minute, from 0 to 59.
    pub closed spec fn spec_minute(&self) -> u32 {
        self.minute
    }

    /// The time with these fields.
    pub closed spec fn spec_new(hour: u32, minute: u32) -> TimeOfDay {
        TimeOfDay { hour, minute }
    }

    /// A time built from fields has those fields.
    pub broadcast proof fn lemma_time_at(hour: u32, minute: u32)
        ensures
            #[trigger] time_at(hour, minute).spec_hour() == hour,
            time_at(hour, minute).spec_minute() == minute,
    {
    }

    /// Minutes elapsed since midnight.
    pub open spec fn minutes_of_day(&self) -> int {
        self.spec_hour() * 60 + self.spec_minute()
    }

    /// The hour.
    pub fn hour(&self) -> (r: u32)
        ensures
            r == self.spec_hour(),
            r < 24,
    {
        proof {
            use_type_invariant(self);
        }
        self.hour
    }

    /// The minute.
    pub fn minute(&self) -> (r: u32)
        ensures
            r == self.spec_minute(),
            r < 60,
    {
        proof {
            use_type_invariant(self);
        }
        self.minute
    }

    /// The time `hour:minute`, if both are in range.
    pub fn new(hour: u32, minute: u32) -> (r: Option<TimeOfDay>)
        ensures
            r is Some <==> hour < 24 && minute < 60,
            r matches Some(t) ==> t.spec_hour() == hour && t.spec_minute() == minute && t == time_at(hour, minute),
    {
        if hour < 24 && minute < 60 {
            Some(TimeOfDay { hour, minute })
        } else {
            None
        }
    }

    /// The time `n` minutes earlier, wrapping around midnight.
    pub fn minus_minutes(&self, n: u32) -> (r: TimeOfDay)
        ensures
            r.minutes_of_day() == (self.minutes_of_day() - n) % (MINUTES_PER_DAY as int),
    {
        proof {
            use_type_invariant(self);
        }
        let now = self.hour * 60 + self.minute;
        let back = n % MINUTES_PER_DAY;
        let total = if back <= now {
            now - back
        } else {
            now + MINUTES_PER_DAY - back
        };
        assert(total as int == (now - n) % 1440) by {
            assert(n as int == (n / 1440) * 1440 + back) by (nonlinear_arith)
                requires back == n % 1440;
            assert(((now - back) - (n / 1440) * 1440) % 1440 == (now - back) % 1440) by (nonlinear_arith);
        }
        TimeOfDay { hour: total / 60, minute: total % 60 }
    }
}

/// The `HH:MM` text of a time.
pub fn serialize_naive_time(time: &TimeOfDay) -> (r: String)
    ensures
        r@ == hh_mm(*time),
{
    let mut s = two_digit_string(time.hour());
    s.append(":");
    proof {
        reveal_strlit(":");
    }
    let m = two_digit_string(time.minute());
    s.append(m.as_str());
    assert(s@ =~= hh_mm(*time));
    s
}

/// The text did not read as a time of day.
#[derive(Clone, Copy, Debug, PartialEq, Eq, Structural)]
pub struct TimeParseError;

/// Reads a time from the result of parsing its `HH:MM` text.
pub fn time_from_parsed(parsed: Option<(u32, u32)>) -> (r: Result<TimeOfDay, TimeParseError>)
    ensures
        match parsed {
            Some((h, m)) => if h < 24 && m < 60 {
                r == Ok::<TimeOfDay, TimeParseError>(time_at(h, m))
            } else {
                r is Err
            },
            None => r is Err,
        },
{
    match parsed {
        Some((h, m)) => match TimeOfDay::new(h, m) {
            Some(t) => Ok(t),
            None => Err(TimeParseError),
        },
        None => Err(TimeParseError),
    }
}

/// Reads an `HH:MM` text as a time of day.
pub fn deserialize_naive_time(s: &str) -> (r: Result<TimeOfDay, TimeParseError>)
    ensures
        match parsed_hour_minute(s@) {
            Some((h, m)) => r == Ok::<TimeOfDay, TimeParseError>(time_at(h, m)),
            None => r is Err,
        },
{
    time_from_parsed(parse_hour_minute(s))
}

} // verus!
