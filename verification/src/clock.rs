//! Civil-time stamps and the snapshot filename convention:
//! `motion_YYYYMMDD_HHMMSS.jpg`.

use vstd::prelude::*;
use chrono::Datelike;
use chrono::Timelike;

verus! {

/// A local civil time, to second resolution.
#[derive(Clone, Copy, Debug, PartialEq, Eq, Structural)]
pub struct Timestamp {
    pub year: u16,
    pub month: u8,
    pub day: u8,
    pub hour: u8,
    pub minute: u8,
    pub second: u8,
}

impl Timestamp {
    /// Field ranges: a four-digit year and calendar-shaped components.
    pub open spec fn wf(self) -> bool {
        &&& self.year <= 9999
        &&& 1 <= self.month <= 12
        &&& 1 <= self.day <= 31
        &&& self.hour <= 23
        &&& self.minute <= 59
        &&& self.second <= 59
    }

    /// Validates raw field values, as a clock source hands them over.
    pub fn new(year: i32, month: u32, day: u32, hour: u32, minute: u32, second: u32) -> (r:
        Option<Timestamp>)
        ensures
            match r {
                Some(ts) => {
                    &&& ts.wf()
                    &&& ts.year == year
                    &&& ts.month == month
                    &&& ts.day == day
                    &&& ts.hour == hour
                    &&& ts.minute == minute
                    &&& ts.second == second
                },
                None => !(0 <= year <= 9999 && 1 <= month <= 12 && 1 <= day <= 31 && hour <= 23
                    && minute <= 59 && second <= 59),
            },
    {
        if 0 <= year && year <= 9999 && 1 <= month && month <= 12 && 1 <= day && day <= 31
            && hour <= 23 && minute <= 59 && second <= 59 {
            Some(
                Timestamp {
                    year: year as u16,
                    month: month as u8,
                    day: day as u8,
                    hour: hour as u8,
                    minute: minute as u8,
                    second: second as u8,
                },
            )
        } else {
            None
        }
    }
}

/// The decimal digit character for a value below ten.
pub open spec fn dec_digit(n: int) -> char {
    if n == 0 {
        '0'
    } else if n == 1 {
        '1'
    } else if n == 2 {
        '2'
    } else if n == 3 {
        '3'
    } else if n == 4 {
        '4'
    } else if n == 5 {
        '5'
    } else if n == 6 {
        '6'
    } else if n == 7 {
        '7'
    } else if n == 8 {
        '8'
    } else {
        '9'
    }
}

/// Two decimal digits, zero-padded.
pub open spec fn digits2(n: int) -> Seq<char> {
    seq![dec_digit(n / 10), dec_digit(n % 10)]
}

/// Four decimal digits, zero-padded.
pub open spec fn digits4(n: int) -> Seq<char> {
    seq![dec_digit(n / 1000), dec_digit((n / 100) % 10), dec_digit((n / 10) % 10), dec_digit(
        n % 10,
    )]
}

/// The snapshot filename for a timestamp:
/// `motion_` + year, month, day + `_` + hour, minute, second + `.jpg`.
pub open spec fn spec_filename(ts: Timestamp) -> Seq<char> {
    "motion_"@ + digits4(ts.year as int) + digits2(ts.month as int) + digits2(ts.day as int)
        + "_"@ + digits2(ts.hour as int) + digits2(ts.minute as int) + digits2(ts.second as int)
        + ".jpg"@
}

/// Appends the digit character for `d`.
fn push_digit(s: &mut String, d: u8)
    requires
        d <= 9,
    ensures
        final(s)@ == old(s)@ + seq![dec_digit(d as int)],
{
    let lit = match d {
        0 => "0",
        1 => "1",
        2 => "2",
        3 => "3",
        4 => "4",
        5 => "5",
        6 => "6",
        7 => "7",
        8 => "8",
        _ => "9",
    };
    proof {
        reveal_strlit("0");
        reveal_strlit("1");
        reveal_strlit("2");
        reveal_strlit("3");
        reveal_strlit("4");
        reveal_strlit("5");
        reveal_strlit("6");
        reveal_strlit("7");
        reveal_strlit("8");
        reveal_strlit("9");
        assert(lit@ =~= seq![dec_digit(d as int)]);
    }
    s.append(lit);
}

/// Appends two zero-padded decimal digits.
fn push_digits2(s: &mut String, v: u8)
    requires
        v <= 99,
    ensures
        final(s)@ == old(s)@ + digits2(v as int),
{
    push_digit(s, v / 10);
    push_digit(s, v % 10);
    proof {
        assert(final(s)@ =~= old(s)@ + digits2(v as int));
    }
}

/// Appends four zero-padded decimal digits.
fn push_digits4(s: &mut String, v: u16)
    requires
        v <= 9999,
    ensures
        final(s)@ == old(s)@ + digits4(v as int),
{
    push_digit(s, (v / 1000) as u8);
    push_digit(s, ((v / 100) % 10) as u8);
    push_digit(s, ((v / 10) % 10) as u8);
    push_digit(s, (v % 10) as u8);
    proof {
        assert(final(s)@ =~= old(s)@ + digits4(v as int));
    }
}

/// Builds the snapshot filename for a timestamp.
pub fn snapshot_filename(ts: &Timestamp) -> (r: String)
    requires
        ts.wf(),
    ensures
        r@ == spec_filename(*ts),
{
    let mut s = String::new();
    proof {
        reveal_strlit("motion_");
        reveal_strlit("_");
        reveal_strlit(".jpg");
    }
    s.append("motion_");
    push_digits4(&mut s, ts.year);
    push_digits2(&mut s, ts.month);
    push_digits2(&mut s, ts.day);
    s.append("_");
    push_digits2(&mut s, ts.hour);
    push_digits2(&mut s, ts.minute);
    push_digits2(&mut s, ts.second);
    s.append(".jpg");
    proof {
        assert(s@ =~= spec_filename(*ts));
    }
    s
}

/// Relies on std::time::SystemTime::now / duration_since and on chrono's
/// DateTime::from_timestamp and with_timezone(&Local) for the current
/// local civil time, handed over as plain fields; none of these panics,
/// and a clock that reads before the epoch or out of chrono's range comes
/// back as nothing. chrono documents month in 1..=12, day in 1..=31, hour
/// in 0..=23, minute in 0..=59 and second in 0..=59 (a leap second is
/// carried in the sub-second part); it promises nothing of the year.
#[verifier::external_body]
fn local_time_fields() -> (t: Option<(i32, u32, u32, u32, u32, u32)>)
    ensures
        t matches Some(f) ==> 1 <= f.1 <= 12 && 1 <= f.2 <= 31 && f.3 <= 23 && f.4 <= 59 && f.5
            <= 59,
{
    let since_epoch = std::time::SystemTime::now().duration_since(std::time::UNIX_EPOCH).ok()?;
    let secs = i64::try_from(since_epoch.as_secs()).ok()?;
    let utc = chrono::DateTime::from_timestamp(secs, since_epoch.subsec_nanos())?;
    let now = utc.with_timezone(&chrono::Local);
    Some((now.year(), now.month(), now.day(), now.hour(), now.minute(), now.second()))
}

/// The snapshot filename for the current local time, or nothing if the
/// clock cannot be read (a host clock before the epoch) or reports a year
/// outside the four-digit range the convention can carry. A snapshot
/// without a name is skipped; it never stops detection.
pub fn snapshot_filename_now() -> (r: Option<String>)
    ensures
        r matches Some(s) ==> exists|ts: Timestamp|
            ts.wf() && s@ == #[trigger] spec_filename(ts),
{
    match local_time_fields() {
        Some((year, month, day, hour, minute, second)) => {
            match Timestamp::new(year, month, day, hour, minute, second) {
                Some(ts) => {
                    let s = snapshot_filename(&ts);
                    proof {
                        assert(ts.wf() && s@ == spec_filename(ts));
                    }
                    Some(s)
                },
                None => None,
            }
        },
        None => None,
    }
}

} // verus!
