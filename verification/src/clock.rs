//! Calendar timestamps for backup file names and manifest fields.
//!
//! A stamp is plain year/month/day/hour/minute/second numbers; its
//! `YYYYMMDD-HHMMSS` spelling is computed and specified here. Only the
//! reading of the wall clock is trusted.

use vstd::prelude::*;

verus! {

/// One reading of the calendar clock.
pub struct Stamp {
    pub year: u16,
    pub month: u8,
    pub day: u8,
    pub hour: u8,
    pub minute: u8,
    pub second: u8,
}

impl Clone for Stamp {
    fn clone(&self) -> (r: Self)
        ensures
            r == *self,
    {
        Stamp {
            year: self.year,
            month: self.month,
            day: self.day,
            hour: self.hour,
            minute: self.minute,
            second: self.second,
        }
    }
}

/// A stamp that can be spelled as eight digits, a dash and six digits.
pub open spec fn stamp_wf(s: Stamp) -> bool {
    &&& s.year <= 9999
    &&& 1 <= s.month <= 12
    &&& 1 <= s.day <= 31
    &&& s.hour <= 23
    &&& s.minute <= 59
    &&& s.second <= 59
}

/// The character spelling one decimal digit.
pub open spec fn digit_char(d: int) -> char {
    ((48 + d) as u8) as char
}

/// Two-digit zero-padded spelling.
pub open spec fn two_digits(n: int) -> Seq<char> {
    seq![digit_char(n / 10 % 10), digit_char(n % 10)]
}

/// Four-digit zero-padded spelling.
pub open spec fn four_digits(n: int) -> Seq<char> {
    seq![
        digit_char(n / 1000 % 10),
        digit_char(n / 100 % 10),
        digit_char(n / 10 % 10),
        digit_char(n % 10),
    ]
}

/// The `YYYYMMDD-HHMMSS` spelling of a stamp.
pub open spec fn stamp_chars(s: Stamp) -> Seq<char> {
    four_digits(s.year as int) + two_digits(s.month as int) + two_digits(s.day as int) + seq!['-']
        + two_digits(s.hour as int) + two_digits(s.minute as int) + two_digits(s.second as int)
}

/// The spelling of one digit.
fn digit_str(d: u8) -> (r: &'static str)
    requires
        d < 10,
    ensures
        r@ == seq![digit_char(d as int)],
{
    proof {
        reveal_strlit("0");
        reveal_strlit("1");
        reveal_strlit("2");
        reveal_strlit("3");
        reveal_strlit("4");
        reveal_strlit("5");
        reveal_strlit("6");
        reveal_strlit("7");
        reveal_strlit("8");
        reveal_strlit("9");
    }
    match d {
        0 => "0",
        1 => "1",
        2 => "2",
        3 => "3",
        4 => "4",
        5 => "5",
        6 => "6",
        7 => "7",
        8 => "8",
        _ => "9",
    }
}

/// Append the two-digit spelling of a number below one hundred.
fn push_two_digits(out: &mut String, n: u8)
    requires
        n < 100,
    ensures
        final(out)@ == old(out)@ + two_digits(n as int),
{
    out.append(digit_str(n / 10));
    out.append(digit_str(n % 10));
    assert(final(out)@ =~= old(out)@ + two_digits(n as int));
}

/// Spell a stamp as `YYYYMMDD-HHMMSS`, each field zero-padded.
pub fn format_stamp(s: &Stamp) -> (r: String)
    requires
        stamp_wf(*s),
    ensures
        r@ == stamp_chars(*s),
{
    let mut out = String::new();
    out.append(digit_str((s.year / 1000 % 10) as u8));
    out.append(digit_str((s.year / 100 % 10) as u8));
    out.append(digit_str((s.year / 10 % 10) as u8));
    out.append(digit_str((s.year % 10) as u8));
    assert(out@ =~= four_digits(s.year as int));
    push_two_digits(&mut out, s.month);
    push_two_digits(&mut out, s.day);
    out.append("-");
    proof {
        reveal_strlit("-");
    }
    push_two_digits(&mut out, s.hour);
    push_two_digits(&mut out, s.minute);
    push_two_digits(&mut out, s.second);
    assert(out@ =~= stamp_chars(*s));
    out
}

/// Relies on chrono's `Local::now` and its calendar accessors: `month`
/// runs 1 to 12, `day` 1 to 31, `hour` 0 to 23, `minute` and `second`
/// 0 to 59; nothing is promised of the year, which the calendar does not
/// bound.
#[verifier::external_body]
fn now_parts() -> (r: (i32, u8, u8, u8, u8, u8))
    ensures
        1 <= r.1 <= 12,
        1 <= r.2 <= 31,
        r.3 <= 23,
        r.4 <= 59,
        r.5 <= 59,
{
    let now = chrono::Local::now();
    (
        chrono::Datelike::year(&now),
        chrono::Datelike::month(&now) as u8,
        chrono::Datelike::day(&now) as u8,
        chrono::Timelike::hour(&now) as u8,
        chrono::Timelike::minute(&now) as u8,
        chrono::Timelike::second(&now) as u8,
    )
}

/// Read the local clock as a stamp. `None` only for a year that the
/// `YYYYMMDD` spelling cannot carry.
pub fn current_stamp() -> (r: Option<Stamp>)
    ensures
        r matches Some(s) ==> stamp_wf(s),
{
    let (year, month, day, hour, minute, second) = now_parts();
    if 0 <= year && year <= 9999 {
        Some(Stamp { year: year as u16, month, day, hour, minute, second })
    } else {
        None
    }
}

/// Relies on chrono's `Utc::now().to_rfc3339()`: a fresh wall-clock
/// reading spelled as RFC 3339 text; nothing is promised of its value.
#[verifier::external_body]
pub fn now_rfc3339() -> (r: String) {
    chrono::Utc::now().to_rfc3339()
}

} // verus!
