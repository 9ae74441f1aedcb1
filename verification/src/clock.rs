//! The time of day, and how it is written.
use vstd::prelude::*;

use crate::numbers;

verus! {

/// A moment in UTC.
#[derive(Debug, Clone, Copy, PartialEq, Eq, Structural)]
pub struct Moment {
    pub year: u32,
    pub month: u32,
    pub day: u32,
    pub hour: u32,
    pub minute: u32,
    pub second: u32,
}

/// Whether the fields are those of a time of day of a date in or after 1970.
pub open spec fn is_moment(m: Moment) -> bool {
    &&& 1970 <= m.year <= 262142
    &&& 1 <= m.month <= 12
    &&& 1 <= m.day <= 31
    &&& m.hour < 24
    &&& m.minute < 60
    &&& m.second < 60
}

/// `chrono::Utc::now`, as calendar fields. Which moment it is depends on the machine's clock;
/// the fields are those of a time of day of a date in or after 1970. With a clock that is set
/// before 1970 the call does not return.
#[verifier::external_body]
pub(crate) fn utc_now() -> (r: Moment)
    ensures
        is_moment(r),
{
    let now = chrono::Utc::now();
    Moment {
        year: chrono::Datelike::year(&now) as u32,
        month: chrono::Datelike::month(&now),
        day: chrono::Datelike::day(&now),
        hour: chrono::Timelike::hour(&now),
        minute: chrono::Timelike::minute(&now),
        second: chrono::Timelike::second(&now),
    }
}

/// The number of nanoseconds since 1970 that `std::time::SystemTime::now` gives; it depends on
/// the machine's clock, and nothing is claimed of it.
#[verifier::external_body]
pub(crate) fn ticks() -> (r: u64) {
    std::time::SystemTime::now().duration_since(std::time::UNIX_EPOCH).map_or(0, |d| d.as_nanos() as u64)
}

/// A year in four digits at least; one of more than four has a sign.
pub open spec fn year_text(year: nat) -> Seq<char> {
    if year < 10 {
        "000"@ + numbers::decimal(year)
    } else if year < 100 {
        "00"@ + numbers::decimal(year)
    } else if year < 1000 {
        "0"@ + numbers::decimal(year)
    } else if year < 10000 {
        numbers::decimal(year)
    } else {
        "+"@ + numbers::decimal(year)
    }
}

/// A date as `YYYY-MM-DD`.
pub open spec fn date_text(m: Moment) -> Seq<char> {
    year_text(m.year as nat) + "-"@ + numbers::two_digits(m.month as nat) + "-"@
        + numbers::two_digits(m.day as nat)
}

/// A time of day as `HH:MM:SS`.
pub open spec fn time_of_day_text(m: Moment) -> Seq<char> {
    numbers::two_digits(m.hour as nat) + ":"@ + numbers::two_digits(m.minute as nat) + ":"@
        + numbers::two_digits(m.second as nat)
}

/// The day of a moment as Wikidata writes it.
pub open spec fn day_stamp_of(m: Moment) -> Seq<char> {
    "+"@ + date_text(m) + "T00:00:00Z"@
}

/// A moment as `YYYY-MM-DD HH:MM:SS`.
pub open spec fn timestamp_of(m: Moment) -> Seq<char> {
    date_text(m) + " "@ + time_of_day_text(m)
}

fn push_year(s: &mut String, year: u32)
    ensures
        final(s)@ == old(s)@ + year_text(year as nat),
{
    let ghost before = s@;
    if year < 10 {
        s.append("000");
    } else if year < 100 {
        s.append("00");
    } else if year < 1000 {
        s.append("0");
    } else if year >= 10000 {
        s.append("+");
    }
    let digits = numbers::to_decimal(year as u64);
    s.append(digits.as_str());
    assert(s@ == before + year_text(year as nat));
}

fn push_two(s: &mut String, n: u32)
    ensures
        final(s)@ == old(s)@ + numbers::two_digits(n as nat),
{
    let digits = numbers::to_two_digits(n as u64);
    s.append(digits.as_str());
}

fn push_date(s: &mut String, m: Moment)
    ensures
        final(s)@ == old(s)@ + date_text(m),
{
    let ghost before = s@;
    push_year(s, m.year);
    s.append("-");
    push_two(s, m.month);
    s.append("-");
    push_two(s, m.day);
    assert(s@ == before + date_text(m));
}

/// The day of a moment as Wikidata writes it.
pub fn day_stamp(m: Moment) -> (r: String)
    ensures
        r@ == day_stamp_of(m),
{
    let mut s = "+".to_owned();
    push_date(&mut s, m);
    s.append("T00:00:00Z");
    s
}

/// A moment as `YYYY-MM-DD HH:MM:SS`.
pub fn timestamp_text(m: Moment) -> (r: String)
    ensures
        r@ == timestamp_of(m),
{
    let mut s = String::new();
    push_date(&mut s, m);
    s.append(" ");
    let ghost before = s@;
    push_two(&mut s, m.hour);
    s.append(":");
    push_two(&mut s, m.minute);
    s.append(":");
    push_two(&mut s, m.second);
    assert(s@ == before + time_of_day_text(m));
    assert(s@ == timestamp_of(m));
    s
}

/// Today as Wikidata writes it.
pub fn today() -> (r: String)
    ensures
        exists|m: Moment| is_moment(m) && r@ == #[trigger] day_stamp_of(m),
{
    let now = utc_now();
    day_stamp(now)
}

/// Now as `YYYY-MM-DD HH:MM:SS`.
pub fn timestamp() -> (r: String)
    ensures
        exists|m: Moment| is_moment(m) && r@ == #[trigger] timestamp_of(m),
{
    let now = utc_now();
    timestamp_text(now)
}

// ---------------------------------------------------------------------------------------------
// Laws
// ---------------------------------------------------------------------------------------------

/// The day in a timestamp is read back as a date, and so is the day of a reference, which stands
/// at midnight with a plus sign before it.
pub proof fn law_days(m: Moment)
    requires
        is_moment(m),
        m.year < 10000,
    ensures
        crate::adapter_helpers::date_of(date_text(m)) == Some(
            (m.year, Some(m.month as u8), Some(m.day as u8)),
        ),
        day_stamp_of(m) == crate::adapter_helpers::time_text(
            m.year,
            Some(m.month as u8),
            Some(m.day as u8),
        ),
        timestamp_of(m).take(date_text(m).len() as int) == date_text(m),
{
    reveal_strlit("-");
    reveal_strlit("+");
    assert("-"@ =~= seq!['-']);
    assert("+"@ =~= seq!['+']);
    let t = numbers::decimal(m.year as nat) + seq!['-'] + numbers::two_digits(m.month as nat)
        + seq!['-'] + numbers::two_digits(m.day as nat);
    assert(date_text(m) =~= t);
    crate::adapter_helpers::law_dates(m.year, m.month as u8, m.day as u8, Seq::empty());
    assert(day_stamp_of(m) =~= crate::adapter_helpers::time_text(
        m.year,
        Some(m.month as u8),
        Some(m.day as u8),
    ));
    assert(timestamp_of(m).take(date_text(m).len() as int) =~= date_text(m));
}

/// The time of day in a timestamp stands behind a space: hour, minute and second, each of two
/// digits, with colons between them.
pub proof fn law_time_of_day(m: Moment)
    requires
        is_moment(m),
    ensures
        ({
            let t = timestamp_of(m).skip(date_text(m).len() as int);
            &&& t.len() == 9
            &&& t[0] == ' '
            &&& t.subrange(1, 3) == numbers::two_digits(m.hour as nat)
            &&& t[3] == ':'
            &&& t.subrange(4, 6) == numbers::two_digits(m.minute as nat)
            &&& t[6] == ':'
            &&& t.subrange(7, 9) == numbers::two_digits(m.second as nat)
        }),
{
    reveal_strlit(" ");
    reveal_strlit(":");
    numbers::law_two_digits(m.hour as nat, 99);
    numbers::law_two_digits(m.minute as nat, 99);
    numbers::law_two_digits(m.second as nat, 99);
    let t = timestamp_of(m).skip(date_text(m).len() as int);
    assert(t =~= " "@ + time_of_day_text(m));
    assert(t.subrange(1, 3) =~= numbers::two_digits(m.hour as nat));
    assert(t.subrange(4, 6) =~= numbers::two_digits(m.minute as nat));
    assert(t.subrange(7, 9) =~= numbers::two_digits(m.second as nat));
}

} // verus!
