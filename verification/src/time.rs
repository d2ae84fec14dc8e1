//! Timestamps of the signing protocol.
//!
//! Requests carry two renderings of one UTC instant: the date-only stamp
//! (eight digits, year-month-day) and the full basic-format timestamp with
//! a trailing `Z`. Both are pure functions of the instant, so a fixed
//! instant always yields the same strings. No timezone other than UTC
//! exists in this model.
use vstd::prelude::*;

use crate::hex::spec_hex_digit;

verus! {

/// The decimal digit character for a value below 10.
pub open spec fn spec_digit(d: int) -> char
    recommends
        0 <= d < 10,
{
    spec_hex_digit(d)
}

/// A number rendered as exactly two decimal digits, zero-padded.
pub open spec fn spec_dec2(n: int) -> Seq<char>
    recommends
        0 <= n < 100,
{
    seq![spec_digit(n / 10 % 10), spec_digit(n % 10)]
}

/// A number rendered as exactly four decimal digits, zero-padded.
pub open spec fn spec_dec4(n: int) -> Seq<char>
    recommends
        0 <= n < 10000,
{
    seq![
        spec_digit(n / 1000 % 10),
        spec_digit(n / 100 % 10),
        spec_digit(n / 10 % 10),
        spec_digit(n % 10),
    ]
}

fn dec_digit(d: u32) -> (c: char)
    requires
        d < 10,
    ensures
        c == spec_digit(d as int),
{
    match d {
        0 => '0',
        1 => '1',
        2 => '2',
        3 => '3',
        4 => '4',
        5 => '5',
        6 => '6',
        7 => '7',
        8 => '8',
        _ => '9',
    }
}

/// Appends the two-digit rendering of `n` to `out`.
fn push_dec2(out: &mut String, n: u32)
    requires
        n < 100,
    ensures
        final(out)@ == old(out)@ + spec_dec2(n as int),
{
    let hi = dec_digit(n / 10);
    let lo = dec_digit(n % 10);
    crate::strings::push_char(out, hi);
    crate::strings::push_char(out, lo);
    proof {
        assert(old(out)@.push(hi).push(lo) =~= old(out)@ + spec_dec2(n as int));
    }
}

/// Appends the four-digit rendering of `n` to `out`.
fn push_dec4(out: &mut String, n: u32)
    requires
        n < 10000,
    ensures
        final(out)@ == old(out)@ + spec_dec4(n as int),
{
    let d1 = dec_digit(n / 1000);
    let d2 = dec_digit(n / 100 % 10);
    let d3 = dec_digit(n / 10 % 10);
    let d4 = dec_digit(n % 10);
    crate::strings::push_char(out, d1);
    crate::strings::push_char(out, d2);
    crate::strings::push_char(out, d3);
    crate::strings::push_char(out, d4);
    proof {
        assert(old(out)@.push(d1).push(d2).push(d3).push(d4) =~= old(out)@ + spec_dec4(n as int));
    }
}

/// One instant of UTC civil time, held as plain calendar and clock fields.
#[derive(Debug, Clone, Copy, PartialEq, Eq)]
pub struct UtcInstant {
    pub year: u32,
    pub month: u32,
    pub day: u32,
    pub hour: u32,
    pub minute: u32,
    pub second: u32,
}

impl UtcInstant {
    /// The field ranges every instant of this model satisfies.
    pub open spec fn wf(&self) -> bool {
        &&& self.year <= 9999
        &&& 1 <= self.month <= 12
        &&& 1 <= self.day <= 31
        &&& self.hour <= 23
        &&& self.minute <= 59
        &&& self.second <= 59
    }

    /// Builds an instant from plain fields, refusing out-of-range values.
    pub fn try_new(year: u32, month: u32, day: u32, hour: u32, minute: u32, second: u32) -> (r:
        Option<UtcInstant>)
        ensures
            r matches Some(i) <==> (UtcInstant { year, month, day, hour, minute, second }).wf(),
            r matches Some(i) ==> i == (UtcInstant { year, month, day, hour, minute, second }),
    {
        if year <= 9999 && 1 <= month && month <= 12 && 1 <= day && day <= 31 && hour <= 23
            && minute <= 59 && second <= 59 {
            Some(UtcInstant { year, month, day, hour, minute, second })
        } else {
            None
        }
    }
}

/// Relies on chrono's `Utc::now` with the `Datelike` and `Timelike`
/// accessors: the current UTC civil time, with month in 1..=12, day in
/// 1..=31, hour below 24, minute and second below 60. The year is the
/// proleptic Gregorian year and is not bounded here.
#[verifier::external_body]
fn utc_now_fields() -> (r: (i32, u32, u32, u32, u32, u32))
    ensures
        1 <= r.1 <= 12,
        1 <= r.2 <= 31,
        r.3 <= 23,
        r.4 <= 59,
        r.5 <= 59,
{
    let t = chrono::Utc::now();
    (
        chrono::Datelike::year(&t),
        chrono::Datelike::month(&t),
        chrono::Datelike::day(&t),
        chrono::Timelike::hour(&t),
        chrono::Timelike::minute(&t),
        chrono::Timelike::second(&t),
    )
}

impl UtcInstant {
    /// Reads the wall clock. `None` only for a clock outside the
    /// four-digit-year range of this model.
    pub fn now() -> (r: Option<UtcInstant>)
        ensures
            r matches Some(i) ==> i.wf(),
    {
        let (year, month, day, hour, minute, second) = utc_now_fields();
        if year >= 0 {
            UtcInstant::try_new(year as u32, month, day, hour, minute, second)
        } else {
            None
        }
    }
}

/// The eight-digit date rendering of an instant: year, month, day, no
/// separators.
pub open spec fn spec_date_stamp(i: UtcInstant) -> Seq<char> {
    spec_dec4(i.year as int) + spec_dec2(i.month as int) + spec_dec2(i.day as int)
}

/// The full basic-format rendering of an instant: date, `T`, six clock
/// digits, `Z`.
pub open spec fn spec_amz_timestamp(i: UtcInstant) -> Seq<char> {
    spec_date_stamp(i) + seq!['T'] + spec_dec2(i.hour as int) + spec_dec2(i.minute as int)
        + spec_dec2(i.second as int) + seq!['Z']
}

/// The date portion of the full timestamp is exactly the date stamp: the
/// scope date and the request timestamp of one instant can never disagree.
pub proof fn lemma_timestamp_begins_with_date_stamp(i: UtcInstant)
    ensures
        spec_amz_timestamp(i).take(8) == spec_date_stamp(i),
        spec_date_stamp(i).len() == 8,
        spec_amz_timestamp(i).len() == 16,
{
    assert(spec_amz_timestamp(i).take(8) =~= spec_date_stamp(i));
}

/// The date of a request, rendered as eight digits, always UTC.
#[derive(Debug, Clone, PartialEq, Eq)]
pub struct DateStamp {
    value: String,
}

impl DateStamp {
    pub closed spec fn view(&self) -> Seq<char> {
        self.value@
    }

    /// Wraps an already rendered date stamp.
    pub fn new(key: String) -> (r: DateStamp)
        ensures
            r@ == key@,
    {
        DateStamp { value: key }
    }

    pub fn as_str(&self) -> (r: &str)
        ensures
            r@ == self@,
    {
        self.value.as_str()
    }

    /// Renders the date of an instant. A pure function of the instant.
    pub fn from(time: &UtcInstant) -> (r: DateStamp)
        requires
            time.wf(),
        ensures
            r@ == spec_date_stamp(*time),
    {
        let mut out = String::new();
        push_dec4(&mut out, time.year);
        push_dec2(&mut out, time.month);
        push_dec2(&mut out, time.day);
        DateStamp { value: out }
    }
}

/// The full request timestamp, basic format with a trailing `Z`, always
/// UTC, second precision.
#[derive(Debug, Clone, PartialEq, Eq)]
pub struct AmzTimestamp {
    value: String,
}

impl AmzTimestamp {
    pub closed spec fn view(&self) -> Seq<char> {
        self.value@
    }

    pub fn new(key: String) -> (r: AmzTimestamp)
        ensures
            r@ == key@,
    {
        AmzTimestamp { value: key }
    }

    pub fn as_str(&self) -> (r: &str)
        ensures
            r@ == self@,
    {
        self.value.as_str()
    }

    /// Renders the full timestamp of an instant. A pure function of the
    /// instant.
    pub fn from(time: &UtcInstant) -> (r: AmzTimestamp)
        requires
            time.wf(),
        ensures
            r@ == spec_amz_timestamp(*time),
    {
        let mut out = String::new();
        push_dec4(&mut out, time.year);
        push_dec2(&mut out, time.month);
        push_dec2(&mut out, time.day);
        crate::strings::push_char(&mut out, 'T');
        push_dec2(&mut out, time.hour);
        push_dec2(&mut out, time.minute);
        push_dec2(&mut out, time.second);
        crate::strings::push_char(&mut out, 'Z');
        proof {
            assert(out@ =~= spec_amz_timestamp(*time));
        }
        AmzTimestamp { value: out }
    }
}

} // verus!
