//! The small conversions that every accessor goes through: an optional blob
//! to bytes or text, a fixed-width text buffer to a string, and a date
//! record to a calendar date and time.

#![allow(deprecated)]

use vstd::prelude::*;
use vstd::slice::slice_to_vec;
use vstd::utf8::{decode_utf8, valid_utf8};
use chrono::{NaiveDate, NaiveDateTime, NaiveTime};
use crate::bytes::copy_range;

verus! {

/// A variable-length field: an owned run of bytes together with its length.
/// A field of size zero is absent; there is no empty value that is present.
#[derive(Debug)]
pub struct VariableLength {
    data: Vec<u8>,
}

impl View for VariableLength {
    type V = Seq<u8>;

    closed spec fn view(&self) -> Seq<u8> {
        self.data@
    }
}

impl Clone for VariableLength {
    fn clone(&self) -> (out: Self)
        ensures
            out@ == self@,
    {
        VariableLength { data: slice_to_vec(self.data.as_slice()) }
    }
}

impl VariableLength {
    /// The absent field.
    pub fn empty() -> (out: Self)
        ensures
            out@ == Seq::<u8>::empty(),
    {
        VariableLength { data: Vec::new() }
    }

    /// The field that holds `data`; absent if `data` is empty.
    pub fn new(data: Vec<u8>) -> (out: Self)
        ensures
            out@ == data@,
    {
        VariableLength { data }
    }

    /// The number of bytes in the field.
    pub fn size(&self) -> (n: usize)
        ensures
            n == self@.len(),
    {
        self.data.len()
    }
}

/// The date record of the wire format: seven 16-bit fields, none of them
/// checked against the calendar.
#[derive(Clone, Copy, Debug, PartialEq, Eq, Structural)]
pub struct Dtr {
    pub year: u16,
    pub month: u16,
    pub day: u16,
    pub hour: u16,
    pub minute: u16,
    pub second: u16,
    pub day_of_week: u16,
}

/// Whether `year` has a 29th of February in the proleptic Gregorian calendar.
pub open spec fn is_leap_year(year: int) -> bool {
    year % 4 == 0 && (year % 100 != 0 || year % 400 == 0)
}

/// The number of days of a month; zero for a month that does not exist.
pub open spec fn days_in_month(year: int, month: int) -> int {
    if month == 2 {
        if is_leap_year(year) {
            29
        } else {
            28
        }
    } else if month == 4 || month == 6 || month == 9 || month == 11 {
        30
    } else if 1 <= month <= 12 {
        31
    } else {
        0
    }
}

/// Whether year, month and day name a day of the calendar, in the years
/// that a `NaiveDate` can hold.
pub open spec fn valid_date(year: int, month: int, day: int) -> bool {
    &&& -262143 <= year <= 262142
    &&& 1 <= month <= 12
    &&& 1 <= day <= days_in_month(year, month)
}

/// Whether hour, minute and second name a time of day. There is no leap
/// second here.
pub open spec fn valid_time(hour: int, minute: int, second: int) -> bool {
    &&& 0 <= hour < 24
    &&& 0 <= minute < 60
    &&& 0 <= second < 60
}

impl Dtr {
    /// Whether the record names a day of the calendar and a time of that day.
    /// The day of the week plays no part.
    pub open spec fn is_calendar(&self) -> bool {
        &&& valid_date(self.year as int, self.month as int, self.day as int)
        &&& valid_time(self.hour as int, self.minute as int, self.second as int)
    }

    /// The record with every field zero. It is not a calendar date.
    pub fn zero() -> (out: Self)
        ensures
            out == Dtr::zero_spec(),
            !out.is_calendar(),
    {
        Dtr { year: 0, month: 0, day: 0, hour: 0, minute: 0, second: 0, day_of_week: 0 }
    }

    /// The record with every field zero.
    pub open spec fn zero_spec() -> Dtr {
        Dtr { year: 0, month: 0, day: 0, hour: 0, minute: 0, second: 0, day_of_week: 0 }
    }

    /// Tests whether the record names a day of the calendar and a time of
    /// that day.
    pub fn is_valid(&self) -> (ok: bool)
        ensures
            ok == self.is_calendar(),
    {
        if self.month < 1 || self.month > 12 || self.day < 1 {
            return false;
        }
        if self.hour >= 24 || self.minute >= 60 || self.second >= 60 {
            return false;
        }
        let leap: bool = self.year % 4 == 0 && (self.year % 100 != 0 || self.year % 400 == 0);
        let days: u16 = if self.month == 2 {
            if leap {
                29
            } else {
                28
            }
        } else if self.month == 4 || self.month == 6 || self.month == 9 || self.month == 11 {
            30
        } else {
            31
        };
        self.day <= days
    }
}

#[verifier::external_type_specification]
#[verifier::external_body]
pub struct ExNaiveDate(chrono::NaiveDate);

#[verifier::external_type_specification]
#[verifier::external_body]
pub struct ExNaiveTime(chrono::NaiveTime);

#[verifier::external_type_specification]
#[verifier::external_body]
pub struct ExNaiveDateTime(chrono::NaiveDateTime);

/// The date that `NaiveDate::from_ymd` makes of a year, a month and a day.
pub uninterp spec fn calendar_date(year: i32, month: u32, day: u32) -> NaiveDate;

/// The time that `NaiveTime::from_hms` makes of an hour, a minute and a
/// second.
pub uninterp spec fn clock_time(hour: u32, minute: u32, second: u32) -> NaiveTime;

/// The date and time that `NaiveDateTime::new` makes of a date and a time.
pub uninterp spec fn date_and_time(date: NaiveDate, time: NaiveTime) -> NaiveDateTime;

/// `NaiveDate::from_ymd` panics unless the day exists in the calendar and
/// the year is one that a `NaiveDate` can hold; otherwise its result
/// depends on the three numbers alone.
pub assume_specification[ chrono::NaiveDate::from_ymd ](year: i32, month: u32, day: u32) -> (date:
    NaiveDate)
    requires
        valid_date(year as int, month as int, day as int),
    ensures
        date == calendar_date(year, month, day),
;

/// `NaiveTime::from_hms` panics unless the hour is below 24 and minute and
/// second are below 60; otherwise its result depends on the three numbers
/// alone.
pub assume_specification[ chrono::NaiveTime::from_hms ](hour: u32, min: u32, sec: u32) -> (time: NaiveTime)
    requires
        valid_time(hour as int, min as int, sec as int),
    ensures
        time == clock_time(hour, min, sec),
;

/// `NaiveDateTime::new` pairs a date with a time and cannot fail.
pub assume_specification[ chrono::NaiveDateTime::new ](date: NaiveDate, time: NaiveTime) -> (both:
    NaiveDateTime)
    ensures
        both == date_and_time(date, time),
;

/// The calendar date and time that a date record stands for.
pub open spec fn datetime_of(date: Dtr) -> NaiveDateTime {
    date_and_time(
        calendar_date(date.year as i32, date.month as u32, date.day as u32),
        clock_time(date.hour as u32, date.minute as u32, date.second as u32),
    )
}

/// The text that `String::from_utf8_lossy` makes of a run of bytes, with
/// U+FFFD in place of whatever is not UTF-8.
pub uninterp spec fn lossy_text(bytes: Seq<u8>) -> Seq<char>;

/// `String::from_utf8` succeeds exactly on valid UTF-8, and the string then
/// holds the characters that the bytes encode.
#[verifier::external_body]
fn text_of_utf8(bytes: Vec<u8>) -> (text: Option<String>)
    ensures
        text is Some == valid_utf8(bytes@),
        text matches Some(s) ==> s@ == decode_utf8(bytes@),
{
    match String::from_utf8(bytes) {
        Ok(s) => Some(s),
        Err(_) => None,
    }
}

/// `String::from_utf8_lossy` never fails; on valid UTF-8 it replaces
/// nothing, so the string holds the characters that the bytes encode.
#[verifier::external_body]
fn text_of_bytes_lossy(bytes: &[u8]) -> (text: String)
    ensures
        text@ == lossy_text(bytes@),
        valid_utf8(bytes@) ==> text@ == decode_utf8(bytes@),
{
    String::from_utf8_lossy(bytes).into_owned()
}

/// The number of bytes of a buffer that come before its first zero byte;
/// the whole length where there is none.
pub open spec fn text_len(buffer: Seq<u8>) -> int
    decreases buffer.len(),
{
    if buffer.len() == 0 || buffer[0] == 0 {
        0
    } else {
        1 + text_len(buffer.skip(1))
    }
}

/// The text bytes of a fixed-width buffer: what comes before its first
/// zero byte.
pub open spec fn text_bytes(buffer: Seq<u8>) -> Seq<u8> {
    buffer.take(text_len(buffer))
}

/// `text_len` is the place of the first zero byte: no byte before it is
/// zero, and it is the end of the buffer or a zero byte.
pub proof fn lemma_text_len(buffer: Seq<u8>)
    ensures
        0 <= text_len(buffer) <= buffer.len(),
        forall|j: int| 0 <= j < text_len(buffer) ==> buffer[j] != 0,
        text_len(buffer) < buffer.len() ==> buffer[text_len(buffer)] == 0,
    decreases buffer.len(),
{
    if buffer.len() == 0 || buffer[0] == 0 {
    } else {
        let rest = buffer.skip(1);
        lemma_text_len(rest);
        assert forall|j: int| 0 <= j < text_len(buffer) implies buffer[j] != 0 by {
            if j > 0 {
                assert(buffer[j] == rest[j - 1]);
            }
        }
        if text_len(buffer) < buffer.len() {
            assert(buffer[text_len(buffer)] == rest[text_len(rest)]);
        }
    }
}

/// A position with no zero byte before it, which is the end of the buffer
/// or holds a zero byte, is `text_len`.
pub proof fn lemma_text_len_is(buffer: Seq<u8>, n: int)
    requires
        0 <= n <= buffer.len(),
        forall|j: int| 0 <= j < n ==> buffer[j] != 0,
        n < buffer.len() ==> buffer[n] == 0,
    ensures
        text_len(buffer) == n,
{
    lemma_text_len(buffer);
    let m = text_len(buffer);
    if m < n {
        assert(buffer[m] == 0);
    } else if n < m {
        assert(buffer[n] == 0);
    }
}

/// Whether `text` is what a fixed-width text buffer reads as: the bytes
/// before the first zero byte as UTF-8, with replacement of what is not; so
/// where those bytes are UTF-8, the characters that they encode.
pub open spec fn is_fixed_text_of(text: String, buffer: Seq<u8>) -> bool {
    &&& text@ == lossy_text(text_bytes(buffer))
    &&& valid_utf8(text_bytes(buffer)) ==> text@ == decode_utf8(text_bytes(buffer))
}

/// Whether `out` is what a variable-length field reads as in bytes: absent
/// for a field of size zero, else all of its bytes.
pub open spec fn is_bytes_of(out: Option<Vec<u8>>, field: Seq<u8>) -> bool {
    &&& out is None == (field.len() == 0)
    &&& out matches Some(v) ==> v@ == field
}

/// Whether `out` is what a variable-length field reads as in text: absent
/// for a field of size zero and for bytes that are not UTF-8, else the
/// characters that the bytes encode.
pub open spec fn is_text_of(out: Option<String>, field: Seq<u8>) -> bool {
    &&& out is Some == (field.len() > 0 && valid_utf8(field))
    &&& out matches Some(s) ==> s@ == decode_utf8(field)
}

/// The string held by a fixed-width text buffer: the bytes before the first
/// zero byte, read as UTF-8 with replacement of what is not.
pub fn make_safe_string(data: &[u8]) -> (text: String)
    ensures
        is_fixed_text_of(text, data@),
{
    let mut n: usize = 0;
    while n < data.len() && data[n] != 0
        invariant
            n <= data@.len(),
            forall|j: int| 0 <= j < n ==> data@[j] != 0,
        decreases data@.len() - n,
    {
        n = n + 1;
    }
    proof {
        lemma_text_len_is(data@, n as int);
    }
    let head = copy_range(data, 0, n);
    text_of_bytes_lossy(head.as_slice())
}

/// The bytes of a variable-length field: absent for a field of size zero,
/// else a fresh copy of all of them.
pub fn vec_from_varlen(attr: &VariableLength) -> (out: Option<Vec<u8>>)
    ensures
        is_bytes_of(out, attr@),
{
    if attr.data.len() < 1 {
        return None;
    }
    Some(slice_to_vec(attr.data.as_slice()))
}

/// The text of a variable-length field: absent for a field of size zero and
/// for bytes that are not UTF-8, else the characters that they encode.
pub fn string_from_varlen(attr: &VariableLength) -> (out: Option<String>)
    ensures
        is_text_of(out, attr@),
{
    match vec_from_varlen(attr) {
        Some(bytes) => text_of_utf8(bytes),
        None => None,
    }
}

/// The calendar date and time of a date record that names one.
pub fn datetime_from_dtr(date: Dtr) -> (out: NaiveDateTime)
    requires
        date.is_calendar(),
    ensures
        out == datetime_of(date),
{
    let ndate = NaiveDate::from_ymd(date.year as i32, date.month as u32, date.day as u32);
    let ntime = NaiveTime::from_hms(date.hour as u32, date.minute as u32, date.second as u32);
    NaiveDateTime::new(ndate, ntime)
}

/// The calendar date and time of a date record, or nothing where the record
/// names none.
pub fn checked_datetime_from_dtr(date: Dtr) -> (out: Option<NaiveDateTime>)
    ensures
        out == if date.is_calendar() {
            Some(datetime_of(date))
        } else {
            None
        },
{
    if date.is_valid() {
        Some(datetime_from_dtr(date))
    } else {
        None
    }
}

} // verus!
