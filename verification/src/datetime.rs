//! The WMI datetime value and its parser.
//!
//! A WMI datetime string is the fixed-width encoding
//! `YYYYMMDDHHMMSS.ffffff{+|-}UUU`: a 14-digit local date and time, a
//! six-digit raw subsecond field, and a signed number of minutes of UTC
//! offset. Parsing checks the length, then the offset tail, then each
//! fixed-width field from left to right, and finally holds the fields to the
//! backend's calendar; the first fault is terminal and is reported as a
//! typed error.

use vstd::prelude::*;
use vstd::string::StrSliceExecFns;

use crate::calendar::days_in_month;
use crate::calendar::valid_date;
use crate::calendar::{calendar_date_valid, clock_time_valid, offset_seconds_valid};
use crate::digits::{
    all_digits, digits_value, is_digit_char, lemma_digits_value_bound, lemma_digits_value_take_le,
    lemma_pow10_le, lemma_pow10_values, pow10,
};
use crate::errors::{DateTimeField, WMIError};

verus! {

/// An offset-aware instant: a proleptic Gregorian calendar date and clock
/// time, a microsecond subsecond component, and a fixed UTC offset in whole
/// minutes.
#[derive(Clone, Copy, Debug, PartialEq, Eq, Structural)]
pub struct WMIDateTime {
    pub year: u16,
    pub month: u8,
    pub day: u8,
    pub hour: u8,
    pub minute: u8,
    pub second: u8,
    pub microsecond: u32,
    pub offset_minutes: i32,
}

impl WMIDateTime {
    /// Well-formedness: every field lies in its conventional range, the date
    /// exists in the calendar, and the offset is representable.
    pub open spec fn wf(self) -> bool {
        &&& self.year <= 9999
        &&& valid_date(self.year as int, self.month as int, self.day as int)
        &&& self.hour < 24
        &&& self.minute < 60
        &&& self.second < 60
        &&& self.microsecond <= 999999
        &&& -1439 <= self.offset_minutes <= 1439
    }

    /// Combines already validated fields into an instant. Performs no
    /// re-validation: the parser has checked the offset, and the subsecond
    /// component is already normalized and in range.
    pub fn new(
        year: u16,
        month: u8,
        day: u8,
        hour: u8,
        minute: u8,
        second: u8,
        microsecond: u32,
        offset_minutes: i32,
    ) -> (r: WMIDateTime)
        requires
            year <= 9999,
            valid_date(year as int, month as int, day as int),
            hour < 24,
            minute < 60,
            second < 60,
            microsecond <= 999999,
            -1439 <= offset_minutes <= 1439,
        ensures
            r == (WMIDateTime { year, month, day, hour, minute, second, microsecond, offset_minutes }),
            r.wf(),
    {
        WMIDateTime { year, month, day, hour, minute, second, microsecond, offset_minutes }
    }

    /// Decides well-formedness, holding the date to the backend's calendar.
    pub fn is_well_formed(&self) -> (r: bool)
        ensures
            r == self.wf(),
    {
        if self.year > 9999 {
            return false;
        }
        calendar_date_valid(self.year, self.month, self.day) && self.hour < 24 && self.minute < 60
            && self.second < 60 && self.microsecond <= 999999 && self.offset_minutes >= -1439
            && self.offset_minutes <= 1439
    }
}

/// The effective subsecond value of a raw subsecond field: the raw value
/// divided by 1000, or a fatal internal error if the quotient leaves the
/// representable subsecond range (impossible for any six-digit raw field).
pub open spec fn spec_normalize_subsecond(raw: u32) -> Result<u32, WMIError> {
    if raw as int / 1000 <= 999999 {
        Ok((raw / 1000) as u32)
    } else {
        Err(WMIError::InternalFormattingFailure)
    }
}

/// Corrects the legacy subsecond quirk: the wire format writes microseconds
/// without left-zero-padding semantics, so a raw field of `500000` means 500
/// microseconds. The raw value is divided by 1000, always, by contract; a
/// quotient out of the subsecond range is a broken invariant, not an input
/// error.
pub fn normalize_subsecond(raw: u32) -> (r: Result<u32, WMIError>)
    ensures
        r == spec_normalize_subsecond(raw),
        raw <= 999999 ==> r == Ok::<u32, WMIError>(raw / 1000),
{
    let q = raw / 1000;
    if q <= 999999 {
        Ok(q)
    } else {
        Err(WMIError::InternalFormattingFailure)
    }
}

/// True when the offset tail (everything from index 21 on) is a signed
/// base-10 integer: an optional sign followed by at least one digit.
pub open spec fn offset_tail_is_int(t: Seq<char>) -> bool {
    if t.len() == 0 {
        false
    } else if t[0] == '+' || t[0] == '-' {
        t.len() > 1 && all_digits(t.skip(1))
    } else {
        all_digits(t)
    }
}

/// The signed value of a well-formed offset tail, in minutes.
pub open spec fn offset_tail_value(t: Seq<char>) -> int {
    if t.len() > 0 && t[0] == '-' {
        -digits_value(t.skip(1))
    } else if t.len() > 0 && t[0] == '+' {
        digits_value(t.skip(1))
    } else {
        digits_value(t)
    }
}

/// True when characters `a..b` of `s` are all digits.
pub open spec fn field_digits_ok(s: Seq<char>, a: int, b: int) -> bool {
    all_digits(s.subrange(a, b))
}

/// The value of the digit field at characters `a..b` of `s`.
pub open spec fn field_value(s: Seq<char>, a: int, b: int) -> int {
    digits_value(s.subrange(a, b))
}

/// What parsing the fixed-width fields of `s` yields once the offset tail
/// has been read as `mins` minutes: the first non-digit field from the left
/// is reported, then the dot and the subsecond field, then the calendar and
/// clock ranges.
pub open spec fn spec_parse_fields(s: Seq<char>, mins: int) -> Result<WMIDateTime, WMIError> {
    if !field_digits_ok(s, 0, 4) {
        Err(WMIError::InvalidDateTimeComponent(DateTimeField::Year))
    } else if !field_digits_ok(s, 4, 6) {
        Err(WMIError::InvalidDateTimeComponent(DateTimeField::Month))
    } else if !field_digits_ok(s, 6, 8) {
        Err(WMIError::InvalidDateTimeComponent(DateTimeField::Day))
    } else if !field_digits_ok(s, 8, 10) {
        Err(WMIError::InvalidDateTimeComponent(DateTimeField::Hour))
    } else if !field_digits_ok(s, 10, 12) {
        Err(WMIError::InvalidDateTimeComponent(DateTimeField::Minute))
    } else if !field_digits_ok(s, 12, 14) {
        Err(WMIError::InvalidDateTimeComponent(DateTimeField::Second))
    } else if s[14] != '.' {
        Err(WMIError::InvalidDateTimeComponent(DateTimeField::Subsecond))
    } else if !field_digits_ok(s, 15, 21) {
        Err(WMIError::InvalidDateTimeComponent(DateTimeField::Subsecond))
    } else {
        let y = field_value(s, 0, 4);
        let mo = field_value(s, 4, 6);
        let d = field_value(s, 6, 8);
        let h = field_value(s, 8, 10);
        let mi = field_value(s, 10, 12);
        let se = field_value(s, 12, 14);
        let micro = field_value(s, 15, 21) / 1000;
        if !(1 <= mo <= 12) {
            Err(WMIError::InvalidDateTimeComponent(DateTimeField::Month))
        } else if !(1 <= d <= days_in_month(y, mo)) {
            Err(WMIError::InvalidDateTimeComponent(DateTimeField::Day))
        } else if h >= 24 {
            Err(WMIError::InvalidDateTimeComponent(DateTimeField::Hour))
        } else if mi >= 60 {
            Err(WMIError::InvalidDateTimeComponent(DateTimeField::Minute))
        } else if se >= 60 {
            Err(WMIError::InvalidDateTimeComponent(DateTimeField::Second))
        } else {
            Ok(
                WMIDateTime {
                    year: y as u16,
                    month: mo as u8,
                    day: d as u8,
                    hour: h as u8,
                    minute: mi as u8,
                    second: se as u8,
                    microsecond: micro as u32,
                    offset_minutes: mins as i32,
                },
            )
        }
    }
}

/// What parsing the character sequence `s` yields: too short, a faulty or
/// out-of-range offset tail, a faulty field, or the instant.
pub open spec fn spec_parse(s: Seq<char>) -> Result<WMIDateTime, WMIError> {
    if s.len() < 21 {
        Err(WMIError::MalformedInput)
    } else if !offset_tail_is_int(s.skip(21)) {
        Err(WMIError::InvalidOffset)
    } else if !(-1439 <= offset_tail_value(s.skip(21)) <= 1439) {
        Err(WMIError::InvalidOffset)
    } else {
        spec_parse_fields(s, offset_tail_value(s.skip(21)))
    }
}

/// Every instant that parsing yields is well-formed.
pub proof fn lemma_spec_parse_ok_wf(s: Seq<char>, dt: WMIDateTime)
    requires
        spec_parse(s) == Ok::<WMIDateTime, WMIError>(dt),
    ensures
        dt.wf(),
{
    lemma_digits_value_bound(s.subrange(15, 21));
    lemma_pow10_values();
    lemma_digits_value_bound(s.subrange(0, 4));
    crate::digits::lemma_digits_value_nonneg(s.subrange(0, 4));
    crate::digits::lemma_digits_value_nonneg(s.subrange(8, 10));
    crate::digits::lemma_digits_value_nonneg(s.subrange(10, 12));
    crate::digits::lemma_digits_value_nonneg(s.subrange(12, 14));
    crate::digits::lemma_digits_value_nonneg(s.subrange(15, 21));
}

/// Reads the fixed-width digit field at characters `start..end` of `s`:
/// `Some` of its value exactly when every character there is a digit.
fn read_fixed_number(s: &str, start: usize, end: usize) -> (r: Option<u32>)
    requires
        start <= end <= s@.len(),
        end - start <= 7,
    ensures
        r is Some <==> field_digits_ok(s@, start as int, end as int),
        r matches Some(v) ==> v == field_value(s@, start as int, end as int) && v < pow10(
            (end - start) as nat,
        ),
{
    let mut acc: u32 = 0;
    let mut i: usize = start;
    while i < end
        invariant
            start <= i <= end,
            end <= s@.len(),
            end - start <= 7,
            all_digits(s@.subrange(start as int, i as int)),
            acc == digits_value(s@.subrange(start as int, i as int)),
            acc < pow10((i - start) as nat),
        decreases end - i,
    {
        let c = s.get_char(i);
        let v = c as u32;
        if v < 48 || v > 57 {
            proof {
                assert(s@.subrange(start as int, end as int)[i - start] == s@[i as int]);
                assert(!is_digit_char(s@[i as int]));
            }
            return None;
        }
        proof {
            lemma_pow10_le((i - start) as nat, 6);
            lemma_pow10_values();
            assert(s@.subrange(start as int, i + 1).drop_last() =~= s@.subrange(
                start as int,
                i as int,
            ));
            assert(s@.subrange(start as int, i + 1).last() == s@[i as int]);
            assert(forall|j: int|
                0 <= j < i + 1 - start ==> is_digit_char(
                    #[trigger] s@.subrange(start as int, i + 1)[j],
                ));
        }
        acc = acc * 10 + (v - 48);
        i = i + 1;
    }
    proof {
        assert(s@.subrange(start as int, end as int) =~= s@.subrange(start as int, i as int));
    }
    Some(acc)
}

/// Reads the offset tail (characters 21 on) of `s` as a signed number of
/// minutes: `Ok` exactly when the tail is a well-formed signed integer whose
/// value lies in the representable offset range. The range itself is decided
/// by the calendar backend, through `offset_seconds_valid`.
fn parse_offset_tail(s: &str, n: usize) -> (r: Result<i32, WMIError>)
    requires
        n == s@.len(),
        n >= 21,
    ensures
        r matches Ok(m) ==> offset_tail_is_int(s@.skip(21)) && m == offset_tail_value(s@.skip(21))
            && -1439 <= m <= 1439,
        r matches Err(e) ==> e == WMIError::InvalidOffset && (!offset_tail_is_int(s@.skip(21))
            || !(-1439 <= offset_tail_value(s@.skip(21)) <= 1439)),
{
    let ghost t = s@.skip(21);
    if n == 21 {
        return Err(WMIError::InvalidOffset);
    }
    let first = s.get_char(21);
    proof {
        assert(t[0] == s@[21]);
    }
    let neg: bool;
    let dstart: usize;
    if first == '-' {
        neg = true;
        dstart = 22;
    } else if first == '+' {
        neg = false;
        dstart = 22;
    } else {
        neg = false;
        dstart = 21;
    }
    if dstart == n {
        // a lone sign has no digits
        return Err(WMIError::InvalidOffset);
    }
    let ghost dseq = s@.subrange(dstart as int, n as int);
    proof {
        if dstart == 22 {
            assert(dseq =~= t.skip(1));
        } else {
            assert(dseq =~= t);
        }
    }
    let mut acc: u32 = 0;
    let mut i: usize = dstart;
    while i < n
        invariant
            dstart <= i <= n,
            n == s@.len(),
            21 <= dstart <= 22,
            dstart < n,
            t == s@.skip(21),
            dseq == s@.subrange(dstart as int, n as int),
            dstart == 22 ==> dseq =~= t.skip(1) && (t[0] == '+' || t[0] == '-'),
            dstart == 21 ==> dseq =~= t && t[0] != '+' && t[0] != '-',
            neg ==> dstart == 22 && t[0] == '-',
            !neg && dstart == 22 ==> t[0] == '+',
            all_digits(s@.subrange(dstart as int, i as int)),
            acc == digits_value(s@.subrange(dstart as int, i as int)),
            acc <= 99999,
        decreases n - i,
    {
        let c = s.get_char(i);
        let v = c as u32;
        if v < 48 || v > 57 {
            proof {
                assert(dseq[i - dstart] == s@[i as int]);
                assert(!is_digit_char(s@[i as int]));
                assert(!all_digits(dseq));
            }
            return Err(WMIError::InvalidOffset);
        }
        proof {
            assert(s@.subrange(dstart as int, i + 1).drop_last() =~= s@.subrange(
                dstart as int,
                i as int,
            ));
            assert(s@.subrange(dstart as int, i + 1).last() == s@[i as int]);
            assert(forall|j: int|
                0 <= j < i + 1 - dstart ==> is_digit_char(
                    #[trigger] s@.subrange(dstart as int, i + 1)[j],
                ));
        }
        acc = acc * 10 + (v - 48);
        i = i + 1;
        if acc > 99999 {
            proof {
                if offset_tail_is_int(t) {
                    assert(all_digits(dseq));
                    assert(dseq.take(i - dstart) =~= s@.subrange(dstart as int, i as int));
                    lemma_digits_value_take_le(dseq, i - dstart);
                    crate::digits::lemma_digits_value_nonneg(dseq);
                    assert(digits_value(dseq) > 1439);
                }
            }
            return Err(WMIError::InvalidOffset);
        }
    }
    proof {
        assert(dseq =~= s@.subrange(dstart as int, i as int));
        assert(all_digits(dseq));
        assert(offset_tail_is_int(t));
        assert(acc == digits_value(dseq));
    }
    let secs_mag = acc * 60;
    let secs: i32 = if neg {
        -(secs_mag as i32)
    } else {
        secs_mag as i32
    };
    if !offset_seconds_valid(secs) {
        return Err(WMIError::InvalidOffset);
    }
    let mins: i32 = if neg {
        -(acc as i32)
    } else {
        acc as i32
    };
    Ok(mins)
}

impl WMIDateTime {
    /// Parses a WMI datetime string: the length is checked first, then the
    /// offset tail, then each fixed-width field from left to right, and
    /// finally the calendar date and clock time are held to the backend's
    /// ranges. The result is exactly `spec_parse` of the input's characters,
    /// and every parsed instant is well-formed.
    pub fn from_str(s: &str) -> (r: Result<WMIDateTime, WMIError>)
        ensures
            r == spec_parse(s@),
            s@.len() < 21 ==> r == Err::<WMIDateTime, WMIError>(WMIError::MalformedInput),
            r matches Ok(dt) ==> dt.wf(),
    {
        let n = s.unicode_len();
        if n < 21 {
            return Err(WMIError::MalformedInput);
        }
        let mins = match parse_offset_tail(s, n) {
            Ok(m) => m,
            Err(e) => {
                return Err(e);
            },
        };
        let year = match read_fixed_number(s, 0, 4) {
            Some(v) => v,
            None => {
                return Err(WMIError::InvalidDateTimeComponent(DateTimeField::Year));
            },
        };
        let month = match read_fixed_number(s, 4, 6) {
            Some(v) => v,
            None => {
                return Err(WMIError::InvalidDateTimeComponent(DateTimeField::Month));
            },
        };
        let day = match read_fixed_number(s, 6, 8) {
            Some(v) => v,
            None => {
                return Err(WMIError::InvalidDateTimeComponent(DateTimeField::Day));
            },
        };
        let hour = match read_fixed_number(s, 8, 10) {
            Some(v) => v,
            None => {
                return Err(WMIError::InvalidDateTimeComponent(DateTimeField::Hour));
            },
        };
        let minute = match read_fixed_number(s, 10, 12) {
            Some(v) => v,
            None => {
                return Err(WMIError::InvalidDateTimeComponent(DateTimeField::Minute));
            },
        };
        let second = match read_fixed_number(s, 12, 14) {
            Some(v) => v,
            None => {
                return Err(WMIError::InvalidDateTimeComponent(DateTimeField::Second));
            },
        };
        if s.get_char(14) != '.' {
            return Err(WMIError::InvalidDateTimeComponent(DateTimeField::Subsecond));
        }
        let raw = match read_fixed_number(s, 15, 21) {
            Some(v) => v,
            None => {
                return Err(WMIError::InvalidDateTimeComponent(DateTimeField::Subsecond));
            },
        };
        proof {
            lemma_pow10_values();
        }
        let micro = match normalize_subsecond(raw) {
            Ok(v) => v,
            Err(e) => {
                // a six-digit field always normalizes; this arm is provably
                // unreachable
                return Err(e);
            },
        };
        if !calendar_date_valid(year as u16, month as u8, day as u8) {
            if month < 1 || month > 12 {
                return Err(WMIError::InvalidDateTimeComponent(DateTimeField::Month));
            }
            return Err(WMIError::InvalidDateTimeComponent(DateTimeField::Day));
        }
        if !clock_time_valid(hour as u8, minute as u8, second as u8, micro) {
            if hour >= 24 {
                return Err(WMIError::InvalidDateTimeComponent(DateTimeField::Hour));
            }
            if minute >= 60 {
                return Err(WMIError::InvalidDateTimeComponent(DateTimeField::Minute));
            }
            return Err(WMIError::InvalidDateTimeComponent(DateTimeField::Second));
        }
        Ok(
            WMIDateTime {
                year: year as u16,
                month: month as u8,
                day: day as u8,
                hour: hour as u8,
                minute: minute as u8,
                second: second as u8,
                microsecond: micro,
                offset_minutes: mins,
            },
        )
    }
}

} // verus!
