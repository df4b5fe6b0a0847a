//! Error kinds for parsing, decoding and formatting WMI datetimes.

use vstd::prelude::*;
use vstd::string::StringExecFns;

verus! {

/// The fixed-width field of a WMI datetime string in which a fault was found.
#[derive(Clone, Copy, Debug, PartialEq, Eq, Structural)]
pub enum DateTimeField {
    Year,
    Month,
    Day,
    Hour,
    Minute,
    Second,
    Subsecond,
}

/// A typed failure of parsing, decoding or formatting a WMI datetime.
#[derive(Clone, Copy, Debug, PartialEq, Eq, Structural)]
pub enum WMIError {
    /// The input string is shorter than the minimum required length.
    MalformedInput,
    /// The offset tail is not a signed integer, or the offset it gives lies
    /// outside the valid range.
    InvalidOffset,
    /// A fixed-width date/time or subsecond field is not made of digits, or
    /// names an impossible calendar date or clock time.
    InvalidDateTimeComponent(DateTimeField),
    /// The decoded value is not a string scalar.
    TypeMismatch,
    /// A constructed value broke an internal invariant; never produced from
    /// externally reachable input.
    InternalFormattingFailure,
}

/// The lower-case name of a datetime field.
pub open spec fn spec_field_name(f: DateTimeField) -> Seq<char> {
    match f {
        DateTimeField::Year => "year"@,
        DateTimeField::Month => "month"@,
        DateTimeField::Day => "day"@,
        DateTimeField::Hour => "hour"@,
        DateTimeField::Minute => "minute"@,
        DateTimeField::Second => "second"@,
        DateTimeField::Subsecond => "subsecond"@,
    }
}

/// The human-readable message of an error.
pub open spec fn spec_message(e: WMIError) -> Seq<char> {
    match e {
        WMIError::MalformedInput => "the WMI datetime string is too short"@,
        WMIError::InvalidOffset => "the UTC offset is missing, malformed or out of range"@,
        WMIError::InvalidDateTimeComponent(f) => "invalid datetime component: "@ + spec_field_name(
            f,
        ),
        WMIError::TypeMismatch => "expected a timestamp in WMI format"@,
        WMIError::InternalFormattingFailure => "internal formatting failure"@,
    }
}

impl DateTimeField {
    /// The lower-case name of the field.
    pub fn name(&self) -> (r: &'static str)
        ensures
            r@ == spec_field_name(*self),
    {
        match self {
            DateTimeField::Year => "year",
            DateTimeField::Month => "month",
            DateTimeField::Day => "day",
            DateTimeField::Hour => "hour",
            DateTimeField::Minute => "minute",
            DateTimeField::Second => "second",
            DateTimeField::Subsecond => "subsecond",
        }
    }
}

impl WMIError {
    /// The human-readable message of the error.
    pub fn message(&self) -> (r: String)
        ensures
            r@ == spec_message(*self),
    {
        match self {
            WMIError::MalformedInput => String::from_str("the WMI datetime string is too short"),
            WMIError::InvalidOffset => String::from_str(
                "the UTC offset is missing, malformed or out of range",
            ),
            WMIError::InvalidDateTimeComponent(f) => String::from_str(
                "invalid datetime component: ",
            ).concat(f.name()),
            WMIError::TypeMismatch => String::from_str("expected a timestamp in WMI format"),
            WMIError::InternalFormattingFailure => String::from_str(
                "internal formatting failure",
            ),
        }
    }
}

} // verus!
