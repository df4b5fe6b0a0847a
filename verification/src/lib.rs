//! Parsing and formatting of CIM/WMI textual datetimes.
//!
//! A WMI datetime is a fixed-width string of the shape
//! `YYYYMMDDHHMMSS.ffffff±UUU`, where `UUU` is a signed number of minutes of
//! UTC offset. This crate parses such strings into an offset-aware instant,
//! and formats the instant back as an RFC 3339 style string with exactly six
//! fractional digits and an explicit numeric offset, never the `Z`
//! shorthand.
//!
//! Validation policy: beyond the digit and range checks of the fixed-width
//! fields, the calendar date and the clock time of a parsed instant are held
//! to the proleptic Gregorian calendar, as decided by the `chrono` backend;
//! a day that does not exist in its month is rejected as an invalid
//! component, not accepted and renormalized.

use vstd::prelude::*;

pub mod calendar;
pub mod datetime;
pub mod decode;
pub mod digits;
pub mod errors;
pub mod format;
pub mod laws;

verus! {

pub use crate::datetime::normalize_subsecond;
pub use crate::datetime::WMIDateTime;
pub use crate::decode::decode_value;
pub use crate::decode::encode_value;
pub use crate::decode::expected_shape;
pub use crate::decode::StructuredValue;
pub use crate::errors::DateTimeField;
pub use crate::errors::WMIError;

} // verus!
