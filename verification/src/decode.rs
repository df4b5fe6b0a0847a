//! Decode and encode adapters for a generic structured-data framework.
//!
//! The surrounding serialization framework hands over a structured value;
//! only a string scalar can hold a WMI datetime, and any other shape is a
//! type mismatch. Encoding emits the canonical exchange string as a string
//! scalar.

use vstd::prelude::*;
use vstd::string::StringExecFns;

use crate::datetime::{spec_parse, WMIDateTime};
use crate::errors::WMIError;
use crate::format::spec_rfc3339;

verus! {

/// A scalar or composite value as a generic serialization framework
/// presents it.
#[derive(Debug, Clone, PartialEq, Eq)]
pub enum StructuredValue {
    /// A string scalar.
    Text(String),
    /// An integer scalar.
    Number(i64),
    /// A boolean scalar.
    Boolean(bool),
    /// Any composite shape (sequence, map, ...).
    Composite,
}

/// The description of the shape that the decode adapter expects.
pub open spec fn spec_expected_shape() -> Seq<char> {
    "a timestamp in WMI format"@
}

/// The shape the decode adapter expects, for the framework's error
/// messages.
pub fn expected_shape() -> (r: String)
    ensures
        r@ == spec_expected_shape(),
{
    String::from_str("a timestamp in WMI format")
}

/// Decodes a structured value: a string scalar is parsed as a WMI datetime,
/// and every other shape fails with a type mismatch.
pub fn decode_value(v: &StructuredValue) -> (r: Result<WMIDateTime, WMIError>)
    ensures
        v matches StructuredValue::Text(s) ==> r == spec_parse(s@),
        !(v matches StructuredValue::Text(_)) ==> r == Err::<WMIDateTime, WMIError>(
            WMIError::TypeMismatch,
        ),
        r matches Ok(dt) ==> dt.wf(),
{
    match v {
        StructuredValue::Text(s) => WMIDateTime::from_str(s.as_str()),
        _ => Err(WMIError::TypeMismatch),
    }
}

/// Encodes an instant as a string scalar holding its canonical exchange
/// form. A well-formed instant always encodes; anything else is a broken
/// internal invariant, reported as fatal and never as an input error.
pub fn encode_value(dt: &WMIDateTime) -> (r: Result<StructuredValue, WMIError>)
    ensures
        dt.wf() ==> (r matches Ok(v) && v matches StructuredValue::Text(t) && t@ == spec_rfc3339(
            *dt,
        )),
        !dt.wf() ==> r == Err::<StructuredValue, WMIError>(WMIError::InternalFormattingFailure),
{
    if dt.is_well_formed() {
        Ok(StructuredValue::Text(dt.to_rfc3339()))
    } else {
        Err(WMIError::InternalFormattingFailure)
    }
}

} // verus!
