//! Laws that relate parsing and formatting.

use vstd::prelude::*;

use crate::datetime::{field_value, lemma_spec_parse_ok_wf, spec_parse, WMIDateTime};
use crate::digits::{lemma_digits_value_bound, lemma_digits_value_nonneg, lemma_pow10_values};
use crate::errors::WMIError;
use crate::format::{lemma_rfc3339_shape, spec_pad6, spec_rfc3339};

verus! {

/// Round-trip law: every successfully parsed instant is well-formed, so
/// formatting it never fails, and the formatted string never uses the `Z`
/// offset shorthand - its offset is always an explicit sign at index 26.
pub proof fn lemma_parse_format_round_trip(s: Seq<char>, dt: WMIDateTime)
    requires
        spec_parse(s) == Ok::<WMIDateTime, WMIError>(dt),
    ensures
        dt.wf(),
        spec_rfc3339(dt).len() == 32,
        spec_rfc3339(dt)[26] == '+' || spec_rfc3339(dt)[26] == '-',
        forall|i: int| 0 <= i < spec_rfc3339(dt).len() ==> #[trigger] spec_rfc3339(dt)[i] != 'Z',
{
    lemma_spec_parse_ok_wf(s, dt);
    lemma_rfc3339_shape(dt);
}

/// Subsecond law: for every raw six-digit subsecond field, the effective
/// subsecond of the parsed instant is the raw value divided by 1000, and the
/// formatted string displays it as the zero-padded six-digit fractional
/// field at indices 20..26.
pub proof fn lemma_effective_subsecond(s: Seq<char>, dt: WMIDateTime)
    requires
        spec_parse(s) == Ok::<WMIDateTime, WMIError>(dt),
    ensures
        dt.microsecond == field_value(s, 15, 21) / 1000,
        spec_rfc3339(dt).subrange(20, 26) == spec_pad6(field_value(s, 15, 21) / 1000),
{
    lemma_digits_value_bound(s.subrange(15, 21));
    lemma_digits_value_nonneg(s.subrange(15, 21));
    lemma_pow10_values();
    assert(dt.microsecond == field_value(s, 15, 21) / 1000);
    assert(spec_rfc3339(dt).subrange(20, 26) =~= spec_pad6(dt.microsecond as int));
}

} // verus!
