//! Formatting an instant as its canonical exchange string.
//!
//! The canonical profile is `YYYY-MM-DDTHH:MM:SS.ssssss±HH:MM`: exactly six
//! fractional digits and an explicit signed numeric offset, never the `Z`
//! shorthand, even at offset zero.

use vstd::prelude::*;
use vstd::string::StringExecFns;

use crate::datetime::WMIDateTime;
use crate::digits::{digit_char_of, is_digit_char, lemma_digit_char_of_value};

verus! {

/// The two-digit zero-padded decimal form of `v`.
pub open spec fn spec_pad2(v: int) -> Seq<char> {
    seq![digit_char_of(v / 10), digit_char_of(v % 10)]
}

/// The four-digit zero-padded decimal form of `v`.
pub open spec fn spec_pad4(v: int) -> Seq<char> {
    seq![
        digit_char_of(v / 1000),
        digit_char_of(v / 100 % 10),
        digit_char_of(v / 10 % 10),
        digit_char_of(v % 10),
    ]
}

/// The six-digit zero-padded decimal form of `v`.
pub open spec fn spec_pad6(v: int) -> Seq<char> {
    seq![
        digit_char_of(v / 100000),
        digit_char_of(v / 10000 % 10),
        digit_char_of(v / 1000 % 10),
        digit_char_of(v / 100 % 10),
        digit_char_of(v / 10 % 10),
        digit_char_of(v % 10),
    ]
}

/// The sign character of an offset of `m` minutes.
pub open spec fn spec_offset_sign(m: int) -> char {
    if m < 0 {
        '-'
    } else {
        '+'
    }
}

/// The canonical exchange form of the instant `dt`:
/// `YYYY-MM-DDTHH:MM:SS.ssssss±HH:MM`.
pub open spec fn spec_rfc3339(dt: WMIDateTime) -> Seq<char> {
    let a = if dt.offset_minutes < 0 {
        -(dt.offset_minutes as int)
    } else {
        dt.offset_minutes as int
    };
    spec_pad4(dt.year as int) + seq!['-'] + spec_pad2(dt.month as int) + seq!['-'] + spec_pad2(
        dt.day as int,
    ) + seq!['T'] + spec_pad2(dt.hour as int) + seq![':'] + spec_pad2(dt.minute as int) + seq![':']
        + spec_pad2(dt.second as int) + seq!['.'] + spec_pad6(dt.microsecond as int) + seq![
        spec_offset_sign(dt.offset_minutes as int),
    ] + spec_pad2(a / 60) + seq![':'] + spec_pad2(a % 60)
}

/// Appends the digit character of `d`.
fn push_digit(out: &mut String, d: u32)
    requires
        d <= 9,
    ensures
        final(out)@ == old(out)@ + seq![digit_char_of(d as int)],
{
    proof {
        reveal_strlit("0");
        reveal_strlit("1");
        reveal_strlit("2");
        reveal_strlit("3");
        reveal_strlit("4");
        reveal_strlit("5");
        reveal_strlit("6");
        reveal_strlit("7");
        reveal_strlit("8");
        reveal_strlit("9");
        assert("0"@ =~= seq!['0']);
        assert("1"@ =~= seq!['1']);
        assert("2"@ =~= seq!['2']);
        assert("3"@ =~= seq!['3']);
        assert("4"@ =~= seq!['4']);
        assert("5"@ =~= seq!['5']);
        assert("6"@ =~= seq!['6']);
        assert("7"@ =~= seq!['7']);
        assert("8"@ =~= seq!['8']);
        assert("9"@ =~= seq!['9']);
    }
    if d == 0 {
        out.append("0");
    } else if d == 1 {
        out.append("1");
    } else if d == 2 {
        out.append("2");
    } else if d == 3 {
        out.append("3");
    } else if d == 4 {
        out.append("4");
    } else if d == 5 {
        out.append("5");
    } else if d == 6 {
        out.append("6");
    } else if d == 7 {
        out.append("7");
    } else if d == 8 {
        out.append("8");
    } else {
        out.append("9");
    }
}

/// Appends the two-digit zero-padded form of `v`.
fn push_pad2(out: &mut String, v: u32)
    requires
        v <= 99,
    ensures
        final(out)@ == old(out)@ + spec_pad2(v as int),
{
    push_digit(out, v / 10);
    push_digit(out, v % 10);
    proof {
        assert(final(out)@ =~= old(out)@ + spec_pad2(v as int));
    }
}

/// Appends the four-digit zero-padded form of `v`.
fn push_pad4(out: &mut String, v: u32)
    requires
        v <= 9999,
    ensures
        final(out)@ == old(out)@ + spec_pad4(v as int),
{
    push_digit(out, v / 1000);
    push_digit(out, v / 100 % 10);
    push_digit(out, v / 10 % 10);
    push_digit(out, v % 10);
    proof {
        assert(final(out)@ =~= old(out)@ + spec_pad4(v as int));
    }
}

/// Appends the six-digit zero-padded form of `v`.
fn push_pad6(out: &mut String, v: u32)
    requires
        v <= 999999,
    ensures
        final(out)@ == old(out)@ + spec_pad6(v as int),
{
    push_digit(out, v / 100000);
    push_digit(out, v / 10000 % 10);
    push_digit(out, v / 1000 % 10);
    push_digit(out, v / 100 % 10);
    push_digit(out, v / 10 % 10);
    push_digit(out, v % 10);
    proof {
        assert(final(out)@ =~= old(out)@ + spec_pad6(v as int));
    }
}

impl WMIDateTime {
    /// Formats the instant in the canonical profile
    /// `YYYY-MM-DDTHH:MM:SS.ssssss±HH:MM`: a pure, total function over every
    /// well-formed instant, with exactly six fractional digits and an
    /// explicit numeric offset.
    pub fn to_rfc3339(&self) -> (r: String)
        requires
            self.wf(),
        ensures
            r@ == spec_rfc3339(*self),
    {
        proof {
            reveal_strlit("-");
            reveal_strlit("T");
            reveal_strlit(":");
            reveal_strlit(".");
            reveal_strlit("+");
            assert("-"@ =~= seq!['-']);
            assert("T"@ =~= seq!['T']);
            assert(":"@ =~= seq![':']);
            assert("."@ =~= seq!['.']);
            assert("+"@ =~= seq!['+']);
        }
        let mut out = String::new();
        push_pad4(&mut out, self.year as u32);
        out.append("-");
        push_pad2(&mut out, self.month as u32);
        out.append("-");
        push_pad2(&mut out, self.day as u32);
        out.append("T");
        push_pad2(&mut out, self.hour as u32);
        out.append(":");
        push_pad2(&mut out, self.minute as u32);
        out.append(":");
        push_pad2(&mut out, self.second as u32);
        out.append(".");
        push_pad6(&mut out, self.microsecond);
        let abs_minutes: u32 = if self.offset_minutes < 0 {
            out.append("-");
            (-self.offset_minutes) as u32
        } else {
            out.append("+");
            self.offset_minutes as u32
        };
        push_pad2(&mut out, abs_minutes / 60);
        out.append(":");
        push_pad2(&mut out, abs_minutes % 60);
        proof {
            assert(out@ =~= spec_rfc3339(*self));
        }
        out
    }
}

/// All characters of a two-digit field are digits.
proof fn lemma_pad2_digits(v: int)
    requires
        0 <= v <= 99,
    ensures
        forall|i: int| 0 <= i < 2 ==> is_digit_char(#[trigger] spec_pad2(v)[i]),
{
    lemma_digit_char_of_value(v / 10);
    lemma_digit_char_of_value(v % 10);
    assert(spec_pad2(v)[0] == digit_char_of(v / 10));
    assert(spec_pad2(v)[1] == digit_char_of(v % 10));
}

/// All characters of a four-digit field are digits.
proof fn lemma_pad4_digits(v: int)
    requires
        0 <= v <= 9999,
    ensures
        forall|i: int| 0 <= i < 4 ==> is_digit_char(#[trigger] spec_pad4(v)[i]),
{
    lemma_digit_char_of_value(v / 1000);
    lemma_digit_char_of_value(v / 100 % 10);
    lemma_digit_char_of_value(v / 10 % 10);
    lemma_digit_char_of_value(v % 10);
    assert(spec_pad4(v)[0] == digit_char_of(v / 1000));
    assert(spec_pad4(v)[1] == digit_char_of(v / 100 % 10));
    assert(spec_pad4(v)[2] == digit_char_of(v / 10 % 10));
    assert(spec_pad4(v)[3] == digit_char_of(v % 10));
}

/// All characters of a six-digit field are digits.
proof fn lemma_pad6_digits(v: int)
    requires
        0 <= v <= 999999,
    ensures
        forall|i: int| 0 <= i < 6 ==> is_digit_char(#[trigger] spec_pad6(v)[i]),
{
    lemma_digit_char_of_value(v / 100000);
    lemma_digit_char_of_value(v / 10000 % 10);
    lemma_digit_char_of_value(v / 1000 % 10);
    lemma_digit_char_of_value(v / 100 % 10);
    lemma_digit_char_of_value(v / 10 % 10);
    lemma_digit_char_of_value(v % 10);
    assert(spec_pad6(v)[0] == digit_char_of(v / 100000));
    assert(spec_pad6(v)[1] == digit_char_of(v / 10000 % 10));
    assert(spec_pad6(v)[2] == digit_char_of(v / 1000 % 10));
    assert(spec_pad6(v)[3] == digit_char_of(v / 100 % 10));
    assert(spec_pad6(v)[4] == digit_char_of(v / 10 % 10));
    assert(spec_pad6(v)[5] == digit_char_of(v % 10));
}

/// The canonical form of a well-formed instant is 32 characters long; every
/// character is a digit or one of `-`, `:`, `T`, `.`, `+`; the offset is
/// introduced by an explicit sign at index 26 and never by the `Z`
/// shorthand.
pub proof fn lemma_rfc3339_shape(dt: WMIDateTime)
    requires
        dt.wf(),
    ensures
        spec_rfc3339(dt).len() == 32,
        spec_rfc3339(dt)[26] == spec_offset_sign(dt.offset_minutes as int),
        spec_rfc3339(dt)[26] == '+' || spec_rfc3339(dt)[26] == '-',
        forall|i: int| 0 <= i < spec_rfc3339(dt).len() ==> #[trigger] spec_rfc3339(dt)[i] != 'Z',
{
    let f = spec_rfc3339(dt);
    let a = if dt.offset_minutes < 0 {
        -(dt.offset_minutes as int)
    } else {
        dt.offset_minutes as int
    };
    lemma_pad4_digits(dt.year as int);
    lemma_pad2_digits(dt.month as int);
    lemma_pad2_digits(dt.day as int);
    lemma_pad2_digits(dt.hour as int);
    lemma_pad2_digits(dt.minute as int);
    lemma_pad2_digits(dt.second as int);
    lemma_pad6_digits(dt.microsecond as int);
    lemma_pad2_digits(a / 60);
    lemma_pad2_digits(a % 60);
    assert(f.len() == 32);
    assert forall|i: int| 0 <= i < f.len() implies #[trigger] f[i] != 'Z' by {
        if i < 4 {
            assert(f[i] == spec_pad4(dt.year as int)[i]);
            assert(is_digit_char(f[i]));
        } else if i == 4 {
            assert(f[i] == '-');
        } else if i < 7 {
            assert(f[i] == spec_pad2(dt.month as int)[i - 5]);
            assert(is_digit_char(f[i]));
        } else if i == 7 {
            assert(f[i] == '-');
        } else if i < 10 {
            assert(f[i] == spec_pad2(dt.day as int)[i - 8]);
            assert(is_digit_char(f[i]));
        } else if i == 10 {
            assert(f[i] == 'T');
        } else if i < 13 {
            assert(f[i] == spec_pad2(dt.hour as int)[i - 11]);
            assert(is_digit_char(f[i]));
        } else if i == 13 {
            assert(f[i] == ':');
        } else if i < 16 {
            assert(f[i] == spec_pad2(dt.minute as int)[i - 14]);
            assert(is_digit_char(f[i]));
        } else if i == 16 {
            assert(f[i] == ':');
        } else if i < 19 {
            assert(f[i] == spec_pad2(dt.second as int)[i - 17]);
            assert(is_digit_char(f[i]));
        } else if i == 19 {
            assert(f[i] == '.');
        } else if i < 26 {
            assert(f[i] == spec_pad6(dt.microsecond as int)[i - 20]);
            assert(is_digit_char(f[i]));
        } else if i == 26 {
            assert(f[i] == spec_offset_sign(dt.offset_minutes as int));
        } else if i < 29 {
            assert(f[i] == spec_pad2(a / 60)[i - 27]);
            assert(is_digit_char(f[i]));
        } else if i == 29 {
            assert(f[i] == ':');
        } else {
            assert(f[i] == spec_pad2(a % 60)[i - 30]);
            assert(is_digit_char(f[i]));
        }
    }
    assert(f[26] == spec_offset_sign(dt.offset_minutes as int));
}

} // verus!
