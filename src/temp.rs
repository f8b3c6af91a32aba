//! Temperature readings such as `30C` or `86f`: the text around the number.
//! The number itself is a float, which the caller parses.

use vstd::prelude::*;
use vstd::string::{StrSliceExecFns, StringExecFns};

use crate::text::{chars_of, string_from_chars, trim_str, trimmed};

verus! {

#[verifier::external_type_specification]
#[verifier::external_body]
pub struct ExParseFloatError(std::num::ParseFloatError);

/// A temperature scale.
#[derive(Clone, Copy, Debug, PartialEq, Eq, Structural)]
pub enum Scale {
    Celsius,
    Fahrenheit,
}

/// Why a reading could not be parsed.
#[derive(Debug, PartialEq, Eq)]
pub enum TempParseError {
    MissingInput,
    Value(std::num::ParseFloatError),
    UnknownUnit(String),
}

/// The message for a number that does not parse: a fixed prefix, then what
/// the parse error says.
fn value_error_message(e: &std::num::ParseFloatError) -> (r: String)
    ensures
        r@.len() >= "invalid numeric value: "@.len(),
        r@.subrange(0, "invalid numeric value: "@.len() as int) == "invalid numeric value: "@,
{
    let mut m = String::from_str("invalid numeric value: ");
    let ghost prefix = m@;
    m.append(e.to_string().as_str());
    assert(m@.subrange(0, prefix.len() as int) =~= prefix);
    m
}

impl TempParseError {
    /// The message shown to the user.
    pub fn to_string(&self) -> (r: String)
        ensures
            self is MissingInput ==> r@ == "no input provided"@,
            self is Value ==> r@.len() >= "invalid numeric value: "@.len() && r@.subrange(
                0,
                "invalid numeric value: "@.len() as int,
            ) == "invalid numeric value: "@,
            self matches TempParseError::UnknownUnit(u) ==> r@ == "unknown temperature unit: "@
                + u@,
    {
        match self {
            TempParseError::MissingInput => String::from_str("no input provided"),
            TempParseError::Value(e) => value_error_message(e),
            TempParseError::UnknownUnit(unit) => {
                let mut m = String::from_str("unknown temperature unit: ");
                m.append(unit.as_str());
                m
            },
        }
    }
}

/// The scale a unit letter names, in either case.
pub open spec fn scale_of(unit: Seq<char>) -> Option<Scale> {
    if unit == seq!['c'] || unit == seq!['C'] {
        Some(Scale::Celsius)
    } else if unit == seq!['f'] || unit == seq!['F'] {
        Some(Scale::Fahrenheit)
    } else {
        None
    }
}

/// The scale that `unit` names.
pub fn scale_of_unit(unit: &str) -> (r: Option<Scale>)
    ensures
        r == scale_of(unit@),
{
    if unit.unicode_len() != 1 {
        return None;
    }
    let c = unit.get_char(0);
    proof {
        assert(unit@ == seq![c] || unit@.len() != 1) by {
            if unit@.len() == 1 {
                assert(unit@ =~= seq![c]);
            }
        }
    }
    if c == 'c' || c == 'C' {
        Some(Scale::Celsius)
    } else if c == 'f' || c == 'F' {
        Some(Scale::Fahrenheit)
    } else {
        None
    }
}

/// Splits a reading, once trimmed, into the number before its last
/// character and that last character, the unit. An empty reading is missing.
pub fn split_reading(input: &str) -> (r: Result<(String, String), TempParseError>)
    ensures
        trimmed(input@).len() == 0 <==> r == Err::<(String, String), TempParseError>(
            TempParseError::MissingInput,
        ),
        r matches Ok((number, unit)) ==> {
            let t = trimmed(input@);
            &&& number@ == t.subrange(0, t.len() - 1)
            &&& unit@ == seq![t.last()]
        },
        !(r matches Err(TempParseError::Value(_))),
        !(r matches Err(TempParseError::UnknownUnit(_))),
{
    let t = chars_of(trim_str(input));
    let n = t.len();
    if n == 0 {
        return Err(TempParseError::MissingInput);
    }
    let mut number: Vec<char> = Vec::new();
    let mut i: usize = 0;
    while i < n - 1
        invariant
            n == t@.len(),
            n > 0,
            i <= n - 1,
            number@ == t@.subrange(0, i as int),
        decreases n - 1 - i,
    {
        number.push(t[i]);
        i = i + 1;
        assert(number@ =~= t@.subrange(0, i as int));
    }
    let mut unit: Vec<char> = Vec::new();
    unit.push(t[n - 1]);
    assert(unit@ =~= seq![t@.last()]);
    Ok((string_from_chars(&number), string_from_chars(&unit)))
}

} // verus!
