//! Normalization of raw provider values: the wire shapes an external
//! metadata provider may return, and their conversion into typed optional
//! fields. Every malformed or unexpected shape degrades to an absent value.

use vstd::prelude::*;
use vstd::string::StrSliceExecFns;

use crate::text::{chars_of, parse_u64_range, parse_uint_spec, trim_bounds, trim_spec};

verus! {

/// Seconds between the provider's date epoch (2001-01-01T00:00:00Z) and
/// the Unix epoch.
pub const DATE_EPOCH_OFFSET: i64 = 978_307_200;

/// One raw attribute value as the metadata provider hands it over:
/// either absent or tagged with one of the provider's wire shapes.
pub enum RawValue {
    Absent,
    Text(String),
    TextList(Vec<String>),
    Boolean(bool),
    Date(i64),
    Number(i64),
}

/// The text list a raw value normalizes to: a list keeps its elements, a
/// lone text value becomes a one-element list, any other shape is empty.
pub open spec fn to_string_vec_spec(v: RawValue) -> Seq<String> {
    match v {
        RawValue::TextList(l) => l@,
        RawValue::Text(s) => seq![s],
        _ => Seq::empty(),
    }
}

/// Normalizes a raw value to a list of text values.
pub fn to_string_vec(v: RawValue) -> (r: Vec<String>)
    ensures
        r@ == to_string_vec_spec(v),
{
    match v {
        RawValue::TextList(l) => l,
        RawValue::Text(s) => {
            let mut out: Vec<String> = Vec::new();
            out.push(s);
            proof {
                assert(out@ =~= to_string_vec_spec(v));
            }
            out
        },
        _ => {
            let out: Vec<String> = Vec::new();
            proof {
                assert(out@ =~= to_string_vec_spec(v));
            }
            out
        },
    }
}

/// The optional text a raw value normalizes to: only the text shape
/// yields a value.
pub open spec fn to_string_opt_spec(v: RawValue) -> Option<String> {
    match v {
        RawValue::Text(s) => Some(s),
        _ => None,
    }
}

/// Normalizes a raw value to an optional text value.
pub fn to_string_opt(v: RawValue) -> (r: Option<String>)
    ensures
        r == to_string_opt_spec(v),
{
    match v {
        RawValue::Text(s) => Some(s),
        _ => None,
    }
}

/// The optional boolean a raw value normalizes to: only the boolean
/// shape yields a value.
pub open spec fn to_bool_opt_spec(v: RawValue) -> Option<bool> {
    match v {
        RawValue::Boolean(b) => Some(b),
        _ => None,
    }
}

/// Normalizes a raw value to an optional boolean.
pub fn to_bool_opt(v: &RawValue) -> (r: Option<bool>)
    ensures
        r == to_bool_opt_spec(*v),
{
    match v {
        RawValue::Boolean(b) => Some(*b),
        _ => None,
    }
}

/// The optional non-negative number a raw value normalizes to: only a
/// non-negative numeric shape yields a value.
pub open spec fn to_u64_opt_spec(v: RawValue) -> Option<u64> {
    match v {
        RawValue::Number(n) => if n >= 0 {
            Some(n as u64)
        } else {
            None
        },
        _ => None,
    }
}

/// Normalizes a raw value to an optional non-negative number.
pub fn to_u64_opt(v: &RawValue) -> (r: Option<u64>)
    ensures
        r == to_u64_opt_spec(*v),
{
    match v {
        RawValue::Number(n) => if *n >= 0 {
            Some(*n as u64)
        } else {
            None
        },
        _ => None,
    }
}

/// The optional Unix timestamp a raw value normalizes to. A native date
/// is shifted by the fixed epoch offset and discarded when the result is
/// negative; a number is accepted when non-negative; text is accepted
/// when its whitespace-trimmed content parses as a decimal `u64`.
pub open spec fn to_unix_seconds_spec(v: RawValue) -> Option<u64> {
    match v {
        RawValue::Date(t) => if t + DATE_EPOCH_OFFSET < 0 {
            None
        } else {
            Some((t + DATE_EPOCH_OFFSET) as u64)
        },
        RawValue::Number(n) => if n >= 0 {
            Some(n as u64)
        } else {
            None
        },
        RawValue::Text(s) => match parse_uint_spec(trim_spec(s@), u64::MAX as int) {
            Some(x) => Some(x as u64),
            None => None,
        },
        _ => None,
    }
}

/// Normalizes a raw value to an optional Unix timestamp in seconds.
pub fn to_unix_seconds_opt(v: &RawValue) -> (r: Option<u64>)
    ensures
        r == to_unix_seconds_spec(*v),
{
    match v {
        RawValue::Date(t) => {
            let t: i64 = *t;
            if t >= 0 {
                Some((t as u64) + (DATE_EPOCH_OFFSET as u64))
            } else if t < -DATE_EPOCH_OFFSET {
                None
            } else {
                Some((t + DATE_EPOCH_OFFSET) as u64)
            }
        },
        RawValue::Number(n) => if *n >= 0 {
            Some(*n as u64)
        } else {
            None
        },
        RawValue::Text(s) => {
            let cs = chars_of(s.as_str());
            let n: usize = cs.len();
            let (i, j) = trim_bounds(&cs, 0, n);
            proof {
                assert(cs@.subrange(0, n as int) =~= s@);
            }
            parse_u64_range(&cs, i, j)
        },
        _ => None,
    }
}

/// Whether a name designates a dotfile: it begins with a literal dot.
pub open spec fn is_dotfile_spec(s: Seq<char>) -> bool {
    s.len() > 0 && s[0] == '.'
}

/// Whether the final name component `name` designates a dotfile.
pub fn is_dotfile(name: &str) -> (r: bool)
    ensures
        r == is_dotfile_spec(name@),
{
    if name.unicode_len() == 0 {
        false
    } else {
        name.get_char(0) == '.'
    }
}

} // verus!
