//! The typed value resolver: a field's text becomes an integer, a double or
//! a string.
//!
//! Reading text as a double is left to the caller, who hands in what that
//! reading gave as the IEEE-754 bit pattern of the value (`None` where the
//! text is no number). Everything else is decided here.
use crate::text::{chars_of, trim_unicode, trim_unicode_str};
use vstd::prelude::*;

verus! {

/// A field's value after resolution.
#[derive(Debug, Clone, PartialEq)]
pub enum CsvValue {
    /// A whole number in the signed 64-bit range.
    Integer(i64),
    /// A finite double, by its IEEE-754 bit pattern.
    Float(u64),
    /// Any other text.
    String(String),
}

/// What a `CsvValue` holds, as mathematical values.
pub enum ValueModel {
    Integer(int),
    Float(u64),
    Text(Seq<char>),
}

impl View for CsvValue {
    type V = ValueModel;

    open spec fn view(&self) -> ValueModel {
        match self {
            CsvValue::Integer(i) => ValueModel::Integer(*i as int),
            CsvValue::Float(b) => ValueModel::Float(*b),
            CsvValue::String(s) => ValueModel::Text(s@),
        }
    }
}

pub open spec fn is_digit(c: char) -> bool {
    '0' <= c && c <= '9'
}

pub open spec fn digit_value(c: char) -> nat {
    (c as u32 - '0' as u32) as nat
}

/// The number that a run of decimal digits denotes.
pub open spec fn digits_value(s: Seq<char>) -> nat
    decreases s.len(),
{
    if s.len() == 0 {
        0
    } else {
        digits_value(s.drop_last()) * 10 + digit_value(s.last())
    }
}

pub open spec fn all_digits(s: Seq<char>) -> bool {
    s.len() > 0 && forall|i: int| 0 <= i < s.len() ==> is_digit(#[trigger] s[i])
}

/// Base-10 integer text: digits, with an optional leading `-`.
pub open spec fn is_integer_literal(s: Seq<char>) -> bool {
    all_digits(s) || (s.len() > 1 && s[0] == '-' && all_digits(s.drop_first()))
}

/// The number that integer text denotes.
pub open spec fn literal_value(s: Seq<char>) -> int {
    if s.len() > 0 && s[0] == '-' {
        -digits_value(s.drop_first())
    } else {
        digits_value(s) as int
    }
}

/// Whether `s` is integer text whose number fits in a signed 64-bit integer.
pub open spec fn parses_as_i64(s: Seq<char>) -> bool {
    is_integer_literal(s) && i64::MIN <= literal_value(s) <= i64::MAX
}

/// Whether the double with bit pattern `b` is finite: its exponent field is
/// not all ones, so it is neither an infinity nor a NaN.
pub open spec fn is_finite_bits(b: u64) -> bool {
    (b >> 52u64) & 0x7ffu64 != 0x7ffu64
}

/// How a field's text resolves, given what reading it as a double gave:
/// empty text stays text; integer text within range is an integer; else a
/// finite double reading is a double; anything else stays text.
pub open spec fn resolve(s: Seq<char>, float_bits: Option<u64>) -> ValueModel {
    if s.len() == 0 {
        ValueModel::Text(s)
    } else if parses_as_i64(s) {
        ValueModel::Integer(literal_value(s))
    } else if float_bits is Some && is_finite_bits(float_bits->0) {
        ValueModel::Float(float_bits->0)
    } else {
        ValueModel::Text(s)
    }
}

fn is_finite_exec(b: u64) -> (r: bool)
    ensures
        r == is_finite_bits(b),
{
    (b >> 52u64) & 0x7ffu64 != 0x7ffu64
}

const SIGN_LIMIT: u128 = 0x8000_0000_0000_0000;

/// Reads `cs` as base-10 integer text into a signed 64-bit integer.
pub fn parse_i64(cs: &Vec<char>) -> (r: Option<i64>)
    ensures
        r is Some <==> parses_as_i64(cs@),
        r is Some ==> r->0 as int == literal_value(cs@),
{
    let n = cs.len();
    let negative = n > 0 && cs[0] == '-';
    let start: usize = if negative {
        1
    } else {
        0
    };
    if start == n {
        return None;
    }
    let ghost digits = cs@.subrange(start as int, n as int);
    let mut magnitude: u128 = 0;
    let mut i: usize = start;
    assert(cs@.subrange(start as int, start as int) =~= Seq::<char>::empty());
    while i < n
        invariant
            n == cs@.len(),
            digits == cs@.subrange(start as int, n as int),
            negative <==> (n > 0 && cs@[0] == '-'),
            start == (if negative {
                1usize
            } else {
                0usize
            }),
            start <= i <= n,
            start < n,
            forall|k: int| start <= k < i ==> is_digit(#[trigger] cs@[k]),
            magnitude <= SIGN_LIMIT ==> magnitude == digits_value(
                cs@.subrange(start as int, i as int),
            ),
            magnitude > SIGN_LIMIT ==> digits_value(cs@.subrange(start as int, i as int))
                > SIGN_LIMIT,
            magnitude <= 10 * SIGN_LIMIT + 9,
        decreases n - i,
    {
        let c = cs[i];
        if !('0' <= c && c <= '9') {
            assert(!all_digits(digits)) by {
                assert(digits[i - start as int] == c);
            }
            assert(!all_digits(cs@)) by {
                assert(cs@[i as int] == c);
            }
            if negative {
                assert(cs@.drop_first() =~= digits);
            }
            return None;
        }
        let d = (c as u32 - '0' as u32) as u128;
        let ghost before = cs@.subrange(start as int, i as int);
        let ghost after = cs@.subrange(start as int, i + 1);
        assert(after.drop_last() =~= before);
        assert(digits_value(after) == digits_value(before) * 10 + d);
        if magnitude <= SIGN_LIMIT {
            magnitude = magnitude * 10 + d;
        } else {
            assert(digits_value(before) * 10 >= digits_value(before)) by (nonlinear_arith);
        }
        i = i + 1;
    }
    assert(cs@.subrange(start as int, n as int) == digits);
    assert(all_digits(digits));
    if negative {
        assert(cs@.drop_first() =~= digits);
        assert(!all_digits(cs@)) by {
            assert(!is_digit(cs@[0]));
        }
        if magnitude <= SIGN_LIMIT {
            if magnitude == SIGN_LIMIT {
                Some(i64::MIN)
            } else {
                Some(-(magnitude as i64))
            }
        } else {
            None
        }
    } else {
        assert(digits =~= cs@);
        if magnitude <= 0x7fff_ffff_ffff_ffff {
            Some(magnitude as i64)
        } else {
            None
        }
    }
}

impl CsvValue {
    /// Resolves `s`. `float_bits` is what reading `s` as a double gave, as
    /// its bit pattern, or `None` where `s` is no double.
    pub fn from_str(s: &str, float_bits: Option<u64>) -> (r: Self)
        ensures
            r@ == resolve(s@, float_bits),
            r is Float ==> is_finite_bits(r->Float_0),
            !parses_as_i64(s@) && float_bits is Some && !is_finite_bits(float_bits->0) ==> r@
                == ValueModel::Text(s@),
    {
        let cs = chars_of(s);
        if cs.len() == 0 {
            return CsvValue::String(String::from_str(s));
        }
        if let Some(i) = parse_i64(&cs) {
            return CsvValue::Integer(i);
        }
        if let Some(b) = float_bits {
            if is_finite_exec(b) {
                return CsvValue::Float(b);
            }
        }
        CsvValue::String(String::from_str(s))
    }

    /// Resolves `s` without its surrounding whitespace. `float_bits` is what
    /// reading the trimmed text as a double gave.
    pub fn from_str_trimmed(s: &str, float_bits: Option<u64>) -> (r: Self)
        ensures
            r@ == resolve(trim_unicode(s@), float_bits),
    {
        let t = trim_unicode_str(s);
        Self::from_str(t.as_str(), float_bits)
    }
}

/// The double reading for field `j` of row `i`, `None` where `readings`
/// has none.
pub open spec fn reading_at(readings: Seq<Seq<Option<u64>>>, i: int, j: int) -> Option<u64> {
    if 0 <= i < readings.len() && 0 <= j < readings[i].len() {
        readings[i][j]
    } else {
        None
    }
}

fn reading_at_exec(readings: &Vec<Vec<Option<u64>>>, i: usize, j: usize) -> (r: Option<u64>)
    ensures
        r == reading_at(readings.deep_view(), i as int, j as int),
{
    if i < readings.len() {
        let row = &readings[i];
        assert(readings.deep_view()[i as int] == row@);
        if j < row.len() {
            return row[j];
        }
    }
    None
}

/// Resolves every field of `rows`; `readings[i][j]` is what reading field
/// `j` of row `i` as a double gave, and a missing entry counts as `None`.
pub fn resolve_table(rows: &Vec<Vec<String>>, readings: &Vec<Vec<Option<u64>>>) -> (r: Vec<
    Vec<CsvValue>,
>)
    ensures
        r@.len() == rows@.len(),
        forall|i: int|
            0 <= i < rows@.len() ==> (#[trigger] r@[i])@.len() == rows@[i]@.len() && forall|j: int|
                0 <= j < rows@[i]@.len() ==> (#[trigger] r@[i]@[j])@ == resolve(
                    rows@[i]@[j]@,
                    reading_at(readings.deep_view(), i, j),
                ),
{
    let mut out: Vec<Vec<CsvValue>> = Vec::new();
    let mut i: usize = 0;
    while i < rows.len()
        invariant
            i <= rows@.len(),
            out@.len() == i,
            forall|k: int|
                0 <= k < i ==> (#[trigger] out@[k])@.len() == rows@[k]@.len() && forall|j: int|
                    0 <= j < rows@[k]@.len() ==> (#[trigger] out@[k]@[j])@ == resolve(
                        rows@[k]@[j]@,
                        reading_at(readings.deep_view(), k, j),
                    ),
        decreases rows@.len() - i,
    {
        let row = &rows[i];
        let mut values: Vec<CsvValue> = Vec::new();
        let mut j: usize = 0;
        while j < row.len()
            invariant
                j <= row@.len(),
                row@ == rows@[i as int]@,
                values@.len() == j,
                forall|m: int|
                    0 <= m < j ==> (#[trigger] values@[m])@ == resolve(
                        row@[m]@,
                        reading_at(readings.deep_view(), i as int, m),
                    ),
            decreases row@.len() - j,
        {
            values.push(CsvValue::from_str(row[j].as_str(), reading_at_exec(readings, i, j)));
            j = j + 1;
        }
        out.push(values);
        i = i + 1;
    }
    out
}

/// Integer text within the signed 64-bit range resolves to exactly the
/// integer it denotes, whatever reading it as a double gave.
pub proof fn lemma_integer_text_resolves_exactly(s: Seq<char>, float_bits: Option<u64>)
    requires
        parses_as_i64(s),
    ensures
        resolve(s, float_bits) == ValueModel::Integer(literal_value(s)),
{
}

/// Resolution never yields a non-finite double: a NaN or an infinity
/// leaves the text as text.
pub proof fn lemma_resolved_doubles_are_finite(s: Seq<char>, float_bits: Option<u64>)
    ensures
        resolve(s, float_bits) is Float ==> is_finite_bits(resolve(s, float_bits)->Float_0),
        s.len() > 0 && !parses_as_i64(s) && float_bits is Some && !is_finite_bits(float_bits->0)
            ==> resolve(s, float_bits) == ValueModel::Text(s),
{
}

} // verus!
