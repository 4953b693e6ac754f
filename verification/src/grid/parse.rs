//! The text form of a location: `(y, x)`.
//!
//! A location is written as an opening parenthesis, the row, a comma, the
//! column and a closing parenthesis. White space, as Unicode knows it, may
//! surround the whole and each of the two numbers. A number is an optional
//! sign and at least one decimal digit, and has to fit in an `i32`.

use super::location::Location;
use vstd::prelude::*;
use vstd::string::StrSliceExecFns;

verus! {

pub const OPEN_PARENTHESIS: char = '(';

pub const CLOSE_PARENTHESIS: char = ')';

pub const COMMA: char = ',';

pub const PLUS: char = '+';

pub const MINUS: char = '-';

/// The code of the digit zero.
pub const DIGIT_ZERO: u32 = 0x30;

/// The code of the digit nine.
pub const DIGIT_NINE: u32 = 0x39;

/// Why a text is not a location.
#[derive(PartialEq, Eq, Structural, Clone, Copy, Debug)]
pub enum LocationParseError {
    /// The text is not two fields in one pair of parentheses.
    Shape,
    /// One of the two fields is not a number that fits in an `i32`.
    Coordinate,
}

/// White space: the characters that Unicode gives the property White_Space.
pub open spec fn spec_is_space(c: char) -> bool {
    let code = c as u32;
    ||| 0x09 <= code <= 0x0d
    ||| code == 0x20
    ||| code == 0x85
    ||| code == 0xa0
    ||| code == 0x1680
    ||| 0x2000 <= code <= 0x200a
    ||| code == 0x2028
    ||| code == 0x2029
    ||| code == 0x202f
    ||| code == 0x205f
    ||| code == 0x3000
}

/// One of the ten decimal digits of ASCII.
pub open spec fn spec_is_digit(c: char) -> bool {
    DIGIT_ZERO <= c as u32 <= DIGIT_NINE
}

/// The first position from `lo` on that holds no white space, or `hi`.
pub open spec fn spec_skip_spaces(s: Seq<char>, lo: int, hi: int) -> int
    decreases hi - lo,
{
    if lo < hi && spec_is_space(s[lo]) {
        spec_skip_spaces(s, lo + 1, hi)
    } else {
        lo
    }
}

/// The end of `s[lo..hi]` once the white space at its end is dropped.
pub open spec fn spec_drop_spaces(s: Seq<char>, lo: int, hi: int) -> int
    decreases hi - lo,
{
    if lo < hi && spec_is_space(s[hi - 1]) {
        spec_drop_spaces(s, lo, hi - 1)
    } else {
        hi
    }
}

/// The first position from `lo` on that holds `b`, or `hi`.
pub open spec fn spec_find(s: Seq<char>, b: char, lo: int, hi: int) -> int
    decreases hi - lo,
{
    if lo < hi && s[lo] != b {
        spec_find(s, b, lo + 1, hi)
    } else {
        lo
    }
}

/// Every character of `s[lo..hi]` is a decimal digit.
pub open spec fn spec_all_digits(s: Seq<char>, lo: int, hi: int) -> bool {
    forall|i: int| lo <= i < hi ==> spec_is_digit(#[trigger] s[i])
}

/// The number that the digits `s[lo..hi]` write in base ten.
pub open spec fn spec_digits_value(s: Seq<char>, lo: int, hi: int) -> int
    decreases hi - lo,
{
    if hi <= lo {
        0
    } else {
        spec_digits_value(s, lo, hi - 1) * 10 + (s[hi - 1] as u32 - DIGIT_ZERO)
    }
}

/// Where the digits of the number in `s[lo..hi]` start: behind its sign, if
/// it has one.
pub open spec fn spec_digits_start(s: Seq<char>, lo: int, hi: int) -> int {
    if lo < hi && (s[lo] == PLUS || s[lo] == MINUS) {
        lo + 1
    } else {
        lo
    }
}

/// The integer that `s[lo..hi]` writes: an optional sign and at least one
/// digit, nothing else.
pub open spec fn spec_integer(s: Seq<char>, lo: int, hi: int) -> Option<int> {
    let start = spec_digits_start(s, lo, hi);
    if start < hi && spec_all_digits(s, start, hi) {
        let magnitude = spec_digits_value(s, start, hi);
        Some(
            if s[lo] == MINUS {
                -magnitude
            } else {
                magnitude
            },
        )
    } else {
        None
    }
}

/// The coordinate that the field `s[lo..hi]` holds: an integer that fits in
/// an `i32`, with white space around it.
pub open spec fn spec_coordinate(s: Seq<char>, lo: int, hi: int) -> Option<i32> {
    let start = spec_skip_spaces(s, lo, hi);
    let end = spec_drop_spaces(s, start, hi);
    match spec_integer(s, start, end) {
        Some(v) => if i32::MIN <= v <= i32::MAX {
            Some(v as i32)
        } else {
            None
        },
        None => None,
    }
}

/// What the text `s` means as a location.
///
/// The text without the white space around it must start with `(`, end with
/// `)` and hold exactly one comma between them, or its shape is wrong. Each
/// of the two fields must then hold a coordinate.
pub open spec fn spec_parse_location(s: Seq<char>) -> Result<Location, LocationParseError> {
    let start = spec_skip_spaces(s, 0, s.len() as int);
    let end = spec_drop_spaces(s, start, s.len() as int);
    if end - start < 2 || s[start] != OPEN_PARENTHESIS || s[end - 1] != CLOSE_PARENTHESIS {
        Err(LocationParseError::Shape)
    } else {
        let comma = spec_find(s, COMMA, start + 1, end - 1);
        if comma == end - 1 || spec_find(s, COMMA, comma + 1, end - 1) != end - 1 {
            Err(LocationParseError::Shape)
        } else {
            match (spec_coordinate(s, start + 1, comma), spec_coordinate(s, comma + 1, end - 1)) {
                (Some(y), Some(x)) => Ok(Location { y, x }),
                _ => Err(LocationParseError::Coordinate),
            }
        }
    }
}

/// More digits never write a smaller number.
pub proof fn lemma_digits_value_grows(s: Seq<char>, lo: int, mid: int, hi: int)
    requires
        lo <= mid <= hi,
        spec_all_digits(s, lo, hi),
    ensures
        0 <= spec_digits_value(s, lo, mid) <= spec_digits_value(s, lo, hi),
    decreases hi - lo,
{
    if mid < hi {
        lemma_digits_value_grows(s, lo, mid, hi - 1);
        assert(spec_is_digit(s[hi - 1]));
    } else if lo < hi {
        lemma_digits_value_grows(s, lo, hi - 1, hi - 1);
        assert(spec_is_digit(s[hi - 1]));
    }
}

/// Whether `c` is white space.
pub fn is_space(c: char) -> (r: bool)
    ensures
        r == spec_is_space(c),
{
    let code: u32 = c as u32;
    (0x09 <= code && code <= 0x0d) || code == 0x20 || code == 0x85 || code == 0xa0 || code
        == 0x1680 || (0x2000 <= code && code <= 0x200a) || code == 0x2028 || code == 0x2029
        || code == 0x202f || code == 0x205f || code == 0x3000
}

/// Whether `c` is a decimal digit.
pub fn is_digit(c: char) -> (r: bool)
    ensures
        r == spec_is_digit(c),
{
    let code: u32 = c as u32;
    DIGIT_ZERO <= code && code <= DIGIT_NINE
}

/// The first position from `lo` on that holds no white space, or `hi`.
pub fn skip_spaces(chars: &[char], lo: usize, hi: usize) -> (i: usize)
    requires
        lo <= hi <= chars@.len(),
    ensures
        i == spec_skip_spaces(chars@, lo as int, hi as int),
        lo <= i <= hi,
{
    let mut i: usize = lo;
    while i < hi && is_space(chars[i])
        invariant
            lo <= i <= hi <= chars@.len(),
            spec_skip_spaces(chars@, lo as int, hi as int) == spec_skip_spaces(
                chars@,
                i as int,
                hi as int,
            ),
        decreases hi - i,
    {
        i = i + 1;
    }
    i
}

/// The end of `chars[lo..hi]` once the white space at its end is dropped.
pub fn drop_spaces(chars: &[char], lo: usize, hi: usize) -> (i: usize)
    requires
        lo <= hi <= chars@.len(),
    ensures
        i == spec_drop_spaces(chars@, lo as int, hi as int),
        lo <= i <= hi,
{
    let mut i: usize = hi;
    while lo < i && is_space(chars[i - 1])
        invariant
            lo <= i <= hi <= chars@.len(),
            spec_drop_spaces(chars@, lo as int, hi as int) == spec_drop_spaces(
                chars@,
                lo as int,
                i as int,
            ),
        decreases i - lo,
    {
        i = i - 1;
    }
    i
}

/// The first position from `lo` on that holds `b`, or `hi`.
pub fn find(chars: &[char], b: char, lo: usize, hi: usize) -> (i: usize)
    requires
        lo <= hi <= chars@.len(),
    ensures
        i == spec_find(chars@, b, lo as int, hi as int),
        lo <= i <= hi,
{
    let mut i: usize = lo;
    while i < hi && chars[i] != b
        invariant
            lo <= i <= hi <= chars@.len(),
            spec_find(chars@, b, lo as int, hi as int) == spec_find(chars@, b, i as int, hi as int),
        decreases hi - i,
    {
        i = i + 1;
    }
    i
}

/// Reads the coordinate in the field `chars[lo..hi]`.
#[verifier::loop_isolation(false)]
pub fn parse_coordinate(chars: &[char], lo: usize, hi: usize) -> (r: Option<i32>)
    requires
        lo <= hi <= chars@.len(),
    ensures
        r == spec_coordinate(chars@, lo as int, hi as int),
{
    let start: usize = skip_spaces(chars, lo, hi);
    let end: usize = drop_spaces(chars, start, hi);
    if start == end {
        return None;
    }
    let negative: bool = chars[start] == MINUS;
    let first: usize = if chars[start] == PLUS || chars[start] == MINUS {
        start + 1
    } else {
        start
    };
    if first == end {
        return None;
    }
    let limit: i64 = 0x8000_0000;
    let mut magnitude: i64 = 0;
    let mut i: usize = first;
    while i < end
        invariant
            first <= i <= end <= chars@.len(),
            limit == 0x8000_0000,
            0 <= magnitude <= limit,
            spec_all_digits(chars@, first as int, i as int),
            magnitude == spec_digits_value(chars@, first as int, i as int),
        decreases end - i,
    {
        let b: char = chars[i];
        if !is_digit(b) {
            assert(!spec_is_digit(chars@[i as int]));
            return None;
        }
        let next: i64 = magnitude * 10 + (b as u32 - DIGIT_ZERO) as i64;
        assert(next == spec_digits_value(chars@, first as int, i + 1));
        if next > limit {
            proof {
                if spec_all_digits(chars@, first as int, end as int) {
                    lemma_digits_value_grows(chars@, first as int, i + 1, end as int);
                }
            }
            return None;
        }
        magnitude = next;
        i = i + 1;
    }
    if negative {
        Some((-magnitude) as i32)
    } else if magnitude == limit {
        None
    } else {
        Some(magnitude as i32)
    }
}

/// Reads a location from its text form.
pub fn parse_location(chars: &[char]) -> (r: Result<Location, LocationParseError>)
    ensures
        r == spec_parse_location(chars@),
{
    let len: usize = chars.len();
    let start: usize = skip_spaces(chars, 0, len);
    let end: usize = drop_spaces(chars, start, len);
    if end - start < 2 || chars[start] != OPEN_PARENTHESIS || chars[end - 1] != CLOSE_PARENTHESIS {
        return Err(LocationParseError::Shape);
    }
    let comma: usize = find(chars, COMMA, start + 1, end - 1);
    if comma == end - 1 {
        return Err(LocationParseError::Shape);
    }
    if find(chars, COMMA, comma + 1, end - 1) != end - 1 {
        return Err(LocationParseError::Shape);
    }
    let y: Option<i32> = parse_coordinate(chars, start + 1, comma);
    let x: Option<i32> = parse_coordinate(chars, comma + 1, end - 1);
    match (y, x) {
        (Some(y), Some(x)) => Ok(Location { y, x }),
        _ => Err(LocationParseError::Coordinate),
    }
}

/// The characters of `text`.
pub fn characters(text: &str) -> (chars: Vec<char>)
    ensures
        chars@ == text@,
{
    let count: usize = text.unicode_len();
    let mut chars: Vec<char> = Vec::new();
    let mut i: usize = 0;
    while i < count
        invariant
            i <= count == text@.len(),
            chars@ == text@.subrange(0, i as int),
        decreases count - i,
    {
        chars.push(text.get_char(i));
        assert(text@.subrange(0, i as int).push(text@[i as int]) == text@.subrange(0, i + 1));
        i = i + 1;
    }
    assert(text@.subrange(0, count as int) == text@);
    chars
}

impl Location {
    /// Reads a location from a string in the form `(y, x)`.
    pub fn from_text(text: &str) -> (r: Result<Location, LocationParseError>)
        ensures
            r == spec_parse_location(text@),
    {
        let chars: Vec<char> = characters(text);
        parse_location(chars.as_slice())
    }
}

impl core::str::FromStr for Location {
    type Err = LocationParseError;

    fn from_str(s: &str) -> (r: Result<Location, LocationParseError>)
        ensures
            r == spec_parse_location(s@),
    {
        Location::from_text(s)
    }
}

} // verus!
