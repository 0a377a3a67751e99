//! The range argument of the command line: empty, one position, or
//! `start:end` with either side left out.

use crate::number::{parse_i64_in, parsed_i64};
use crate::range::RawRangeSpec;
use crate::text::chars_of;
use vstd::prelude::*;
use vstd::string::StrSliceExecFns;

verus! {

/// A range argument that denotes no range. `token` is the part of it that is
/// no number, or the position that has no successor.
#[derive(Debug, PartialEq, Eq)]
pub struct RangeParseError {
    pub token: String,
}

/// Where the field that begins at `from` ends: at the first `:` at or behind
/// `from`, or at the end of the text where there is none.
pub open spec fn field_end(text: Seq<char>, from: int) -> int
    decreases text.len() - from,
{
    if from >= text.len() {
        text.len() as int
    } else if text[from] == ':' {
        from
    } else {
        field_end(text, from + 1)
    }
}

/// The first field of a range: the text in front of the first `:`.
pub open spec fn start_field(text: Seq<char>) -> Seq<char> {
    text.subrange(0, field_end(text, 0))
}

/// The second field of a range: the text between the first `:` and the next
/// one, or the end. What follows a second `:` is not looked at.
pub open spec fn end_field(text: Seq<char>) -> Seq<char> {
    text.subrange(field_end(text, 0) + 1, field_end(text, field_end(text, 0) + 1))
}

/// What one side of `start:end` denotes: unbounded where the field is empty,
/// the number that it holds otherwise. The outer `None` is a field that is
/// neither.
pub open spec fn side_of(field: Seq<char>) -> Option<Option<i64>> {
    if field.len() == 0 {
        Some(None)
    } else {
        match parsed_i64(field) {
            Some(position) => Some(Some(position)),
            None => None,
        }
    }
}

/// What a single position denotes: the byte at that position, as the range
/// from it to its successor. The position `-1` is the one exception: it
/// denotes the range from the last byte to the end of the file.
pub open spec fn position_range(position: i64) -> Option<RawRangeSpec> {
    if position == -1 {
        Some(RawRangeSpec { start: Some(position), end: None })
    } else if position == i64::MAX {
        None
    } else {
        Some(RawRangeSpec { start: Some(position), end: Some((position + 1) as i64) })
    }
}

/// The raw range that a range argument denotes, if it denotes one.
pub open spec fn parsed_range(text: Seq<char>) -> Option<RawRangeSpec> {
    if text.len() == 0 {
        Some(RawRangeSpec { start: None, end: None })
    } else if !text.contains(':') {
        match parsed_i64(text) {
            Some(position) => position_range(position),
            None => None,
        }
    } else {
        match (side_of(start_field(text)), side_of(end_field(text))) {
            (Some(start), Some(end)) => Some(RawRangeSpec { start, end }),
            _ => None,
        }
    }
}

/// The part of a range argument that is to blame where it denotes no range:
/// the argument itself where it has no `:`, else the first field that is not
/// empty and holds no number.
pub open spec fn offending_token(text: Seq<char>) -> Seq<char> {
    if !text.contains(':') {
        text
    } else if side_of(start_field(text)) is None {
        start_field(text)
    } else {
        end_field(text)
    }
}

/// Finds the end of the field that begins at `from`.
fn find_field_end(chars: &Vec<char>, from: usize) -> (end: usize)
    requires
        from <= chars.len(),
    ensures
        end == field_end(chars@, from as int),
        from <= end <= chars.len(),
        end < chars.len() ==> chars[end as int] == ':',
        forall|i: int| from <= i < end ==> chars[i] != ':',
{
    let mut end: usize = from;
    while end < chars.len() && chars[end] != ':'
        invariant
            from <= end <= chars.len(),
            field_end(chars@, from as int) == field_end(chars@, end as int),
            forall|i: int| from <= i < end ==> chars[i] != ':',
        decreases chars.len() - end,
    {
        end = end + 1;
    }
    end
}

/// Reads one side of `start:end` from `chars[from..to]`.
fn parse_side(chars: &Vec<char>, from: usize, to: usize) -> (side: Option<Option<i64>>)
    requires
        from <= to <= chars.len(),
    ensures
        side == side_of(chars@.subrange(from as int, to as int)),
{
    if from == to {
        Some(None)
    } else {
        match parse_i64_in(chars, from, to) {
            Some(position) => Some(Some(position)),
            None => None,
        }
    }
}

/// Reads the range argument of the command line.
///
/// An empty argument is the whole file. An argument without `:` is one
/// position `N` and denotes `N..N+1`, but for `-1`, which denotes the last
/// byte to the end of the file. Otherwise the argument is `start:end`: each
/// side is a number, or empty and then unbounded. An argument that is none of
/// these is refused, and so is the position `i64::MAX`, which has no
/// successor.
pub fn parse_range(range: &str) -> (result: Result<RawRangeSpec, RangeParseError>)
    ensures
        match parsed_range(range@) {
            Some(raw) => result == Ok::<RawRangeSpec, RangeParseError>(raw),
            None => result matches Err(error) && error.token@ == offending_token(range@),
        },
{
    let chars: Vec<char> = chars_of(range);
    let len: usize = chars.len();
    if len == 0 {
        return Ok(RawRangeSpec { start: None, end: None });
    }
    let colon: usize = find_field_end(&chars, 0);
    if colon == len {
        proof {
            assert(chars@.subrange(0, len as int) =~= chars@);
        }
        match parse_i64_in(&chars, 0, len) {
            Some(position) => {
                if position == -1 {
                    Ok(RawRangeSpec { start: Some(position), end: None })
                } else if position == i64::MAX {
                    Err(RangeParseError { token: range.to_owned() })
                } else {
                    Ok(RawRangeSpec { start: Some(position), end: Some(position + 1) })
                }
            },
            None => Err(RangeParseError { token: range.to_owned() }),
        }
    } else {
        proof {
            assert(chars@[colon as int] == ':');
            assert(range@.contains(':'));
        }
        let next: usize = find_field_end(&chars, colon + 1);
        match parse_side(&chars, 0, colon) {
            None => Err(RangeParseError { token: range.substring_char(0, colon).to_owned() }),
            Some(start) => match parse_side(&chars, colon + 1, next) {
                None => Err(
                    RangeParseError { token: range.substring_char(colon + 1, next).to_owned() },
                ),
                Some(end) => Ok(RawRangeSpec { start, end }),
            },
        }
    }
}

} // verus!
