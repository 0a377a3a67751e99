//! Byte ranges: what the user asked for, and what that denotes in a file of a
//! given size.

use vstd::prelude::*;

verus! {

/// A range as the user gave it. A side that is `None` is unbounded; a negative
/// side counts back from the end of the file.
#[derive(Clone, Copy, Debug, PartialEq, Eq)]
pub struct RawRangeSpec {
    pub start: Option<i64>,
    pub end: Option<i64>,
}

/// Why a raw range denotes no slice of the file. The positions are the
/// resolved ones, before any bound was applied to them.
#[derive(Clone, Copy, Debug, PartialEq, Eq)]
pub enum RangeError {
    /// The resolved start lies behind the resolved end.
    InvalidRange { start: i128, end: i128 },
    /// A resolved position lies outside `[0, file_size]`.
    OutOfBounds { start: i128, end: i128, file_size: u64 },
}

/// The slice `[start, end)` of a file, with `start <= end`.
#[derive(Clone, Copy, Debug, PartialEq, Eq)]
pub struct ByteRange {
    start: u64,
    end: u64,
}

/// The position that one side of a raw range denotes in a file of
/// `file_size` bytes: `unbounded` where the side is absent, the distance from
/// the end where it is negative, the value itself otherwise.
pub open spec fn resolved_side(side: Option<i64>, unbounded: int, file_size: int) -> int {
    match side {
        None => unbounded,
        Some(v) => if v < 0 {
            file_size + v
        } else {
            v as int
        },
    }
}

/// The resolved start: an absent start is the beginning of the file.
pub open spec fn resolved_start(raw: RawRangeSpec, file_size: u64) -> int {
    resolved_side(raw.start, 0, file_size as int)
}

/// The resolved end: an absent end is the end of the file.
pub open spec fn resolved_end(raw: RawRangeSpec, file_size: u64) -> int {
    resolved_side(raw.end, file_size as int, file_size as int)
}

/// The error that resolution gives, if any. An inverted range is reported
/// before a position out of bounds.
pub open spec fn rejection(raw: RawRangeSpec, file_size: u64) -> Option<RangeError> {
    let start = resolved_start(raw, file_size);
    let end = resolved_end(raw, file_size);
    if start > end {
        Some(RangeError::InvalidRange { start: start as i128, end: end as i128 })
    } else if !(0 <= start <= file_size && 0 <= end <= file_size) {
        Some(
            RangeError::OutOfBounds { start: start as i128, end: end as i128, file_size },
        )
    } else {
        None
    }
}

impl View for ByteRange {
    type V = (int, int);

    /// The pair `(start, end)`.
    closed spec fn view(&self) -> (int, int) {
        (self.start as int, self.end as int)
    }
}

impl ByteRange {
    #[verifier::type_invariant]
    spec fn ordered(self) -> bool {
        self.start <= self.end
    }

    /// The first offset of the slice.
    pub fn start(&self) -> (start: u64)
        ensures
            start == self@.0,
            self@.0 <= self@.1,
    {
        proof {
            use_type_invariant(self);
        }
        self.start
    }

    /// The offset just behind the slice.
    pub fn end(&self) -> (end: u64)
        ensures
            end == self@.1,
            self@.0 <= self@.1,
    {
        proof {
            use_type_invariant(self);
        }
        self.end
    }

    /// The number of bytes in the slice.
    pub fn len(&self) -> (len: u64)
        ensures
            len == self@.1 - self@.0,
    {
        proof {
            use_type_invariant(self);
        }
        self.end - self.start
    }
}

/// One side of a raw range as a position, computed without overflow.
fn resolve_side(side: Option<i64>, unbounded: i128, file_size: u64) -> (position: i128)
    requires
        0 <= unbounded <= u64::MAX,
    ensures
        position == resolved_side(side, unbounded as int, file_size as int),
{
    match side {
        None => unbounded,
        Some(v) => if v < 0 {
            file_size as i128 + v as i128
        } else {
            v as i128
        },
    }
}

/// Resolves a raw range against a file of `file_size` bytes.
///
/// An absent start is `0`, an absent end is `file_size`, and a negative side
/// has `file_size` added to it. The range is refused as `InvalidRange` where
/// the start then lies behind the end, and as `OutOfBounds` where it is
/// ordered but a side lies outside `[0, file_size]`.
pub fn resolve_range(raw: RawRangeSpec, file_size: u64) -> (result: Result<ByteRange, RangeError>)
    ensures
        match rejection(raw, file_size) {
            Some(error) => result == Err::<ByteRange, RangeError>(error),
            None => result matches Ok(range) && range@ == (
                resolved_start(raw, file_size),
                resolved_end(raw, file_size),
            ),
        },
        // With both sides absent the range is the whole file.
        raw.start is None && raw.end is None ==> (result matches Ok(range) && range@ == (
            0int,
            file_size as int,
        )),
        // A negative side counts back from the end of the file.
        result matches Ok(range) ==> (raw.start matches Some(v) ==> (v < 0 ==> range@.0
            == file_size + v)),
        result matches Ok(range) ==> (raw.end matches Some(v) ==> (v < 0 ==> range@.1
            == file_size + v)),
        // A start behind the end is an invalid range, wherever the two lie.
        resolved_start(raw, file_size) > resolved_end(raw, file_size) ==> (result matches Err(
            RangeError::InvalidRange { .. },
        )),
        // An ordered range that leaves the file is out of bounds.
        resolved_start(raw, file_size) <= resolved_end(raw, file_size) && (resolved_start(
            raw,
            file_size,
        ) > file_size || resolved_end(raw, file_size) > file_size) ==> (result matches Err(
            RangeError::OutOfBounds { .. },
        )),
        // A range that is given lies in the file.
        result matches Ok(range) ==> 0 <= range@.0 <= range@.1 <= file_size,
{
    let start: i128 = resolve_side(raw.start, 0, file_size);
    let end: i128 = resolve_side(raw.end, file_size as i128, file_size);
    if start > end {
        return Err(RangeError::InvalidRange { start, end });
    }
    let limit: i128 = file_size as i128;
    if start < 0 || start > limit || end < 0 || end > limit {
        return Err(RangeError::OutOfBounds { start, end, file_size });
    }
    Ok(ByteRange { start: start as u64, end: end as u64 })
}

} // verus!
