//! Resolving a requested byte range against the file length and the
//! 16-byte rows of the table.

use vstd::prelude::*;

verus! {

/// The number of bytes in one row of the table.
pub const ROW_WIDTH: usize = 16;

/// A byte window `[start, end)` together with the offset of the row in which
/// rendering begins.
#[derive(Clone, Copy, Debug, PartialEq, Eq, Structural)]
pub struct AlignedRange {
    /// The first offset whose byte is shown.
    pub start: usize,
    /// The first offset past the window.
    pub end: usize,
    /// The offset of the first row: `start` rounded down to a multiple of 16.
    pub aligned_start: usize,
}

/// The end of the window for a request: the file length when the requested
/// end is zero or lies beyond the file, else the requested end.
pub open spec fn effective_end(requested_end: usize, file_len: usize) -> usize {
    if requested_end == 0 || requested_end > file_len {
        file_len
    } else {
        requested_end
    }
}

/// `offset` rounded down to a multiple of the row width.
pub open spec fn align_down(offset: usize) -> usize {
    (offset - offset % 16) as usize
}

/// The range that `resolve` gives for a request.
pub open spec fn resolved(requested_start: usize, requested_end: usize, file_len: usize)
    -> AlignedRange {
    AlignedRange {
        start: requested_start,
        end: effective_end(requested_end, file_len),
        aligned_start: align_down(requested_start),
    }
}

/// The number of rows a range covers: one for every 16 offsets from
/// `aligned_start` up to `end`, the last one possibly partial; none when the
/// range is empty.
pub open spec fn row_count(range: AlignedRange) -> nat {
    if range.end > range.aligned_start {
        ((range.end - range.aligned_start + 15) / 16) as nat
    } else {
        0
    }
}

/// The offset at which row `index` of a range begins.
pub open spec fn row_offset(range: AlignedRange, index: int) -> int {
    range.aligned_start + 16 * index
}

impl AlignedRange {
    /// Whether the first row is the one that holds `start`: `aligned_start`
    /// is a multiple of 16, at most `start`, and less than 16 below it.
    pub open spec fn wf(self) -> bool {
        &&& self.aligned_start % 16 == 0
        &&& self.aligned_start <= self.start
        &&& self.start - self.aligned_start < 16
    }

    /// Whether the cell at `offset` lies inside the window.
    pub open spec fn contains(self, offset: int) -> bool {
        self.start <= offset < self.end
    }

    /// The number of rows this range covers.
    pub fn rows(&self) -> (count: usize)
        ensures
            count == row_count(*self),
    {
        if self.end > self.aligned_start {
            let span: usize = self.end - self.aligned_start;
            if span % 16 == 0 {
                span / 16
            } else {
                span / 16 + 1
            }
        } else {
            0
        }
    }
}

/// Resolves a requested range against a file of `file_len` bytes.
///
/// A requested end of zero means "to the end of the file", and an end beyond the
/// file is clamped to it. The start is taken as it is: a start at or past the
/// end gives a range without rows. Rendering begins at the start of the row
/// that holds `start`.
pub fn resolve(requested_start: usize, requested_end: usize, file_len: usize) -> (range:
    AlignedRange)
    ensures
        range == resolved(requested_start, requested_end, file_len),
        range.start == requested_start,
        range.end <= file_len,
        requested_end == 0 || requested_end > file_len ==> range.end == file_len,
        0 < requested_end <= file_len ==> range.end == requested_end,
        range.aligned_start == requested_start - requested_start % 16,
        range.aligned_start % 16 == 0,
        range.aligned_start <= range.start,
        range.wf(),
{
    let end: usize = if requested_end == 0 || requested_end > file_len {
        file_len
    } else {
        requested_end
    };
    AlignedRange {
        start: requested_start,
        end,
        aligned_start: requested_start - requested_start % ROW_WIDTH,
    }
}

/// The first row of a resolved range is the nearest row boundary at or below
/// the requested start: no multiple of 16 lies above `aligned_start` and at or
/// below `start`.
pub proof fn lemma_aligned_start_is_nearest(
    requested_start: usize,
    requested_end: usize,
    file_len: usize,
    boundary: int,
)
    requires
        boundary % 16 == 0,
        boundary <= requested_start,
    ensures
        boundary <= resolved(requested_start, requested_end, file_len).aligned_start,
{
}

/// The rows of a range cover it exactly: every offset from `aligned_start` up
/// to `end` lies in one of the `row_count` rows, and the last row begins
/// before `end`.
pub proof fn lemma_rows_cover(range: AlignedRange, offset: int)
    requires
        range.aligned_start <= offset < range.end,
    ensures
        0 <= (offset - range.aligned_start) / 16 < row_count(range),
        row_offset(range, (offset - range.aligned_start) / 16) <= offset < row_offset(
            range,
            (offset - range.aligned_start) / 16,
        ) + 16,
        row_offset(range, row_count(range) - 1) < range.end <= row_offset(
            range,
            row_count(range) as int,
        ),
{
}

} // verus!
