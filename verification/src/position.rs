//! Source locations.
use vstd::prelude::*;

verus! {

/// A half-open range of character offsets into the source text that was lexed.
///
/// `start` is the offset of the first character covered and `end` the offset
/// one past the last. Offsets count characters, not bytes.
#[derive(Clone, Copy, Debug, PartialEq, Eq, Hash, Structural)]
pub struct Position {
    pub start: usize,
    pub end: usize,
}

/// The 1-based line on which the character at `offset` stands: one more than
/// the number of newlines before it.
pub open spec fn line_of(src: Seq<char>, offset: int) -> int
    decreases offset,
{
    if offset <= 0 || offset > src.len() {
        1
    } else if src[offset - 1] == '\n' {
        line_of(src, offset - 1) + 1
    } else {
        line_of(src, offset - 1)
    }
}

/// The 1-based column of the character at `offset`: one more than the number
/// of characters between it and the preceding newline (or the start).
pub open spec fn column_of(src: Seq<char>, offset: int) -> int
    decreases offset,
{
    if offset <= 0 || offset > src.len() {
        1
    } else if src[offset - 1] == '\n' {
        1
    } else {
        column_of(src, offset - 1) + 1
    }
}

/// Lines and columns never exceed the offset by more than one.
pub proof fn lemma_line_column_bounds(src: Seq<char>, offset: int)
    ensures
        1 <= line_of(src, offset),
        1 <= column_of(src, offset),
        0 <= offset <= src.len() ==> line_of(src, offset) <= offset + 1,
        0 <= offset <= src.len() ==> column_of(src, offset) <= offset + 1,
    decreases offset,
{
    if 0 < offset <= src.len() {
        lemma_line_column_bounds(src, offset - 1);
    }
}

impl Position {
    /// The range `start..end`.
    pub fn new(start: usize, end: usize) -> (p: Position)
        ensures
            p.start == start,
            p.end == end,
    {
        Position { start, end }
    }

    /// The range that begins where `self` begins and ends where `other` ends.
    pub fn combine(&self, other: &Position) -> (p: Position)
        ensures
            p.start == self.start,
            p.end == other.end,
    {
        Position { start: self.start, end: other.end }
    }

    /// The 1-based line and column of the first character of this range in
    /// `src`, for rendering a diagnostic.
    pub fn line_column(&self, src: &[char]) -> (lc: (usize, usize))
        requires
            self.start <= src@.len(),
            self.start < usize::MAX,
        ensures
            lc.0 == line_of(src@, self.start as int),
            lc.1 == column_of(src@, self.start as int),
    {
        let mut line: usize = 1;
        let mut column: usize = 1;
        let mut i: usize = 0;
        while i < self.start
            invariant
                i <= self.start <= src@.len(),
                self.start < usize::MAX,
                line == line_of(src@, i as int),
                column == column_of(src@, i as int),
            decreases self.start - i,
        {
            proof {
                lemma_line_column_bounds(src@, i as int);
            }
            if src[i] == '\n' {
                line += 1;
                column = 1;
            } else {
                column += 1;
            }
            i += 1;
        }
        (line, column)
    }
}

} // verus!
