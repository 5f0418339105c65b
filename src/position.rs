//! Source positions and the mapping between byte offsets and lines.
use vstd::prelude::*;

verus! {

/// A span in a source text: lines and columns are 1-indexed, offsets are
/// 0-indexed byte offsets, and the end is exclusive.
#[derive(Debug, Clone, Copy, PartialEq, Eq, Structural)]
pub struct Position {
    pub start_line: usize,
    pub start_column: usize,
    pub start_offset: usize,
    pub end_line: usize,
    pub end_column: usize,
    pub end_offset: usize,
}

impl Position {
    pub fn new(
        start_line: usize,
        start_column: usize,
        start_offset: usize,
        end_line: usize,
        end_column: usize,
        end_offset: usize,
    ) -> (r: Position)
        ensures
            r == (Position {
                start_line,
                start_column,
                start_offset,
                end_line,
                end_column,
                end_offset,
            }),
    {
        Position { start_line, start_column, start_offset, end_line, end_column, end_offset }
    }

    /// The empty span at the very beginning of a text.
    pub open spec fn zero() -> Position {
        Position {
            start_line: 1,
            start_column: 1,
            start_offset: 0,
            end_line: 1,
            end_column: 1,
            end_offset: 0,
        }
    }
}

pub open spec fn is_newline(b: u8) -> bool {
    b == 10u8
}

/// Number of line breaks among the first `off` bytes.
pub open spec fn newlines_before(t: Seq<u8>, off: int) -> nat
    decreases off,
{
    if off <= 0 || t.len() == 0 {
        0
    } else if off > t.len() {
        newlines_before(t, t.len() as int)
    } else if is_newline(t[off - 1]) {
        newlines_before(t, off - 1) + 1
    } else {
        newlines_before(t, off - 1)
    }
}

/// Offset of the first byte of the line that holds offset `off`.
pub open spec fn line_start_of(t: Seq<u8>, off: int) -> int
    decreases off,
{
    if off <= 0 {
        0
    } else if is_newline(t[off - 1]) {
        off
    } else {
        line_start_of(t, off - 1)
    }
}

/// Offset just past the next line break at or after `p`, or the end of the text.
pub open spec fn next_line_start(t: Seq<u8>, p: int) -> int
    decreases t.len() - p,
{
    if p >= t.len() {
        t.len() as int
    } else if is_newline(t[p]) {
        p + 1
    } else {
        next_line_start(t, p + 1)
    }
}

/// Offset of the first byte of the 0-indexed line `line`; the end of the text
/// when the text has fewer lines.
pub open spec fn line_offset(t: Seq<u8>, line: nat) -> int
    decreases line,
{
    if line == 0 {
        0
    } else {
        next_line_start(t, line_offset(t, (line - 1) as nat))
    }
}

proof fn lemma_next_line_start_bounds(t: Seq<u8>, p: int)
    requires
        0 <= p <= t.len(),
    ensures
        p <= next_line_start(t, p) <= t.len(),
        p < t.len() ==> p < next_line_start(t, p),
    decreases t.len() - p,
{
    if p < t.len() && !is_newline(t[p]) {
        lemma_next_line_start_bounds(t, p + 1);
    }
}

/// Offset of the line break that ends the line starting at `p`, or the end of
/// the text.
pub open spec fn line_end_from(t: Seq<u8>, p: int) -> int
    decreases t.len() - p,
{
    if p >= t.len() {
        t.len() as int
    } else if is_newline(t[p]) {
        p
    } else {
        line_end_from(t, p + 1)
    }
}

/// A span that covers at least one byte of the text and whose start line and
/// column are those of its start offset.
pub open spec fn span_in_text(src: Seq<u8>, p: Position) -> bool {
    &&& p.start_offset < p.end_offset <= src.len()
    &&& p.start_line == newlines_before(src, p.start_offset as int) + 1
    &&& p.start_column == p.start_offset - line_start_of(src, p.start_offset as int) + 1
}

pub proof fn lemma_newlines_before_bound(t: Seq<u8>, off: int)
    requires
        0 <= off <= t.len(),
    ensures
        newlines_before(t, off) <= off,
    decreases off,
{
    if off > 0 && t.len() > 0 {
        lemma_newlines_before_bound(t, off - 1);
    }
}

/// Byte offset of the start of the 0-indexed line `line_number`, or the length
/// of the text when it has fewer lines.
pub fn find_offset_by_line_number(text: &[u8], line_number: usize) -> (r: usize)
    ensures
        r as int == line_offset(text@, line_number as nat),
{
    let mut line: usize = 0;
    let mut off: usize = 0;
    while line < line_number
        invariant
            line <= line_number,
            off as int == line_offset(text@, line as nat),
            off <= text@.len(),
        decreases line_number - line,
    {
        proof {
            lemma_next_line_start_bounds(text@, off as int);
        }
        let mut p: usize = off;
        while p < text.len() && text[p] != 10u8
            invariant
                off <= p <= text@.len(),
                next_line_start(text@, p as int) == next_line_start(text@, off as int),
            decreases text@.len() - p,
        {
            p = p + 1;
        }
        if p < text.len() {
            p = p + 1;
        }
        line = line + 1;
        off = p;
    }
    off
}

/// The 1-indexed line and column of byte offset `offset`.
pub fn line_column_of(text: &[u8], offset: usize) -> (r: (usize, usize))
    requires
        offset <= text@.len(),
        offset < usize::MAX,
    ensures
        r.0 as int == newlines_before(text@, offset as int) + 1,
        r.1 as int == offset - line_start_of(text@, offset as int) + 1,
{
    let mut line: usize = 1;
    let mut start: usize = 0;
    let mut i: usize = 0;
    while i < offset
        invariant
            i <= offset <= text@.len(),
            offset < usize::MAX,
            line as int == newlines_before(text@, i as int) + 1,
            start as int == line_start_of(text@, i as int),
            start <= i,
            line <= i + 1,
        decreases offset - i,
    {
        if text[i] == 10u8 {
            line = line + 1;
            start = i + 1;
        }
        i = i + 1;
    }
    (line, offset - start + 1)
}

} // verus!
