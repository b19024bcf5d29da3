//! The lines of a document. A line ends before a line feed or at the end of
//! the text; the spaces and tabs it starts with are its indentation, counted
//! in columns, where a tab reaches to the next column that is a multiple of
//! four.
//!
//! A carriage return is a character of its line like any other: a text with
//! line ends of carriage return and line feed is best given without the
//! carriage returns.

use vstd::prelude::*;
use crate::text::{find, find_char, lemma_find};

verus! {

/// Where a line lies in the text.
#[derive(Debug, Clone, Copy, PartialEq, Eq)]
pub struct LineOffset {
    /// Where the line starts.
    pub line_start: usize,
    /// Where the line's first character stands that is no space or tab;
    /// `line_end` where it has none.
    pub first_nonspace: usize,
    /// Where the line ends: the place of its line feed, or the length of the
    /// text.
    pub line_end: usize,
    /// How many columns the line is indented by.
    pub indent_nonspace: usize,
}

impl LineOffset {
    /// Whether the line holds nothing but indentation.
    pub open spec fn blank(self) -> bool {
        self.first_nonspace >= self.line_end
    }

    /// How many columns the line is indented by.
    pub open spec fn indent(self) -> int {
        self.indent_nonspace as int
    }

    /// Tests whether the line holds nothing but indentation.
    pub fn is_empty(&self) -> (b: bool)
        ensures
            b == self.blank(),
    {
        self.first_nonspace >= self.line_end
    }
}

/// Where the run of spaces and tabs that starts at `from` ends, within
/// `src[..limit]`.
pub open spec fn indent_end(src: Seq<char>, from: int, limit: int) -> int
    decreases limit - from,
{
    if 0 <= from < limit <= src.len() && (src[from] == ' ' || src[from] == '\t') {
        indent_end(src, from + 1, limit)
    } else {
        from
    }
}

/// How many columns the spaces and tabs of `src[from..to]` take: a space
/// takes one, a tab reaches to the next multiple of four. The count stops
/// where four more would leave `usize`.
pub open spec fn indent_width(src: Seq<char>, from: int, to: int) -> usize
    decreases to - from,
{
    if 0 <= from < to <= src.len() {
        let before = indent_width(src, from, to - 1);
        if before > usize::MAX - 4 {
            before
        } else if src[to - 1] == '\t' {
            (before + 4 - before % 4) as usize
        } else {
            (before + 1) as usize
        }
    } else {
        0
    }
}

/// The line that starts at `start`.
pub open spec fn line_at(src: Seq<char>, start: int) -> LineOffset {
    let end = find(src, '\n', start, src.len() as int);
    LineOffset {
        line_start: start as usize,
        first_nonspace: indent_end(src, start, end) as usize,
        line_end: end as usize,
        indent_nonspace: indent_width(src, start, indent_end(src, start, end)),
    }
}

/// The lines of `src` from the one that starts at `start`.
pub open spec fn lines_from(src: Seq<char>, start: int) -> Seq<LineOffset>
    decreases src.len() - start,
{
    if 0 <= start <= src.len() {
        let line = line_at(src, start);
        if start <= line.line_end < src.len() {
            seq![line] + lines_from(src, line.line_end + 1)
        } else {
            seq![line]
        }
    } else {
        Seq::empty()
    }
}

/// The lines of `src`.
pub open spec fn lines_of(src: Seq<char>) -> Seq<LineOffset> {
    lines_from(src, 0)
}

/// Whether `lines` are lines of `src` that follow one another: each lies in
/// the text, and the next starts behind its end.
pub open spec fn lines_wf(src: Seq<char>, lines: Seq<LineOffset>) -> bool {
    &&& forall|i: int|
        0 <= i < lines.len() ==> (#[trigger] lines[i]).line_start <= lines[i].first_nonspace
            <= lines[i].line_end <= src.len()
    &&& forall|i: int, j: int|
        0 <= i < j < lines.len() ==> (#[trigger] lines[i]).line_end < (
        #[trigger] lines[j]).line_start
}

/// In well-formed lines a later line starts behind the end of an earlier one.
pub proof fn lemma_lines_ordered(src: Seq<char>, lines: Seq<LineOffset>, i: int, j: int)
    requires
        lines_wf(src, lines),
        0 <= i < j < lines.len(),
    ensures
        lines[i].line_end < lines[j].line_start,
{
}

/// `indent_end` stays between its start and its limit.
pub proof fn lemma_indent_end(src: Seq<char>, from: int, limit: int)
    requires
        0 <= from <= limit <= src.len(),
    ensures
        from <= indent_end(src, from, limit) <= limit,
    decreases limit - from,
{
    if from < limit && (src[from] == ' ' || src[from] == '\t') {
        lemma_indent_end(src, from + 1, limit);
    }
}

/// The lines from `start` on are well-formed, and the first of them starts
/// at `start`.
pub proof fn lemma_lines_from(src: Seq<char>, start: int)
    requires
        0 <= start <= src.len() <= usize::MAX,
    ensures
        lines_wf(src, lines_from(src, start)),
        lines_from(src, start).len() >= 1,
        lines_from(src, start)[0].line_start == start,
        forall|i: int|
            0 <= i < lines_from(src, start).len() ==> start <= (#[trigger] lines_from(
                src,
                start,
            )[i]).line_start,
    decreases src.len() - start,
{
    let line = line_at(src, start);
    let end = find(src, '\n', start, src.len() as int);
    lemma_find(src, '\n', start, src.len() as int);
    lemma_indent_end(src, start, end);
    let lines = lines_from(src, start);
    if end < src.len() {
        lemma_lines_from(src, end + 1);
        let rest = lines_from(src, end + 1);
        assert(lines == seq![line] + rest);
        assert forall|i: int| 0 <= i < lines.len() implies (#[trigger] lines[i]).line_start
            <= lines[i].first_nonspace <= lines[i].line_end <= src.len() by {
            if i > 0 {
                assert(lines[i] == rest[i - 1]);
            }
        }
        assert forall|i: int, j: int| 0 <= i < j < lines.len() implies (
        #[trigger] lines[i]).line_end < (#[trigger] lines[j]).line_start by {
            assert(lines[j] == rest[j - 1]);
            if i > 0 {
                assert(lines[i] == rest[i - 1]);
            }
        }
        assert forall|i: int| 0 <= i < lines.len() implies start <= (
        #[trigger] lines[i]).line_start by {
            if i > 0 {
                assert(lines[i] == rest[i - 1]);
            }
        }
    }
}

/// Reads the line that starts at `start`.
fn read_line(src: &Vec<char>, start: usize) -> (line: LineOffset)
    requires
        start <= src.len(),
    ensures
        line == line_at(src@, start as int),
        start == line.line_start <= line.first_nonspace <= line.line_end <= src.len(),
{
    let end = find_char(src, '\n', start, src.len());
    let mut i: usize = start;
    let mut width: usize = 0;
    while i < end && (src[i] == ' ' || src[i] == '\t')
        invariant
            start <= i <= end <= src.len(),
            indent_end(src@, start as int, end as int) == indent_end(src@, i as int, end as int),
            width == indent_width(src@, start as int, i as int),
        decreases end - i,
    {
        if width <= usize::MAX - 4 {
            if src[i] == '\t' {
                width = width + 4 - width % 4;
            } else {
                width = width + 1;
            }
        }
        i += 1;
    }
    LineOffset { line_start: start, first_nonspace: i, line_end: end, indent_nonspace: width }
}

/// Splits a text into its lines.
pub fn split_lines(src: &Vec<char>) -> (lines: Vec<LineOffset>)
    ensures
        lines@ == lines_of(src@),
        lines_wf(src@, lines@),
        lines@.len() >= 1,
{
    let mut lines: Vec<LineOffset> = Vec::new();
    let mut start: usize = 0;
    loop
        invariant_except_break
            lines_of(src@) == lines@ + lines_from(src@, start as int),
            forall|i: int| 0 <= i < lines@.len() ==> (#[trigger] lines@[i]).line_end < start,
        invariant
            start <= src.len(),
            lines_wf(src@, lines@),
        ensures
            lines@ == lines_of(src@),
            lines_wf(src@, lines@),
            lines@.len() >= 1,
        decreases src.len() - start,
    {
        let line = read_line(src, start);
        let ghost before = lines@;
        lines.push(line);
        assert forall|i: int, j: int| 0 <= i < j < lines@.len() implies (
        #[trigger] lines@[i]).line_end < (#[trigger] lines@[j]).line_start by {
            assert(lines@[i] == before[i]);
            if j < before.len() {
                assert(lines@[j] == before[j]);
            }
        }
        if line.line_end < src.len() {
            assert(lines_from(src@, start as int) == seq![line] + lines_from(
                src@,
                line.line_end + 1,
            ));
            assert(before + (seq![line] + lines_from(src@, line.line_end + 1)) == lines@
                + lines_from(src@, line.line_end + 1));
            start = line.line_end + 1;
        } else {
            assert(lines_from(src@, start as int) == seq![line]);
            assert(before + seq![line] == lines@);
            break ;
        }
    }
    lines
}

} // verus!
