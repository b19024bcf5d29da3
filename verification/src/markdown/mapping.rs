//! Source maps: for a text that was put together from lines of a document,
//! where in the document each of its places came from.

use vstd::prelude::*;

verus! {

/// Whether `mapping` is the source map of a text: one pair for each line of
/// the text, of the place where the line starts in the text and the place
/// where it starts in the document. The first line starts the text, and each
/// line starts behind the one before.
pub open spec fn mapping_wf(mapping: Seq<(usize, usize)>) -> bool {
    &&& mapping.len() >= 1
    &&& mapping[0].0 == 0
    &&& forall|i: int, j: int|
        0 <= i < j < mapping.len() ==> (#[trigger] mapping[i]).0 < (#[trigger] mapping[j]).0
}

/// The line of the text that holds the place `pos`, looked for from the line
/// `from` on: the last line that starts at `pos` or before it.
pub open spec fn line_of(mapping: Seq<(usize, usize)>, pos: int, from: int) -> int
    decreases mapping.len() - from,
{
    if 0 <= from && from + 1 < mapping.len() && mapping[from + 1].0 <= pos {
        line_of(mapping, pos, from + 1)
    } else {
        from
    }
}

/// Where in the document the place `pos` of the text came from.
pub open spec fn source_of(mapping: Seq<(usize, usize)>, pos: int) -> int {
    let line = line_of(mapping, pos, 0);
    mapping[line].1 + (pos - mapping[line].0)
}

/// `line_of` names a line from `from` on that starts at `pos` or before it,
/// where the line `from` does; every later line starts behind `pos`.
pub proof fn lemma_line_of(mapping: Seq<(usize, usize)>, pos: int, from: int)
    requires
        mapping_wf(mapping),
        0 <= from < mapping.len(),
        mapping[from].0 <= pos,
    ensures
        from <= line_of(mapping, pos, from) < mapping.len(),
        mapping[line_of(mapping, pos, from)].0 <= pos,
        forall|j: int| line_of(mapping, pos, from) < j < mapping.len() ==> pos < mapping[j].0,
    decreases mapping.len() - from,
{
    if from + 1 < mapping.len() && mapping[from + 1].0 <= pos {
        lemma_line_of(mapping, pos, from + 1);
    } else {
        assert forall|j: int| from < j < mapping.len() implies pos < mapping[j].0 by {
            if from + 1 < j {
                assert(mapping[from + 1].0 < mapping[j].0);
            }
        }
    }
}

/// The line that holds `pos` is the same from whichever line before it the
/// search starts.
pub proof fn lemma_line_of_from(mapping: Seq<(usize, usize)>, pos: int, from: int, later: int)
    requires
        mapping_wf(mapping),
        0 <= from <= later < mapping.len(),
        mapping[later].0 <= pos,
    ensures
        line_of(mapping, pos, from) == line_of(mapping, pos, later),
    decreases later - from,
{
    if from < later {
        assert(mapping[from + 1].0 <= mapping[later].0) by {
            if from + 1 < later {
                assert(mapping[from + 1].0 < mapping[later].0);
            }
        }
        lemma_line_of_from(mapping, pos, from + 1, later);
    }
}

/// The source map of a text without its first `reduction` places, from the
/// source map of the text: the line that holds the first place kept starts
/// the new text, and the lines behind it start `reduction` places earlier.
pub open spec fn stripped(mapping: Seq<(usize, usize)>, reduction: int) -> Seq<(usize, usize)> {
    let line = line_of(mapping, reduction, 0);
    Seq::new(
        (mapping.len() - line) as nat,
        |i: int|
            if i == 0 {
                (0usize, (mapping[line].1 + (reduction - mapping[line].0)) as usize)
            } else {
                ((mapping[line + i].0 - reduction) as usize, mapping[line + i].1)
            },
    )
}

/// The lines of the stripped map are those of the map from the line on that
/// holds the first place kept.
proof fn lemma_stripped_line(
    mapping: Seq<(usize, usize)>,
    reduction: int,
    pos: int,
    from: int,
)
    requires
        mapping_wf(mapping),
        0 <= reduction,
        0 <= pos,
        0 <= from < stripped(mapping, reduction).len(),
    ensures
        line_of(stripped(mapping, reduction), pos, from) + line_of(mapping, reduction, 0)
            == line_of(mapping, pos + reduction, line_of(mapping, reduction, 0) + from),
    decreases stripped(mapping, reduction).len() - from,
{
    let line = line_of(mapping, reduction, 0);
    lemma_line_of(mapping, reduction, 0);
    let short = stripped(mapping, reduction);
    if from + 1 < short.len() {
        assert(mapping[line + from + 1].0 > reduction);
        assert(short[from + 1].0 == mapping[line + from + 1].0 - reduction);
        if short[from + 1].0 <= pos {
            lemma_stripped_line(mapping, reduction, pos, from + 1);
        }
    }
}

/// The stripped map is a source map, and it says of every place of the
/// shorter text what the map said of the same place in the longer one: the
/// places keep their sources.
pub proof fn stripped_keeps_sources(mapping: Seq<(usize, usize)>, reduction: int, pos: int)
    requires
        mapping_wf(mapping),
        0 <= reduction,
        0 <= pos,
        source_of(mapping, reduction) <= usize::MAX,
    ensures
        mapping_wf(stripped(mapping, reduction)),
        source_of(stripped(mapping, reduction), pos) == source_of(mapping, pos + reduction),
{
    let line = line_of(mapping, reduction, 0);
    lemma_line_of(mapping, reduction, 0);
    let short = stripped(mapping, reduction);
    assert forall|i: int, j: int| 0 <= i < j < short.len() implies (#[trigger] short[i]).0 < (
    #[trigger] short[j]).0 by {
        assert(mapping[line + j].0 > reduction);
        if i > 0 {
            assert(mapping[line + i].0 > reduction);
            assert(mapping[line + i].0 < mapping[line + j].0);
        }
    }
    lemma_stripped_line(mapping, reduction, pos, 0);
    lemma_line_of_from(mapping, pos + reduction, 0, line);
    let at = line_of(short, pos, 0);
    lemma_line_of(short, pos, 0);
    if at > 0 {
        assert(mapping[line + at].0 > reduction);
    }
}

/// Makes the source map of a text without its first `reduction` places.
pub fn strip_mapping(mapping: &Vec<(usize, usize)>, reduction: usize) -> (short: Vec<
    (usize, usize),
>)
    requires
        mapping_wf(mapping@),
        source_of(mapping@, reduction as int) <= usize::MAX,
    ensures
        short@ == stripped(mapping@, reduction as int),
{
    let mut line: usize = 0;
    while line + 1 < mapping.len() && mapping[line + 1].0 <= reduction
        invariant
            mapping_wf(mapping@),
            line < mapping.len(),
            mapping@[line as int].0 <= reduction,
            line_of(mapping@, reduction as int, 0) == line_of(
                mapping@,
                reduction as int,
                line as int,
            ),
        decreases mapping.len() - line,
    {
        line += 1;
    }
    let first = mapping[line];
    let mut short: Vec<(usize, usize)> = Vec::new();
    short.push((0, first.1 + (reduction - first.0)));
    let mut i: usize = line + 1;
    while i < mapping.len()
        invariant
            mapping_wf(mapping@),
            line < i <= mapping.len(),
            line == line_of(mapping@, reduction as int, 0),
            short@.len() == i - line,
            forall|k: int| 0 <= k < short@.len() ==> short@[k] == stripped(
                mapping@,
                reduction as int,
            )[k],
            forall|j: int| line < j < mapping@.len() ==> reduction < mapping@[j].0,
        decreases mapping.len() - i,
    {
        let entry = mapping[i];
        short.push((entry.0 - reduction, entry.1));
        i += 1;
    }
    assert(short@ =~= stripped(mapping@, reduction as int));
    short
}

} // verus!
