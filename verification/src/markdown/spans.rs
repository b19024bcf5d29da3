//! Where the blocks of a document lie: one behind the other, none over
//! another, and a section up to the turn of the next speaker.

use vstd::prelude::*;
use crate::context::ContextView;
use crate::markdown::block::{
    block_pass,
    block_rule,
    lemma_line_pos,
    lemma_paragraph_end,
    lemma_section_end,
    line_pos,
    section_end,
    section_rule,
};
use crate::markdown::lines::{lines_wf, LineOffset};
use crate::markdown::node::NodeView;
use crate::markdown::utterance::opener;

verus! {

/// No line of a section opens the turn of another speaker, and the line
/// behind its last one does, unless the section runs to the end.
pub proof fn section_runs_to_the_next_speaker(
    src: Seq<char>,
    lines: Seq<LineOffset>,
    from: int,
    line_max: int,
    shortname: Seq<char>,
    max_indent: usize,
)
    requires
        0 <= from <= line_max <= lines.len(),
    ensures
        ({
            let end = section_end(src, lines, from, line_max, shortname, max_indent);
            &&& from <= end <= line_max
            &&& forall|k: int|
                from <= k < end ==> opener(src, #[trigger] lines[k], max_indent) is None || opener(
                    src,
                    lines[k],
                    max_indent,
                ) == Some(shortname)
            &&& end < line_max ==> opener(src, lines[end], max_indent) is Some && opener(
                src,
                lines[end],
                max_indent,
            ) != Some(shortname)
        }),
    decreases line_max - from,
{
    if from < line_max {
        match opener(src, lines[from], max_indent) {
            Some(other) if other != shortname => {},
            _ => {
                section_runs_to_the_next_speaker(
                    src,
                    lines,
                    from + 1,
                    line_max,
                    shortname,
                    max_indent,
                );
            },
        }
    }
}

/// Whether `node` has its place in the text, from `low` on and before
/// `limit`.
pub open spec fn placed(node: NodeView, low: int, limit: int) -> bool {
    &&& node.srcmap is Some
    &&& low <= node.srcmap->Some_0.0 <= node.srcmap->Some_0.1 < limit
}

/// Whether each of `nodes` has its place in the text, all of them before
/// `limit`, each behind the one before.
pub open spec fn in_order(nodes: Seq<NodeView>, limit: int) -> bool {
    &&& forall|i: int| 0 <= i < nodes.len() ==> placed(#[trigger] nodes[i], 0, limit)
    &&& forall|i: int, j: int|
        0 <= i < j < nodes.len() ==> (#[trigger] nodes[i]).srcmap->Some_0.1 < (
        #[trigger] nodes[j]).srcmap->Some_0.0
}

/// What the rules find at a line lies within the lines that it takes.
proof fn lemma_rule_span(
    src: Seq<char>,
    lines: Seq<LineOffset>,
    line: int,
    line_max: int,
    context: ContextView,
)
    requires
        lines_wf(src, lines),
        0 <= line < line_max <= lines.len(),
        block_rule(src, lines, line, line_max, context) matches Ok(Some(_)),
    ensures
        ({
            let found = block_rule(src, lines, line, line_max, context)->Ok_0->Some_0;
            &&& 1 <= found.consumed <= line_max - line
            &&& placed(
                found.node,
                line_pos(src, lines, line),
                line_pos(src, lines, line + found.consumed),
            )
        }),
{
    let found = block_rule(src, lines, line, line_max, context)->Ok_0->Some_0;
    let first = lines[line];
    assert(first.line_start <= first.first_nonspace <= first.line_end <= src.len());
    if section_rule(src, lines, line, line_max, context) matches Ok(Some(_)) {
        let shortname = opener(src, first, context.max_indent)->Some_0;
        lemma_section_end(src, lines, line + 1, line_max, shortname, context.max_indent);
    } else {
        lemma_paragraph_end(src, lines, line + 1, line_max, context);
    }
    let last = lines[line + found.consumed - 1];
    assert(last.line_start <= last.first_nonspace <= last.line_end <= src.len());
    lemma_line_pos(src, lines, line + found.consumed - 1, line + found.consumed);
    if found.consumed > 1 {
        lemma_line_pos(src, lines, line, line + found.consumed - 1);
    }
}

/// The blocks that the pass makes lie behind those made before, in order.
proof fn lemma_pass_spans(
    src: Seq<char>,
    lines: Seq<LineOffset>,
    line: int,
    line_max: int,
    context: ContextView,
    made: Seq<NodeView>,
)
    requires
        lines_wf(src, lines),
        0 <= line <= line_max <= lines.len(),
        in_order(made, line_pos(src, lines, line)),
        block_pass(src, lines, line, line_max, context, made) is Ok,
    ensures
        in_order(
            block_pass(src, lines, line, line_max, context, made)->Ok_0.nodes,
            line_pos(src, lines, line_max),
        ),
    decreases line_max - line,
{
    if line < line_max {
        lemma_line_pos(src, lines, line, line + 1);
        lemma_line_pos(src, lines, line, line_max);
        if lines[line].blank() {
            lemma_pass_spans(src, lines, line + 1, line_max, context, made);
        } else {
            match block_rule(src, lines, line, line_max, context) {
                Ok(Some(found)) => {
                    lemma_rule_span(src, lines, line, line_max, context);
                    let next = made.push(found.node);
                    let limit = line_pos(src, lines, line + found.consumed);
                    assert forall|i: int| 0 <= i < next.len() implies placed(
                        #[trigger] next[i],
                        0,
                        limit,
                    ) by {
                        if i < made.len() {
                            assert(next[i] == made[i]);
                        }
                    }
                    assert forall|i: int, j: int| 0 <= i < j < next.len() implies (
                    #[trigger] next[i]).srcmap->Some_0.1 < (
                    #[trigger] next[j]).srcmap->Some_0.0 by {
                        assert(next[i] == made[i]);
                        if j < made.len() {
                            assert(next[j] == made[j]);
                        }
                    }
                    lemma_pass_spans(
                        src,
                        lines,
                        line + found.consumed,
                        line_max,
                        found.context,
                        next,
                    );
                },
                _ => {},
            }
        }
    }
}

/// The blocks of a run of lines lie in the text one behind the other: each
/// within the lines it was read from, none over another. The sections of
/// speakers among them so share out the lines between them.
pub proof fn blocks_lie_in_order(
    src: Seq<char>,
    lines: Seq<LineOffset>,
    from: int,
    to: int,
    context: ContextView,
)
    requires
        lines_wf(src, lines),
        0 <= from <= to <= lines.len(),
        block_pass(src, lines, from, to, context, Seq::empty()) is Ok,
    ensures
        in_order(
            block_pass(src, lines, from, to, context, Seq::empty())->Ok_0.nodes,
            line_pos(src, lines, to),
        ),
{
    lemma_pass_spans(src, lines, from, to, context, Seq::empty());
}

} // verus!
