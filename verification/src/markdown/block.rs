//! The block pass: what a run of lines holds, in order. A line that opens a
//! speaker's turn starts a section; every other line that is not blank
//! starts a paragraph.
//!
//! The pass knows sections and paragraphs and nothing else of Markdown. A
//! heading, a list, a quotation or a block of code is a paragraph to it:
//! none of them ends a paragraph before a blank line, as they would for a
//! parser of Markdown, and an indented line is never code. The text of a
//! paragraph is the text of its lines as it stands in the document, with the
//! indentation of every line but the first. A host parser that knows more
//! of Markdown finds the sections with `section_at` and the repeated
//! speaker of a paragraph with `repeated_prefix`, and reads the lines of a
//! section with its own rules.

use vstd::prelude::*;
use crate::context::{Context, ContextView};
use crate::error::{AuthoringError, AuthoringErrorView};
use crate::markdown::inline::{
    grows_within,
    same_scope,
    has_room,
    inline_nodes,
    pass_agrees,
    rule_agrees,
    tokenize_range,
    Outcome,
    RuleMatch,
};
use crate::markdown::lines::{lemma_lines_ordered, lines_wf, LineOffset};
use crate::markdown::node::{node_views, Node, NodeValue, NodeValueView, NodeView};
use crate::markdown::utterance::{
    opener,
    opener_len,
    UtteranceParagraphScanner,
    UtteranceSectionBlockScanner,
    UtteranceView,
};
use crate::text::white_end;

verus! {

/// Whether a rule that can interrupt a paragraph claims `line`: the section
/// rule does, where the line opens a speaker's turn while no section is open.
pub open spec fn claimed(src: Seq<char>, line: LineOffset, context: ContextView) -> bool {
    context.speaker is None && opener(src, line, context.max_indent) is Some
}

/// Where a paragraph ends that holds the line before `from`: at the first
/// line from `from` on that is blank or that a rule claims; at `line_max`
/// where there is no such line.
pub open spec fn paragraph_end(
    src: Seq<char>,
    lines: Seq<LineOffset>,
    from: int,
    line_max: int,
    context: ContextView,
) -> int
    decreases line_max - from,
{
    if 0 <= from < line_max <= lines.len() {
        if lines[from].blank() || claimed(src, lines[from], context) {
            from
        } else {
            paragraph_end(src, lines, from + 1, line_max, context)
        }
    } else {
        from
    }
}

/// Where the section of the speaker `shortname` ends that holds the line
/// before `from`: at the first line from `from` on that opens the turn of
/// another speaker; at `line_max` where there is no such line.
pub open spec fn section_end(
    src: Seq<char>,
    lines: Seq<LineOffset>,
    from: int,
    line_max: int,
    shortname: Seq<char>,
    max_indent: usize,
) -> int
    decreases line_max - from,
{
    if 0 <= from < line_max <= lines.len() {
        match opener(src, lines[from], max_indent) {
            Some(other) if other != shortname => from,
            _ => section_end(src, lines, from + 1, line_max, shortname, max_indent),
        }
    } else {
        from
    }
}

/// The paragraph of the lines from `first` to `last`, whose text is
/// `src[from..last.line_end]`.
pub open spec fn paragraph(
    src: Seq<char>,
    first: LineOffset,
    last: LineOffset,
    from: int,
    consumed: int,
    context: ContextView,
) -> Result<Option<RuleMatch>, AuthoringErrorView> {
    match inline_nodes(src, from, last.line_end as int, 0, context) {
        Err(e) => Err(e),
        Ok(inline) => Ok(
            Some(
                RuleMatch {
                    node: NodeView {
                        value: NodeValueView::Paragraph,
                        children: inline.nodes,
                        srcmap: Some((first.first_nonspace, last.line_end)),
                    },
                    consumed,
                    context: inline.context,
                },
            ),
        ),
    }
}

/// The rule for a paragraph that repeats the speaker's short name: inside a
/// section, a paragraph that opens like the speaker's turn is read without
/// the short name, the colon and the white space behind it. One that opens
/// with another speaker's short name fails the parse.
pub open spec fn utterance_paragraph_rule(
    src: Seq<char>,
    lines: Seq<LineOffset>,
    line: int,
    line_max: int,
    context: ContextView,
) -> Result<Option<RuleMatch>, AuthoringErrorView> {
    if 0 <= line < line_max <= lines.len() {
        match (context.speaker, opener(src, lines[line], context.max_indent)) {
            (Some(open), Some(found)) => if found == open {
                let end = paragraph_end(src, lines, line + 1, line_max, context);
                let first = lines[line];
                let last = lines[end - 1];
                let from = white_end(
                    src,
                    first.first_nonspace + found.len() + 1,
                    last.line_end as int,
                );
                paragraph(src, first, last, from, end - line, context)
            } else {
                Err(
                    AuthoringErrorView::SpeakerMismatch {
                        found,
                        open,
                        document: context.document,
                    },
                )
            },
            _ => Ok(None),
        }
    } else {
        Ok(None)
    }
}

/// The rule for every other paragraph: it is read from its first character
/// that is no space or tab.
pub open spec fn paragraph_rule(
    src: Seq<char>,
    lines: Seq<LineOffset>,
    line: int,
    line_max: int,
    context: ContextView,
) -> Result<Option<RuleMatch>, AuthoringErrorView> {
    if 0 <= line < line_max <= lines.len() {
        let end = paragraph_end(src, lines, line + 1, line_max, context);
        let first = lines[line];
        let last = lines[end - 1];
        paragraph(src, first, last, first.first_nonspace as int, end - line, context)
    } else {
        Ok(None)
    }
}

/// 1 while no section is open, 0 inside one: a section is opened only from
/// outside.
pub open spec fn depth_left(context: ContextView) -> int {
    if context.speaker is None {
        1
    } else {
        0
    }
}

/// The rule for a section: while no section is open, a line that opens a
/// speaker's turn starts one, which runs up to the turn of another speaker.
/// Its children are what the block pass makes of its lines while the
/// section is open. A short name that the registry lacks fails the parse.
pub open spec fn section_rule(
    src: Seq<char>,
    lines: Seq<LineOffset>,
    line: int,
    line_max: int,
    context: ContextView,
) -> Result<Option<RuleMatch>, AuthoringErrorView>
    decreases line_max - line, depth_left(context), 0int,
{
    if 0 <= line < line_max <= lines.len() && context.speaker is None {
        match opener(src, lines[line], context.max_indent) {
            None => Ok(None),
            Some(shortname) => if !context.speakers.contains_key(shortname) {
                Err(
                    AuthoringErrorView::UnknownSpeaker { shortname, document: context.document },
                )
            } else {
                let to = section_end(
                    src,
                    lines,
                    line + 1,
                    line_max,
                    shortname,
                    context.max_indent,
                );
                if line < to <= line_max {
                    let open = ContextView { speaker: Some(shortname), ..context };
                    match block_pass(src, lines, line, to, open, Seq::empty()) {
                        Err(e) => Err(e),
                        Ok(inner) => Ok(
                            Some(
                                RuleMatch {
                                    node: NodeView {
                                        value: NodeValueView::Utterance(
                                            UtteranceView {
                                                shortname,
                                                longname: context.speakers[shortname],
                                            },
                                        ),
                                        children: inner.nodes,
                                        srcmap: Some(
                                            (lines[line].first_nonspace, lines[to - 1].line_end),
                                        ),
                                    },
                                    consumed: to - line,
                                    context: ContextView { speaker: None, ..inner.context },
                                },
                            ),
                        ),
                    }
                } else {
                    Ok(None)
                }
            },
        }
    } else {
        Ok(None)
    }
}

/// The rules at `line`, in their order: the first that finds something
/// decides.
pub open spec fn block_rule(
    src: Seq<char>,
    lines: Seq<LineOffset>,
    line: int,
    line_max: int,
    context: ContextView,
) -> Result<Option<RuleMatch>, AuthoringErrorView>
    decreases line_max - line, depth_left(context), 1int,
{
    match section_rule(src, lines, line, line_max, context) {
        Err(e) => Err(e),
        Ok(Some(found)) => Ok(Some(found)),
        Ok(None) => match utterance_paragraph_rule(src, lines, line, line_max, context) {
            Err(e) => Err(e),
            Ok(Some(found)) => Ok(Some(found)),
            Ok(None) => paragraph_rule(src, lines, line, line_max, context),
        },
    }
}

/// The pass over the lines from `line` to `line_max`, behind the nodes
/// `made`. Blank lines are passed over.
pub open spec fn block_pass(
    src: Seq<char>,
    lines: Seq<LineOffset>,
    line: int,
    line_max: int,
    context: ContextView,
    made: Seq<NodeView>,
) -> Result<Outcome, AuthoringErrorView>
    decreases line_max - line, depth_left(context), 2int,
{
    if 0 <= line < line_max <= lines.len() {
        if lines[line].blank() {
            block_pass(src, lines, line + 1, line_max, context, made)
        } else {
            match block_rule(src, lines, line, line_max, context) {
                Err(e) => Err(e),
                Ok(Some(found)) => if 1 <= found.consumed <= line_max - line {
                    block_pass(
                        src,
                        lines,
                        line + found.consumed,
                        line_max,
                        found.context,
                        made.push(found.node),
                    )
                } else {
                    Ok(Outcome { nodes: made, context })
                },
                Ok(None) => Ok(Outcome { nodes: made, context }),
            }
        }
    } else {
        Ok(Outcome { nodes: made, context })
    }
}

/// What the block pass makes of the lines from `from` to `to`.
pub open spec fn block_nodes(
    src: Seq<char>,
    lines: Seq<LineOffset>,
    from: int,
    to: int,
    context: ContextView,
) -> Result<Outcome, AuthoringErrorView> {
    block_pass(src, lines, from, to, context, Seq::empty())
}

/// Where the line `k` starts; one behind the end of the text for `k` behind
/// the last line.
pub open spec fn line_pos(src: Seq<char>, lines: Seq<LineOffset>, k: int) -> int {
    if 0 <= k < lines.len() {
        lines[k].line_start as int
    } else {
        src.len() as int + 1
    }
}

/// A line ends before the place where any later line starts.
pub proof fn lemma_line_pos(src: Seq<char>, lines: Seq<LineOffset>, i: int, j: int)
    requires
        lines_wf(src, lines),
        0 <= i < j <= lines.len(),
    ensures
        lines[i].line_start <= lines[i].line_end < line_pos(src, lines, j) <= src.len() + 1,
{
    if j < lines.len() {
        lemma_lines_ordered(src, lines, i, j);
    }
}

/// `paragraph_end` stays between its start and the last line.
pub proof fn lemma_paragraph_end(
    src: Seq<char>,
    lines: Seq<LineOffset>,
    from: int,
    line_max: int,
    context: ContextView,
)
    requires
        0 <= from <= line_max <= lines.len(),
    ensures
        from <= paragraph_end(src, lines, from, line_max, context) <= line_max,
    decreases line_max - from,
{
    if from < line_max && !(lines[from].blank() || claimed(src, lines[from], context)) {
        lemma_paragraph_end(src, lines, from + 1, line_max, context);
    }
}

/// `section_end` stays between its start and the last line.
pub proof fn lemma_section_end(
    src: Seq<char>,
    lines: Seq<LineOffset>,
    from: int,
    line_max: int,
    shortname: Seq<char>,
    max_indent: usize,
)
    requires
        0 <= from <= line_max <= lines.len(),
    ensures
        from <= section_end(src, lines, from, line_max, shortname, max_indent) <= line_max,
    decreases line_max - from,
{
    if from < line_max {
        match opener(src, lines[from], max_indent) {
            Some(other) if other != shortname => {},
            _ => {
                lemma_section_end(src, lines, from + 1, line_max, shortname, max_indent);
            },
        }
    }
}

/// How many characters the text has from the start of the line `line` on,
/// and one more.
pub open spec fn block_room(src: Seq<char>, lines: Seq<LineOffset>, line: int) -> int {
    src.len() + 1 - line_pos(src, lines, line)
}

/// Whether what a rule found at `line` takes one line or more and no more
/// than there are, and numbers no more than their characters.
pub open spec fn block_advances(
    result: Result<Option<(Node, usize)>, AuthoringError>,
    before: ContextView,
    after: ContextView,
    src: Seq<char>,
    lines: Seq<LineOffset>,
    line: int,
    line_max: int,
) -> bool {
    result matches Ok(Some(pair)) ==> 1 <= pair.1 <= line_max - line && grows_within(
        before,
        after,
        line_pos(src, lines, line + pair.1) - line_pos(src, lines, line),
    )
}

/// Finds where a paragraph ends that holds the line before `from`.
pub fn paragraph_extent(
    src: &Vec<char>,
    lines: &Vec<LineOffset>,
    from: usize,
    line_max: usize,
    context: &Context,
) -> (end: usize)
    requires
        lines_wf(src@, lines@),
        from <= line_max <= lines.len(),
    ensures
        end == paragraph_end(src@, lines@, from as int, line_max as int, context@),
        from <= end <= line_max,
{
    let mut i: usize = from;
    while i < line_max
        invariant
            lines_wf(src@, lines@),
            from <= i <= line_max <= lines.len(),
            paragraph_end(src@, lines@, from as int, line_max as int, context@) == paragraph_end(
                src@,
                lines@,
                i as int,
                line_max as int,
                context@,
            ),
        decreases line_max - i,
    {
        let line = lines[i];
        assert(lines@[i as int].line_start <= lines@[i as int].first_nonspace);
        if line.is_empty() {
            return i;
        }
        if context.speaker.is_none() && opener_len(src, line, context.max_indent).is_some() {
            return i;
        }
        i += 1;
    }
    i
}

/// Makes the paragraph of the lines from `first` to `last`, whose text is
/// `src[from..last.line_end]`.
pub fn make_paragraph(
    src: &Vec<char>,
    first: LineOffset,
    last: LineOffset,
    from: usize,
    consumed: usize,
    context: &mut Context,
) -> (result: Result<Option<(Node, usize)>, AuthoringError>)
    requires
        from <= last.line_end <= src.len(),
        has_room(old(context)@, last.line_end - from),
    ensures
        rule_agrees(
            result,
            old(context)@,
            final(context)@,
            paragraph(src@, first, last, from as int, consumed as int, old(context)@),
        ),
        result is Ok ==> result->Ok_0 is Some && grows_within(
            old(context)@,
            final(context)@,
            last.line_end - from,
        ),
        same_scope(old(context)@, final(context)@),
{
    let children = match tokenize_range(src, from, last.line_end, 0, context) {
        Ok(children) => children,
        Err(error) => {
            return Err(error);
        },
    };
    let node = Node {
        value: NodeValue::Paragraph,
        children,
        srcmap: Some((first.first_nonspace, last.line_end)),
    };
    proof {
        node.view_children();
    }
    Ok(Some((node, consumed)))
}

/// The default rule: a paragraph from `line` on.
pub fn run_paragraph(
    src: &Vec<char>,
    lines: &Vec<LineOffset>,
    line: usize,
    line_max: usize,
    context: &mut Context,
) -> (result: Result<Option<(Node, usize)>, AuthoringError>)
    requires
        lines_wf(src@, lines@),
        line < line_max <= lines.len(),
        has_room(old(context)@, block_room(src@, lines@, line as int)),
    ensures
        rule_agrees(
            result,
            old(context)@,
            final(context)@,
            paragraph_rule(src@, lines@, line as int, line_max as int, old(context)@),
        ),
        result is Ok ==> result->Ok_0 is Some,
        block_advances(
            result,
            old(context)@,
            final(context)@,
            src@,
            lines@,
            line as int,
            line_max as int,
        ),
        same_scope(old(context)@, final(context)@),
{
    let end = paragraph_extent(src, lines, line + 1, line_max, context);
    let first = lines[line];
    let last = lines[end - 1];
    proof {
        lemma_line_pos(src@, lines@, end - 1, end as int);
        if line < end - 1 {
            lemma_lines_ordered(src@, lines@, line as int, end - 1);
        }
        assert(lines@[line as int].line_start <= lines@[line as int].first_nonspace
            <= lines@[line as int].line_end);
    }
    make_paragraph(src, first, last, first.first_nonspace, end - line, context)
}

/// Tries the rules at `line`, in their order.
pub fn run_block_rules(
    src: &Vec<char>,
    lines: &Vec<LineOffset>,
    line: usize,
    line_max: usize,
    context: &mut Context,
) -> (result: Result<Option<(Node, usize)>, AuthoringError>)
    requires
        lines_wf(src@, lines@),
        line < line_max <= lines.len(),
        has_room(old(context)@, block_room(src@, lines@, line as int)),
    ensures
        rule_agrees(
            result,
            old(context)@,
            final(context)@,
            block_rule(src@, lines@, line as int, line_max as int, old(context)@),
        ),
        result is Ok ==> result->Ok_0 is Some,
        block_advances(
            result,
            old(context)@,
            final(context)@,
            src@,
            lines@,
            line as int,
            line_max as int,
        ),
        same_scope(old(context)@, final(context)@),
    decreases line_max - line, depth_left(old(context)@), 1int,
{
    match UtteranceSectionBlockScanner::run(src, lines, line, line_max, context) {
        Err(error) => {
            return Err(error);
        },
        Ok(Some(found)) => {
            return Ok(Some(found));
        },
        Ok(None) => {},
    }
    match UtteranceParagraphScanner::run(src, lines, line, line_max, context) {
        Err(error) => {
            return Err(error);
        },
        Ok(Some(found)) => {
            return Ok(Some(found));
        },
        Ok(None) => {},
    }
    run_paragraph(src, lines, line, line_max, context)
}

/// Reads the lines from `line` to `line_max`: the blocks they hold, in order.
///
/// The parse fails where a section opens with a short name that the registry
/// lacks, where a paragraph inside a section opens with another speaker's
/// short name, and where the inline pass fails.
pub fn tokenize_lines(
    src: &Vec<char>,
    lines: &Vec<LineOffset>,
    line: usize,
    line_max: usize,
    context: &mut Context,
) -> (result: Result<Vec<Node>, AuthoringError>)
    requires
        lines_wf(src@, lines@),
        line <= line_max <= lines.len(),
        has_room(old(context)@, block_room(src@, lines@, line as int)),
    ensures
        pass_agrees(
            result,
            final(context)@,
            block_nodes(src@, lines@, line as int, line_max as int, old(context)@),
        ),
        result is Ok ==> grows_within(
            old(context)@,
            final(context)@,
            line_pos(src@, lines@, line_max as int) - line_pos(src@, lines@, line as int),
        ),
        same_scope(old(context)@, final(context)@),
    decreases line_max - line, depth_left(old(context)@), 2int,
{
    let mut nodes: Vec<Node> = Vec::new();
    let mut current: usize = line;
    let ghost start = context@;
    assert(node_views(nodes@) =~= Seq::empty());
    while current < line_max
        invariant
            lines_wf(src@, lines@),
            line <= current <= line_max <= lines.len(),
            start == old(context)@,
            same_scope(start, context@),
            has_room(start, block_room(src@, lines@, line as int)),
            grows_within(
                start,
                context@,
                line_pos(src@, lines@, current as int) - line_pos(src@, lines@, line as int),
            ),
            block_nodes(src@, lines@, line as int, line_max as int, start) == block_pass(
                src@,
                lines@,
                current as int,
                line_max as int,
                context@,
                node_views(nodes@),
            ),
        decreases line_max - current,
    {
        proof {
            lemma_line_pos(src@, lines@, current as int, current + 1);
            if line < current {
                lemma_line_pos(src@, lines@, line as int, current as int);
            }
        }
        if lines[current].is_empty() {
            current = current + 1;
        } else {
            let ghost made = node_views(nodes@);
            match run_block_rules(src, lines, current, line_max, context) {
                Err(error) => {
                    return Err(error);
                },
                Ok(Some((node, consumed))) => {
                    nodes.push(node);
                    assert(node_views(nodes@) =~= made.push(node@));
                    proof {
                        lemma_line_pos(src@, lines@, current as int, current + consumed);
                    }
                    current = current + consumed;
                },
                Ok(None) => {
                    return Ok(nodes);
                },
            }
        }
    }
    Ok(nodes)
}

} // verus!
