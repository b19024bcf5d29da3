//! The numbering of sidenotes: in the order of the document, from the number
//! behind the last one given, without a gap.

use vstd::prelude::*;
use crate::context::ContextView;
use crate::markdown::block::{
    block_pass,
    block_room,
    block_rule,
    depth_left,
    lemma_line_pos,
    lemma_paragraph_end,
    line_pos,
    paragraph_end,
    section_end,
    section_rule,
    utterance_paragraph_rule,
};
use crate::markdown::document::{document, root};
use crate::markdown::inline::{
    has_room,
    inline_pass,
    inline_rule,
    mention_rule,
    same_scope,
    sidenote_rule,
    text_node,
    with_text,
};
use crate::markdown::lines::{lemma_lines_from, lemma_lines_ordered, lines_of, lines_wf, LineOffset};
use crate::markdown::node::{NodeValueView, NodeView};
use crate::markdown::sidenote::sidenote_at;
use crate::markdown::timecode::{digits_end, lemma_digits_end};
use crate::markdown::utterance::{lemma_name_end, opener};
use crate::text::{lemma_find, lemma_white_end, white_end};

verus! {

/// The numbers of the sidenotes of `node`, in the order of the document.
pub open spec fn numbers(node: NodeView) -> Seq<u32>
    decreases node, 0int,
{
    let own = match node.value {
        NodeValueView::Sidenote(sidenote) => seq![sidenote.position],
        _ => Seq::empty(),
    };
    own + numbers_all(node.children)
}

/// The numbers of the sidenotes of `nodes`, in the order of the document.
pub open spec fn numbers_all(nodes: Seq<NodeView>) -> Seq<u32>
    decreases nodes, 1int,
{
    if nodes.len() == 0 {
        Seq::empty()
    } else {
        numbers_all(nodes.drop_last()) + numbers(nodes.last())
    }
}

/// The `count` numbers from `first` on.
pub open spec fn counting(first: int, count: int) -> Seq<u32> {
    Seq::new(count as nat, |i: int| (first + i) as u32)
}

/// The numbers of a sequence with one more node are the numbers of the
/// sequence and behind them those of the node.
pub proof fn lemma_numbers_push(nodes: Seq<NodeView>, node: NodeView)
    ensures
        numbers_all(nodes.push(node)) == numbers_all(nodes) + numbers(node),
{
    assert(nodes.push(node).drop_last() =~= nodes);
}

/// Text holds no sidenote.
pub proof fn lemma_numbers_text(nodes: Seq<NodeView>, src: Seq<char>, from: int, to: int)
    ensures
        numbers_all(with_text(nodes, src, from, to)) == numbers_all(nodes),
{
    if from < to {
        lemma_numbers_push(nodes, text_node(src, from, to));
        assert(numbers(text_node(src, from, to)) =~= Seq::<u32>::empty());
        assert(numbers_all(nodes) + Seq::<u32>::empty() =~= numbers_all(nodes));
    }
}

/// What the rules find at a place takes one character or more and no more
/// than are left; it numbers no more sidenotes and mentions than it takes
/// characters, none at all inside a sidenote, and its sidenotes go on from
/// the last number given.
pub proof fn lemma_rule_numbers(
    src: Seq<char>,
    pos: int,
    pos_max: int,
    level: nat,
    context: ContextView,
)
    requires
        0 <= pos < pos_max <= src.len(),
        has_room(context, pos_max - pos),
        inline_rule(src, pos, pos_max, level, context) matches Ok(Some(_)),
    ensures
        ({
            let found = inline_rule(src, pos, pos_max, level, context)->Ok_0->Some_0;
            &&& 1 <= found.consumed <= pos_max - pos
            &&& same_scope(context, found.context)
            &&& context.sidenotes <= found.context.sidenotes <= context.sidenotes + found.consumed
            &&& context.mentions <= found.context.mentions <= context.mentions + found.consumed
            &&& level > 0 ==> found.context == context
            &&& numbers(found.node) == counting(
                context.sidenotes + 1,
                found.context.sidenotes - context.sidenotes,
            )
        }),
    decreases pos_max - pos, 1int,
{
    let found = inline_rule(src, pos, pos_max, level, context)->Ok_0->Some_0;
    if mention_rule(src, pos, pos_max, level, context) is Some {
        lemma_find(src, '}', pos + 3, pos_max);
        assert(numbers(found.node) =~= counting(context.sidenotes + 1, 0));
    } else if sidenote_rule(src, pos, pos_max, level, context) matches Ok(Some(_)) {
        let close = sidenote_at(src, pos, pos_max)->Some_0;
        let position = (context.sidenotes + 1) as u32;
        let numbered = ContextView { sidenotes: position, ..context };
        lemma_inline_numbers(src, pos + 1, close, level + 1, numbered, pos + 1, Seq::empty());
        assert(numbers_all(Seq::<NodeView>::empty()) =~= Seq::<u32>::empty());
        assert(numbers(found.node) =~= counting(context.sidenotes + 1, 1));
    } else {
        let first = digits_end(src, pos + 1, pos_max);
        lemma_digits_end(src, pos + 1, pos_max);
        lemma_digits_end(src, first + 1, pos_max);
        let second = digits_end(src, first + 1, pos_max);
        if second < pos_max {
            lemma_digits_end(src, second + 1, pos_max);
        }
        assert(numbers(found.node) =~= counting(context.sidenotes + 1, 0));
    }
}

/// What the inline pass makes numbers its sidenotes from the last number
/// given on, in the order of the document and without a gap; inside a
/// sidenote it numbers nothing.
pub proof fn lemma_inline_numbers(
    src: Seq<char>,
    pos: int,
    pos_max: int,
    level: nat,
    context: ContextView,
    text_from: int,
    made: Seq<NodeView>,
)
    requires
        0 <= pos <= pos_max <= src.len(),
        has_room(context, pos_max - pos),
        inline_pass(src, pos, pos_max, level, context, text_from, made) is Ok,
    ensures
        ({
            let outcome = inline_pass(src, pos, pos_max, level, context, text_from, made)->Ok_0;
            &&& same_scope(context, outcome.context)
            &&& context.sidenotes <= outcome.context.sidenotes <= context.sidenotes + (pos_max
                - pos)
            &&& context.mentions <= outcome.context.mentions <= context.mentions + (pos_max - pos)
            &&& level > 0 ==> outcome.context == context
            &&& numbers_all(outcome.nodes) == numbers_all(made) + counting(
                context.sidenotes + 1,
                outcome.context.sidenotes - context.sidenotes,
            )
        }),
    decreases pos_max - pos, 2int,
{
    let outcome = inline_pass(src, pos, pos_max, level, context, text_from, made)->Ok_0;
    if pos >= pos_max {
        lemma_numbers_text(made, src, text_from, pos);
        assert(numbers_all(made) + counting(context.sidenotes + 1, 0) =~= numbers_all(made));
    } else {
        match inline_rule(src, pos, pos_max, level, context) {
            Err(_) => {},
            Ok(Some(found)) => {
                lemma_rule_numbers(src, pos, pos_max, level, context);
                let next = with_text(made, src, text_from, pos).push(found.node);
                lemma_numbers_text(made, src, text_from, pos);
                lemma_numbers_push(with_text(made, src, text_from, pos), found.node);
                lemma_inline_numbers(
                    src,
                    pos + found.consumed,
                    pos_max,
                    level,
                    found.context,
                    pos + found.consumed,
                    next,
                );
                let a = found.context.sidenotes - context.sidenotes;
                let b = outcome.context.sidenotes - found.context.sidenotes;
                assert(counting(context.sidenotes + 1, a) + counting(
                    found.context.sidenotes + 1,
                    b,
                ) =~= counting(context.sidenotes + 1, a + b));
                assert((numbers_all(made) + counting(context.sidenotes + 1, a)) + counting(
                    found.context.sidenotes + 1,
                    b,
                ) =~= numbers_all(made) + counting(context.sidenotes + 1, a + b));
            },
            Ok(None) => {
                lemma_inline_numbers(src, pos + 1, pos_max, level, context, text_from, made);
            },
        }
    }
}

/// What the rules find at a line takes one line or more and no more than
/// are left; it numbers no more sidenotes and mentions than its lines have
/// characters, and its sidenotes go on from the last number given.
pub proof fn lemma_block_rule_numbers(
    src: Seq<char>,
    lines: Seq<LineOffset>,
    line: int,
    line_max: int,
    context: ContextView,
)
    requires
        lines_wf(src, lines),
        0 <= line < line_max <= lines.len(),
        has_room(context, block_room(src, lines, line)),
        block_rule(src, lines, line, line_max, context) matches Ok(Some(_)),
    ensures
        ({
            let found = block_rule(src, lines, line, line_max, context)->Ok_0->Some_0;
            let room = line_pos(src, lines, line + found.consumed) - line_pos(src, lines, line);
            &&& 1 <= found.consumed <= line_max - line
            &&& same_scope(context, found.context)
            &&& context.sidenotes <= found.context.sidenotes <= context.sidenotes + room
            &&& context.mentions <= found.context.mentions <= context.mentions + room
            &&& numbers(found.node) == counting(
                context.sidenotes + 1,
                found.context.sidenotes - context.sidenotes,
            )
        }),
    decreases line_max - line, depth_left(context), 1int,
{
    let found = block_rule(src, lines, line, line_max, context)->Ok_0->Some_0;
    let first = lines[line];
    assert(first.line_start <= first.first_nonspace <= first.line_end <= src.len());
    if section_rule(src, lines, line, line_max, context) matches Ok(Some(_)) {
        let shortname = opener(src, first, context.max_indent)->Some_0;
        let to = section_end(src, lines, line + 1, line_max, shortname, context.max_indent);
        let open = ContextView { speaker: Some(shortname), ..context };
        lemma_block_numbers(src, lines, line, to, open, Seq::empty());
        assert(numbers_all(Seq::<NodeView>::empty()) =~= Seq::<u32>::empty());
        let inner = block_pass(src, lines, line, to, open, Seq::empty())->Ok_0;
        assert(numbers(found.node) =~= numbers_all(inner.nodes));
        assert(Seq::<u32>::empty() + counting(
            context.sidenotes + 1,
            inner.context.sidenotes - context.sidenotes,
        ) =~= counting(context.sidenotes + 1, inner.context.sidenotes - context.sidenotes));
    } else {
        let end = paragraph_end(src, lines, line + 1, line_max, context);
        lemma_paragraph_end(src, lines, line + 1, line_max, context);
        let last = lines[end - 1];
        assert(last.line_start <= last.first_nonspace <= last.line_end <= src.len());
        lemma_line_pos(src, lines, end - 1, end);
        if line < end - 1 {
            lemma_lines_ordered(src, lines, line, end - 1);
        }
        if utterance_paragraph_rule(src, lines, line, line_max, context) matches Ok(Some(_)) {
            let name = opener(src, first, context.max_indent)->Some_0;
            let text = src.subrange(first.first_nonspace as int, first.line_end as int);
            lemma_name_end(text, 0);
            let start = first.first_nonspace + name.len() + 1;
            lemma_white_end(src, start, last.line_end as int);
            let from = white_end(src, start, last.line_end as int);
            lemma_inline_numbers(src, from, last.line_end as int, 0, context, from, Seq::empty());
            let inline = inline_pass(
                src,
                from,
                last.line_end as int,
                0,
                context,
                from,
                Seq::empty(),
            )->Ok_0;
            assert(numbers_all(Seq::<NodeView>::empty()) =~= Seq::<u32>::empty());
            assert(numbers(found.node) =~= numbers_all(inline.nodes));
            assert(Seq::<u32>::empty() + counting(
                context.sidenotes + 1,
                inline.context.sidenotes - context.sidenotes,
            ) =~= counting(context.sidenotes + 1, inline.context.sidenotes - context.sidenotes));
        } else {
            let from = first.first_nonspace as int;
            lemma_inline_numbers(src, from, last.line_end as int, 0, context, from, Seq::empty());
            let inline = inline_pass(
                src,
                from,
                last.line_end as int,
                0,
                context,
                from,
                Seq::empty(),
            )->Ok_0;
            assert(numbers_all(Seq::<NodeView>::empty()) =~= Seq::<u32>::empty());
            assert(numbers(found.node) =~= numbers_all(inline.nodes));
            assert(Seq::<u32>::empty() + counting(
                context.sidenotes + 1,
                inline.context.sidenotes - context.sidenotes,
            ) =~= counting(context.sidenotes + 1, inline.context.sidenotes - context.sidenotes));
        }
    }
}

/// What the block pass makes numbers its sidenotes from the last number
/// given on, in the order of the document and without a gap.
pub proof fn lemma_block_numbers(
    src: Seq<char>,
    lines: Seq<LineOffset>,
    line: int,
    line_max: int,
    context: ContextView,
    made: Seq<NodeView>,
)
    requires
        lines_wf(src, lines),
        0 <= line <= line_max <= lines.len(),
        has_room(context, block_room(src, lines, line)),
        block_pass(src, lines, line, line_max, context, made) is Ok,
    ensures
        ({
            let outcome = block_pass(src, lines, line, line_max, context, made)->Ok_0;
            let room = line_pos(src, lines, line_max) - line_pos(src, lines, line);
            &&& same_scope(context, outcome.context)
            &&& context.sidenotes <= outcome.context.sidenotes <= context.sidenotes + room
            &&& context.mentions <= outcome.context.mentions <= context.mentions + room
            &&& numbers_all(outcome.nodes) == numbers_all(made) + counting(
                context.sidenotes + 1,
                outcome.context.sidenotes - context.sidenotes,
            )
        }),
    decreases line_max - line, depth_left(context), 2int,
{
    let outcome = block_pass(src, lines, line, line_max, context, made)->Ok_0;
    if line < line_max {
        lemma_line_pos(src, lines, line, line + 1);
        lemma_line_pos(src, lines, line, line_max);
        if lines[line].blank() {
            lemma_block_numbers(src, lines, line + 1, line_max, context, made);
        } else {
            match block_rule(src, lines, line, line_max, context) {
                Ok(Some(found)) => {
                    lemma_block_rule_numbers(src, lines, line, line_max, context);
                    lemma_line_pos(src, lines, line, line + found.consumed);
                    if line + found.consumed < line_max {
                        lemma_line_pos(src, lines, line + found.consumed, line_max);
                    }
                    lemma_numbers_push(made, found.node);
                    lemma_block_numbers(
                        src,
                        lines,
                        line + found.consumed,
                        line_max,
                        found.context,
                        made.push(found.node),
                    );
                    let a = found.context.sidenotes - context.sidenotes;
                    let b = outcome.context.sidenotes - found.context.sidenotes;
                    assert(counting(context.sidenotes + 1, a) + counting(
                        found.context.sidenotes + 1,
                        b,
                    ) =~= counting(context.sidenotes + 1, a + b));
                    assert((numbers_all(made) + counting(context.sidenotes + 1, a)) + counting(
                        found.context.sidenotes + 1,
                        b,
                    ) =~= numbers_all(made) + counting(context.sidenotes + 1, a + b));
                },
                _ => {
                    assert(numbers_all(made) + counting(context.sidenotes + 1, 0) =~= numbers_all(
                        made,
                    ));
                },
            }
        }
    } else {
        assert(numbers_all(made) + counting(context.sidenotes + 1, 0) =~= numbers_all(made));
    }
}

/// The sidenotes of a document are numbered in the order of the document,
/// from the number behind the last one that the context has given: with a
/// new context from 1, with no number left out and none given twice. The
/// context then holds the last number given.
pub proof fn sidenotes_numbered(src: Seq<char>, context: ContextView)
    requires
        has_room(context, src.len() as int + 1),
        document(src, context) is Ok,
    ensures
        ({
            let outcome = document(src, context)->Ok_0;
            &&& context.sidenotes <= outcome.context.sidenotes
            &&& numbers(root(src, outcome.nodes)) == counting(
                context.sidenotes + 1,
                outcome.context.sidenotes - context.sidenotes,
            )
        }),
{
    let lines = lines_of(src);
    lemma_lines_from(src, 0);
    lemma_block_numbers(src, lines, 0, lines.len() as int, context, Seq::empty());
    let outcome = document(src, context)->Ok_0;
    assert(numbers_all(Seq::<NodeView>::empty()) =~= Seq::<u32>::empty());
    assert(numbers(root(src, outcome.nodes)) =~= numbers_all(outcome.nodes));
    assert(Seq::<u32>::empty() + counting(
        context.sidenotes + 1,
        outcome.context.sidenotes - context.sidenotes,
    ) =~= counting(context.sidenotes + 1, outcome.context.sidenotes - context.sidenotes));
}

} // verus!
