//! From the parse tree to the output tree nothing is lost: what the passes
//! make has its place in the output, and the sidenotes leave the build as
//! they were numbered.

use vstd::prelude::*;
use crate::context::ContextView;
use crate::markdown::{failure, failure_among, materialize, materialize_all, ElementView};
use crate::markdown::block::{
    block_pass,
    block_rule,
    depth_left,
    paragraph_end,
    section_end,
    section_rule,
    utterance_paragraph_rule,
};
use crate::markdown::document::{document, output, root};
use crate::markdown::inline::{
    has_room,
    inline_pass,
    inline_rule,
    mention_rule,
    sidenote_rule,
    text_node,
    with_text,
};
use crate::markdown::lines::{lines_of, LineOffset};
use crate::markdown::mention::{missing, missing_among, resolved, resolved_all};
use crate::markdown::node::{NodeValueView, NodeView};
use crate::markdown::numbering::{counting, numbers, numbers_all, sidenotes_numbered};
use crate::markdown::sidenote::sidenote_at;
use crate::markdown::utterance::opener;
use crate::text::white_end;

verus! {

/// The children of an element; none for an element of a kind without.
pub open spec fn element_children(element: ElementView) -> Seq<ElementView> {
    match element {
        ElementView::Root { children } => children,
        ElementView::Heading { children, .. } => children,
        ElementView::Blockquote { children } => children,
        ElementView::OrderedList { children, .. } => children,
        ElementView::BulletList { children } => children,
        ElementView::ListItem { children } => children,
        ElementView::Paragraph { children } => children,
        ElementView::CodeInline { children } => children,
        ElementView::Emphasis { children } => children,
        ElementView::Strong { children } => children,
        ElementView::Strikethrough { children } => children,
        ElementView::Table { children, .. } => children,
        ElementView::TableBody { children } => children,
        ElementView::TableCell { children } => children,
        ElementView::TableHead { children } => children,
        ElementView::TableRow { children } => children,
        ElementView::Sidenote { children, .. } => children,
        ElementView::Utterance { children, .. } => children,
        _ => Seq::empty(),
    }
}

/// The numbers of the sidenotes of `element`, in the order of the document.
pub open spec fn element_numbers(element: ElementView) -> Seq<u32>
    decreases element, 0int,
{
    let own = match element {
        ElementView::Sidenote { position, .. } => seq![position],
        _ => Seq::empty(),
    };
    if element_children(element).len() == 0 {
        own
    } else {
        own + element_numbers_all(element_children(element))
    }
}

/// The numbers of the sidenotes of `elements`, in the order of the document.
pub open spec fn element_numbers_all(elements: Seq<ElementView>) -> Seq<u32>
    decreases elements, 1int,
{
    if elements.len() == 0 {
        Seq::empty()
    } else {
        element_numbers_all(elements.drop_last()) + element_numbers(elements.last())
    }
}

/// Whether the output keeps the children of a node of this kind.
pub open spec fn keeps_children(value: NodeValueView) -> bool {
    match value {
        NodeValueView::Root => true,
        NodeValueView::AtxHeading { .. } => true,
        NodeValueView::SetextHeading { .. } => true,
        NodeValueView::Blockquote => true,
        NodeValueView::OrderedList { .. } => true,
        NodeValueView::BulletList => true,
        NodeValueView::ListItem => true,
        NodeValueView::Paragraph => true,
        NodeValueView::CodeInline => true,
        NodeValueView::Em => true,
        NodeValueView::Strong => true,
        NodeValueView::Strikethrough => true,
        NodeValueView::Table { .. } => true,
        NodeValueView::TableBody => true,
        NodeValueView::TableCell => true,
        NodeValueView::TableHead => true,
        NodeValueView::TableRow => true,
        NodeValueView::Sidenote(_) => true,
        NodeValueView::Utterance(_) => true,
        _ => false,
    }
}

/// Whether nothing of `node` is lost in the output: every node in it is of
/// a kind that the library knows, and every node that has children is of a
/// kind whose children the output keeps.
pub open spec fn kept(node: NodeView) -> bool
    decreases node,
{
    &&& !(node.value is Other)
    &&& keeps_children(node.value) || node.children.len() == 0
    &&& forall|i: int| 0 <= i < node.children.len() ==> kept(#[trigger] node.children[i])
}

/// Whether nothing of `nodes` is lost in the output.
pub open spec fn all_kept(nodes: Seq<NodeView>) -> bool {
    forall|i: int| 0 <= i < nodes.len() ==> kept(#[trigger] nodes[i])
}

/// The output of a tree of which nothing is lost numbers the sidenotes as
/// the tree does.
pub proof fn lemma_materialize_numbers(node: NodeView)
    requires
        kept(node),
    ensures
        element_numbers(materialize(node)) == numbers(node),
    decreases node, 0int,
{
    lemma_materialize_numbers_all(node.children);
    let element = materialize(node);
    if keeps_children(node.value) {
        assert(element_children(element) == materialize_all(node.children));
    } else {
        assert(node.children.len() == 0);
        assert(element_children(element).len() == 0) by {
            assert(materialize_all(node.children).len() == 0);
        }
        assert(numbers_all(node.children) =~= Seq::<u32>::empty());
        assert(element_numbers_all(element_children(element)) =~= Seq::<u32>::empty());
    }
}

/// The outputs of trees of which nothing is lost number the sidenotes as the
/// trees do.
pub proof fn lemma_materialize_numbers_all(nodes: Seq<NodeView>)
    requires
        all_kept(nodes),
    ensures
        element_numbers_all(materialize_all(nodes)) == numbers_all(nodes),
    decreases nodes, 1int,
{
    if nodes.len() > 0 {
        let shorter = nodes.drop_last();
        assert forall|i: int| 0 <= i < shorter.len() implies kept(#[trigger] shorter[i]) by {
            assert(shorter[i] == nodes[i]);
        }
        lemma_materialize_numbers_all(shorter);
        assert(kept(nodes[nodes.len() - 1]));
        lemma_materialize_numbers(nodes.last());
        assert(materialize_all(nodes).drop_last() =~= materialize_all(shorter));
        assert(materialize_all(nodes).last() == materialize(nodes.last()));
    } else {
        assert(materialize_all(nodes) =~= Seq::<ElementView>::empty());
    }
}

/// Giving the mentions their titles loses nothing and numbers no sidenote
/// anew.
pub proof fn lemma_resolved_numbers(node: NodeView, known: Map<Seq<char>, Seq<char>>)
    requires
        kept(node),
    ensures
        kept(resolved(node, known)),
        numbers(resolved(node, known)) == numbers(node),
    decreases node, 0int,
{
    lemma_resolved_numbers_all(node.children, known);
    let made = resolved(node, known);
    assert forall|i: int| 0 <= i < made.children.len() implies kept(
        #[trigger] made.children[i],
    ) by {
        assert(made.children[i] == resolved_all(node.children, known)[i]);
    }
}

/// Giving the mentions their titles loses nothing and numbers no sidenote
/// anew.
pub proof fn lemma_resolved_numbers_all(nodes: Seq<NodeView>, known: Map<Seq<char>, Seq<char>>)
    requires
        all_kept(nodes),
    ensures
        all_kept(resolved_all(nodes, known)),
        numbers_all(resolved_all(nodes, known)) == numbers_all(nodes),
    decreases nodes, 1int,
{
    let made = resolved_all(nodes, known);
    assert forall|i: int| 0 <= i < made.len() implies kept(#[trigger] made[i]) by {
        assert(kept(nodes[i]));
        lemma_resolved_numbers(nodes[i], known);
    }
    if nodes.len() > 0 {
        let shorter = nodes.drop_last();
        assert forall|i: int| 0 <= i < shorter.len() implies kept(#[trigger] shorter[i]) by {
            assert(shorter[i] == nodes[i]);
        }
        lemma_resolved_numbers_all(shorter, known);
        assert(kept(nodes[nodes.len() - 1]));
        lemma_resolved_numbers(nodes.last(), known);
        assert(made.drop_last() =~= resolved_all(shorter, known));
        assert(made.last() == resolved(nodes.last(), known));
    } else {
        assert(made =~= Seq::<NodeView>::empty());
    }
}

/// A tree of which nothing is lost, and whose mentions all have their
/// titles in the cache, is converted whole once the titles are given.
pub proof fn lemma_resolved_converts(node: NodeView, known: Map<Seq<char>, Seq<char>>)
    requires
        kept(node),
        missing(node, known) is None,
    ensures
        failure(resolved(node, known)) is None,
    decreases node, 0int,
{
    lemma_resolved_converts_among(node.children, 0, known);
}

/// Trees of which nothing is lost, and whose mentions all have their titles
/// in the cache, are converted whole once the titles are given.
pub proof fn lemma_resolved_converts_among(
    nodes: Seq<NodeView>,
    from: int,
    known: Map<Seq<char>, Seq<char>>,
)
    requires
        all_kept(nodes),
        0 <= from,
        missing_among(nodes, from, known) is None,
    ensures
        failure_among(resolved_all(nodes, known), from) is None,
    decreases nodes, nodes.len() - from,
{
    if from < nodes.len() {
        assert(kept(nodes[from]));
        lemma_resolved_converts(nodes[from], known);
        lemma_resolved_converts_among(nodes, from + 1, known);
    }
}

/// Nothing of what the inline pass makes is lost in the output.
pub proof fn lemma_inline_kept(
    src: Seq<char>,
    pos: int,
    pos_max: int,
    level: nat,
    context: ContextView,
    text_from: int,
    made: Seq<NodeView>,
)
    requires
        all_kept(made),
        inline_pass(src, pos, pos_max, level, context, text_from, made) is Ok,
    ensures
        all_kept(inline_pass(src, pos, pos_max, level, context, text_from, made)->Ok_0.nodes),
    decreases pos_max - pos, 2int,
{
    if pos >= pos_max {
        lemma_text_kept(made, src, text_from, pos);
    } else {
        match inline_rule(src, pos, pos_max, level, context) {
            Ok(Some(found)) => {
                if 1 <= found.consumed <= pos_max - pos {
                    lemma_rule_kept(src, pos, pos_max, level, context);
                    lemma_text_kept(made, src, text_from, pos);
                    let flushed = with_text(made, src, text_from, pos);
                    let next = flushed.push(found.node);
                    assert forall|i: int| 0 <= i < next.len() implies kept(#[trigger] next[i]) by {
                        if i < flushed.len() {
                            assert(next[i] == flushed[i]);
                        }
                    }
                    lemma_inline_kept(
                        src,
                        pos + found.consumed,
                        pos_max,
                        level,
                        found.context,
                        pos + found.consumed,
                        next,
                    );
                }
            },
            Ok(None) => {
                lemma_inline_kept(src, pos + 1, pos_max, level, context, text_from, made);
            },
            Err(_) => {},
        }
    }
}

/// Text behind nodes of which nothing is lost loses nothing.
proof fn lemma_text_kept(made: Seq<NodeView>, src: Seq<char>, from: int, to: int)
    requires
        all_kept(made),
    ensures
        all_kept(with_text(made, src, from, to)),
{
    let next = with_text(made, src, from, to);
    assert forall|i: int| 0 <= i < next.len() implies kept(#[trigger] next[i]) by {
        if i < made.len() {
            assert(next[i] == made[i]);
        } else {
            assert(next[i] == text_node(src, from, to));
        }
    }
}

/// Nothing of what an inline rule finds is lost in the output.
proof fn lemma_rule_kept(src: Seq<char>, pos: int, pos_max: int, level: nat, context: ContextView)
    requires
        inline_rule(src, pos, pos_max, level, context) matches Ok(Some(_)),
    ensures
        kept(inline_rule(src, pos, pos_max, level, context)->Ok_0->Some_0.node),
    decreases pos_max - pos, 1int,
{
    if mention_rule(src, pos, pos_max, level, context) is Some {
    } else if sidenote_rule(src, pos, pos_max, level, context) matches Ok(Some(found)) {
        let close = sidenote_at(src, pos, pos_max)->Some_0;
        let position = (context.sidenotes + 1) as u32;
        let numbered = ContextView { sidenotes: position, ..context };
        lemma_inline_kept(src, pos + 1, close, level + 1, numbered, pos + 1, Seq::empty());
    } else {
    }
}

/// Nothing of what the block pass makes is lost in the output.
pub proof fn lemma_block_kept(
    src: Seq<char>,
    lines: Seq<LineOffset>,
    line: int,
    line_max: int,
    context: ContextView,
    made: Seq<NodeView>,
)
    requires
        all_kept(made),
        block_pass(src, lines, line, line_max, context, made) is Ok,
    ensures
        all_kept(block_pass(src, lines, line, line_max, context, made)->Ok_0.nodes),
    decreases line_max - line, depth_left(context), 2int,
{
    if 0 <= line < line_max <= lines.len() {
        if lines[line].blank() {
            lemma_block_kept(src, lines, line + 1, line_max, context, made);
        } else {
            match block_rule(src, lines, line, line_max, context) {
                Ok(Some(found)) => {
                    if 1 <= found.consumed <= line_max - line {
                        lemma_block_rule_kept(src, lines, line, line_max, context);
                        let next = made.push(found.node);
                        assert forall|i: int| 0 <= i < next.len() implies kept(
                            #[trigger] next[i],
                        ) by {
                            if i < made.len() {
                                assert(next[i] == made[i]);
                            }
                        }
                        lemma_block_kept(
                            src,
                            lines,
                            line + found.consumed,
                            line_max,
                            found.context,
                            next,
                        );
                    }
                },
                _ => {},
            }
        }
    }
}

/// Nothing of what a block rule finds is lost in the output.
proof fn lemma_block_rule_kept(
    src: Seq<char>,
    lines: Seq<LineOffset>,
    line: int,
    line_max: int,
    context: ContextView,
)
    requires
        block_rule(src, lines, line, line_max, context) matches Ok(Some(_)),
    ensures
        kept(block_rule(src, lines, line, line_max, context)->Ok_0->Some_0.node),
    decreases line_max - line, depth_left(context), 1int,
{
    let found = block_rule(src, lines, line, line_max, context)->Ok_0->Some_0;
    if section_rule(src, lines, line, line_max, context) matches Ok(Some(_)) {
        let shortname = opener(src, lines[line], context.max_indent)->Some_0;
        let to = section_end(src, lines, line + 1, line_max, shortname, context.max_indent);
        let open = ContextView { speaker: Some(shortname), ..context };
        lemma_block_kept(src, lines, line, to, open, Seq::empty());
    } else {
        let end = paragraph_end(src, lines, line + 1, line_max, context);
        let first = lines[line];
        let last = lines[end - 1];
        if utterance_paragraph_rule(src, lines, line, line_max, context) matches Ok(Some(_)) {
            let name = opener(src, first, context.max_indent)->Some_0;
            let from = white_end(src, first.first_nonspace + name.len() + 1, last.line_end as int);
            lemma_inline_kept(src, from, last.line_end as int, 0, context, from, Seq::empty());
        } else {
            let from = first.first_nonspace as int;
            lemma_inline_kept(src, from, last.line_end as int, 0, context, from, Seq::empty());
        }
    }
}

/// Nothing of the parse tree of a document is lost in the output: what the
/// passes make is never refused by the conversion.
pub proof fn tree_is_kept(src: Seq<char>, context: ContextView)
    requires
        document(src, context) is Ok,
    ensures
        kept(root(src, document(src, context)->Ok_0.nodes)),
{
    lemma_block_kept(src, lines_of(src), 0, lines_of(src).len() as int, context, Seq::empty());
}

/// A document that is built has in its output tree the sidenotes of its
/// text, numbered in the order of the document from the number behind the
/// last one that the context has given: with a new context 1, 2, 3 and so
/// on, no number left out and none given twice.
pub proof fn output_sidenotes_numbered(
    src: Seq<char>,
    context: ContextView,
    known: Map<Seq<char>, Seq<char>>,
)
    requires
        has_room(context, src.len() as int + 1),
        output(src, context, known) is Ok,
    ensures
        ({
            let outcome = document(src, context)->Ok_0;
            &&& document(src, context) is Ok
            &&& context.sidenotes <= outcome.context.sidenotes
            &&& element_numbers(output(src, context, known)->Ok_0) == counting(
                context.sidenotes + 1,
                outcome.context.sidenotes - context.sidenotes,
            )
        }),
{
    let outcome = document(src, context)->Ok_0;
    let tree = root(src, outcome.nodes);
    sidenotes_numbered(src, context);
    tree_is_kept(src, context);
    lemma_resolved_numbers(tree, known);
    lemma_materialize_numbers(resolved(tree, known));
}

} // verus!
