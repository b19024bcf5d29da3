//! The cursors of the two passes, and what the rules may ask of them: to
//! read a part of the text into a node of their own, and to ask whether a
//! line would start a block.

use vstd::prelude::*;
use crate::context::{Context, ContextView};
use crate::error::{AuthoringError, AuthoringErrorView};
use crate::markdown::block::{block_nodes, block_room, claimed, tokenize_lines};
use crate::markdown::inline::{has_room, inline_nodes, tokenize_range, Outcome};
use crate::markdown::lines::{lines_of, lines_wf, split_lines, LineOffset};
use crate::markdown::node::{node_views, Node, NodeView};
use crate::markdown::utterance::opener_len;

verus! {

/// The cursor of the inline pass: the text, the range that is being read,
/// how deep inside sidenotes the pass is, and the node that it fills.
#[derive(Debug)]
pub struct InlineState {
    pub src: Vec<char>,
    pub pos: usize,
    pub pos_max: usize,
    pub level: u32,
    pub node: Node,
}

/// The cursor of the block pass: the text and its lines, the lines that are
/// being read, and the node that the pass fills.
#[derive(Debug)]
pub struct BlockState {
    pub src: Vec<char>,
    pub line_offsets: Vec<LineOffset>,
    pub line: usize,
    pub line_max: usize,
    pub node: Node,
}

/// `node` with `nodes` behind its children.
pub open spec fn with_children(node: NodeView, nodes: Seq<NodeView>) -> NodeView {
    NodeView { children: node.children + nodes, ..node }
}

/// Whether `result`, with the context `after` it, is `node` with what
/// `expected` says behind its children.
pub open spec fn filled(
    result: Result<Node, AuthoringError>,
    after: ContextView,
    node: NodeView,
    expected: Result<Outcome, AuthoringErrorView>,
) -> bool {
    match expected {
        Err(e) => result matches Err(error) && error@ == e,
        Ok(outcome) => result matches Ok(made) && made@ == with_children(node, outcome.nodes)
            && after == outcome.context,
    }
}

/// Reading a part of the text into a node, from inside a rule.
pub trait Tokenize: Sized {
    /// Whether the range from `from` to `to` can be read.
    spec fn admits(&self, from: usize, to: usize, context: ContextView) -> bool;

    /// What the pass makes of the range from `from` to `to`.
    spec fn pass(&self, from: usize, to: usize, context: ContextView) -> Result<
        Outcome,
        AuthoringErrorView,
    >;

    /// Reads the range from `from` to `to` and puts what it holds behind the
    /// children of `node`. The cursor is left as it was, whether the parse
    /// succeeds or fails.
    fn tokenize(&mut self, from: usize, to: usize, node: Node, context: &mut Context) -> (result:
        Result<Node, AuthoringError>)
        requires
            old(self).admits(from, to, old(context)@),
        ensures
            *final(self) == *old(self),
            filled(result, final(context)@, node@, old(self).pass(from, to, old(context)@)),
    ;
}

/// Puts `nodes` behind the children of `node`.
fn fill(node: Node, nodes: Vec<Node>) -> (made: Node)
    ensures
        made@ == with_children(node@, node_views(nodes@)),
{
    let mut made = node;
    let mut nodes = nodes;
    let ghost before = made;
    let ghost added = nodes@;
    made.children.append(&mut nodes);
    proof {
        before.view_children();
        made.view_children();
        assert(node_views(made.children@) =~= node_views(before.children@) + node_views(added));
    }
    made
}

impl Tokenize for InlineState {
    open spec fn admits(&self, from: usize, to: usize, context: ContextView) -> bool {
        from <= to <= self.src@.len() && has_room(context, to - from)
    }

    open spec fn pass(&self, from: usize, to: usize, context: ContextView) -> Result<
        Outcome,
        AuthoringErrorView,
    > {
        inline_nodes(self.src@, from as int, to as int, self.level as nat, context)
    }

    fn tokenize(&mut self, from: usize, to: usize, node: Node, context: &mut Context) -> (result:
        Result<Node, AuthoringError>) {
        let mut node = node;
        std::mem::swap(&mut self.node, &mut node);
        let pos = self.pos;
        let pos_max = self.pos_max;
        self.pos = from;
        self.pos_max = to;
        let made = tokenize_range(&self.src, self.pos, self.pos_max, self.level, context);
        self.pos = pos;
        self.pos_max = pos_max;
        std::mem::swap(&mut self.node, &mut node);
        match made {
            Ok(nodes) => Ok(fill(node, nodes)),
            Err(error) => Err(error),
        }
    }
}

impl Tokenize for BlockState {
    open spec fn admits(&self, from: usize, to: usize, context: ContextView) -> bool {
        &&& lines_wf(self.src@, self.line_offsets@)
        &&& from <= to <= self.line_offsets@.len()
        &&& has_room(context, block_room(self.src@, self.line_offsets@, from as int))
    }

    open spec fn pass(&self, from: usize, to: usize, context: ContextView) -> Result<
        Outcome,
        AuthoringErrorView,
    > {
        block_nodes(self.src@, self.line_offsets@, from as int, to as int, context)
    }

    fn tokenize(&mut self, from: usize, to: usize, node: Node, context: &mut Context) -> (result:
        Result<Node, AuthoringError>) {
        let mut node = node;
        std::mem::swap(&mut self.node, &mut node);
        let line = self.line;
        let line_max = self.line_max;
        self.line = from;
        self.line_max = to;
        let made = tokenize_lines(&self.src, &self.line_offsets, self.line, self.line_max, context);
        self.line = line;
        self.line_max = line_max;
        std::mem::swap(&mut self.node, &mut node);
        match made {
            Ok(nodes) => Ok(fill(node, nodes)),
            Err(error) => Err(error),
        }
    }
}

/// Asking whether a line would start a block, from inside a rule.
pub trait OtherLine: Sized {
    /// Whether the line `line` can be asked about.
    spec fn has_line(&self, line: usize) -> bool;

    /// Whether a rule that can interrupt a paragraph claims the line `line`.
    spec fn claims(&self, line: usize, context: ContextView) -> bool;

    /// Tests whether a rule claims the line `line`. The cursor is left as it
    /// was.
    fn test_rules_at_other_line(&mut self, line: usize, context: &Context) -> (claimed: bool)
        requires
            old(self).has_line(line),
        ensures
            *final(self) == *old(self),
            claimed == old(self).claims(line, context@),
    ;
}

impl OtherLine for BlockState {
    open spec fn has_line(&self, line: usize) -> bool {
        lines_wf(self.src@, self.line_offsets@) && line < self.line_offsets@.len()
    }

    open spec fn claims(&self, line: usize, context: ContextView) -> bool {
        claimed(self.src@, self.line_offsets@[line as int], context)
    }

    fn test_rules_at_other_line(&mut self, line: usize, context: &Context) -> (claimed: bool) {
        let current = self.line;
        self.line = line;
        let at = self.line_offsets[self.line];
        assert(at.line_start <= at.first_nonspace <= at.line_end <= self.src@.len());
        let test = context.speaker.is_none() && opener_len(
            &self.src,
            at,
            context.max_indent,
        ).is_some();
        self.line = current;
        test
    }
}

impl InlineState {
    /// A cursor over the whole of `src`, outside any sidenote.
    pub fn new(src: Vec<char>, node: Node) -> (state: Self)
        ensures
            state.src == src,
            state.node == node,
            state.pos == 0,
            state.pos_max == src@.len(),
            state.level == 0,
    {
        let pos_max = src.len();
        InlineState { src, pos: 0, pos_max, level: 0, node }
    }
}

impl BlockState {
    /// A cursor over all the lines of `src`.
    pub fn new(src: Vec<char>, node: Node) -> (state: Self)
        ensures
            state.src == src,
            state.node == node,
            state.line_offsets@ == lines_of(src@),
            lines_wf(src@, state.line_offsets@),
            state.line == 0,
            state.line_max == state.line_offsets@.len(),
    {
        let line_offsets = split_lines(&src);
        let line_max = line_offsets.len();
        BlockState { src, line_offsets, line: 0, line_max, node }
    }
}

} // verus!
