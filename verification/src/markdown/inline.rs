//! The inline pass: what a run of text holds, in order. At each place the
//! rules are tried, mention before sidenote before timecode; what no rule
//! claims is text.
//!
//! The pass knows these three rules and nothing else of Markdown. Emphasis,
//! links and code spans are text to it, and a line end within a paragraph
//! stays in the text as the line feed it is. So a `}` closes a sidenote
//! wherever it stands, also where a parser of Markdown would read it as a
//! part of a code span, and what stands between the braces of a sidenote is
//! read for timecodes only. A host parser that knows more of Markdown tries
//! the rules one by one among its own, through `scan` and `run` of each
//! rule, and reads what stands inside a sidenote itself.

use vstd::prelude::*;
use crate::context::{Context, ContextView};
use crate::error::{AuthoringError, AuthoringErrorView};
use crate::markdown::github::{mention_at, GitHubIssueDeclarationView, GitHubIssueInlineScanner};
use crate::markdown::node::{node_views, Node, NodeValue, NodeValueView, NodeView};
use crate::markdown::sidenote::{sidenote_at, InlineSidenote, SidenodeInlineScanner};
use crate::markdown::timecode::{
    parsed_url,
    timecode_at,
    InlineTimecodeView,
    TimecodeInlineScanner,
};
use crate::text::from_chars;

verus! {

/// What a rule found: the node, how many characters it takes, and the
/// context after it.
pub struct RuleMatch {
    pub node: NodeView,
    pub consumed: int,
    pub context: ContextView,
}

/// What a pass made: the nodes in order, and the context after them.
pub struct Outcome {
    pub nodes: Seq<NodeView>,
    pub context: ContextView,
}

/// A node without children that was read from `src[from..to]`.
pub open spec fn leaf(value: NodeValueView, from: int, to: int) -> NodeView {
    NodeView { value, children: Seq::empty(), srcmap: Some((from as usize, to as usize)) }
}

/// The text node for `src[from..to]`.
pub open spec fn text_node(src: Seq<char>, from: int, to: int) -> NodeView {
    leaf(NodeValueView::Text { content: src.subrange(from, to) }, from, to)
}

/// `nodes`, and behind them the text `src[from..to]` where that is not empty.
pub open spec fn with_text(nodes: Seq<NodeView>, src: Seq<char>, from: int, to: int) -> Seq<
    NodeView,
> {
    if from < to {
        nodes.push(text_node(src, from, to))
    } else {
        nodes
    }
}

/// The timecode rule at `pos`. A timecode needs the document's source: where
/// the context names none, or names what is no absolute URL, the parse fails.
pub open spec fn timecode_rule(src: Seq<char>, pos: int, pos_max: int, context: ContextView)
    -> Result<Option<RuleMatch>, AuthoringErrorView> {
    match timecode_at(src, pos, pos_max) {
        None => Ok(None),
        Some(span) => match context.source_url {
            None => Err(AuthoringErrorView::MissingSourceUrl { document: context.document }),
            Some(source) => match parsed_url(source) {
                None => Err(
                    AuthoringErrorView::InvalidSourceUrl {
                        url: source,
                        document: context.document,
                    },
                ),
                Some(url) => Ok(
                    Some(
                        RuleMatch {
                            node: leaf(
                                NodeValueView::Timecode(
                                    InlineTimecodeView {
                                        url,
                                        hours: span.hours,
                                        minutes: span.minutes,
                                        seconds: span.seconds,
                                    },
                                ),
                                pos,
                                pos + span.consumed,
                            ),
                            consumed: span.consumed as int,
                            context,
                        },
                    ),
                ),
            },
        },
    }
}

/// The mention rule at `pos`: outside any sidenote, a mention takes the next
/// mention number.
pub open spec fn mention_rule(
    src: Seq<char>,
    pos: int,
    pos_max: int,
    level: nat,
    context: ContextView,
) -> Option<RuleMatch> {
    match mention_at(src, pos, pos_max) {
        Some(span) if level == 0 => {
            let position = (context.mentions + 1) as u32;
            Some(
                RuleMatch {
                    node: leaf(
                        NodeValueView::MentionDeclaration(
                            GitHubIssueDeclarationView { position, id: span.id },
                        ),
                        pos,
                        pos + span.consumed,
                    ),
                    consumed: span.consumed,
                    context: ContextView { mentions: position, ..context },
                },
            )
        },
        _ => None,
    }
}

/// The sidenote rule at `pos`: outside any sidenote, a sidenote takes the
/// next sidenote number, and what stands between its braces is read one level
/// further in.
pub open spec fn sidenote_rule(
    src: Seq<char>,
    pos: int,
    pos_max: int,
    level: nat,
    context: ContextView,
) -> Result<Option<RuleMatch>, AuthoringErrorView>
    decreases pos_max - pos, 0int,
{
    match sidenote_at(src, pos, pos_max) {
        Some(close) if level == 0 && pos < close < pos_max => {
            let position = (context.sidenotes + 1) as u32;
            let numbered = ContextView { sidenotes: position, ..context };
            match inline_pass(src, pos + 1, close, level + 1, numbered, pos + 1, Seq::empty()) {
                Err(e) => Err(e),
                Ok(interior) => Ok(
                    Some(
                        RuleMatch {
                            node: NodeView {
                                value: NodeValueView::Sidenote(InlineSidenote { position }),
                                children: interior.nodes,
                                srcmap: Some((pos as usize, (close + 1) as usize)),
                            },
                            consumed: close + 1 - pos,
                            context: interior.context,
                        },
                    ),
                ),
            }
        },
        _ => Ok(None),
    }
}

/// The rules at `pos`, in their order: the first that finds something
/// decides.
pub open spec fn inline_rule(
    src: Seq<char>,
    pos: int,
    pos_max: int,
    level: nat,
    context: ContextView,
) -> Result<Option<RuleMatch>, AuthoringErrorView>
    decreases pos_max - pos, 1int,
{
    match mention_rule(src, pos, pos_max, level, context) {
        Some(found) => Ok(Some(found)),
        None => match sidenote_rule(src, pos, pos_max, level, context) {
            Err(e) => Err(e),
            Ok(Some(found)) => Ok(Some(found)),
            Ok(None) => timecode_rule(src, pos, pos_max, context),
        },
    }
}

/// The pass over `src[pos..pos_max]`, behind the nodes `made` and the text
/// `src[text_from..pos]` that no rule has claimed.
pub open spec fn inline_pass(
    src: Seq<char>,
    pos: int,
    pos_max: int,
    level: nat,
    context: ContextView,
    text_from: int,
    made: Seq<NodeView>,
) -> Result<Outcome, AuthoringErrorView>
    decreases pos_max - pos, 2int,
{
    if pos >= pos_max {
        Ok(Outcome { nodes: with_text(made, src, text_from, pos), context })
    } else {
        match inline_rule(src, pos, pos_max, level, context) {
            Err(e) => Err(e),
            Ok(Some(found)) => if 1 <= found.consumed <= pos_max - pos {
                inline_pass(
                    src,
                    pos + found.consumed,
                    pos_max,
                    level,
                    found.context,
                    pos + found.consumed,
                    with_text(made, src, text_from, pos).push(found.node),
                )
            } else {
                Ok(Outcome { nodes: made, context })
            },
            Ok(None) => inline_pass(src, pos + 1, pos_max, level, context, text_from, made),
        }
    }
}

/// What the inline pass makes of `src[from..to]`.
pub open spec fn inline_nodes(
    src: Seq<char>,
    from: int,
    to: int,
    level: nat,
    context: ContextView,
) -> Result<Outcome, AuthoringErrorView> {
    inline_pass(src, from, to, level, context, from, Seq::empty())
}

/// Whether `result`, with the context `after` it, is what `expected` says. A
/// rule that finds nothing leaves the context as it was `before`.
pub open spec fn rule_agrees(
    result: Result<Option<(Node, usize)>, AuthoringError>,
    before: ContextView,
    after: ContextView,
    expected: Result<Option<RuleMatch>, AuthoringErrorView>,
) -> bool {
    match expected {
        Err(e) => result matches Err(error) && error@ == e,
        Ok(None) => result matches Ok(None) && after == before,
        Ok(Some(found)) => result matches Ok(Some(pair)) && pair.0@ == found.node && pair.1
            == found.consumed && after == found.context,
    }
}

/// Whether `result`, with the context `after` it, is what `expected` says.
pub open spec fn pass_agrees(
    result: Result<Vec<Node>, AuthoringError>,
    after: ContextView,
    expected: Result<Outcome, AuthoringErrorView>,
) -> bool {
    match expected {
        Err(e) => result matches Err(error) && error@ == e,
        Ok(outcome) => result matches Ok(nodes) && node_views(nodes@) == outcome.nodes && after
            == outcome.context,
    }
}

/// Whether the numbering can go on over `room` more characters without
/// leaving `u32`.
pub open spec fn has_room(context: ContextView, room: int) -> bool {
    context.sidenotes + room <= u32::MAX && context.mentions + room <= u32::MAX
}

/// Whether `after` differs from `before` in its numbers at most: a parse
/// changes nothing else of its context, whether it succeeds or fails.
pub open spec fn same_scope(before: ContextView, after: ContextView) -> bool {
    after == (ContextView { sidenotes: after.sidenotes, mentions: after.mentions, ..before })
}

/// Whether the numbers of `after` are those of `before` or up to `n` more.
pub open spec fn grows_within(before: ContextView, after: ContextView, n: int) -> bool {
    before.sidenotes <= after.sidenotes <= before.sidenotes + n && before.mentions
        <= after.mentions <= before.mentions + n
}

/// Whether what a rule found at a place with `room` characters left takes
/// one of them or more and no more than all, and numbers no more than it
/// takes.
pub open spec fn advances(
    result: Result<Option<(Node, usize)>, AuthoringError>,
    before: ContextView,
    after: ContextView,
    room: int,
    level: nat,
) -> bool {
    &&& result matches Ok(Some(pair)) ==> 1 <= pair.1 <= room && grows_within(
        before,
        after,
        pair.1 as int,
    )
    &&& result is Ok && level > 0 ==> after == before
}

/// A text node for `src[from..to]`.
fn make_text(src: &Vec<char>, from: usize, to: usize) -> (node: Node)
    requires
        from <= to <= src.len(),
    ensures
        node@ == text_node(src@, from as int, to as int),
{
    let mut node = Node::new(NodeValue::Text { content: from_chars(src, from, to) });
    node.srcmap = Some((from, to));
    proof {
        node.view_children();
    }
    assert(node@.children =~= Seq::empty());
    node
}

/// Tries the rules at `pos`, in their order.
pub fn run_rules(
    src: &Vec<char>,
    pos: usize,
    pos_max: usize,
    level: u32,
    context: &mut Context,
) -> (result: Result<Option<(Node, usize)>, AuthoringError>)
    requires
        pos < pos_max <= src.len(),
        has_room(old(context)@, pos_max - pos),
    ensures
        rule_agrees(
            result,
            old(context)@,
            final(context)@,
            inline_rule(src@, pos as int, pos_max as int, level as nat, old(context)@),
        ),
        advances(result, old(context)@, final(context)@, pos_max - pos, level as nat),
        same_scope(old(context)@, final(context)@),
    decreases pos_max - pos, 1int,
{
    match GitHubIssueInlineScanner::run(src, pos, pos_max, level, context) {
        Some(found) => {
            return Ok(Some(found));
        },
        None => {},
    }
    match SidenodeInlineScanner::run(src, pos, pos_max, level, context) {
        Err(error) => {
            return Err(error);
        },
        Ok(Some(found)) => {
            return Ok(Some(found));
        },
        Ok(None) => {},
    }
    TimecodeInlineScanner::run(src, pos, pos_max, context)
}

/// Reads `src[from..to]`: the nodes it holds, in order.
///
/// The parse fails where a timecode stands and the context has no source
/// that is an absolute URL.
pub fn tokenize_range(
    src: &Vec<char>,
    from: usize,
    to: usize,
    level: u32,
    context: &mut Context,
) -> (result: Result<Vec<Node>, AuthoringError>)
    requires
        from <= to <= src.len(),
        has_room(old(context)@, to - from),
    ensures
        pass_agrees(
            result,
            final(context)@,
            inline_nodes(src@, from as int, to as int, level as nat, old(context)@),
        ),
        result is Ok ==> grows_within(old(context)@, final(context)@, to - from),
        result is Ok && level > 0 ==> final(context)@ == old(context)@,
        same_scope(old(context)@, final(context)@),
    decreases to - from, 2int,
{
    let mut nodes: Vec<Node> = Vec::new();
    let mut pos: usize = from;
    let mut text_from: usize = from;
    let ghost start = context@;
    assert(node_views(nodes@) =~= Seq::empty());
    while pos < to
        invariant
            start == old(context)@,
            same_scope(start, context@),
            from <= text_from <= pos <= to <= src.len(),
            has_room(start, to - from),
            grows_within(start, context@, pos - from),
            level > 0 ==> context@ == start,
            inline_nodes(src@, from as int, to as int, level as nat, start) == inline_pass(
                src@,
                pos as int,
                to as int,
                level as nat,
                context@,
                text_from as int,
                node_views(nodes@),
            ),
        decreases to - pos,
    {
        let ghost before = context@;
        let ghost made = node_views(nodes@);
        match run_rules(src, pos, to, level, context) {
            Err(error) => {
                return Err(error);
            },
            Ok(Some((node, consumed))) => {
                if text_from < pos {
                    let text = make_text(src, text_from, pos);
                    nodes.push(text);
                }
                assert(node_views(nodes@) =~= with_text(made, src@, text_from as int, pos as int));
                let ghost flushed = node_views(nodes@);
                nodes.push(node);
                assert(node_views(nodes@) =~= flushed.push(node@));
                pos = pos + consumed;
                text_from = pos;
            },
            Ok(None) => {
                pos = pos + 1;
            },
        }
    }
    let ghost made = node_views(nodes@);
    if text_from < pos {
        let text = make_text(src, text_from, pos);
        nodes.push(text);
    }
    assert(node_views(nodes@) =~= with_text(made, src@, text_from as int, pos as int));
    Ok(nodes)
}

} // verus!
