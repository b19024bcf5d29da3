//! Sidenotes: `{` ... `}`, a remark set in the margin and numbered in document
//! order.

use vstd::prelude::*;
use crate::context::{Context, ContextView};
use crate::error::{AuthoringError, AuthoringErrorView};
use crate::markdown::inline::{
    has_room,
    inline_nodes,
    inline_pass,
    inline_rule,
    rule_agrees,
    same_scope,
    sidenote_rule,
    text_node,
    tokenize_range,
    with_text,
    Outcome,
    RuleMatch,
};
use crate::markdown::node::{Node, NodeValue, NodeView};
use crate::text::{decimal, find, find_char, lemma_find, push_decimal, white_space};

verus! {

/// A sidenote and its number in the document.
#[derive(Debug, Clone, Copy, PartialEq, Eq)]
pub struct InlineSidenote {
    pub position: u32,
}

impl InlineSidenote {
    /// The sidenote with the number `position`.
    pub fn new(position: u32) -> (note: Self)
        ensures
            note.position == position,
    {
        Self { position }
    }

    /// The name by which a page refers to the sidenote: `sidenote-` and its
    /// number.
    pub fn id(&self) -> (id: String)
        ensures
            id@ == "sidenote-"@ + decimal(self.position as nat),
    {
        let mut id = String::from_str("sidenote-");
        push_decimal(&mut id, self.position);
        id
    }
}

/// Where the sidenote that starts at `pos` closes, if one starts there and
/// ends before `pos_max`: `{`, one character or more, and the first `}` behind
/// the first of them; after the `}` comes white space, or nothing at all.
pub open spec fn sidenote_at(src: Seq<char>, pos: int, pos_max: int) -> Option<int> {
    if 0 <= pos && pos + 2 <= pos_max <= src.len() && src[pos] == '{' {
        let close = find(src, '}', pos + 2, pos_max);
        if close < pos_max && (close + 1 >= src.len() || white_space(src[close + 1])) {
            Some(close)
        } else {
            None
        }
    } else {
        None
    }
}

/// Looks for a sidenote that starts at `pos` and ends before `pos_max`:
/// where it closes.
pub fn scan(src: &Vec<char>, pos: usize, pos_max: usize) -> (close: Option<usize>)
    ensures
        match sidenote_at(src@, pos as int, pos_max as int) {
            Some(at) => close == Some(at as usize) && pos + 2 <= at < pos_max <= src.len(),
            None => close is None,
        },
{
    if pos_max > src.len() || pos_max < 2 || pos > pos_max - 2 {
        return None;
    }
    if src[pos] != '{' {
        return None;
    }
    let close = find_char(src, '}', pos + 2, pos_max);
    if close >= pos_max {
        return None;
    }
    if close + 1 < src.len() && !src[close + 1].is_whitespace() {
        return None;
    }
    Some(close)
}

/// A `{`, one character or more without a `}`, and a `}` before white space
/// or at the end of the text stand for a sidenote that closes at that `}`.
pub proof fn closed_brace_is_sidenote(src: Seq<char>, pos: int, close: int, pos_max: int)
    requires
        0 <= pos,
        pos + 2 <= close < pos_max <= src.len(),
        src[pos] == '{',
        src[close] == '}',
        forall|i: int| pos + 2 <= i < close ==> src[i] != '}',
        close + 1 == src.len() || white_space(src[close + 1]),
    ensures
        sidenote_at(src, pos, pos_max) == Some(close),
{
    lemma_find(src, '}', pos + 2, pos_max);
}

/// A `{` with no `}` behind it before the end of the range makes no node:
/// no rule finds anything at its place, so that it is read as text.
pub proof fn unclosed_brace_declines(
    src: Seq<char>,
    pos: int,
    pos_max: int,
    level: nat,
    context: ContextView,
)
    requires
        0 <= pos < pos_max <= src.len(),
        src[pos] == '{',
        forall|i: int| pos < i < pos_max ==> src[i] != '}',
    ensures
        sidenote_at(src, pos, pos_max) is None,
        inline_rule(src, pos, pos_max, level, context) == Ok::<
            Option<RuleMatch>,
            AuthoringErrorView,
        >(None),
{
    if pos + 3 <= pos_max {
        lemma_find(src, '}', pos + 3, pos_max);
    }
    if pos + 2 <= pos_max {
        lemma_find(src, '}', pos + 2, pos_max);
    }
}

/// Where a text holds no `}` and no `[`, no rule finds anything in it.
pub proof fn lemma_no_rule(src: Seq<char>, pos: int, pos_max: int, level: nat, context: ContextView)
    requires
        0 <= pos < pos_max <= src.len(),
        forall|i: int| pos <= i < pos_max ==> src[i] != '}' && src[i] != '[',
    ensures
        inline_rule(src, pos, pos_max, level, context) == Ok::<
            Option<RuleMatch>,
            AuthoringErrorView,
        >(None),
{
    if pos + 3 <= pos_max {
        lemma_find(src, '}', pos + 3, pos_max);
    }
    if pos + 2 <= pos_max {
        lemma_find(src, '}', pos + 2, pos_max);
    }
}

/// Where a text holds no `}` and no `[`, the pass behind the text
/// `src[text_from..pos]` makes one more text of it all.
proof fn lemma_plain_pass(
    src: Seq<char>,
    pos: int,
    pos_max: int,
    level: nat,
    context: ContextView,
    text_from: int,
    made: Seq<NodeView>,
)
    requires
        0 <= text_from <= pos <= pos_max <= src.len(),
        forall|i: int| pos <= i < pos_max ==> src[i] != '}' && src[i] != '[',
    ensures
        inline_pass(src, pos, pos_max, level, context, text_from, made) == Ok::<
            Outcome,
            AuthoringErrorView,
        >(Outcome { nodes: with_text(made, src, text_from, pos_max), context }),
    decreases pos_max - pos,
{
    if pos < pos_max {
        lemma_no_rule(src, pos, pos_max, level, context);
        lemma_plain_pass(src, pos + 1, pos_max, level, context, text_from, made);
    }
}

/// A text without `}` and `[` is read as one text, whatever else it holds:
/// a `{` that is never closed makes no sidenote, and stands in the text as
/// it was written.
pub proof fn unclosed_brace_is_text(
    src: Seq<char>,
    from: int,
    to: int,
    level: nat,
    context: ContextView,
)
    requires
        0 <= from < to <= src.len(),
        forall|i: int| from <= i < to ==> src[i] != '}' && src[i] != '[',
    ensures
        inline_nodes(src, from, to, level, context) == Ok::<Outcome, AuthoringErrorView>(
            Outcome { nodes: seq![text_node(src, from, to)], context },
        ),
{
    lemma_plain_pass(src, from, to, level, context, from, Seq::empty());
    assert(with_text(Seq::empty(), src, from, to) =~= seq![text_node(src, from, to)]);
}

/// The rule that reads sidenotes.
pub struct SidenodeInlineScanner;

impl SidenodeInlineScanner {
    /// Looks for a sidenote at `pos`, outside any sidenote. The note takes the
    /// next sidenote number; its children are what stands between the braces.
    pub fn run(
        src: &Vec<char>,
        pos: usize,
        pos_max: usize,
        level: u32,
        context: &mut Context,
    ) -> (result: Result<Option<(Node, usize)>, AuthoringError>)
        requires
            has_room(old(context)@, pos_max - pos),
        ensures
            rule_agrees(
                result,
                old(context)@,
                final(context)@,
                sidenote_rule(src@, pos as int, pos_max as int, level as nat, old(context)@),
            ),
            result matches Ok(Some(pair)) ==> 3 <= pair.1 <= pos_max - pos && final(context)@ == (
            ContextView { sidenotes: (old(context).sidenotes + 1) as u32, ..old(context)@ }),
            same_scope(old(context)@, final(context)@),
        decreases pos_max - pos, 0int,
    {
        if level > 0 {
            return Ok(None);
        }
        let close = match scan(src, pos, pos_max) {
            Some(close) => close,
            None => {
                return Ok(None);
            },
        };
        let position = context.next_sidenote();
        let children = match tokenize_range(src, pos + 1, close, level + 1, context) {
            Ok(children) => children,
            Err(error) => {
                return Err(error);
            },
        };
        let node = Node {
            value: NodeValue::Sidenote(InlineSidenote::new(position)),
            children,
            srcmap: Some((pos, close + 1)),
        };
        proof {
            node.view_children();
        }
        Ok(Some((node, close + 1 - pos)))
    }
}

} // verus!
