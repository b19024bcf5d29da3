//! A whole document: from its text to the parse tree, and on to the output
//! tree.

use vstd::prelude::*;
use crate::context::{Context, ContextView};
use crate::error::{AuthoringError, AuthoringErrorView};
use vstd::pervasive::unreached;
use crate::markdown::{materialize, Element, ElementView};
use crate::markdown::block::{block_nodes, tokenize_lines};
use crate::markdown::inline::{has_room, same_scope, Outcome};
use crate::markdown::lines::{lines_of, split_lines};
use crate::markdown::mention::{missing, resolve, resolved, MentionCache};
use crate::markdown::node::{Node, NodeValue, NodeValueView, NodeView};
use crate::markdown::output::{lemma_resolved_converts, tree_is_kept};
use crate::text::to_chars;

verus! {

/// What the block pass makes of all the lines of `src`.
pub open spec fn document(src: Seq<char>, context: ContextView) -> Result<
    Outcome,
    AuthoringErrorView,
> {
    block_nodes(src, lines_of(src), 0, lines_of(src).len() as int, context)
}

/// The root of a document with the text `src` and the blocks `nodes`.
pub open spec fn root(src: Seq<char>, nodes: Seq<NodeView>) -> NodeView {
    NodeView { value: NodeValueView::Root, children: nodes, srcmap: Some((0, src.len() as usize)) }
}

/// Whether `result`, with the context `after` it, is the parse tree of
/// `src`.
pub open spec fn parsed(
    src: Seq<char>,
    before: ContextView,
    after: ContextView,
    result: Result<Node, AuthoringError>,
) -> bool {
    match document(src, before) {
        Err(e) => result matches Err(error) && error@ == e,
        Ok(outcome) => result matches Ok(tree) && tree@ == root(src, outcome.nodes) && after
            == outcome.context,
    }
}

/// Reads a document into its parse tree.
///
/// The parse fails, and gives no tree, where the document has a defect: a
/// speaker that the registry lacks, a timecode without a source that is an
/// absolute URL, another speaker's short name inside a section.
pub fn parse(text: &str, context: &mut Context) -> (result: Result<Node, AuthoringError>)
    requires
        has_room(old(context)@, text@.len() as int + 1),
    ensures
        parsed(text@, old(context)@, final(context)@, result),
        same_scope(old(context)@, final(context)@),
{
    let src = to_chars(text);
    let lines = split_lines(&src);
    let children = match tokenize_lines(&src, &lines, 0, lines.len(), context) {
        Ok(children) => children,
        Err(error) => {
            return Err(error);
        },
    };
    let tree = Node { value: NodeValue::Root, children, srcmap: Some((0, src.len())) };
    proof {
        tree.view_children();
    }
    Ok(tree)
}

/// The output tree of the document `src`, or the defect that stands in its
/// way: the parse, then the titles of the mentions from `known`, then the
/// conversion.
pub open spec fn output(
    src: Seq<char>,
    context: ContextView,
    known: Map<Seq<char>, Seq<char>>,
) -> Result<ElementView, AuthoringErrorView> {
    match document(src, context) {
        Err(e) => Err(e),
        Ok(outcome) => {
            let tree = root(src, outcome.nodes);
            match missing(tree, known) {
                Some(id) => Err(
                    AuthoringErrorView::UnresolvedMention { id, document: context.document },
                ),
                None => Ok(materialize(resolved(tree, known))),
            }
        },
    }
}

/// Builds the output tree of a document, with the titles that `cache` holds
/// for its mentions. A document has its whole tree or none: the build fails
/// where the parse fails, and where a mention has no title in the cache.
pub fn build(text: &str, context: &mut Context, cache: &MentionCache) -> (result: Result<
    Element,
    AuthoringError,
>)
    requires
        has_room(old(context)@, text@.len() as int + 1),
    ensures
        match output(text@, old(context)@, cache@) {
            Ok(tree) => result matches Ok(element) && element@ == tree,
            Err(e) => result matches Err(error) && error@ == e,
        },
        same_scope(old(context)@, final(context)@),
{
    let ghost before = context@;
    let tree = match parse(text, context) {
        Ok(tree) => tree,
        Err(error) => {
            return Err(error);
        },
    };
    let resolved = match resolve(&tree, cache, context.document.as_str()) {
        Ok(resolved) => resolved,
        Err(error) => {
            return Err(error);
        },
    };
    proof {
        tree_is_kept(text@, before);
        lemma_resolved_converts(tree@, cache@);
    }
    match Element::new(&resolved) {
        Ok(element) => Ok(element),
        Err(_) => unreached(),
    }
}

} // verus!
