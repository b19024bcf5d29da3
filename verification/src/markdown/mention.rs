//! The titles of mentioned issues. A title comes from the tracker's page of
//! the issue, is kept for the rest of the build, and is never replaced.

use vstd::prelude::*;
use crate::error::{AuthoringError, AuthoringErrorView, ExternalFailure, ExternalFailureView};
use crate::markdown::github::GitHubIssueView;
use crate::markdown::node::{node_views, Node, NodeValue, NodeValueView, NodeView};
use crate::table::Table;
use crate::text::{opt_view, same, trim, trimmed};

verus! {

/// Where the page of an issue holds the issue's title.
pub const TITLE_SELECTOR: &'static str = "#partial-discussion-header h1 bdi";

/// What `scraper` finds in the HTML text `document` for the CSS selector
/// `selector`: nothing where `selector` is no selector; else the inner HTML
/// of the first element that `Html::select` gives, if it gives any.
pub uninterp spec fn selected_inner_html(document: Seq<char>, selector: Seq<char>) -> Option<
    Option<Seq<char>>,
>;

/// Parses `selector` with `scraper::Selector::parse` and `document` with
/// `scraper::Html::parse_document`, and takes `ElementRef::inner_html` of the
/// first element that `Html::select` gives. What the crate finds is not
/// proved here: the contract names the outcome `selected_inner_html`.
#[verifier::external_body]
fn select_inner_html(document: &str, selector: &str) -> (result: Option<Option<String>>)
    ensures
        match selected_inner_html(document@, selector@) {
            None => result is None,
            Some(found) => result matches Some(html) && opt_view(html) == found,
        },
{
    match scraper::Selector::parse(selector) {
        Ok(selector) => Some(
            scraper::Html::parse_document(document).select(&selector).next().map(
                |element| element.inner_html(),
            ),
        ),
        Err(_) => None,
    }
}

/// The title that the page `body` gives for its issue: what stands at
/// `TITLE_SELECTOR`, without the white space around it.
pub open spec fn title_in(body: Seq<char>) -> Option<Seq<char>> {
    match selected_inner_html(body, TITLE_SELECTOR@) {
        Some(Some(html)) => Some(trimmed(html)),
        _ => None,
    }
}

/// Reads the title of an issue from the tracker's page of it.
pub fn extract_title(body: &str) -> (title: Option<String>)
    ensures
        opt_view(title) == title_in(body@),
{
    match select_inner_html(body, TITLE_SELECTOR) {
        Some(Some(html)) => Some(trim(html.as_str())),
        _ => None,
    }
}

/// What came of asking the tracker for the page of an issue.
#[derive(Debug, PartialEq, Eq)]
pub enum Fetched {
    /// The tracker sent the page.
    Body(String),
    /// The tracker has no such issue.
    NotFound,
    /// The tracker could not be reached, or did not answer.
    Failed,
}

/// The view of [`Fetched`].
pub enum FetchedView {
    Body(Seq<char>),
    NotFound,
    Failed,
}

impl View for Fetched {
    type V = FetchedView;

    open spec fn view(&self) -> FetchedView {
        match self {
            Fetched::Body(body) => FetchedView::Body(body@),
            Fetched::NotFound => FetchedView::NotFound,
            Fetched::Failed => FetchedView::Failed,
        }
    }
}

/// What the answer `fetched` for the issue `id` comes to: the issue's title,
/// or why there is none.
pub open spec fn answer(id: Seq<char>, fetched: FetchedView) -> Result<
    Seq<char>,
    ExternalFailureView,
> {
    match fetched {
        FetchedView::Body(body) => match title_in(body) {
            Some(title) => Ok(title),
            None => Err(ExternalFailureView::UnexpectedShape { id }),
        },
        FetchedView::NotFound => Err(ExternalFailureView::NotFound { id }),
        FetchedView::Failed => Err(ExternalFailureView::Network { id }),
    }
}

/// Whether `result` and the cache `after` are what comes of the answer
/// `fetched` for the issue `id` with the cache `before`.
pub open spec fn settled(
    before: Map<Seq<char>, Seq<char>>,
    after: Map<Seq<char>, Seq<char>>,
    id: Seq<char>,
    fetched: FetchedView,
    result: Result<String, ExternalFailure>,
) -> bool {
    if before.contains_key(id) {
        &&& after == before
        &&& result matches Ok(title)
        &&& title@ == before[id]
    } else {
        match answer(id, fetched) {
            Ok(found) => {
                &&& after == before.insert(id, found)
                &&& result matches Ok(title)
                &&& title@ == found
            },
            Err(e) => {
                &&& after == before
                &&& result matches Err(error)
                &&& error@ == e
            },
        }
    }
}

/// A title that the cache holds stays in it as it is, whatever is settled.
pub proof fn settled_keeps_titles(
    before: Map<Seq<char>, Seq<char>>,
    after: Map<Seq<char>, Seq<char>>,
    id: Seq<char>,
    fetched: FetchedView,
    result: Result<String, ExternalFailure>,
    other: Seq<char>,
)
    requires
        settled(before, after, id, fetched, result),
        before.contains_key(other),
    ensures
        after.contains_key(other),
        after[other] == before[other],
{
}

/// The titles known in a build: identifier to title.
#[derive(Debug)]
pub struct MentionCache {
    table: Table,
}

impl View for MentionCache {
    type V = Map<Seq<char>, Seq<char>>;

    closed spec fn view(&self) -> Map<Seq<char>, Seq<char>> {
        self.table@
    }
}

impl MentionCache {
    /// A cache without titles.
    pub fn new() -> (cache: Self)
        ensures
            cache@ == Map::<Seq<char>, Seq<char>>::empty(),
    {
        MentionCache { table: Table::new() }
    }

    /// The title of the issue `id`, if the cache holds it.
    pub fn get(&self, id: &str) -> (title: Option<&String>)
        ensures
            match title {
                Some(found) => self@.contains_key(id@) && self@[id@] == found@,
                None => !self@.contains_key(id@),
            },
    {
        self.table.get(id)
    }

    /// Takes in the tracker's answer for the issue `id`, and gives the
    /// issue's title.
    ///
    /// A title that the cache holds stays, whatever the answer; else the
    /// answer's title is kept, where it has one.
    pub fn settle(&mut self, id: &str, fetched: Fetched) -> (result: Result<
        String,
        ExternalFailure,
    >)
        ensures
            settled(old(self)@, final(self)@, id@, fetched@, result),
    {
        match self.table.get(id) {
            Some(title) => {
                return Ok(title.clone());
            },
            None => {},
        }
        match fetched {
            Fetched::Body(body) => match extract_title(body.as_str()) {
                Some(title) => {
                    self.table.insert(String::from_str(id), title.clone());
                    Ok(title)
                },
                None => Err(ExternalFailure::UnexpectedShape { id: String::from_str(id) }),
            },
            Fetched::NotFound => Err(ExternalFailure::NotFound { id: String::from_str(id) }),
            Fetched::Failed => Err(ExternalFailure::Network { id: String::from_str(id) }),
        }
    }
}

/// The views of a sequence of strings.
pub open spec fn strings(list: Seq<String>) -> Seq<Seq<char>> {
    Seq::new(list.len(), |i: int| list[i]@)
}

/// The identifiers that the tracker must be asked about for `node`, behind
/// those already `found`: each identifier of a mention without a title, in
/// the order of the document, unless the cache knows it or it was found
/// before.
pub open spec fn pending_in(
    node: NodeView,
    known: Map<Seq<char>, Seq<char>>,
    found: Seq<Seq<char>>,
) -> Seq<Seq<char>>
    decreases node, 0int,
{
    let here = match node.value {
        NodeValueView::MentionDeclaration(declaration) => if known.contains_key(declaration.id)
            || found.contains(declaration.id) {
            found
        } else {
            found.push(declaration.id)
        },
        _ => found,
    };
    pending_among(node.children, 0, known, here)
}

/// The identifiers that the tracker must be asked about for `nodes[from..]`,
/// behind those already `found`.
pub open spec fn pending_among(
    nodes: Seq<NodeView>,
    from: int,
    known: Map<Seq<char>, Seq<char>>,
    found: Seq<Seq<char>>,
) -> Seq<Seq<char>>
    decreases nodes, nodes.len() - from,
{
    if 0 <= from < nodes.len() {
        pending_among(nodes, from + 1, known, pending_in(nodes[from], known, found))
    } else {
        found
    }
}

/// Whether `found` names no issue twice and none that the cache knows.
pub open spec fn worth_asking(found: Seq<Seq<char>>, known: Map<Seq<char>, Seq<char>>) -> bool {
    &&& found.no_duplicates()
    &&& forall|i: int| 0 <= i < found.len() ==> !known.contains_key(#[trigger] found[i])
}

/// Collecting the identifiers to ask about keeps them worth asking.
proof fn lemma_pending_in(node: NodeView, known: Map<Seq<char>, Seq<char>>, found: Seq<Seq<char>>)
    requires
        worth_asking(found, known),
    ensures
        worth_asking(pending_in(node, known, found), known),
    decreases node, 0int,
{
    let here = match node.value {
        NodeValueView::MentionDeclaration(declaration) => if known.contains_key(declaration.id)
            || found.contains(declaration.id) {
            found
        } else {
            found.push(declaration.id)
        },
        _ => found,
    };
    lemma_pending_among(node.children, 0, known, here);
}

/// Collecting the identifiers to ask about keeps them worth asking.
proof fn lemma_pending_among(
    nodes: Seq<NodeView>,
    from: int,
    known: Map<Seq<char>, Seq<char>>,
    found: Seq<Seq<char>>,
)
    requires
        worth_asking(found, known),
    ensures
        worth_asking(pending_among(nodes, from, known, found), known),
    decreases nodes, nodes.len() - from,
{
    if 0 <= from < nodes.len() {
        lemma_pending_in(nodes[from], known, found);
        lemma_pending_among(nodes, from + 1, known, pending_in(nodes[from], known, found));
    }
}

/// The tracker is asked about an issue once at most, however often a
/// document mentions it, and not at all where the cache knows its title.
pub proof fn pending_asks_once(node: NodeView, known: Map<Seq<char>, Seq<char>>)
    ensures
        worth_asking(pending_in(node, known, Seq::empty()), known),
{
    lemma_pending_in(node, known, Seq::empty());
}

/// Tests whether `list` holds `id`.
fn holds(list: &Vec<String>, id: &str) -> (b: bool)
    ensures
        b == strings(list@).contains(id@),
{
    let mut i: usize = 0;
    while i < list.len()
        invariant
            i <= list.len(),
            forall|j: int| 0 <= j < i ==> strings(list@)[j] != id@,
        decreases list.len() - i,
    {
        if same(list[i].as_str(), id) {
            assert(strings(list@)[i as int] == id@);
            return true;
        }
        i += 1;
    }
    false
}

/// Puts the identifiers that the tracker must be asked about for `node`
/// behind `found`.
fn collect_pending(node: &Node, cache: &MentionCache, found: &mut Vec<String>)
    ensures
        strings(final(found)@) == pending_in(node@, cache@, strings(old(found)@)),
    decreases node,
{
    proof {
        node.view_children();
    }
    match &node.value {
        NodeValue::MentionDeclaration(declaration) => {
            if cache.get(declaration.id.as_str()).is_none() && !holds(
                found,
                declaration.id.as_str(),
            ) {
                found.push(declaration.id.clone());
                assert(strings(found@) =~= strings(old(found)@).push(declaration.id@));
            }
        },
        _ => {},
    }
    let ghost here = strings(found@);
    let ghost views = node_views(node.children@);
    let mut i: usize = 0;
    while i < node.children.len()
        invariant
            i <= node.children.len(),
            views == node_views(node.children@),
            pending_among(views, 0, cache@, here) == pending_among(
                views,
                i as int,
                cache@,
                strings(found@),
            ),
        decreases node.children.len() - i,
    {
        proof {
            assert(decreases_to!(node => node.children));
            assert(decreases_to!(node.children => node.children@));
            assert(decreases_to!(node.children@ => node.children@[i as int]));
        }
        collect_pending(&node.children[i], cache, found);
        i += 1;
    }
}

/// The identifiers that the tracker must be asked about before the mentions
/// of `node` can have their titles: each once, in the order of the document,
/// and none that the cache knows.
pub fn pending(node: &Node, cache: &MentionCache) -> (ids: Vec<String>)
    ensures
        strings(ids@) == pending_in(node@, cache@, Seq::empty()),
{
    let mut ids: Vec<String> = Vec::new();
    assert(strings(ids@) =~= Seq::empty());
    collect_pending(node, cache, &mut ids);
    ids
}

/// The identifier of the first mention of `node` whose title the cache
/// lacks, children before parents.
pub open spec fn missing(node: NodeView, known: Map<Seq<char>, Seq<char>>) -> Option<Seq<char>>
    decreases node, 0int,
{
    match missing_among(node.children, 0, known) {
        Some(id) => Some(id),
        None => match node.value {
            NodeValueView::MentionDeclaration(declaration) => if known.contains_key(
                declaration.id,
            ) {
                None
            } else {
                Some(declaration.id)
            },
            _ => None,
        },
    }
}

/// The identifier of the first mention of `nodes[from..]` whose title the
/// cache lacks.
pub open spec fn missing_among(
    nodes: Seq<NodeView>,
    from: int,
    known: Map<Seq<char>, Seq<char>>,
) -> Option<Seq<char>>
    decreases nodes, nodes.len() - from,
{
    if 0 <= from < nodes.len() {
        match missing(nodes[from], known) {
            Some(id) => Some(id),
            None => missing_among(nodes, from + 1, known),
        }
    } else {
        None
    }
}

/// A node's own data with the title that the cache gives, where the node is
/// a mention without one.
pub open spec fn resolved_value(value: NodeValueView, known: Map<Seq<char>, Seq<char>>)
    -> NodeValueView {
    match value {
        NodeValueView::MentionDeclaration(declaration) => NodeValueView::Mention(
            GitHubIssueView {
                position: declaration.position,
                id: declaration.id,
                title: known[declaration.id],
            },
        ),
        other => other,
    }
}

/// `node` with every mention given the title that the cache holds for it.
pub open spec fn resolved(node: NodeView, known: Map<Seq<char>, Seq<char>>) -> NodeView
    decreases node, 0int,
{
    NodeView {
        value: resolved_value(node.value, known),
        children: resolved_all(node.children, known),
        srcmap: node.srcmap,
    }
}

/// `nodes` with every mention given the title that the cache holds for it.
pub open spec fn resolved_all(nodes: Seq<NodeView>, known: Map<Seq<char>, Seq<char>>) -> Seq<
    NodeView,
>
    decreases nodes, 1int,
{
    Seq::new(
        nodes.len(),
        |i: int|
            if 0 <= i < nodes.len() {
                resolved(nodes[i], known)
            } else {
                nodes[0]
            },
    )
}

/// Whether `result` is what giving the mentions of `node` their titles comes
/// to.
pub open spec fn resolution(
    node: NodeView,
    known: Map<Seq<char>, Seq<char>>,
    document: Seq<char>,
    result: Result<Node, AuthoringError>,
) -> bool {
    match missing(node, known) {
        Some(id) => result matches Err(error) && error@ == (
        AuthoringErrorView::UnresolvedMention { id, document }),
        None => result matches Ok(made) && made@ == resolved(node, known),
    }
}

/// Gives the mentions of `children` their titles, and stops at the first
/// whose title the cache lacks.
fn resolve_children(children: &Vec<Node>, cache: &MentionCache, document: &str) -> (result: Result<
    Vec<Node>,
    AuthoringError,
>)
    ensures
        match missing_among(node_views(children@), 0, cache@) {
            Some(id) => result matches Err(error) && error@ == (
            AuthoringErrorView::UnresolvedMention { id, document: document@ }),
            None => result matches Ok(made) && node_views(made@) == resolved_all(
                node_views(children@),
                cache@,
            ),
        },
    decreases children,
{
    let ghost views = node_views(children@);
    let mut made: Vec<Node> = Vec::new();
    let mut i: usize = 0;
    while i < children.len()
        invariant
            i <= children.len(),
            views == node_views(children@),
            made.len() == i,
            missing_among(views, 0, cache@) == missing_among(views, i as int, cache@),
            forall|j: int| 0 <= j < i ==> made@[j]@ == resolved(views[j], cache@),
        decreases children.len() - i,
    {
        proof {
            assert(decreases_to!(children => children@));
            assert(decreases_to!(children@ => children@[i as int]));
        }
        match resolve(&children[i], cache, document) {
            Ok(node) => {
                made.push(node);
            },
            Err(error) => {
                return Err(error);
            },
        }
        i += 1;
    }
    assert(node_views(made@) =~= resolved_all(views, cache@));
    Ok(made)
}

/// Gives every mention of `node` the title that the cache holds for it,
/// children before parents.
///
/// The parse of `document` fails at the first mention whose title the cache
/// lacks.
pub fn resolve(node: &Node, cache: &MentionCache, document: &str) -> (result: Result<
    Node,
    AuthoringError,
>)
    ensures
        resolution(node@, cache@, document@, result),
    decreases node,
{
    proof {
        node.view_children();
    }
    let children = match resolve_children(&node.children, cache, document) {
        Ok(children) => children,
        Err(error) => {
            return Err(error);
        },
    };
    let value = match &node.value {
        NodeValue::MentionDeclaration(declaration) => match declaration.as_github_issue(cache) {
            Some(issue) => NodeValue::Mention(issue),
            None => {
                return Err(
                    AuthoringError::UnresolvedMention {
                        id: declaration.id.clone(),
                        document: String::from_str(document),
                    },
                );
            },
        },
        other => other.clone(),
    };
    let made = Node { value, children, srcmap: node.srcmap };
    proof {
        made.view_children();
    }
    Ok(made)
}

} // verus!
