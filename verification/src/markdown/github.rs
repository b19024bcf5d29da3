//! Mentions: `{#identifier}`, a reference to an issue of the project's
//! tracker, shown with the issue's title.

use vstd::prelude::*;
use crate::context::Context;
use crate::markdown::inline::mention_rule;
use crate::markdown::mention::MentionCache;
use crate::markdown::node::{Node, NodeValue};
use crate::text::{find, find_char, from_chars};

verus! {

/// Where the project's tracker is.
pub const GITHUB_LINK: &'static str = "https://github.com/marcuswhybrow/ray-peat-rodeo";

/// A mention as written: the identifier, and the mention's number in the
/// document. Its title is not known yet.
#[derive(Debug, PartialEq, Eq)]
pub struct GitHubIssueDeclaration {
    pub position: u32,
    pub id: String,
}

/// The view of [`GitHubIssueDeclaration`].
pub struct GitHubIssueDeclarationView {
    pub position: u32,
    pub id: Seq<char>,
}

impl View for GitHubIssueDeclaration {
    type V = GitHubIssueDeclarationView;

    open spec fn view(&self) -> GitHubIssueDeclarationView {
        GitHubIssueDeclarationView { position: self.position, id: self.id@ }
    }
}

/// A mention with the title of the issue it refers to.
#[derive(Debug, PartialEq, Eq)]
pub struct GitHubIssue {
    pub position: u32,
    pub id: String,
    pub title: String,
}

/// The view of [`GitHubIssue`].
pub struct GitHubIssueView {
    pub position: u32,
    pub id: Seq<char>,
    pub title: Seq<char>,
}

impl View for GitHubIssue {
    type V = GitHubIssueView;

    open spec fn view(&self) -> GitHubIssueView {
        GitHubIssueView { position: self.position, id: self.id@, title: self.title@ }
    }
}

/// A mention found in a text: its identifier, and how many characters it
/// takes, braces included.
pub struct MentionSpan {
    pub id: Seq<char>,
    pub consumed: int,
}

/// The mention that starts at `pos` and ends before `pos_max`, if one does:
/// `{#`, an identifier of one character or more, and the first `}` behind
/// the identifier's first character.
pub open spec fn mention_at(src: Seq<char>, pos: int, pos_max: int) -> Option<MentionSpan> {
    if 0 <= pos && pos + 3 <= pos_max <= src.len() && src[pos] == '{' && src[pos + 1] == '#' {
        let close = find(src, '}', pos + 3, pos_max);
        if close < pos_max {
            Some(MentionSpan { id: src.subrange(pos + 2, close), consumed: close + 1 - pos })
        } else {
            None
        }
    } else {
        None
    }
}

/// Looks for a mention that starts at `pos` and ends before `pos_max`: where
/// its identifier ends.
pub fn scan(src: &Vec<char>, pos: usize, pos_max: usize) -> (close: Option<usize>)
    ensures
        match mention_at(src@, pos as int, pos_max as int) {
            Some(span) => close matches Some(at) && pos + 3 <= at < pos_max <= src.len()
                && span.id == src@.subrange(pos + 2, at as int) && span.consumed == at + 1 - pos,
            None => close is None,
        },
{
    if pos_max > src.len() || pos_max < 3 || pos > pos_max - 3 {
        return None;
    }
    if src[pos] != '{' || src[pos + 1] != '#' {
        return None;
    }
    let close = find_char(src, '}', pos + 3, pos_max);
    if close < pos_max {
        Some(close)
    } else {
        None
    }
}

/// The address of the issue `id` on the tracker.
pub open spec fn issue_url(id: Seq<char>) -> Seq<char> {
    GITHUB_LINK@ + "/issues/"@ + id
}

/// Writes the address of the issue `id` on the tracker.
pub fn issue_address(id: &str) -> (url: String)
    ensures
        url@ == issue_url(id@),
{
    let mut url = String::from_str(GITHUB_LINK);
    url.append("/issues/");
    url.append(id);
    url
}

impl GitHubIssueDeclaration {
    /// A mention of the issue `id`, the `position`-th of its document.
    pub fn new(position: u32, id: String) -> (declaration: Self)
        ensures
            declaration@ == (GitHubIssueDeclarationView { position, id: id@ }),
    {
        GitHubIssueDeclaration { position, id }
    }

    /// The address of the issue on the tracker.
    pub fn url(&self) -> (url: String)
        ensures
            url@ == issue_url(self.id@),
    {
        issue_address(self.id.as_str())
    }

    /// The mention with its title, where the cache holds the title.
    pub fn as_github_issue(&self, cache: &MentionCache) -> (issue: Option<GitHubIssue>)
        ensures
            match issue {
                Some(found) => cache@.contains_key(self.id@) && found@ == (GitHubIssueView {
                    position: self.position,
                    id: self.id@,
                    title: cache@[self.id@],
                }),
                None => !cache@.contains_key(self.id@),
            },
    {
        match cache.get(self.id.as_str()) {
            Some(title) => Some(
                GitHubIssue { position: self.position, id: self.id.clone(), title: title.clone() },
            ),
            None => None,
        }
    }
}

impl GitHubIssue {
    /// The address of the issue on the tracker.
    pub fn url(&self) -> (url: String)
        ensures
            url@ == issue_url(self.id@),
    {
        issue_address(self.id.as_str())
    }

    /// What stands before the title where the mention is shown: `Issue #`,
    /// the identifier, a full stop and a space.
    pub fn label(&self) -> (label: String)
        ensures
            label@ == "Issue #"@ + self.id@ + ". "@,
    {
        let mut label = String::from_str("Issue #");
        label.append(self.id.as_str());
        label.append(". ");
        label
    }
}

impl Clone for GitHubIssueDeclaration {
    fn clone(&self) -> (copy: Self)
        ensures
            copy@ == self@,
    {
        GitHubIssueDeclaration { position: self.position, id: self.id.clone() }
    }
}

impl Clone for GitHubIssue {
    fn clone(&self) -> (copy: Self)
        ensures
            copy@ == self@,
    {
        GitHubIssue { position: self.position, id: self.id.clone(), title: self.title.clone() }
    }
}

/// The rule that reads mentions.
pub struct GitHubIssueInlineScanner;

impl GitHubIssueInlineScanner {
    /// Looks for a mention at `pos`, outside any sidenote. The node holds the
    /// identifier as written and the next mention number.
    pub fn run(
        src: &Vec<char>,
        pos: usize,
        pos_max: usize,
        level: u32,
        context: &mut Context,
    ) -> (result: Option<(Node, usize)>)
        requires
            old(context).mentions < u32::MAX,
        ensures
            match mention_rule(src@, pos as int, pos_max as int, level as nat, old(context)@) {
                Some(found) => result matches Some(pair) && pair.0@ == found.node && pair.1
                    == found.consumed && final(context)@ == found.context,
                None => result is None && final(context)@ == old(context)@,
            },
            result matches Some(pair) ==> 4 <= pair.1 <= pos_max - pos,
    {
        if level > 0 {
            return None;
        }
        let close = match scan(src, pos, pos_max) {
            Some(close) => close,
            None => {
                return None;
            },
        };
        let position = context.next_mention();
        let id = from_chars(src, pos + 2, close);
        let mut node = Node::new(
            NodeValue::MentionDeclaration(GitHubIssueDeclaration { position, id }),
        );
        node.srcmap = Some((pos, close + 1));
        proof {
            node.view_children();
            assert(node@.children =~= Seq::empty());
        }
        Some((node, close + 1 - pos))
    }
}

} // verus!
