//! The parse tree: what the block and inline passes build, before it is
//! turned into the output tree.

use vstd::prelude::*;
use crate::text::{clone_opt, opt_view};
use crate::markdown::{clone_alignments, TableColumnAlignment};
use crate::markdown::github::{
    GitHubIssue,
    GitHubIssueDeclaration,
    GitHubIssueDeclarationView,
    GitHubIssueView,
};
use crate::markdown::sidenote::InlineSidenote;
use crate::markdown::timecode::{InlineTimecode, InlineTimecodeView};
use crate::markdown::utterance::{Utterance, UtteranceView};

verus! {

/// What a node of the parse tree is, with the data of its kind.
#[derive(Debug, PartialEq, Eq)]
pub enum NodeValue {
    Root,
    Text { content: String },
    TextSpecial { content: String, markup: String, info: String },
    AtxHeading { level: u8 },
    SetextHeading { level: u8 },
    Blockquote,
    CodeBlock { content: String },
    CodeFence { info: String, content: String },
    ThematicBreak,
    OrderedList { start: u32 },
    BulletList,
    ListItem,
    Paragraph,
    Definition { label: String, destination: String, title: Option<String> },
    Autolink { url: String },
    CodeInline,
    Em,
    Strong,
    Image { url: String, title: Option<String> },
    Link { url: String, title: Option<String> },
    Hardbreak,
    Softbreak,
    Linkified { url: String },
    Strikethrough,
    SyntectSnippet { html: String },
    Table { alignments: Vec<TableColumnAlignment> },
    TableBody,
    TableCell,
    TableHead,
    TableRow,
    HtmlBlock { content: String },
    HtmlInline { content: String },
    Timecode(InlineTimecode),
    Sidenote(InlineSidenote),
    Utterance(Utterance),
    MentionDeclaration(GitHubIssueDeclaration),
    Mention(GitHubIssue),
    /// A node of a kind that this library does not know, under the name that
    /// its maker gave it.
    Other { name: String },
}

/// The view of [`NodeValue`].
pub enum NodeValueView {
    Root,
    Text { content: Seq<char> },
    TextSpecial { content: Seq<char>, markup: Seq<char>, info: Seq<char> },
    AtxHeading { level: u8 },
    SetextHeading { level: u8 },
    Blockquote,
    CodeBlock { content: Seq<char> },
    CodeFence { info: Seq<char>, content: Seq<char> },
    ThematicBreak,
    OrderedList { start: u32 },
    BulletList,
    ListItem,
    Paragraph,
    Definition { label: Seq<char>, destination: Seq<char>, title: Option<Seq<char>> },
    Autolink { url: Seq<char> },
    CodeInline,
    Em,
    Strong,
    Image { url: Seq<char>, title: Option<Seq<char>> },
    Link { url: Seq<char>, title: Option<Seq<char>> },
    Hardbreak,
    Softbreak,
    Linkified { url: Seq<char> },
    Strikethrough,
    SyntectSnippet { html: Seq<char> },
    Table { alignments: Seq<TableColumnAlignment> },
    TableBody,
    TableCell,
    TableHead,
    TableRow,
    HtmlBlock { content: Seq<char> },
    HtmlInline { content: Seq<char> },
    Timecode(InlineTimecodeView),
    Sidenote(InlineSidenote),
    Utterance(UtteranceView),
    MentionDeclaration(GitHubIssueDeclarationView),
    Mention(GitHubIssueView),
    Other { name: Seq<char> },
}

impl View for NodeValue {
    type V = NodeValueView;

    open spec fn view(&self) -> NodeValueView {
        match self {
            NodeValue::Root => NodeValueView::Root,
            NodeValue::Text { content } => NodeValueView::Text { content: content@ },
            NodeValue::TextSpecial { content, markup, info } => NodeValueView::TextSpecial {
                content: content@,
                markup: markup@,
                info: info@,
            },
            NodeValue::AtxHeading { level } => NodeValueView::AtxHeading { level: *level },
            NodeValue::SetextHeading { level } => NodeValueView::SetextHeading { level: *level },
            NodeValue::Blockquote => NodeValueView::Blockquote,
            NodeValue::CodeBlock { content } => NodeValueView::CodeBlock { content: content@ },
            NodeValue::CodeFence { info, content } => NodeValueView::CodeFence {
                info: info@,
                content: content@,
            },
            NodeValue::ThematicBreak => NodeValueView::ThematicBreak,
            NodeValue::OrderedList { start } => NodeValueView::OrderedList { start: *start },
            NodeValue::BulletList => NodeValueView::BulletList,
            NodeValue::ListItem => NodeValueView::ListItem,
            NodeValue::Paragraph => NodeValueView::Paragraph,
            NodeValue::Definition { label, destination, title } => NodeValueView::Definition {
                label: label@,
                destination: destination@,
                title: opt_view(*title),
            },
            NodeValue::Autolink { url } => NodeValueView::Autolink { url: url@ },
            NodeValue::CodeInline => NodeValueView::CodeInline,
            NodeValue::Em => NodeValueView::Em,
            NodeValue::Strong => NodeValueView::Strong,
            NodeValue::Image { url, title } => NodeValueView::Image {
                url: url@,
                title: opt_view(*title),
            },
            NodeValue::Link { url, title } => NodeValueView::Link {
                url: url@,
                title: opt_view(*title),
            },
            NodeValue::Hardbreak => NodeValueView::Hardbreak,
            NodeValue::Softbreak => NodeValueView::Softbreak,
            NodeValue::Linkified { url } => NodeValueView::Linkified { url: url@ },
            NodeValue::Strikethrough => NodeValueView::Strikethrough,
            NodeValue::SyntectSnippet { html } => NodeValueView::SyntectSnippet { html: html@ },
            NodeValue::Table { alignments } => NodeValueView::Table { alignments: alignments@ },
            NodeValue::TableBody => NodeValueView::TableBody,
            NodeValue::TableCell => NodeValueView::TableCell,
            NodeValue::TableHead => NodeValueView::TableHead,
            NodeValue::TableRow => NodeValueView::TableRow,
            NodeValue::HtmlBlock { content } => NodeValueView::HtmlBlock { content: content@ },
            NodeValue::HtmlInline { content } => NodeValueView::HtmlInline { content: content@ },
            NodeValue::Timecode(t) => NodeValueView::Timecode(t@),
            NodeValue::Sidenote(s) => NodeValueView::Sidenote(*s),
            NodeValue::Utterance(u) => NodeValueView::Utterance(u@),
            NodeValue::MentionDeclaration(d) => NodeValueView::MentionDeclaration(d@),
            NodeValue::Mention(m) => NodeValueView::Mention(m@),
            NodeValue::Other { name } => NodeValueView::Other { name: name@ },
        }
    }
}

/// A node of the parse tree: its kind, its children in order, and the range
/// of the document's characters that it was read from, where that is known.
#[derive(Debug, PartialEq, Eq)]
pub struct Node {
    pub value: NodeValue,
    pub children: Vec<Node>,
    pub srcmap: Option<(usize, usize)>,
}

/// The view of [`Node`].
pub struct NodeView {
    pub value: NodeValueView,
    pub children: Seq<NodeView>,
    pub srcmap: Option<(usize, usize)>,
}

/// The view of a node: its own data, and the views of its children.
pub open spec fn node_view(node: Node) -> NodeView
    decreases node,
{
    NodeView {
        value: node.value@,
        children: Seq::new(
            node.children@.len(),
            |i: int|
                if 0 <= i < node.children@.len() {
                    node_view(node.children@[i])
                } else {
                    NodeView { value: NodeValueView::Root, children: Seq::empty(), srcmap: None }
                },
        ),
        srcmap: node.srcmap,
    }
}

impl View for Node {
    type V = NodeView;

    open spec fn view(&self) -> NodeView {
        node_view(*self)
    }
}

/// The views of a sequence of nodes.
pub open spec fn node_views(nodes: Seq<Node>) -> Seq<NodeView> {
    Seq::new(nodes.len(), |i: int| nodes[i]@)
}

impl Clone for NodeValue {
    fn clone(&self) -> (copy: Self)
        ensures
            copy@ == self@,
    {
        match self {
            NodeValue::Root => NodeValue::Root,
            NodeValue::Text { content } => NodeValue::Text { content: content.clone() },
            NodeValue::TextSpecial { content, markup, info } => NodeValue::TextSpecial {
                content: content.clone(),
                markup: markup.clone(),
                info: info.clone(),
            },
            NodeValue::AtxHeading { level } => NodeValue::AtxHeading { level: *level },
            NodeValue::SetextHeading { level } => NodeValue::SetextHeading { level: *level },
            NodeValue::Blockquote => NodeValue::Blockquote,
            NodeValue::CodeBlock { content } => NodeValue::CodeBlock { content: content.clone() },
            NodeValue::CodeFence { info, content } => NodeValue::CodeFence {
                info: info.clone(),
                content: content.clone(),
            },
            NodeValue::ThematicBreak => NodeValue::ThematicBreak,
            NodeValue::OrderedList { start } => NodeValue::OrderedList { start: *start },
            NodeValue::BulletList => NodeValue::BulletList,
            NodeValue::ListItem => NodeValue::ListItem,
            NodeValue::Paragraph => NodeValue::Paragraph,
            NodeValue::Definition { label, destination, title } => NodeValue::Definition {
                label: label.clone(),
                destination: destination.clone(),
                title: clone_opt(title),
            },
            NodeValue::Autolink { url } => NodeValue::Autolink { url: url.clone() },
            NodeValue::CodeInline => NodeValue::CodeInline,
            NodeValue::Em => NodeValue::Em,
            NodeValue::Strong => NodeValue::Strong,
            NodeValue::Image { url, title } => NodeValue::Image {
                url: url.clone(),
                title: clone_opt(title),
            },
            NodeValue::Link { url, title } => NodeValue::Link {
                url: url.clone(),
                title: clone_opt(title),
            },
            NodeValue::Hardbreak => NodeValue::Hardbreak,
            NodeValue::Softbreak => NodeValue::Softbreak,
            NodeValue::Linkified { url } => NodeValue::Linkified { url: url.clone() },
            NodeValue::Strikethrough => NodeValue::Strikethrough,
            NodeValue::SyntectSnippet { html } => NodeValue::SyntectSnippet { html: html.clone() },
            NodeValue::Table { alignments } => NodeValue::Table {
                alignments: clone_alignments(alignments),
            },
            NodeValue::TableBody => NodeValue::TableBody,
            NodeValue::TableCell => NodeValue::TableCell,
            NodeValue::TableHead => NodeValue::TableHead,
            NodeValue::TableRow => NodeValue::TableRow,
            NodeValue::HtmlBlock { content } => NodeValue::HtmlBlock { content: content.clone() },
            NodeValue::HtmlInline { content } => NodeValue::HtmlInline {
                content: content.clone(),
            },
            NodeValue::Timecode(t) => NodeValue::Timecode(t.clone()),
            NodeValue::Sidenote(s) => NodeValue::Sidenote(*s),
            NodeValue::Utterance(u) => NodeValue::Utterance(u.clone()),
            NodeValue::MentionDeclaration(d) => NodeValue::MentionDeclaration(d.clone()),
            NodeValue::Mention(m) => NodeValue::Mention(m.clone()),
            NodeValue::Other { name } => NodeValue::Other { name: name.clone() },
        }
    }
}

impl Clone for Node {
    fn clone(&self) -> (copy: Self)
        ensures
            copy@ == self@,
        decreases self,
    {
        let mut children: Vec<Node> = Vec::new();
        let mut i: usize = 0;
        while i < self.children.len()
            invariant
                i <= self.children.len(),
                children.len() == i,
                forall|j: int| 0 <= j < i ==> children@[j]@ == self.children@[j]@,
            decreases self.children.len() - i,
        {
            proof {
                assert(decreases_to!(self => self.children));
                assert(decreases_to!(self.children => self.children@));
                assert(decreases_to!(self.children@ => self.children@[i as int]));
            }
            let child = self.children[i].clone();
            children.push(child);
            i += 1;
        }
        let copy = Node { value: self.value.clone(), children, srcmap: self.srcmap };
        assert(copy@.children =~= self@.children);
        copy
    }
}

impl Node {
    /// A node of the given kind without children.
    pub fn new(value: NodeValue) -> (node: Self)
        ensures
            node.value == value,
            node.children@.len() == 0,
            node.srcmap is None,
            node@ == (NodeView { value: value@, children: Seq::empty(), srcmap: None }),
    {
        let node = Node { value, children: Vec::new(), srcmap: None };
        assert(node@.children =~= Seq::empty());
        node
    }

    /// The view of a node's children is the views of its children.
    pub proof fn view_children(self)
        ensures
            self@.children == node_views(self.children@),
            self@.value == self.value@,
            self@.srcmap == self.srcmap,
    {
        assert(self@.children =~= node_views(self.children@));
    }
}

} // verus!
