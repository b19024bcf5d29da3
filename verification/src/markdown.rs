//! The document tree and the rules that build it.

pub mod block;
pub mod document;
pub mod github;
pub mod inline;
pub mod lines;
pub mod mapping;
pub mod mention;
pub mod node;
pub mod numbering;
pub mod output;
pub mod sidenote;
pub mod spans;
pub mod state;
pub mod timecode;
pub mod utterance;

pub use crate::markdown::state::{OtherLine, Tokenize};

use vstd::prelude::*;
use crate::markdown::node::{Node, NodeValue, NodeValueView, NodeView, node_views};
use crate::text::{clone_opt, opt_view};

verus! {

/// How the cells of a table column are aligned.
#[derive(Debug, Clone, Copy, PartialEq, Eq)]
pub enum TableColumnAlignment {
    Unaligned,
    Left,
    Right,
    Center,
}

/// A copy of a table's column alignments.
pub fn clone_alignments(alignments: &Vec<TableColumnAlignment>) -> (copy: Vec<
    TableColumnAlignment,
>)
    ensures
        copy@ == alignments@,
{
    let mut copy: Vec<TableColumnAlignment> = Vec::new();
    let mut i: usize = 0;
    while i < alignments.len()
        invariant
            i <= alignments.len(),
            copy@ == alignments@.subrange(0, i as int),
        decreases alignments.len() - i,
    {
        copy.push(alignments[i]);
        i += 1;
    }
    assert(alignments@.subrange(0, alignments@.len() as int) == alignments@);
    copy
}

/// A node of the output tree: what a renderer needs of one piece of a
/// document, and nothing else.
#[derive(Debug, PartialEq, Eq)]
#[allow(inconsistent_fields)]
pub enum Element {
    Root {
        children: Vec<Element>,
    },
    Heading {
        level: u8,
        children: Vec<Element>,
    },
    Blockquote {
        children: Vec<Element>,
    },
    CodeBlock {
        info: Option<String>,
        language: Option<String>,
        content: String,
    },
    ThematicBreak,
    OrderedList {
        starting_number: u32,
        children: Vec<Element>,
    },
    BulletList {
        children: Vec<Element>,
    },
    ListItem {
        children: Vec<Element>,
    },
    Paragraph {
        children: Vec<Element>,
    },
    ReferenceDefinition {
        label: String,
        desination: String,
        title: Option<String>,
    },
    AutoLink {
        url: String,
    },
    CodeInline {
        children: Vec<Element>,
    },
    Emphasis {
        children: Vec<Element>,
    },
    Strong {
        children: Vec<Element>,
    },
    Image {
        url: String,
        title: Option<String>,
    },
    Link {
        url: String,
        title: Option<String>,
    },
    Hardbreak,
    Softbreak,
    Text {
        content: String,
    },
    TextSpecial {
        content: String,
        markup: String,
        info: String,
    },
    Linkified {
        url: String,
    },
    Strikethrough {
        children: Vec<Element>,
    },
    /// Highlighted source code, as HTML.
    SyntectSnippet {
        html: String,
    },
    Table {
        alignments: Vec<TableColumnAlignment>,
        children: Vec<Element>,
    },
    TableBody {
        children: Vec<Element>,
    },
    TableCell {
        children: Vec<Element>,
    },
    TableHead {
        children: Vec<Element>,
    },
    TableRow {
        children: Vec<Element>,
    },
    HtmlBlock {
        content: String,
    },
    HtmlInline {
        content: String,
    },
    /// A position in the recording at `url`.
    Timecode {
        url: String,
        hours: u8,
        minutes: u8,
        seconds: u8,
    },
    /// A remark in the margin, with its number in the document.
    Sidenote {
        position: u32,
        children: Vec<Element>,
    },
    /// What one speaker said.
    Utterance {
        shortname: String,
        longname: String,
        children: Vec<Element>,
    },
    /// A reference to an issue of the tracker, with the issue's title.
    Mention {
        position: u32,
        id: String,
        title: String,
    },
}

/// The view of [`Element`].
#[allow(inconsistent_fields)]
pub enum ElementView {
    Root {
        children: Seq<ElementView>,
    },
    Heading {
        level: u8,
        children: Seq<ElementView>,
    },
    Blockquote {
        children: Seq<ElementView>,
    },
    CodeBlock {
        info: Option<Seq<char>>,
        language: Option<Seq<char>>,
        content: Seq<char>,
    },
    ThematicBreak,
    OrderedList {
        starting_number: u32,
        children: Seq<ElementView>,
    },
    BulletList {
        children: Seq<ElementView>,
    },
    ListItem {
        children: Seq<ElementView>,
    },
    Paragraph {
        children: Seq<ElementView>,
    },
    ReferenceDefinition {
        label: Seq<char>,
        desination: Seq<char>,
        title: Option<Seq<char>>,
    },
    AutoLink {
        url: Seq<char>,
    },
    CodeInline {
        children: Seq<ElementView>,
    },
    Emphasis {
        children: Seq<ElementView>,
    },
    Strong {
        children: Seq<ElementView>,
    },
    Image {
        url: Seq<char>,
        title: Option<Seq<char>>,
    },
    Link {
        url: Seq<char>,
        title: Option<Seq<char>>,
    },
    Hardbreak,
    Softbreak,
    Text {
        content: Seq<char>,
    },
    TextSpecial {
        content: Seq<char>,
        markup: Seq<char>,
        info: Seq<char>,
    },
    Linkified {
        url: Seq<char>,
    },
    Strikethrough {
        children: Seq<ElementView>,
    },
    SyntectSnippet {
        html: Seq<char>,
    },
    Table {
        alignments: Seq<TableColumnAlignment>,
        children: Seq<ElementView>,
    },
    TableBody {
        children: Seq<ElementView>,
    },
    TableCell {
        children: Seq<ElementView>,
    },
    TableHead {
        children: Seq<ElementView>,
    },
    TableRow {
        children: Seq<ElementView>,
    },
    HtmlBlock {
        content: Seq<char>,
    },
    HtmlInline {
        content: Seq<char>,
    },
    Timecode {
        url: Seq<char>,
        hours: u8,
        minutes: u8,
        seconds: u8,
    },
    Sidenote {
        position: u32,
        children: Seq<ElementView>,
    },
    Utterance {
        shortname: Seq<char>,
        longname: Seq<char>,
        children: Seq<ElementView>,
    },
    Mention {
        position: u32,
        id: Seq<char>,
        title: Seq<char>,
    },
}

/// The view of an element: its own data, and the views of its children.
pub open spec fn element_view(element: Element) -> ElementView
    decreases element, 0int,
{
    match element {
        Element::Root { children } => ElementView::Root { children: element_views(children@) },
        Element::Heading { level, children } => ElementView::Heading {
            level,
            children: element_views(children@),
        },
        Element::Blockquote { children } => ElementView::Blockquote {
            children: element_views(children@),
        },
        Element::CodeBlock { info, language, content } => ElementView::CodeBlock {
            info: opt_view(info),
            language: opt_view(language),
            content: content@,
        },
        Element::ThematicBreak => ElementView::ThematicBreak,
        Element::OrderedList { starting_number, children } => ElementView::OrderedList {
            starting_number,
            children: element_views(children@),
        },
        Element::BulletList { children } => ElementView::BulletList {
            children: element_views(children@),
        },
        Element::ListItem { children } => ElementView::ListItem {
            children: element_views(children@),
        },
        Element::Paragraph { children } => ElementView::Paragraph {
            children: element_views(children@),
        },
        Element::ReferenceDefinition { label, desination, title } => ElementView::ReferenceDefinition
        {
            label: label@,
            desination: desination@,
            title: opt_view(title),
        },
        Element::AutoLink { url } => ElementView::AutoLink { url: url@ },
        Element::CodeInline { children } => ElementView::CodeInline {
            children: element_views(children@),
        },
        Element::Emphasis { children } => ElementView::Emphasis {
            children: element_views(children@),
        },
        Element::Strong { children } => ElementView::Strong { children: element_views(children@) },
        Element::Image { url, title } => ElementView::Image { url: url@, title: opt_view(title) },
        Element::Link { url, title } => ElementView::Link { url: url@, title: opt_view(title) },
        Element::Hardbreak => ElementView::Hardbreak,
        Element::Softbreak => ElementView::Softbreak,
        Element::Text { content } => ElementView::Text { content: content@ },
        Element::TextSpecial { content, markup, info } => ElementView::TextSpecial {
            content: content@,
            markup: markup@,
            info: info@,
        },
        Element::Linkified { url } => ElementView::Linkified { url: url@ },
        Element::Strikethrough { children } => ElementView::Strikethrough {
            children: element_views(children@),
        },
        Element::SyntectSnippet { html } => ElementView::SyntectSnippet { html: html@ },
        Element::Table { alignments, children } => ElementView::Table {
            alignments: alignments@,
            children: element_views(children@),
        },
        Element::TableBody { children } => ElementView::TableBody {
            children: element_views(children@),
        },
        Element::TableCell { children } => ElementView::TableCell {
            children: element_views(children@),
        },
        Element::TableHead { children } => ElementView::TableHead {
            children: element_views(children@),
        },
        Element::TableRow { children } => ElementView::TableRow {
            children: element_views(children@),
        },
        Element::HtmlBlock { content } => ElementView::HtmlBlock { content: content@ },
        Element::HtmlInline { content } => ElementView::HtmlInline { content: content@ },
        Element::Timecode { url, hours, minutes, seconds } => ElementView::Timecode {
            url: url@,
            hours,
            minutes,
            seconds,
        },
        Element::Sidenote { position, children } => ElementView::Sidenote {
            position,
            children: element_views(children@),
        },
        Element::Utterance { shortname, longname, children } => ElementView::Utterance {
            shortname: shortname@,
            longname: longname@,
            children: element_views(children@),
        },
        Element::Mention { position, id, title } => ElementView::Mention {
            position,
            id: id@,
            title: title@,
        },
    }
}

/// The views of a sequence of elements.
pub open spec fn element_views(elements: Seq<Element>) -> Seq<ElementView>
    decreases elements, 1int,
{
    Seq::new(
        elements.len(),
        |i: int|
            if 0 <= i < elements.len() {
                element_view(elements[i])
            } else {
                ElementView::ThematicBreak
            },
    )
}

impl View for Element {
    type V = ElementView;

    open spec fn view(&self) -> ElementView {
        element_view(*self)
    }
}

impl Clone for Element {
    fn clone(&self) -> (copy: Self)
        ensures
            copy@ == self@,
        decreases self,
    {
        match self {
            Element::Root { children } => Element::Root { children: clone_elements(children) },
            Element::Heading { level, children } => Element::Heading {
                level: *level,
                children: clone_elements(children),
            },
            Element::Blockquote { children } => Element::Blockquote {
                children: clone_elements(children),
            },
            Element::CodeBlock { info, language, content } => Element::CodeBlock {
                info: clone_opt(info),
                language: clone_opt(language),
                content: content.clone(),
            },
            Element::ThematicBreak => Element::ThematicBreak,
            Element::OrderedList { starting_number, children } => Element::OrderedList {
                starting_number: *starting_number,
                children: clone_elements(children),
            },
            Element::BulletList { children } => Element::BulletList {
                children: clone_elements(children),
            },
            Element::ListItem { children } => Element::ListItem {
                children: clone_elements(children),
            },
            Element::Paragraph { children } => Element::Paragraph {
                children: clone_elements(children),
            },
            Element::ReferenceDefinition { label, desination, title } => Element::ReferenceDefinition
            {
                label: label.clone(),
                desination: desination.clone(),
                title: clone_opt(title),
            },
            Element::AutoLink { url } => Element::AutoLink { url: url.clone() },
            Element::CodeInline { children } => Element::CodeInline {
                children: clone_elements(children),
            },
            Element::Emphasis { children } => Element::Emphasis {
                children: clone_elements(children),
            },
            Element::Strong { children } => Element::Strong { children: clone_elements(children) },
            Element::Image { url, title } => Element::Image {
                url: url.clone(),
                title: clone_opt(title),
            },
            Element::Link { url, title } => Element::Link {
                url: url.clone(),
                title: clone_opt(title),
            },
            Element::Hardbreak => Element::Hardbreak,
            Element::Softbreak => Element::Softbreak,
            Element::Text { content } => Element::Text { content: content.clone() },
            Element::TextSpecial { content, markup, info } => Element::TextSpecial {
                content: content.clone(),
                markup: markup.clone(),
                info: info.clone(),
            },
            Element::Linkified { url } => Element::Linkified { url: url.clone() },
            Element::Strikethrough { children } => Element::Strikethrough {
                children: clone_elements(children),
            },
            Element::SyntectSnippet { html } => Element::SyntectSnippet { html: html.clone() },
            Element::Table { alignments, children } => Element::Table {
                alignments: clone_alignments(alignments),
                children: clone_elements(children),
            },
            Element::TableBody { children } => Element::TableBody {
                children: clone_elements(children),
            },
            Element::TableCell { children } => Element::TableCell {
                children: clone_elements(children),
            },
            Element::TableHead { children } => Element::TableHead {
                children: clone_elements(children),
            },
            Element::TableRow { children } => Element::TableRow {
                children: clone_elements(children),
            },
            Element::HtmlBlock { content } => Element::HtmlBlock { content: content.clone() },
            Element::HtmlInline { content } => Element::HtmlInline { content: content.clone() },
            Element::Timecode { url, hours, minutes, seconds } => Element::Timecode {
                url: url.clone(),
                hours: *hours,
                minutes: *minutes,
                seconds: *seconds,
            },
            Element::Sidenote { position, children } => Element::Sidenote {
                position: *position,
                children: clone_elements(children),
            },
            Element::Utterance { shortname, longname, children } => Element::Utterance {
                shortname: shortname.clone(),
                longname: longname.clone(),
                children: clone_elements(children),
            },
            Element::Mention { position, id, title } => Element::Mention {
                position: *position,
                id: id.clone(),
                title: title.clone(),
            },
        }
    }
}

/// Copies of the elements of `elements`, in order.
fn clone_elements(elements: &Vec<Element>) -> (copy: Vec<Element>)
    ensures
        element_views(copy@) == element_views(elements@),
    decreases elements,
{
    let mut copy: Vec<Element> = Vec::new();
    let mut i: usize = 0;
    while i < elements.len()
        invariant
            i <= elements.len(),
            copy.len() == i,
            forall|j: int| 0 <= j < i ==> copy@[j]@ == elements@[j]@,
        decreases elements.len() - i,
    {
        proof {
            assert(decreases_to!(elements => elements@));
            assert(decreases_to!(elements@ => elements@[i as int]));
        }
        let element = elements[i].clone();
        copy.push(element);
        i += 1;
    }
    assert(element_views(copy@) =~= element_views(elements@));
    copy
}

/// Why a parse tree has no output tree.
#[derive(Debug, PartialEq, Eq)]
pub enum MaterializeError {
    /// The tree holds a node of a kind that has no place in the output tree.
    UnknownNode { name: String },
    /// The tree holds a mention whose title was never resolved.
    UnresolvedMention { id: String },
}

/// The view of [`MaterializeError`].
pub enum MaterializeErrorView {
    UnknownNode { name: Seq<char> },
    UnresolvedMention { id: Seq<char> },
}

impl View for MaterializeError {
    type V = MaterializeErrorView;

    open spec fn view(&self) -> MaterializeErrorView {
        match self {
            MaterializeError::UnknownNode { name } => MaterializeErrorView::UnknownNode {
                name: name@,
            },
            MaterializeError::UnresolvedMention { id } => MaterializeErrorView::UnresolvedMention {
                id: id@,
            },
        }
    }
}

/// What stands in the way of converting a node of this kind, if anything.
pub open spec fn own_failure(value: NodeValueView) -> Option<MaterializeErrorView> {
    match value {
        NodeValueView::Other { name } => Some(MaterializeErrorView::UnknownNode { name }),
        NodeValueView::MentionDeclaration(declaration) => Some(
            MaterializeErrorView::UnresolvedMention { id: declaration.id },
        ),
        _ => None,
    }
}

/// The first obstacle met when `node` is converted children first, from left
/// to right, and the node itself last.
pub open spec fn failure(node: NodeView) -> Option<MaterializeErrorView>
    decreases node, 0int,
{
    match failure_among(node.children, 0) {
        Some(e) => Some(e),
        None => own_failure(node.value),
    }
}

/// The first obstacle met in `nodes[from..]`.
pub open spec fn failure_among(nodes: Seq<NodeView>, from: int) -> Option<MaterializeErrorView>
    decreases nodes, nodes.len() - from,
{
    if 0 <= from < nodes.len() {
        match failure(nodes[from]) {
            Some(e) => Some(e),
            None => failure_among(nodes, from + 1),
        }
    } else {
        None
    }
}

/// The output element for a node; it is meant for nodes without `failure`.
pub open spec fn materialize(node: NodeView) -> ElementView
    decreases node, 0int,
{
    let children = materialize_all(node.children);
    match node.value {
        NodeValueView::Root => ElementView::Root { children },
        NodeValueView::Text { content } => ElementView::Text { content },
        NodeValueView::TextSpecial { content, markup, info } => ElementView::TextSpecial {
            content,
            markup,
            info,
        },
        NodeValueView::AtxHeading { level } => ElementView::Heading { level, children },
        NodeValueView::SetextHeading { level } => ElementView::Heading { level, children },
        NodeValueView::Blockquote => ElementView::Blockquote { children },
        NodeValueView::CodeBlock { content } => ElementView::CodeBlock {
            info: None,
            language: None,
            content,
        },
        NodeValueView::CodeFence { info, content } => ElementView::CodeBlock {
            info: Some(info),
            language: Some(info),
            content,
        },
        NodeValueView::ThematicBreak => ElementView::ThematicBreak,
        NodeValueView::OrderedList { start } => ElementView::OrderedList {
            starting_number: start,
            children,
        },
        NodeValueView::BulletList => ElementView::BulletList { children },
        NodeValueView::ListItem => ElementView::ListItem { children },
        NodeValueView::Paragraph => ElementView::Paragraph { children },
        NodeValueView::Definition { label, destination, title } => {
            ElementView::ReferenceDefinition { label, desination: destination, title }
        },
        NodeValueView::Autolink { url } => ElementView::AutoLink { url },
        NodeValueView::CodeInline => ElementView::CodeInline { children },
        NodeValueView::Em => ElementView::Emphasis { children },
        NodeValueView::Strong => ElementView::Strong { children },
        NodeValueView::Image { url, title } => ElementView::Image { url, title },
        NodeValueView::Link { url, title } => ElementView::Link { url, title },
        NodeValueView::Hardbreak => ElementView::Hardbreak,
        NodeValueView::Softbreak => ElementView::Softbreak,
        NodeValueView::Linkified { url } => ElementView::Linkified { url },
        NodeValueView::Strikethrough => ElementView::Strikethrough { children },
        NodeValueView::SyntectSnippet { html } => ElementView::SyntectSnippet { html },
        NodeValueView::Table { alignments } => ElementView::Table { alignments, children },
        NodeValueView::TableBody => ElementView::TableBody { children },
        NodeValueView::TableCell => ElementView::TableCell { children },
        NodeValueView::TableHead => ElementView::TableHead { children },
        NodeValueView::TableRow => ElementView::TableRow { children },
        NodeValueView::HtmlBlock { content } => ElementView::HtmlBlock { content },
        NodeValueView::HtmlInline { content } => ElementView::HtmlInline { content },
        NodeValueView::Timecode(timecode) => ElementView::Timecode {
            url: timecode.url.text,
            hours: timecode.hours,
            minutes: timecode.minutes,
            seconds: timecode.seconds,
        },
        NodeValueView::Sidenote(sidenote) => ElementView::Sidenote {
            position: sidenote.position,
            children,
        },
        NodeValueView::Utterance(utterance) => ElementView::Utterance {
            shortname: utterance.shortname,
            longname: utterance.longname,
            children,
        },
        NodeValueView::Mention(mention) => ElementView::Mention {
            position: mention.position,
            id: mention.id,
            title: mention.title,
        },
        NodeValueView::MentionDeclaration(_) => ElementView::ThematicBreak,
        NodeValueView::Other { .. } => ElementView::ThematicBreak,
    }
}

/// The output elements for a sequence of nodes.
pub open spec fn materialize_all(nodes: Seq<NodeView>) -> Seq<ElementView>
    decreases nodes, 1int,
{
    Seq::new(
        nodes.len(),
        |i: int|
            if 0 <= i < nodes.len() {
                materialize(nodes[i])
            } else {
                ElementView::ThematicBreak
            },
    )
}

/// What converting a tree with view `node` gives.
pub open spec fn materialized(
    node: NodeView,
    result: Result<Element, MaterializeError>,
) -> bool {
    match failure(node) {
        Some(e) => result matches Err(error) && error@ == e,
        None => result matches Ok(element) && element@ == materialize(node),
    }
}

/// Converts the nodes of `children` in order, and stops at the first that cannot
/// be converted.
fn convert_children(children: &Vec<Node>) -> (result: Result<Vec<Element>, MaterializeError>)
    ensures
        match failure_among(node_views(children@), 0) {
            Some(e) => result matches Err(error) && error@ == e,
            None => result matches Ok(elements) && element_views(elements@) == materialize_all(
                node_views(children@),
            ),
        },
    decreases children,
{
    let ghost views = node_views(children@);
    let mut elements: Vec<Element> = Vec::new();
    let mut i: usize = 0;
    while i < children.len()
        invariant
            i <= children.len(),
            views == node_views(children@),
            elements.len() == i,
            failure_among(views, 0) == failure_among(views, i as int),
            forall|j: int| 0 <= j < i ==> elements@[j]@ == materialize(views[j]),
        decreases children.len() - i,
    {
        proof {
            assert(decreases_to!(children => children@));
            assert(decreases_to!(children@ => children@[i as int]));
        }
        match Element::new(&children[i]) {
            Ok(element) => {
                elements.push(element);
            },
            Err(error) => {
                return Err(error);
            },
        }
        i += 1;
    }
    assert(element_views(elements@) =~= materialize_all(views));
    Ok(elements)
}

impl Element {
    /// Converts a parse tree into the output tree, children before parents.
    ///
    /// The conversion fails at the first node, in that order, that has no place
    /// in the output: a node of unknown kind, or a mention without its title.
    pub fn new(node: &Node) -> (result: Result<Element, MaterializeError>)
        ensures
            materialized(node@, result),
        decreases node,
    {
        proof {
            node.view_children();
        }
        let children = match convert_children(&node.children) {
            Ok(children) => children,
            Err(error) => {
                return Err(error);
            },
        };
        let element = match &node.value {
            NodeValue::Root => Element::Root { children },
            NodeValue::Text { content } => Element::Text { content: content.clone() },
            NodeValue::TextSpecial { content, markup, info } => Element::TextSpecial {
                content: content.clone(),
                markup: markup.clone(),
                info: info.clone(),
            },
            NodeValue::AtxHeading { level } => Element::Heading { level: *level, children },
            NodeValue::SetextHeading { level } => Element::Heading { level: *level, children },
            NodeValue::Blockquote => Element::Blockquote { children },
            NodeValue::CodeBlock { content } => Element::CodeBlock {
                info: None,
                language: None,
                content: content.clone(),
            },
            NodeValue::CodeFence { info, content } => Element::CodeBlock {
                info: Some(info.clone()),
                language: Some(info.clone()),
                content: content.clone(),
            },
            NodeValue::ThematicBreak => Element::ThematicBreak,
            NodeValue::OrderedList { start } => Element::OrderedList {
                starting_number: *start,
                children,
            },
            NodeValue::BulletList => Element::BulletList { children },
            NodeValue::ListItem => Element::ListItem { children },
            NodeValue::Paragraph => Element::Paragraph { children },
            NodeValue::Definition { label, destination, title } => Element::ReferenceDefinition {
                label: label.clone(),
                desination: destination.clone(),
                title: clone_opt(title),
            },
            NodeValue::Autolink { url } => Element::AutoLink { url: url.clone() },
            NodeValue::CodeInline => Element::CodeInline { children },
            NodeValue::Em => Element::Emphasis { children },
            NodeValue::Strong => Element::Strong { children },
            NodeValue::Image { url, title } => Element::Image {
                url: url.clone(),
                title: clone_opt(title),
            },
            NodeValue::Link { url, title } => Element::Link {
                url: url.clone(),
                title: clone_opt(title),
            },
            NodeValue::Hardbreak => Element::Hardbreak,
            NodeValue::Softbreak => Element::Softbreak,
            NodeValue::Linkified { url } => Element::Linkified { url: url.clone() },
            NodeValue::Strikethrough => Element::Strikethrough { children },
            NodeValue::SyntectSnippet { html } => Element::SyntectSnippet { html: html.clone() },
            NodeValue::Table { alignments } => Element::Table {
                alignments: clone_alignments(alignments),
                children,
            },
            NodeValue::TableBody => Element::TableBody { children },
            NodeValue::TableCell => Element::TableCell { children },
            NodeValue::TableHead => Element::TableHead { children },
            NodeValue::TableRow => Element::TableRow { children },
            NodeValue::HtmlBlock { content } => Element::HtmlBlock { content: content.clone() },
            NodeValue::HtmlInline { content } => Element::HtmlInline { content: content.clone() },
            NodeValue::Timecode(timecode) => Element::Timecode {
                url: timecode.url.text.clone(),
                hours: timecode.hours,
                minutes: timecode.minutes,
                seconds: timecode.seconds,
            },
            NodeValue::Sidenote(sidenote) => Element::Sidenote {
                position: sidenote.position,
                children,
            },
            NodeValue::Utterance(utterance) => Element::Utterance {
                shortname: utterance.shortname.clone(),
                longname: utterance.longname.clone(),
                children,
            },
            NodeValue::Mention(mention) => Element::Mention {
                position: mention.position,
                id: mention.id.clone(),
                title: mention.title.clone(),
            },
            NodeValue::MentionDeclaration(declaration) => {
                return Err(MaterializeError::UnresolvedMention { id: declaration.id.clone() });
            },
            NodeValue::Other { name } => {
                return Err(MaterializeError::UnknownNode { name: name.clone() });
            },
        };
        Ok(element)
    }
}

} // verus!
