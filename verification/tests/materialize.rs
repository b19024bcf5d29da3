use rpr::markdown::github::{GitHubIssue, GitHubIssueDeclaration};
use rpr::markdown::node::{Node, NodeValue};
use rpr::markdown::sidenote::InlineSidenote;
use rpr::markdown::timecode::{InlineTimecode, SourceUrl};
use rpr::markdown::utterance::Utterance;
use rpr::markdown::{Element, MaterializeError, TableColumnAlignment};

fn tree_of(value: NodeValue, children: Vec<Node>) -> Node {
    let mut node = Node::new(value);
    node.children = children;
    node
}

fn text_leaf(content: &str) -> Node {
    Node::new(NodeValue::Text { content: content.to_string() })
}

fn text_element(content: &str) -> Element {
    Element::Text { content: content.to_string() }
}

#[test]
fn children_are_converted_in_order() {
    let tree = tree_of(
        NodeValue::Root,
        vec![
            tree_of(NodeValue::AtxHeading { level: 2 }, vec![text_leaf("Title")]),
            tree_of(
                NodeValue::Paragraph,
                vec![
                    text_leaf("a "),
                    tree_of(NodeValue::Em, vec![text_leaf("b")]),
                    Node::new(NodeValue::Softbreak),
                    tree_of(NodeValue::Strong, vec![text_leaf("c")]),
                ],
            ),
            Node::new(NodeValue::ThematicBreak),
        ],
    );
    assert_eq!(
        Element::new(&tree),
        Ok(Element::Root {
            children: vec![
                Element::Heading { level: 2, children: vec![text_element("Title")] },
                Element::Paragraph {
                    children: vec![
                        text_element("a "),
                        Element::Emphasis { children: vec![text_element("b")] },
                        Element::Softbreak,
                        Element::Strong { children: vec![text_element("c")] },
                    ]
                },
                Element::ThematicBreak,
            ]
        })
    );
}

#[test]
fn both_kinds_of_heading_and_of_code_come_to_one() {
    assert_eq!(
        Element::new(&tree_of(NodeValue::SetextHeading { level: 1 }, vec![text_leaf("T")])),
        Ok(Element::Heading { level: 1, children: vec![text_element("T")] })
    );
    assert_eq!(
        Element::new(&Node::new(NodeValue::CodeBlock { content: "let x;\n".to_string() })),
        Ok(Element::CodeBlock { info: None, language: None, content: "let x;\n".to_string() })
    );
    assert_eq!(
        Element::new(&Node::new(NodeValue::CodeFence {
            info: "rust".to_string(),
            content: "let x;\n".to_string(),
        })),
        Ok(Element::CodeBlock {
            info: Some("rust".to_string()),
            language: Some("rust".to_string()),
            content: "let x;\n".to_string(),
        })
    );
}

#[test]
fn each_kind_keeps_what_a_renderer_needs() {
    let cases: Vec<(NodeValue, Element)> = vec![
        (
            NodeValue::TextSpecial {
                content: "&".to_string(),
                markup: "&amp;".to_string(),
                info: "entity".to_string(),
            },
            Element::TextSpecial {
                content: "&".to_string(),
                markup: "&amp;".to_string(),
                info: "entity".to_string(),
            },
        ),
        (NodeValue::Blockquote, Element::Blockquote { children: vec![] }),
        (
            NodeValue::OrderedList { start: 3 },
            Element::OrderedList { starting_number: 3, children: vec![] },
        ),
        (NodeValue::BulletList, Element::BulletList { children: vec![] }),
        (NodeValue::ListItem, Element::ListItem { children: vec![] }),
        (
            NodeValue::Definition {
                label: "l".to_string(),
                destination: "d".to_string(),
                title: Some("t".to_string()),
            },
            Element::ReferenceDefinition {
                label: "l".to_string(),
                desination: "d".to_string(),
                title: Some("t".to_string()),
            },
        ),
        (
            NodeValue::Autolink { url: "https://a.example".to_string() },
            Element::AutoLink { url: "https://a.example".to_string() },
        ),
        (NodeValue::CodeInline, Element::CodeInline { children: vec![] }),
        (
            NodeValue::Image { url: "i.png".to_string(), title: None },
            Element::Image { url: "i.png".to_string(), title: None },
        ),
        (
            NodeValue::Link { url: "https://a.example".to_string(), title: Some("t".to_string()) },
            Element::Link { url: "https://a.example".to_string(), title: Some("t".to_string()) },
        ),
        (NodeValue::Hardbreak, Element::Hardbreak),
        (
            NodeValue::Linkified { url: "https://a.example".to_string() },
            Element::Linkified { url: "https://a.example".to_string() },
        ),
        (NodeValue::Strikethrough, Element::Strikethrough { children: vec![] }),
        (
            NodeValue::SyntectSnippet { html: "<pre></pre>".to_string() },
            Element::SyntectSnippet { html: "<pre></pre>".to_string() },
        ),
        (
            NodeValue::Table {
                alignments: vec![
                    TableColumnAlignment::Unaligned,
                    TableColumnAlignment::Left,
                    TableColumnAlignment::Right,
                    TableColumnAlignment::Center,
                ],
            },
            Element::Table {
                alignments: vec![
                    TableColumnAlignment::Unaligned,
                    TableColumnAlignment::Left,
                    TableColumnAlignment::Right,
                    TableColumnAlignment::Center,
                ],
                children: vec![],
            },
        ),
        (NodeValue::TableBody, Element::TableBody { children: vec![] }),
        (NodeValue::TableCell, Element::TableCell { children: vec![] }),
        (NodeValue::TableHead, Element::TableHead { children: vec![] }),
        (NodeValue::TableRow, Element::TableRow { children: vec![] }),
        (
            NodeValue::HtmlBlock { content: "<div>".to_string() },
            Element::HtmlBlock { content: "<div>".to_string() },
        ),
        (
            NodeValue::HtmlInline { content: "<b>".to_string() },
            Element::HtmlInline { content: "<b>".to_string() },
        ),
        (
            NodeValue::Timecode(InlineTimecode {
                url: SourceUrl::parse("https://Example.com/talk").unwrap(),
                hours: 1,
                minutes: 2,
                seconds: 3,
            }),
            Element::Timecode {
                url: "https://example.com/talk".to_string(),
                hours: 1,
                minutes: 2,
                seconds: 3,
            },
        ),
        (
            NodeValue::Sidenote(InlineSidenote::new(4)),
            Element::Sidenote { position: 4, children: vec![] },
        ),
        (
            NodeValue::Utterance(Utterance {
                shortname: "RP".to_string(),
                longname: "Ray Peat".to_string(),
            }),
            Element::Utterance {
                shortname: "RP".to_string(),
                longname: "Ray Peat".to_string(),
                children: vec![],
            },
        ),
        (
            NodeValue::Mention(GitHubIssue {
                position: 2,
                id: "42".to_string(),
                title: "The answer".to_string(),
            }),
            Element::Mention { position: 2, id: "42".to_string(), title: "The answer".to_string() },
        ),
    ];
    for (value, element) in cases {
        assert_eq!(Element::new(&Node::new(value)), Ok(element));
    }
}

#[test]
fn a_node_of_unknown_kind_has_no_output() {
    let tree = tree_of(
        NodeValue::Root,
        vec![
            text_leaf("fine"),
            tree_of(
                NodeValue::Other { name: "second".to_string() },
                vec![Node::new(NodeValue::Other { name: "first".to_string() })],
            ),
            Node::new(NodeValue::Other { name: "third".to_string() }),
        ],
    );
    assert_eq!(
        Element::new(&tree),
        Err(MaterializeError::UnknownNode { name: "first".to_string() })
    );
}

#[test]
fn a_mention_without_its_title_has_no_output() {
    let tree = tree_of(
        NodeValue::Paragraph,
        vec![Node::new(NodeValue::MentionDeclaration(GitHubIssueDeclaration::new(
            1,
            "42".to_string(),
        )))],
    );
    assert_eq!(
        Element::new(&tree),
        Err(MaterializeError::UnresolvedMention { id: "42".to_string() })
    );
}

#[test]
fn a_copy_of_a_tree_is_the_same_tree() {
    let tree = tree_of(
        NodeValue::Paragraph,
        vec![text_leaf("a"), tree_of(NodeValue::Em, vec![text_leaf("b")])],
    );
    assert_eq!(tree.clone(), tree);
    let element = Element::new(&tree).unwrap();
    assert_eq!(element.clone(), element);
}
