use rpr::context::{Context, SpeakerRegistry};
use rpr::error::AuthoringError;
use rpr::markdown::document::{build, parse};
use rpr::markdown::lines::{split_lines, LineOffset};
use rpr::markdown::mention::{Fetched, MentionCache};
use rpr::markdown::node::NodeValue;
use rpr::markdown::state::{BlockState, InlineState};
use rpr::markdown::node::Node;
use rpr::markdown::{Element, OtherLine, Tokenize};

fn talk(source: Option<&str>) -> Context {
    let mut speakers = SpeakerRegistry::new();
    speakers.insert("RP".to_string(), "Ray Peat".to_string());
    Context::new("talk.md".to_string(), source.map(|s| s.to_string()), speakers)
}

fn words(text: &str) -> Element {
    Element::Text { content: text.to_string() }
}

#[test]
fn lines_end_at_line_feeds() {
    let src: Vec<char> = "one\n  two\n\n\tthree".chars().collect();
    assert_eq!(
        split_lines(&src),
        vec![
            LineOffset { line_start: 0, first_nonspace: 0, line_end: 3, indent_nonspace: 0 },
            LineOffset { line_start: 4, first_nonspace: 6, line_end: 9, indent_nonspace: 2 },
            LineOffset { line_start: 10, first_nonspace: 10, line_end: 10, indent_nonspace: 0 },
            LineOffset { line_start: 11, first_nonspace: 12, line_end: 17, indent_nonspace: 4 },
        ]
    );
    let src: Vec<char> = "".chars().collect();
    assert_eq!(
        split_lines(&src),
        vec![LineOffset { line_start: 0, first_nonspace: 0, line_end: 0, indent_nonspace: 0 }]
    );
    let src: Vec<char> = "a\n".chars().collect();
    assert_eq!(split_lines(&src).len(), 2);
    assert!(split_lines(&src)[1].is_empty());
}

#[test]
fn a_timecode_takes_the_source_of_the_document() {
    let mut context = talk(Some("https://www.YouTube.com/watch?v=abc"));
    let output = build("At [1:02:03] it starts.", &mut context, &MentionCache::new());
    assert_eq!(
        output,
        Ok(Element::Root {
            children: vec![Element::Paragraph {
                children: vec![
                    words("At "),
                    Element::Timecode {
                        url: "https://www.youtube.com/watch?v=abc".to_string(),
                        hours: 1,
                        minutes: 2,
                        seconds: 3,
                    },
                    words(" it starts."),
                ]
            }]
        })
    );
}

#[test]
fn a_timecode_alone_gives_one_node() {
    let mut context = talk(Some("https://example.com/talk"));
    let tree = parse("[01:02:03]", &mut context).unwrap();
    assert_eq!(tree.children.len(), 1);
    assert_eq!(tree.children[0].value, NodeValue::Paragraph);
    assert_eq!(tree.children[0].children.len(), 1);
    match &tree.children[0].children[0].value {
        NodeValue::Timecode(timecode) => {
            assert_eq!((timecode.hours, timecode.minutes, timecode.seconds), (1, 2, 3));
            assert_eq!(timecode.stamp(), "01:02:03");
            assert_eq!(timecode.url.text, "https://example.com/talk");
        }
        other => panic!("no timecode: {:?}", other),
    }
    assert_eq!(tree.children[0].children[0].srcmap, Some((0, 10)));
}

#[test]
fn a_timecode_without_a_source_fails_the_parse() {
    let mut context = talk(None);
    assert_eq!(
        parse("RP: At [1:02] it starts.", &mut context),
        Err(AuthoringError::MissingSourceUrl { document: "talk.md".to_string() })
    );
    assert_eq!(context.speaker, None);
}

#[test]
fn a_timecode_with_a_source_that_is_no_url_fails_the_parse() {
    let mut context = talk(Some("the tape in the attic"));
    assert_eq!(
        build("At [1:02] it starts.", &mut context, &MentionCache::new()),
        Err(AuthoringError::InvalidSourceUrl {
            url: "the tape in the attic".to_string(),
            document: "talk.md".to_string(),
        })
    );
}

#[test]
fn a_document_without_timecodes_needs_no_source() {
    let mut context = talk(None);
    assert_eq!(
        build("Just [words] here.", &mut context, &MentionCache::new()),
        Ok(Element::Root {
            children: vec![Element::Paragraph { children: vec![words("Just [words] here.")] }]
        })
    );
}

#[test]
fn an_empty_document_has_an_empty_tree() {
    let mut context = talk(None);
    for text in ["", "\n", "  \n\t\n\n"] {
        assert_eq!(
            build(text, &mut context, &MentionCache::new()),
            Ok(Element::Root { children: vec![] })
        );
    }
}

#[test]
fn all_four_additions_in_one_document() {
    let mut cache = MentionCache::new();
    cache
        .settle(
            "42",
            Fetched::Body(
                "<div id=\"partial-discussion-header\"><h1><bdi> Milk </bdi></h1></div>"
                    .to_string(),
            ),
        )
        .unwrap();
    let mut context = talk(Some("https://example.com/talk.mp3"));
    let text = "Intro.\n\nRP: [0:30] Milk {see {#42} too} is fine {#42} now.\n";
    let output = build(text, &mut context, &cache);
    assert_eq!(
        output,
        Ok(Element::Root {
            children: vec![
                Element::Paragraph { children: vec![words("Intro.")] },
                Element::Utterance {
                    shortname: "RP".to_string(),
                    longname: "Ray Peat".to_string(),
                    children: vec![Element::Paragraph {
                        children: vec![
                            Element::Timecode {
                                url: "https://example.com/talk.mp3".to_string(),
                                hours: 0,
                                minutes: 0,
                                seconds: 30,
                            },
                            words(" Milk "),
                            Element::Sidenote { position: 1, children: vec![words("see {#42")] },
                            words(" too} is fine "),
                            Element::Mention {
                                position: 1,
                                id: "42".to_string(),
                                title: "Milk".to_string(),
                            },
                            words(" now."),
                        ]
                    }],
                },
            ]
        })
    );
}

#[test]
fn reading_a_part_of_the_text_leaves_the_cursor_where_it_was() {
    let mut context = talk(None);
    let src: Vec<char> = "before {note} after".chars().collect();
    let mut state = InlineState::new(src, Node::new(NodeValue::Root));
    state.pos = 3;
    state.pos_max = 5;
    let filled = state.tokenize(7, 13, Node::new(NodeValue::Paragraph), &mut context).unwrap();
    assert_eq!((state.pos, state.pos_max, state.level), (3, 5, 0));
    assert_eq!(state.node, Node::new(NodeValue::Root));
    assert_eq!(
        Element::new(&filled),
        Ok(Element::Paragraph {
            children: vec![Element::Sidenote { position: 1, children: vec![words("note")] }]
        })
    );
}

#[test]
fn reading_a_part_of_the_lines_leaves_the_cursor_where_it_was() {
    let mut context = talk(None);
    let src: Vec<char> = "zero\n\nRP: one\ntwo\n\nJM: three".chars().collect();
    let mut state = BlockState::new(src, Node::new(NodeValue::Root));
    assert_eq!((state.line, state.line_max), (0, 6));
    let filled = state.tokenize(2, 5, Node::new(NodeValue::Blockquote), &mut context).unwrap();
    assert_eq!((state.line, state.line_max), (0, 6));
    assert_eq!(
        Element::new(&filled),
        Ok(Element::Blockquote {
            children: vec![Element::Utterance {
                shortname: "RP".to_string(),
                longname: "Ray Peat".to_string(),
                children: vec![Element::Paragraph { children: vec![words("one\ntwo")] }],
            }]
        })
    );
    let failed = state.tokenize(5, 6, Node::new(NodeValue::Blockquote), &mut context);
    assert_eq!(
        failed,
        Err(AuthoringError::UnknownSpeaker {
            shortname: "JM".to_string(),
            document: "talk.md".to_string(),
        })
    );
    assert_eq!((state.line, state.line_max), (0, 6));
    assert_eq!(context.speaker, None);
}

#[test]
fn a_line_that_opens_a_turn_is_claimed_while_no_section_is_open() {
    let mut context = talk(None);
    let src: Vec<char> = "zero\nRP: one\nXX: two".chars().collect();
    let mut state = BlockState::new(src, Node::new(NodeValue::Root));
    assert!(!state.test_rules_at_other_line(0, &context));
    assert!(state.test_rules_at_other_line(1, &context));
    assert!(state.test_rules_at_other_line(2, &context));
    assert_eq!(state.line, 0);
    context.speaker = Some("RP".to_string());
    assert!(!state.test_rules_at_other_line(1, &context));
    assert!(!state.test_rules_at_other_line(2, &context));
}

#[test]
fn a_text_has_room_while_the_numbers_stay_within_bounds() {
    let mut context = talk(None);
    assert!(context.has_room_for(""));
    assert!(context.has_room_for("RP: {note} {#1}"));
    context.sidenotes = u32::MAX - 4;
    assert!(context.has_room_for("abc"));
    assert!(!context.has_room_for("abcd"));
    context.sidenotes = 0;
    context.mentions = u32::MAX;
    assert!(!context.has_room_for(""));
}

#[test]
fn a_tab_reaches_to_the_next_multiple_of_four() {
    for (text, columns) in
        [("x", 0), (" x", 1), ("\tx", 4), (" \tx", 4), ("   \tx", 4), ("    \tx", 8), ("\t x", 5),
         (" \t \t  x", 10), ("\t\t", 8)]
    {
        let src: Vec<char> = text.chars().collect();
        assert_eq!(split_lines(&src)[0].indent_nonspace, columns, "{:?}", text);
    }
}

#[test]
fn a_tab_before_a_turn_counts_four_columns_against_the_limit() {
    let mut context = talk(None);
    context.max_indent = 4;
    let text = "\tRP: Hello.\n  \tRP: Hi.\n   RP: Yes.";
    let output = build(text, &mut context, &MentionCache::new());
    assert_eq!(
        output,
        Ok(Element::Root {
            children: vec![
                Element::Paragraph { children: vec![words("RP: Hello.\n  \tRP: Hi.")] },
                Element::Utterance {
                    shortname: "RP".to_string(),
                    longname: "Ray Peat".to_string(),
                    children: vec![Element::Paragraph { children: vec![words("Yes.")] }],
                },
            ]
        })
    );
}
