use rpr::context::{Context, SpeakerRegistry};
use rpr::markdown::document::parse;
use rpr::markdown::sidenote::{scan, InlineSidenote};
use rpr::markdown::Element;

fn sidenote_chars(text: &str) -> Vec<char> {
    text.chars().collect()
}

fn plain_context() -> Context {
    Context::new(
        "notes.md".to_string(),
        Some("https://example.com/talk".to_string()),
        SpeakerRegistry::new(),
    )
}

fn elements_of(text: &str, context: &mut Context) -> Vec<Element> {
    match Element::new(&parse(text, context).unwrap()).unwrap() {
        Element::Root { children } => children,
        other => panic!("no root: {:?}", other),
    }
}

fn written(text: &str) -> Element {
    Element::Text { content: text.to_string() }
}

fn note(position: u32, text: &str) -> Element {
    Element::Sidenote { position, children: vec![written(text)] }
}

#[test]
fn a_sidenote_closes_at_the_first_brace_before_white_space_or_the_end() {
    let src = sidenote_chars("{a note} and more");
    assert_eq!(scan(&src, 0, src.len()), Some(7));
    let src = sidenote_chars("{a note}");
    assert_eq!(scan(&src, 0, src.len()), Some(7));
    let src = sidenote_chars("{a note}\nnext line");
    assert_eq!(scan(&src, 0, src.len()), Some(7));
}

#[test]
fn a_brace_that_is_followed_by_anything_else_closes_nothing() {
    for text in ["{a note}.", "{a note}s", "{a}{b} c"] {
        let src = sidenote_chars(text);
        assert_eq!(scan(&src, 0, src.len()), None, "{}", text);
    }
}

#[test]
fn a_brace_that_is_never_closed_opens_nothing() {
    for text in ["{a note", "{", "{}", "a note}", ""] {
        let src = sidenote_chars(text);
        assert_eq!(scan(&src, 0, src.len()), None, "{}", text);
    }
    let src = sidenote_chars("{a note} tail");
    assert_eq!(scan(&src, 0, 7), None);
}

#[test]
fn a_sidenote_is_named_by_its_number() {
    assert_eq!(InlineSidenote::new(1).id(), "sidenote-1");
    assert_eq!(InlineSidenote::new(12).id(), "sidenote-12");
    assert_eq!(InlineSidenote::new(4294967295).id(), "sidenote-4294967295");
    assert_eq!(InlineSidenote::new(0).id(), "sidenote-0");
}

#[test]
fn sidenotes_are_numbered_from_one_in_the_order_of_the_document() {
    let mut context = plain_context();
    let children = elements_of(
        "First {one} then {two} here.\n\nSecond paragraph {three} ends.",
        &mut context,
    );
    assert_eq!(
        children,
        vec![
            Element::Paragraph {
                children: vec![
                    written("First "),
                    note(1, "one"),
                    written(" then "),
                    note(2, "two"),
                    written(" here."),
                ]
            },
            Element::Paragraph {
                children: vec![written("Second paragraph "), note(3, "three"), written(" ends.")]
            },
        ]
    );
    assert_eq!(context.sidenotes, 3);
}

#[test]
fn a_brace_without_its_match_stays_in_the_text() {
    let mut context = plain_context();
    let children = elements_of("An open { brace and no end", &mut context);
    assert_eq!(
        children,
        vec![Element::Paragraph { children: vec![written("An open { brace and no end")] }]
    );
    assert_eq!(context.sidenotes, 0);
}

#[test]
fn a_sidenote_that_is_declined_takes_no_number() {
    let mut context = plain_context();
    let children = elements_of("{no}. {yes} {no}, {yes again}", &mut context);
    assert_eq!(
        children,
        vec![Element::Paragraph {
            children: vec![
                written("{no}. "),
                note(1, "yes"),
                written(" {no}, "),
                note(2, "yes again"),
            ]
        }]
    );
}

#[test]
fn there_is_no_sidenote_inside_a_sidenote() {
    let mut context = plain_context();
    let children = elements_of("{outer {inner} rest} tail", &mut context);
    assert_eq!(
        children,
        vec![Element::Paragraph {
            children: vec![note(1, "outer {inner"), written(" rest} tail")]
        }]
    );
}

#[test]
fn a_timecode_is_read_inside_a_sidenote() {
    let mut context = plain_context();
    let children = elements_of("{at [1:02] he says} so", &mut context);
    assert_eq!(
        children,
        vec![Element::Paragraph {
            children: vec![
                Element::Sidenote {
                    position: 1,
                    children: vec![
                        written("at "),
                        Element::Timecode {
                            url: "https://example.com/talk".to_string(),
                            hours: 0,
                            minutes: 1,
                            seconds: 2,
                        },
                        written(" he says"),
                    ],
                },
                written(" so"),
            ]
        }]
    );
}
