use rpr::context::{Context, SpeakerRegistry};
use rpr::error::AuthoringError;
use rpr::markdown::document::parse;
use rpr::markdown::lines::split_lines;
use rpr::markdown::utterance::{
    get_speaker_shortname, repeated_prefix, section_at, Section, Utterance,
};
use rpr::markdown::{Element, MaterializeError};

fn ray_peat() -> Context {
    let mut speakers = SpeakerRegistry::new();
    speakers.insert("RP".to_string(), "Ray Peat".to_string());
    Context::new("interview.md".to_string(), None, speakers)
}

fn ray_and_john() -> Context {
    let mut speakers = SpeakerRegistry::new();
    speakers.insert("RP".to_string(), "Ray Peat".to_string());
    speakers.insert("JM".to_string(), "John Marshall".to_string());
    Context::new("interview.md".to_string(), None, speakers)
}

fn output_of(text: &str, context: &mut Context) -> Result<Element, MaterializeError> {
    Element::new(&parse(text, context).unwrap())
}

fn said(text: &str) -> Element {
    Element::Paragraph { children: vec![Element::Text { content: text.to_string() }] }
}

fn turn(shortname: &str, longname: &str, children: Vec<Element>) -> Element {
    Element::Utterance {
        shortname: shortname.to_string(),
        longname: longname.to_string(),
        children,
    }
}

#[test]
fn a_line_opens_a_turn_with_name_colon_space_and_words() {
    assert_eq!(get_speaker_shortname("RP: Hello, my name is Ray Peat."), Some("RP"));
    assert_eq!(get_speaker_shortname("Host2: x"), Some("Host2"));
    assert_eq!(get_speaker_shortname("Ärzte: ja"), Some("Ärzte"));
}

#[test]
fn a_line_without_name_colon_space_or_words_opens_no_turn() {
    for line in [
        "",
        "RP",
        "RP:",
        "RP: ",
        "RP:Hello",
        "RP:\tHello",
        ": Hello",
        "R P: Hello",
        "R-P: Hello",
        " RP: Hello",
        "Hello there",
        "http://example.com",
    ] {
        assert_eq!(get_speaker_shortname(line), None, "{:?}", line);
    }
}

#[test]
fn a_blank_line_does_not_end_a_section() {
    let mut context = ray_peat();
    let output = output_of("RP: Hello there.\n\nRP: Still me.\nThird line.", &mut context);
    assert_eq!(
        output,
        Ok(Element::Root {
            children: vec![turn(
                "RP",
                "Ray Peat",
                vec![said("Hello there."), said("Still me.\nThird line.")]
            )]
        })
    );
}

#[test]
fn another_speaker_ends_a_section() {
    let mut context = ray_and_john();
    let output = output_of("RP: Hello.\nJM: Hi Ray.", &mut context);
    assert_eq!(
        output,
        Ok(Element::Root {
            children: vec![
                turn("RP", "Ray Peat", vec![said("Hello.")]),
                turn("JM", "John Marshall", vec![said("Hi Ray.")]),
            ]
        })
    );
}

#[test]
fn a_speaker_that_the_registry_lacks_fails_the_parse() {
    let mut context = ray_peat();
    assert_eq!(
        parse("RP: Hello.\nJM: Hi Ray.", &mut context),
        Err(AuthoringError::UnknownSpeaker {
            shortname: "JM".to_string(),
            document: "interview.md".to_string(),
        })
    );
    assert_eq!(context.speaker, None);
}

#[test]
fn lines_before_the_first_turn_are_paragraphs() {
    let mut context = ray_and_john();
    let output = output_of("Recorded in May.\nSecond line.\n\nRP: Hello.\n", &mut context);
    assert_eq!(
        output,
        Ok(Element::Root {
            children: vec![
                said("Recorded in May.\nSecond line."),
                turn("RP", "Ray Peat", vec![said("Hello.")]),
            ]
        })
    );
}

#[test]
fn a_turn_ends_a_paragraph_without_a_blank_line() {
    let mut context = ray_and_john();
    let output = output_of("Recorded in May.\nRP: Hello.\nstill Ray\nJM: Hi.", &mut context);
    assert_eq!(
        output,
        Ok(Element::Root {
            children: vec![
                said("Recorded in May."),
                turn("RP", "Ray Peat", vec![said("Hello.\nstill Ray")]),
                turn("JM", "John Marshall", vec![said("Hi.")]),
            ]
        })
    );
}

#[test]
fn a_section_goes_on_over_paragraphs_without_a_name() {
    let mut context = ray_and_john();
    let output = output_of("RP: One.\n\nTwo.\n\n\nRP:   Three.\n\nJM: Four.", &mut context);
    assert_eq!(
        output,
        Ok(Element::Root {
            children: vec![
                turn("RP", "Ray Peat", vec![said("One."), said("Two."), said("Three.")]),
                turn("JM", "John Marshall", vec![said("Four.")]),
            ]
        })
    );
}

#[test]
fn the_same_speaker_in_the_middle_of_a_paragraph_stays_as_written() {
    let mut context = ray_peat();
    let output = output_of("RP: One.\nRP: Two.", &mut context);
    assert_eq!(
        output,
        Ok(Element::Root { children: vec![turn("RP", "Ray Peat", vec![said("One.\nRP: Two.")])] })
    );
}

#[test]
fn a_line_indented_to_the_limit_opens_no_turn() {
    let mut context = ray_peat();
    context.max_indent = 4;
    let output = output_of("    RP: Hello.\n   RP: Hi.", &mut context);
    assert_eq!(
        output,
        Ok(Element::Root {
            children: vec![said("RP: Hello."), turn("RP", "Ray Peat", vec![said("Hi.")])]
        })
    );
}

#[test]
fn an_open_section_is_not_opened_again() {
    let mut context = ray_and_john();
    context.speaker = Some("JM".to_string());
    let output = output_of("JM: Hello.", &mut context);
    assert_eq!(output, Ok(Element::Root { children: vec![said("Hello.")] }));
    assert_eq!(context.speaker, Some("JM".to_string()));
}

#[test]
fn another_speaker_inside_an_open_section_fails_the_parse() {
    let mut context = ray_and_john();
    context.speaker = Some("JM".to_string());
    assert_eq!(
        parse("Hello.\n\nRP: Hi.", &mut context),
        Err(AuthoringError::SpeakerMismatch {
            found: "RP".to_string(),
            open: "JM".to_string(),
            document: "interview.md".to_string(),
        })
    );
    assert_eq!(context.speaker, Some("JM".to_string()));
}

#[test]
fn the_speaker_name_is_shown_in_a_span() {
    let utterance = Utterance { shortname: "RP".to_string(), longname: "Ray Peat".to_string() };
    assert_eq!(utterance.name_markup(), "<span class=\"speaker-name\">Ray Peat</span>");
}

#[test]
fn a_section_is_found_with_its_speaker_and_its_end() {
    let context = ray_and_john();
    let src: Vec<char> = "Intro.\nRP: One.\n\nRP: Two.\nmore\nJM: Three.\nend".chars().collect();
    let lines = split_lines(&src);
    assert_eq!(section_at(&src, &lines, 0, 7, &context), Ok(None));
    assert_eq!(
        section_at(&src, &lines, 1, 7, &context),
        Ok(Some(Section { shortname: "RP".to_string(), longname: "Ray Peat".to_string(), to: 5 }))
    );
    assert_eq!(
        section_at(&src, &lines, 1, 4, &context),
        Ok(Some(Section { shortname: "RP".to_string(), longname: "Ray Peat".to_string(), to: 4 }))
    );
    assert_eq!(
        section_at(&src, &lines, 5, 7, &context),
        Ok(Some(Section {
            shortname: "JM".to_string(),
            longname: "John Marshall".to_string(),
            to: 7
        }))
    );
    assert_eq!(
        section_at(&src, &lines, 5, 7, &ray_peat()),
        Err(AuthoringError::UnknownSpeaker {
            shortname: "JM".to_string(),
            document: "interview.md".to_string(),
        })
    );
    let mut open = ray_and_john();
    open.speaker = Some("RP".to_string());
    assert_eq!(section_at(&src, &lines, 5, 7, &open), Ok(None));
}

#[test]
fn the_repeated_speaker_is_counted_with_the_white_space_behind() {
    assert_eq!(repeated_prefix("RP: Still me.", "RP", "doc.md"), Ok(Some(4)));
    assert_eq!(repeated_prefix("RP:  \t Still me.\nmore", "RP", "doc.md"), Ok(Some(7)));
    assert_eq!(repeated_prefix("Ärzte: ja", "Ärzte", "doc.md"), Ok(Some(7)));
    assert_eq!(repeated_prefix("Still me.", "RP", "doc.md"), Ok(None));
    assert_eq!(repeated_prefix("RP:Still", "RP", "doc.md"), Ok(None));
    assert_eq!(repeated_prefix("", "RP", "doc.md"), Ok(None));
    assert_eq!(
        repeated_prefix("JM: Hi.", "RP", "doc.md"),
        Err(AuthoringError::SpeakerMismatch {
            found: "JM".to_string(),
            open: "RP".to_string(),
            document: "doc.md".to_string(),
        })
    );
}

#[test]
fn of_ascii_the_letters_and_the_digits_make_a_short_name() {
    for name in ["a", "z", "A", "Z", "0", "9", "Az09", "RP2"] {
        let line = format!("{}: Hello", name);
        assert_eq!(get_speaker_shortname(&line), Some(name), "{:?}", name);
    }
    for name in ["a_b", "a.b", "@", "`", "[", "{", "/", ":", "a b", "a\tb", "R~"] {
        let line = format!("{}: Hello", name);
        assert_eq!(get_speaker_shortname(&line), None, "{:?}", name);
    }
}
