use rpr::context::{Context, SpeakerRegistry};
use rpr::markdown::document::parse;
use rpr::markdown::timecode::{
    scan, stamp_of, InlineTimecode, SourceUrl, TimecodeInlineScanner, TimecodeSpan,
};
use rpr::markdown::Element;

fn timecode_chars(text: &str) -> Vec<char> {
    text.chars().collect()
}

fn timecode_at(url: &str, hours: u8, minutes: u8, seconds: u8) -> InlineTimecode {
    InlineTimecode { url: SourceUrl::parse(url).unwrap(), hours, minutes, seconds }
}

#[test]
fn three_groups_are_hours_minutes_seconds() {
    let src = timecode_chars("[01:02:03] then");
    assert_eq!(
        scan(&src, 0, src.len()),
        Some(TimecodeSpan { hours: 1, minutes: 2, seconds: 3, consumed: 10 })
    );
}

#[test]
fn two_groups_leave_the_hours_at_zero() {
    let src = timecode_chars("[12:34]");
    assert_eq!(
        scan(&src, 0, src.len()),
        Some(TimecodeSpan { hours: 0, minutes: 12, seconds: 34, consumed: 7 })
    );
}

#[test]
fn groups_may_have_any_number_of_digits() {
    let src = timecode_chars("[1:2:3]");
    assert_eq!(
        scan(&src, 0, src.len()),
        Some(TimecodeSpan { hours: 1, minutes: 2, seconds: 3, consumed: 7 })
    );
    let src = timecode_chars("[0000000000000000000007:059]");
    assert_eq!(
        scan(&src, 0, src.len()),
        Some(TimecodeSpan { hours: 0, minutes: 7, seconds: 59, consumed: 28 })
    );
}

#[test]
fn a_group_without_a_digit_is_no_timecode() {
    for text in ["[:]", "[::]", "[:30]", "[12:]", "[1::3]", "[:2:3]", "[1:2:]"] {
        let src = timecode_chars(text);
        assert_eq!(scan(&src, 0, src.len()), None, "{}", text);
    }
}

#[test]
fn a_group_above_255_is_no_timecode() {
    for text in ["[300:00]", "[256:255]", "[1:256:3]", "[1:2:1000]", "[99999999999999999999:00]"] {
        let src = timecode_chars(text);
        assert_eq!(scan(&src, 0, src.len()), None, "{}", text);
    }
    let src = timecode_chars("[255:255:255]");
    assert_eq!(
        scan(&src, 0, src.len()),
        Some(TimecodeSpan { hours: 255, minutes: 255, seconds: 255, consumed: 13 })
    );
    let src = timecode_chars("[0255:00]");
    assert_eq!(
        scan(&src, 0, src.len()),
        Some(TimecodeSpan { hours: 0, minutes: 255, seconds: 0, consumed: 9 })
    );
}

#[test]
fn what_is_declined_as_a_timecode_stays_in_the_text() {
    for text in ["[:]", "[300:00]"] {
        let src = timecode_chars(text);
        let context = Context::new(
            "talk.md".to_string(),
            Some("https://example.com/v".to_string()),
            SpeakerRegistry::new(),
        );
        assert_eq!(TimecodeInlineScanner::run(&src, 0, src.len(), &context), Ok(None));
        let mut context = context;
        let tree = parse(text, &mut context).unwrap();
        assert_eq!(
            Element::new(&tree),
            Ok(Element::Root {
                children: vec![Element::Paragraph {
                    children: vec![Element::Text { content: text.to_string() }]
                }]
            })
        );
    }
}

#[test]
fn one_group_or_four_groups_are_no_timecode() {
    let src = timecode_chars("[12]");
    assert_eq!(scan(&src, 0, src.len()), None);
    let src = timecode_chars("[1:2:3:4]");
    assert_eq!(scan(&src, 0, src.len()), None);
}

#[test]
fn anything_but_digits_and_colons_inside_is_no_timecode() {
    for text in ["[12:3x]", "[12: 34]", "[a:b]", "[12:34", "12:34]", "[12:34 ]", ""] {
        let src = timecode_chars(text);
        assert_eq!(scan(&src, 0, src.len()), None, "{}", text);
    }
}

#[test]
fn a_timecode_must_end_before_the_boundary() {
    let src = timecode_chars("[12:34] tail");
    assert_eq!(scan(&src, 0, 6), None);
    assert_eq!(
        scan(&src, 0, 7),
        Some(TimecodeSpan { hours: 0, minutes: 12, seconds: 34, consumed: 7 })
    );
    assert_eq!(scan(&src, 1, 7), None);
    assert_eq!(scan(&src, 0, 100), None);
}

#[test]
fn a_timecode_is_found_in_the_middle_of_a_text() {
    let src = timecode_chars("see [1:02:03].");
    assert_eq!(
        scan(&src, 4, src.len()),
        Some(TimecodeSpan { hours: 1, minutes: 2, seconds: 3, consumed: 9 })
    );
}

#[test]
fn stamp_pads_each_number_to_two_digits() {
    let timecode = timecode_at("https://example.com/talk", 1, 2, 3);
    assert_eq!(timecode.stamp(), "01:02:03");
    let timecode = timecode_at("https://example.com/talk", 0, 0, 0);
    assert_eq!(timecode.stamp(), "00:00:00");
    let timecode = timecode_at("https://example.com/talk", 255, 100, 9);
    assert_eq!(timecode.stamp(), "255:100:09");
    assert_eq!(stamp_of(0, 7, 30), "00:07:30");
    assert_eq!(stamp_of(12, 0, 5), "12:00:05");
}

#[test]
fn label_leaves_out_the_hours_within_the_first_hour() {
    assert_eq!(timecode_at("https://example.com/talk", 0, 2, 3).label(), "02:03");
    assert_eq!(timecode_at("https://example.com/talk", 1, 2, 3).label(), "01:02:03");
}

#[test]
fn what_is_written_is_read_back() {
    for (hours, minutes, seconds) in [(0u8, 0u8, 0u8), (1, 2, 3), (12, 34, 56), (255, 255, 255)] {
        let timecode = timecode_at("https://example.com/talk", hours, minutes, seconds);
        let text = format!("[{}]", timecode.stamp());
        let src = timecode_chars(&text);
        assert_eq!(
            scan(&src, 0, src.len()),
            Some(TimecodeSpan { hours, minutes, seconds, consumed: src.len() })
        );
        let read = scan(&src, 0, src.len()).unwrap();
        let again = timecode_at("https://example.com/talk", read.hours, read.minutes, read.seconds);
        assert_eq!(format!("[{}]", again.stamp()), text);
    }
}

#[test]
fn links_to_a_video_platform_take_its_form_of_position() {
    let timecode = timecode_at("https://www.youtube.com/watch?v=abc", 1, 2, 3);
    assert_eq!(timecode.platform_fragment(), "01h02m03s");
    assert_eq!(timecode.href(), "https://www.youtube.com/watch?v=abc#t=01h02m03s");
    let timecode = timecode_at("https://youtu.be/abc", 0, 2, 3);
    assert_eq!(timecode.href(), "https://youtu.be/abc#t=00h02m03s");
}

#[test]
fn links_elsewhere_take_the_label() {
    let timecode = timecode_at("https://example.com/talk.mp3", 0, 2, 3);
    assert_eq!(timecode.href(), "https://example.com/talk.mp3#t=02:03");
    let timecode = timecode_at("https://example.com/talk.mp3", 4, 2, 3);
    assert_eq!(timecode.href(), "https://example.com/talk.mp3#t=04:02:03");
    let timecode = timecode_at("mailto:someone@example.com", 0, 2, 3);
    assert_eq!(timecode.url.host, None);
    assert_eq!(timecode.href(), "mailto:someone@example.com#t=02:03");
}

#[test]
fn links_within_the_page_take_the_label() {
    let timecode = timecode_at("https://www.youtube.com/watch?v=abc", 0, 2, 3);
    assert_eq!(timecode.anchor_href(), "#t=02:03");
    assert_eq!(timecode.anchor_id(), "t=02:03");
}

#[test]
fn a_url_is_kept_in_its_normal_form_with_its_host() {
    let url = SourceUrl::parse("HTTPS://Example.COM").unwrap();
    assert_eq!(url.text, "https://example.com/");
    assert_eq!(url.host, Some("example.com".to_string()));
    let url = SourceUrl::parse("http://127.0.0.1:8080/a b").unwrap();
    assert_eq!(url.text, "http://127.0.0.1:8080/a%20b");
    assert_eq!(url.host, Some("127.0.0.1".to_string()));
}

#[test]
fn what_is_no_absolute_url_is_refused() {
    assert_eq!(SourceUrl::parse("not a url"), None);
    assert_eq!(SourceUrl::parse("/relative/path"), None);
    assert_eq!(SourceUrl::parse(""), None);
}
