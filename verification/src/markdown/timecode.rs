//! Timecodes: `[hh:mm:ss]` or `[mm:ss]`, a position in the recording that a
//! document transcribes.

use vstd::prelude::*;
use crate::context::{Context, ContextView};
use crate::error::{AuthoringError, AuthoringErrorView};
use crate::markdown::github::mention_at;
use crate::markdown::inline::{
    inline_nodes,
    inline_pass,
    inline_rule,
    leaf,
    mention_rule,
    rule_agrees,
    sidenote_rule,
    timecode_rule,
    with_text,
    Outcome,
    RuleMatch,
};
use crate::markdown::node::{Node, NodeValue, NodeValueView, NodeView};
use crate::markdown::sidenote::sidenote_at;
use crate::text::{
    char_is_digit,
    clone_opt,
    decimal,
    digit_char,
    digit_value,
    is_digit,
    lemma_padded_digits,
    opt_view,
    padded,
    push_padded,
    to_chars,
};

verus! {

/// An absolute URL in its normal form, with the host it names, if any.
#[derive(Debug, PartialEq, Eq)]
pub struct SourceUrl {
    pub text: String,
    pub host: Option<String>,
}

/// The view of [`SourceUrl`].
pub struct SourceUrlView {
    pub text: Seq<char>,
    pub host: Option<Seq<char>>,
}

impl View for SourceUrl {
    type V = SourceUrlView;

    open spec fn view(&self) -> SourceUrlView {
        SourceUrlView {
            text: self.text@,
            host: opt_view(self.host),
        }
    }
}

impl Clone for SourceUrl {
    fn clone(&self) -> (copy: Self)
        ensures
            copy@ == self@,
    {
        SourceUrl { text: self.text.clone(), host: clone_opt(&self.host) }
    }
}

/// `url::ParseError`: why `url::Url::parse` took a text for no URL. Nothing
/// is read from it.
#[verifier::external_type_specification]
#[verifier::external_body]
pub struct ExParseError(url::ParseError);

/// What `url::Url::parse` makes of `input`: the URL in its normal form and the
/// host it names, or nothing where `input` is no absolute URL.
pub uninterp spec fn parsed_url(input: Seq<char>) -> Option<SourceUrlView>;

/// Parses `input` with `url::Url::parse`. Of a URL it keeps the serialization
/// and the host as `Url::host` gives it, written out; of a failure, the
/// crate's error. Which inputs parse, and to what, is not proved here: the
/// contract names the outcome `parsed_url`.
#[verifier::external_body]
fn parse_url(input: &str) -> (result: Result<SourceUrl, url::ParseError>)
    ensures
        match parsed_url(input@) {
            Some(url) => result matches Ok(parsed) && parsed@ == url,
            None => result is Err,
        },
{
    match url::Url::parse(input) {
        Ok(url) => Ok(SourceUrl { text: url.to_string(), host: url.host().map(|h| h.to_string()) }),
        Err(error) => Err(error),
    }
}

impl SourceUrl {
    /// Reads an absolute URL; `None` where `input` is none.
    pub fn parse(input: &str) -> (result: Option<SourceUrl>)
        ensures
            match parsed_url(input@) {
                Some(url) => result matches Some(parsed) && parsed@ == url,
                None => result is None,
            },
    {
        match parse_url(input) {
            Ok(url) => Some(url),
            Err(_) => None,
        }
    }
}

/// A position in the recording at `url`.
#[derive(Debug, PartialEq, Eq)]
pub struct InlineTimecode {
    pub url: SourceUrl,
    pub hours: u8,
    pub minutes: u8,
    pub seconds: u8,
}

/// The view of [`InlineTimecode`].
pub struct InlineTimecodeView {
    pub url: SourceUrlView,
    pub hours: u8,
    pub minutes: u8,
    pub seconds: u8,
}

impl View for InlineTimecode {
    type V = InlineTimecodeView;

    open spec fn view(&self) -> InlineTimecodeView {
        InlineTimecodeView {
            url: self.url@,
            hours: self.hours,
            minutes: self.minutes,
            seconds: self.seconds,
        }
    }
}

impl Clone for InlineTimecode {
    fn clone(&self) -> (copy: Self)
        ensures
            copy@ == self@,
    {
        InlineTimecode {
            url: self.url.clone(),
            hours: self.hours,
            minutes: self.minutes,
            seconds: self.seconds,
        }
    }
}

/// The number that a run of digits writes; 0 for the empty run.
pub open spec fn numeral(digits: Seq<char>) -> nat
    decreases digits.len(),
{
    if digits.len() == 0 {
        0
    } else {
        numeral(digits.drop_last()) * 10 + digit_value(digits.last()) as nat
    }
}

/// What a group of digits between the brackets stands for: the number it
/// writes. A group without a digit stands for nothing, and so does one that
/// writes more than 255.
pub open spec fn group_value(digits: Seq<char>) -> Option<u8> {
    if digits.len() > 0 && numeral(digits) <= 255 {
        Some(numeral(digits) as u8)
    } else {
        None
    }
}

/// The timecode of `consumed` characters with the numbers that the groups
/// stand for, if each of them stands for one.
pub open spec fn span_of(
    hours: Option<u8>,
    minutes: Option<u8>,
    seconds: Option<u8>,
    consumed: int,
) -> Option<TimecodeSpan> {
    match (hours, minutes, seconds) {
        (Some(hours), Some(minutes), Some(seconds)) => Some(
            TimecodeSpan { hours, minutes, seconds, consumed: consumed as usize },
        ),
        _ => None,
    }
}

/// Where the run of digits that starts at `from` ends, within `src[..limit]`.
pub open spec fn digits_end(src: Seq<char>, from: int, limit: int) -> int
    decreases limit - from,
{
    if 0 <= from < limit <= src.len() && is_digit(src[from]) {
        digits_end(src, from + 1, limit)
    } else {
        from
    }
}

/// `digits_end` stays between its start and its limit.
pub proof fn lemma_digits_end(src: Seq<char>, from: int, limit: int)
    requires
        0 <= from <= limit <= src.len(),
    ensures
        from <= digits_end(src, from, limit) <= limit,
    decreases limit - from,
{
    if from < limit && is_digit(src[from]) {
        lemma_digits_end(src, from + 1, limit);
    }
}

/// A timecode found in a text: its three numbers, and how many characters it
/// takes, brackets included.
#[derive(Debug, Clone, Copy, PartialEq, Eq)]
pub struct TimecodeSpan {
    pub hours: u8,
    pub minutes: u8,
    pub seconds: u8,
    pub consumed: usize,
}

/// The timecode that starts at `pos` and ends before `pos_max`, if one does:
/// `[`, two or three groups of digits with `:` between them, `]`, and nothing
/// else. Each group has one digit or more and writes a number up to 255, and
/// the numbers of the timecode are the numbers that the groups write. With
/// two groups the hours are 0.
pub open spec fn timecode_at(src: Seq<char>, pos: int, pos_max: int) -> Option<TimecodeSpan> {
    if !(0 <= pos < pos_max <= src.len()) || src[pos] != '[' {
        None
    } else {
        let first = digits_end(src, pos + 1, pos_max);
        if first >= pos_max || src[first] != ':' {
            None
        } else {
            let second = digits_end(src, first + 1, pos_max);
            if second >= pos_max {
                None
            } else if src[second] == ']' {
                span_of(
                    Some(0),
                    group_value(src.subrange(pos + 1, first)),
                    group_value(src.subrange(first + 1, second)),
                    second + 1 - pos,
                )
            } else if src[second] == ':' {
                let third = digits_end(src, second + 1, pos_max);
                if third < pos_max && src[third] == ']' {
                    span_of(
                        group_value(src.subrange(pos + 1, first)),
                        group_value(src.subrange(first + 1, second)),
                        group_value(src.subrange(second + 1, third)),
                        third + 1 - pos,
                    )
                } else {
                    None
                }
            } else {
                None
            }
        }
    }
}

/// Reads the run of digits that starts at `from`: where it ends, and what
/// it stands for.
fn scan_group(src: &Vec<char>, from: usize, limit: usize) -> (group: (usize, Option<u8>))
    requires
        from <= limit <= src.len(),
    ensures
        group.0 == digits_end(src@, from as int, limit as int),
        from <= group.0 <= limit,
        group.1 == group_value(src@.subrange(from as int, group.0 as int)),
{
    let mut i: usize = from;
    let mut value: u16 = 0;
    let mut over: bool = false;
    while i < limit && char_is_digit(src[i])
        invariant
            from <= i <= limit <= src.len(),
            digits_end(src@, from as int, limit as int) == digits_end(src@, i as int, limit as int),
            !over ==> value == numeral(src@.subrange(from as int, i as int)) && value <= 255,
            over ==> numeral(src@.subrange(from as int, i as int)) > 255,
        decreases limit - i,
    {
        let digit: u16 = (src[i] as u32 - '0' as u32) as u16;
        proof {
            let longer = src@.subrange(from as int, i + 1);
            assert(longer.drop_last() == src@.subrange(from as int, i as int));
            assert(longer.last() == src@[i as int]);
            assert(numeral(longer) == numeral(longer.drop_last()) * 10 + digit);
        }
        if !over {
            value = value * 10 + digit;
            if value > 255 {
                over = true;
            }
        }
        i += 1;
    }
    if over || i == from {
        (i, None)
    } else {
        (i, Some(value as u8))
    }
}

/// Looks for a timecode that starts at `pos` and ends before `pos_max`.
pub fn scan(src: &Vec<char>, pos: usize, pos_max: usize) -> (found: Option<TimecodeSpan>)
    ensures
        found == timecode_at(src@, pos as int, pos_max as int),
        found matches Some(span) ==> 5 <= span.consumed <= pos_max - pos && pos_max <= src.len(),
{
    if pos >= pos_max || pos_max > src.len() || src[pos] != '[' {
        return None;
    }
    let (first, a) = scan_group(src, pos + 1, pos_max);
    if first >= pos_max || src[first] != ':' {
        return None;
    }
    let (second, b) = scan_group(src, first + 1, pos_max);
    if second >= pos_max {
        return None;
    }
    if src[second] == ']' {
        return match (a, b) {
            (Some(minutes), Some(seconds)) => Some(
                TimecodeSpan { hours: 0, minutes, seconds, consumed: second + 1 - pos },
            ),
            _ => None,
        };
    }
    if src[second] != ':' {
        return None;
    }
    let (third, c) = scan_group(src, second + 1, pos_max);
    if third < pos_max && src[third] == ']' {
        match (a, b, c) {
            (Some(hours), Some(minutes), Some(seconds)) => Some(
                TimecodeSpan { hours, minutes, seconds, consumed: third + 1 - pos },
            ),
            _ => None,
        }
    } else {
        None
    }
}

/// A timecode holds the numbers that its groups write: where one is found,
/// every group has a digit, and each number of the timecode is the number
/// that its group writes.
pub proof fn timecode_holds_what_is_written(src: Seq<char>, pos: int, pos_max: int)
    requires
        timecode_at(src, pos, pos_max) is Some,
    ensures
        ({
            let span = timecode_at(src, pos, pos_max)->Some_0;
            let first = digits_end(src, pos + 1, pos_max);
            let second = digits_end(src, first + 1, pos_max);
            let third = digits_end(src, second + 1, pos_max);
            &&& pos + 1 < first
            &&& first + 1 < second
            &&& span.seconds == numeral(
                if src[second] == ']' {
                    src.subrange(first + 1, second)
                } else {
                    src.subrange(second + 1, third)
                },
            )
            &&& span.minutes == numeral(
                if src[second] == ']' {
                    src.subrange(pos + 1, first)
                } else {
                    src.subrange(first + 1, second)
                },
            )
            &&& span.hours == (if src[second] == ']' {
                0
            } else {
                numeral(src.subrange(pos + 1, first))
            })
            &&& src[second] != ']' ==> second + 1 < third
        }),
{
    lemma_digits_end(src, pos + 1, pos_max);
    let first = digits_end(src, pos + 1, pos_max);
    lemma_digits_end(src, first + 1, pos_max);
    let second = digits_end(src, first + 1, pos_max);
    if src[second] != ']' {
        lemma_digits_end(src, second + 1, pos_max);
    }
}

/// `hh:mm:ss`, each number with at least two digits.
pub open spec fn stamp(hours: u8, minutes: u8, seconds: u8) -> Seq<char> {
    padded(hours as nat) + seq![':'] + padded(minutes as nat) + seq![':'] + padded(seconds as nat)
}

/// `mm:ss`, each number with at least two digits.
pub open spec fn short_stamp(minutes: u8, seconds: u8) -> Seq<char> {
    padded(minutes as nat) + seq![':'] + padded(seconds as nat)
}

/// How a position is written for readers: `mm:ss` within the first hour,
/// `hh:mm:ss` after it.
pub open spec fn label(hours: u8, minutes: u8, seconds: u8) -> Seq<char> {
    if hours > 0 {
        stamp(hours, minutes, seconds)
    } else {
        short_stamp(minutes, seconds)
    }
}

/// How a position is written in the link to a video platform: `02h03m04s`.
pub open spec fn platform_fragment(hours: u8, minutes: u8, seconds: u8) -> Seq<char> {
    padded(hours as nat) + seq!['h'] + padded(minutes as nat) + seq!['m'] + padded(
        seconds as nat,
    ) + seq!['s']
}

/// Whether `text` ends with `suffix`.
pub open spec fn ends_with(text: Seq<char>, suffix: Seq<char>) -> bool {
    suffix.len() <= text.len() && text.subrange(text.len() - suffix.len(), text.len() as int)
        == suffix
}

/// Whether `host` is one of the video platforms that take their own form of
/// position in a link.
pub open spec fn is_video_platform(host: Seq<char>) -> bool {
    ends_with(host, "youtube.com"@) || ends_with(host, "youtu.be"@)
}

/// The position as the link to the recording writes it: in the platform's
/// form where the recording is on a video platform, as the label otherwise.
pub open spec fn link_fragment(timecode: InlineTimecodeView) -> Seq<char> {
    match timecode.url.host {
        Some(host) => if is_video_platform(host) {
            platform_fragment(timecode.hours, timecode.minutes, timecode.seconds)
        } else {
            label(timecode.hours, timecode.minutes, timecode.seconds)
        },
        None => label(timecode.hours, timecode.minutes, timecode.seconds),
    }
}

/// Tests whether `text` ends with `suffix`.
pub fn has_suffix(text: &str, suffix: &str) -> (b: bool)
    ensures
        b == ends_with(text@, suffix@),
{
    let t = to_chars(text);
    let s = to_chars(suffix);
    if s.len() > t.len() {
        return false;
    }
    let offset: usize = t.len() - s.len();
    let mut i: usize = 0;
    while i < s.len()
        invariant
            i <= s.len(),
            offset + s.len() == t.len(),
            t@ == text@,
            s@ == suffix@,
            forall|j: int| 0 <= j < i ==> t@[offset + j] == s@[j],
        decreases s.len() - i,
    {
        if t[offset + i] != s[i] {
            assert(t@.subrange(offset as int, t@.len() as int)[i as int] != s@[i as int]);
            return false;
        }
        i += 1;
    }
    assert(t@.subrange(offset as int, t@.len() as int) =~= s@);
    true
}

/// Writes a position as `hh:mm:ss`.
pub fn stamp_of(hours: u8, minutes: u8, seconds: u8) -> (text: String)
    ensures
        text@ == stamp(hours, minutes, seconds),
{
    let mut text = String::new();
    push_padded(&mut text, hours);
    text.push(':');
    push_padded(&mut text, minutes);
    text.push(':');
    push_padded(&mut text, seconds);
    assert(text@ =~= stamp(hours, minutes, seconds));
    text
}

impl InlineTimecode {
    /// The position as `hh:mm:ss`.
    pub fn stamp(&self) -> (text: String)
        ensures
            text@ == stamp(self.hours, self.minutes, self.seconds),
    {
        stamp_of(self.hours, self.minutes, self.seconds)
    }

    /// The position as readers see it.
    pub fn label(&self) -> (text: String)
        ensures
            text@ == label(self.hours, self.minutes, self.seconds),
    {
        if self.hours > 0 {
            self.stamp()
        } else {
            let mut text = String::new();
            push_padded(&mut text, self.minutes);
            text.push(':');
            push_padded(&mut text, self.seconds);
            assert(text@ =~= short_stamp(self.minutes, self.seconds));
            text
        }
    }

    /// The position in the form of the video platforms.
    pub fn platform_fragment(&self) -> (text: String)
        ensures
            text@ == platform_fragment(self.hours, self.minutes, self.seconds),
    {
        let mut text = String::new();
        push_padded(&mut text, self.hours);
        text.push('h');
        push_padded(&mut text, self.minutes);
        text.push('m');
        push_padded(&mut text, self.seconds);
        text.push('s');
        assert(text@ =~= platform_fragment(self.hours, self.minutes, self.seconds));
        text
    }

    /// The link to this position of the recording: the source's URL, `#t=`
    /// and the position.
    pub fn href(&self) -> (text: String)
        ensures
            text@ == self.url.text@ + "#t="@ + link_fragment(self@),
    {
        let on_platform = match &self.url.host {
            Some(host) => has_suffix(host.as_str(), "youtube.com") || has_suffix(
                host.as_str(),
                "youtu.be",
            ),
            None => false,
        };
        let fragment = if on_platform {
            self.platform_fragment()
        } else {
            self.label()
        };
        let mut text = self.url.text.clone();
        text.append("#t=");
        text.append(fragment.as_str());
        text
    }

    /// The link to this position within the page: `#t=` and the label.
    pub fn anchor_href(&self) -> (text: String)
        ensures
            text@ == "#t="@ + label(self.hours, self.minutes, self.seconds),
    {
        let label = self.label();
        let mut text = String::from_str("#t=");
        text.append(label.as_str());
        text
    }

    /// The name of this position within the page: `t=` and the label.
    pub fn anchor_id(&self) -> (text: String)
        ensures
            text@ == "t="@ + label(self.hours, self.minutes, self.seconds),
    {
        let label = self.label();
        let mut text = String::from_str("t=");
        text.append(label.as_str());
        text
    }
}

/// A decimal numeral writes its number.
pub proof fn lemma_numeral_decimal(n: nat)
    ensures
        numeral(decimal(n)) == n,
    decreases n,
{
    let text = decimal(n);
    if n < 10 {
        assert(text.drop_last() =~= Seq::<char>::empty());
        assert(numeral(text.drop_last()) == 0);
        assert(digit_value(text.last()) == n);
    } else {
        lemma_numeral_decimal(n / 10);
        assert(text.drop_last() =~= decimal(n / 10));
        assert(text.last() == digit_char((n % 10) as int));
        assert(digit_value(text.last()) == n % 10);
        assert(numeral(text) == numeral(text.drop_last()) * 10 + digit_value(text.last()) as nat);
    }
}

/// A padded numeral writes its number.
pub proof fn lemma_numeral_padded(n: nat)
    ensures
        numeral(padded(n)) == n,
{
    if n < 10 {
        let text = padded(n);
        let zero = seq!['0'];
        assert(text.drop_last() =~= zero);
        assert(zero.drop_last() =~= Seq::<char>::empty());
        assert(numeral(zero.drop_last()) == 0);
        assert(digit_value(zero.last()) == 0);
        assert(numeral(zero) == numeral(zero.drop_last()) * 10 + digit_value(zero.last()) as nat);
        assert(digit_value(text.last()) == n);
        assert(numeral(text) == numeral(text.drop_last()) * 10 + digit_value(text.last()) as nat);
    } else {
        lemma_numeral_decimal(n);
    }
}

/// A run of `count` digits from `from` on, with no digit behind it, ends
/// behind its last digit.
pub proof fn lemma_digits_run(src: Seq<char>, from: int, count: int, limit: int)
    requires
        0 <= from,
        0 <= count,
        from + count <= limit <= src.len(),
        forall|i: int| from <= i < from + count ==> is_digit(src[i]),
        from + count == limit || !is_digit(src[from + count]),
    ensures
        digits_end(src, from, limit) == from + count,
    decreases count,
{
    if count > 0 {
        lemma_digits_run(src, from + 1, count - 1, limit);
    }
}

/// `[`, the three numbers as `hh:mm:ss`, and `]`.
pub open spec fn bracketed(hours: u8, minutes: u8, seconds: u8) -> Seq<char> {
    seq!['['] + stamp(hours, minutes, seconds) + seq![']']
}

/// `[`, the two numbers as `mm:ss`, and `]`.
pub open spec fn bracketed_short(minutes: u8, seconds: u8) -> Seq<char> {
    seq!['['] + short_stamp(minutes, seconds) + seq![']']
}

/// A timecode written as `[hh:mm:ss]` is read whole, and as the numbers it
/// was written from: writing what was read gives the same text again.
pub proof fn timecode_round_trip(hours: u8, minutes: u8, seconds: u8)
    ensures
        timecode_at(
            bracketed(hours, minutes, seconds),
            0,
            bracketed(hours, minutes, seconds).len() as int,
        ) == Some(
            TimecodeSpan {
                hours,
                minutes,
                seconds,
                consumed: bracketed(hours, minutes, seconds).len() as usize,
            },
        ),
        bracketed(hours, minutes, seconds).len() <= 13,
{
    let h = padded(hours as nat);
    let m = padded(minutes as nat);
    let s = padded(seconds as nat);
    let text = bracketed(hours, minutes, seconds);
    lemma_padded_digits(hours as nat);
    lemma_padded_digits(minutes as nat);
    lemma_padded_digits(seconds as nat);
    lemma_numeral_padded(hours as nat);
    lemma_numeral_padded(minutes as nat);
    lemma_numeral_padded(seconds as nat);
    lemma_padded_len(hours as nat);
    lemma_padded_len(minutes as nat);
    lemma_padded_len(seconds as nat);
    let first = 1 + h.len() as int;
    let second = first + 1 + m.len();
    let third = second + 1 + s.len();
    assert(text.len() == third + 1);
    assert(text[0] == '[');
    assert(text[first] == ':');
    assert(text[second] == ':');
    assert(text[third] == ']');
    assert forall|i: int| 1 <= i < first implies is_digit(text[i]) by {
        assert(text[i] == h[i - 1]);
    }
    assert forall|i: int| first + 1 <= i < second implies is_digit(text[i]) by {
        assert(text[i] == m[i - first - 1]);
    }
    assert forall|i: int| second + 1 <= i < third implies is_digit(text[i]) by {
        assert(text[i] == s[i - second - 1]);
    }
    let limit = text.len() as int;
    lemma_digits_run(text, 1, h.len() as int, limit);
    lemma_digits_run(text, first + 1, m.len() as int, limit);
    lemma_digits_run(text, second + 1, s.len() as int, limit);
    assert(text.subrange(1, first) =~= h);
    assert(text.subrange(first + 1, second) =~= m);
    assert(text.subrange(second + 1, third) =~= s);
}

/// A timecode written as `[mm:ss]` is read whole, with the hours at 0 and
/// the other numbers as it was written from.
pub proof fn short_timecode_round_trip(minutes: u8, seconds: u8)
    ensures
        timecode_at(
            bracketed_short(minutes, seconds),
            0,
            bracketed_short(minutes, seconds).len() as int,
        ) == Some(
            TimecodeSpan {
                hours: 0,
                minutes,
                seconds,
                consumed: bracketed_short(minutes, seconds).len() as usize,
            },
        ),
        bracketed_short(minutes, seconds).len() <= 9,
{
    let m = padded(minutes as nat);
    let s = padded(seconds as nat);
    let text = bracketed_short(minutes, seconds);
    lemma_padded_digits(minutes as nat);
    lemma_padded_digits(seconds as nat);
    lemma_numeral_padded(minutes as nat);
    lemma_numeral_padded(seconds as nat);
    lemma_padded_len(minutes as nat);
    lemma_padded_len(seconds as nat);
    let first = 1 + m.len() as int;
    let second = first + 1 + s.len();
    assert(text.len() == second + 1);
    assert(text[0] == '[');
    assert(text[first] == ':');
    assert(text[second] == ']');
    assert forall|i: int| 1 <= i < first implies is_digit(text[i]) by {
        assert(text[i] == m[i - 1]);
    }
    assert forall|i: int| first + 1 <= i < second implies is_digit(text[i]) by {
        assert(text[i] == s[i - first - 1]);
    }
    let limit = text.len() as int;
    lemma_digits_run(text, 1, m.len() as int, limit);
    lemma_digits_run(text, first + 1, s.len() as int, limit);
    assert(text.subrange(1, first) =~= m);
    assert(text.subrange(first + 1, second) =~= s);
}

/// A text that is one timecode `[hh:mm:ss]`, read with a source that is an
/// absolute URL, gives one node and no other: the timecode with the numbers
/// that it was written from, at the source's URL.
pub proof fn timecode_alone(
    hours: u8,
    minutes: u8,
    seconds: u8,
    level: nat,
    context: ContextView,
    source: Seq<char>,
    url: SourceUrlView,
)
    requires
        context.source_url == Some(source),
        parsed_url(source) == Some(url),
    ensures
        ({
            let text = bracketed(hours, minutes, seconds);
            inline_nodes(text, 0, text.len() as int, level, context) == Ok::<
                Outcome,
                AuthoringErrorView,
            >(
                Outcome {
                    nodes: seq![
                        leaf(
                            NodeValueView::Timecode(
                                InlineTimecodeView { url, hours, minutes, seconds },
                            ),
                            0,
                            text.len() as int,
                        ),
                    ],
                    context,
                },
            )
        }),
{
    let text = bracketed(hours, minutes, seconds);
    timecode_round_trip(hours, minutes, seconds);
    lemma_padded_digits(hours as nat);
    assert(text[1] == padded(hours as nat)[0]);
    assert(mention_at(text, 0, text.len() as int) is None);
    assert(sidenote_at(text, 0, text.len() as int) is None);
    let node = leaf(
        NodeValueView::Timecode(InlineTimecodeView { url, hours, minutes, seconds }),
        0,
        text.len() as int,
    );
    let made = Seq::<NodeView>::empty().push(node);
    let end = text.len() as int;
    let found = RuleMatch { node, consumed: end, context };
    assert(mention_rule(text, 0, end, level, context) is None);
    assert(sidenote_rule(text, 0, end, level, context) == Ok::<
        Option<RuleMatch>,
        AuthoringErrorView,
    >(None));
    assert(timecode_rule(text, 0, end, context) == Ok::<Option<RuleMatch>, AuthoringErrorView>(
        Some(found),
    ));
    assert(inline_rule(text, 0, end, level, context) == Ok::<Option<RuleMatch>, AuthoringErrorView>(
        Some(found),
    ));
    assert(with_text(Seq::<NodeView>::empty(), text, 0, 0) =~= Seq::<NodeView>::empty());
    assert(inline_pass(text, end, end, level, context, end, made) == Ok::<
        Outcome,
        AuthoringErrorView,
    >(Outcome { nodes: made, context }));
    assert(made =~= seq![node]);
}

/// The padded numeral of a number below 256 has two or three digits.
pub proof fn lemma_padded_len(n: nat)
    requires
        n < 256,
    ensures
        2 <= padded(n).len() <= 3,
{
    reveal_with_fuel(decimal, 3);
}

/// The rule that reads timecodes.
pub struct TimecodeInlineScanner;

impl TimecodeInlineScanner {
    /// Looks for a timecode at `pos`. Where one stands, the document's source
    /// is read from the context and parsed; the node holds what came of it.
    pub fn run(src: &Vec<char>, pos: usize, pos_max: usize, context: &Context) -> (result: Result<
        Option<(Node, usize)>,
        AuthoringError,
    >)
        ensures
            rule_agrees(
                result,
                context@,
                context@,
                timecode_rule(src@, pos as int, pos_max as int, context@),
            ),
            result matches Ok(Some(pair)) ==> 1 <= pair.1 <= pos_max - pos,
    {
        let span = match scan(src, pos, pos_max) {
            Some(span) => span,
            None => {
                return Ok(None);
            },
        };
        let source = match &context.source_url {
            Some(source) => source,
            None => {
                return Err(AuthoringError::MissingSourceUrl { document: context.document.clone() });
            },
        };
        let url = match parse_url(source.as_str()) {
            Ok(url) => url,
            Err(_) => {
                return Err(
                    AuthoringError::InvalidSourceUrl {
                        url: source.clone(),
                        document: context.document.clone(),
                    },
                );
            },
        };
        let mut node = Node::new(
            NodeValue::Timecode(
                InlineTimecode {
                    url,
                    hours: span.hours,
                    minutes: span.minutes,
                    seconds: span.seconds,
                },
            ),
        );
        node.srcmap = Some((pos, pos + span.consumed));
        proof {
            node.view_children();
            assert(node@.children =~= Seq::empty());
        }
        Ok(Some((node, span.consumed)))
    }
}

} // verus!
