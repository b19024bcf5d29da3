//! Utterances: a run of lines that one speaker said, opened by a line such as
//! `RP: Hello.`

use vstd::prelude::*;
use crate::context::{Context, ContextView};
use crate::error::{AuthoringError, AuthoringErrorView};
use crate::markdown::block::{
    block_advances,
    block_room,
    depth_left,
    lemma_line_pos,
    make_paragraph,
    paragraph_extent,
    section_end,
    section_rule,
    tokenize_lines,
    utterance_paragraph_rule,
};
use crate::markdown::inline::{has_room, rule_agrees, same_scope};
use crate::markdown::lines::{lemma_lines_ordered, lines_wf, LineOffset};
use crate::markdown::node::{Node, NodeValue};
use crate::text::{alphanumeric, from_chars, range_eq, skip_white, to_chars, white_end};

verus! {

/// The speaker of a section: the short name written in the document and the
/// display name that the registry gives for it.
#[derive(Debug, PartialEq, Eq)]
pub struct Utterance {
    pub shortname: String,
    pub longname: String,
}

/// The view of [`Utterance`].
pub struct UtteranceView {
    pub shortname: Seq<char>,
    pub longname: Seq<char>,
}

impl View for Utterance {
    type V = UtteranceView;

    open spec fn view(&self) -> UtteranceView {
        UtteranceView { shortname: self.shortname@, longname: self.longname@ }
    }
}

/// Where the run of alphanumeric characters that starts at `from` ends; a
/// colon ends it in any case.
pub open spec fn name_end(line: Seq<char>, from: int) -> int
    decreases line.len() - from,
{
    if 0 <= from < line.len() && line[from] != ':' && alphanumeric(line[from]) {
        name_end(line, from + 1)
    } else {
        from
    }
}

/// The short name that `line` opens with, if it opens a speaker's turn: one
/// alphanumeric character or more, a colon, a space, and something to say.
pub open spec fn speaker_shortname(line: Seq<char>) -> Option<Seq<char>> {
    let end = name_end(line, 0);
    if 0 < end && end + 2 < line.len() && line[end] == ':' && line[end + 1] == ' ' {
        Some(line.subrange(0, end))
    } else {
        None
    }
}

/// `name_end` stays between its start and the end of the line.
pub proof fn lemma_name_end(line: Seq<char>, from: int)
    requires
        0 <= from <= line.len(),
    ensures
        from <= name_end(line, from) <= line.len(),
    decreases line.len() - from,
{
    if from < line.len() && line[from] != ':' && alphanumeric(line[from]) {
        lemma_name_end(line, from + 1);
    }
}

/// Looks for a short name at the start of `text[from..to]`: how long it is.
pub fn shortname_len(text: &Vec<char>, from: usize, to: usize) -> (len: Option<usize>)
    requires
        from <= to <= text.len(),
    ensures
        match speaker_shortname(text@.subrange(from as int, to as int)) {
            Some(name) => len matches Some(n) && 0 < n && from + n + 2 < to && name
                == text@.subrange(from as int, from + n),
            None => len is None,
        },
{
    let ghost line = text@.subrange(from as int, to as int);
    let mut i: usize = from;
    while i < to && text[i] != ':' && text[i].is_alphanumeric()
        invariant
            from <= i <= to <= text.len(),
            line == text@.subrange(from as int, to as int),
            name_end(line, 0) == name_end(line, i - from),
        decreases to - i,
    {
        i += 1;
    }
    if i > from && to - i > 2 && text[i] == ':' && text[i + 1] == ' ' {
        assert(line.subrange(0, i - from) == text@.subrange(from as int, i as int));
        Some(i - from)
    } else {
        None
    }
}

/// The short name of the speaker that `line` opens with, if it opens a
/// speaker's turn.
pub fn get_speaker_shortname(line: &str) -> (shortname: Option<&str>)
    ensures
        match speaker_shortname(line@) {
            Some(name) => shortname matches Some(found) && found@ == name,
            None => shortname is None,
        },
{
    let chars = to_chars(line);
    assert(chars@.subrange(0, chars@.len() as int) == line@);
    match shortname_len(&chars, 0, chars.len()) {
        Some(n) => Some(line.substring_char(0, n)),
        None => None,
    }
}

/// The short name that the line `line` of `src` opens with, if it opens a
/// speaker's turn and is indented less than `max_indent`.
pub open spec fn opener(src: Seq<char>, line: LineOffset, max_indent: usize) -> Option<Seq<char>> {
    if line.indent() < max_indent {
        speaker_shortname(src.subrange(line.first_nonspace as int, line.line_end as int))
    } else {
        None
    }
}

/// Looks for the opening of a speaker's turn in a line: how long the short
/// name is.
pub fn opener_len(src: &Vec<char>, line: LineOffset, max_indent: usize) -> (len: Option<usize>)
    requires
        line.line_start <= line.first_nonspace <= line.line_end <= src.len(),
    ensures
        match opener(src@, line, max_indent) {
            Some(name) => len matches Some(n) && 0 < n && line.first_nonspace + n + 2
                < line.line_end && name == src@.subrange(
                line.first_nonspace as int,
                line.first_nonspace + n,
            ),
            None => len is None,
        },
{
    if line.indent_nonspace < max_indent {
        shortname_len(src, line.first_nonspace, line.line_end)
    } else {
        None
    }
}

impl Utterance {
    /// The speaker's display name as a page shows it above what was said: in
    /// a `span` of the class `speaker-name`.
    pub fn name_markup(&self) -> (markup: String)
        ensures
            markup@ == "<span class=\"speaker-name\">"@ + self.longname@ + "</span>"@,
    {
        let mut markup = String::from_str("<span class=\"speaker-name\">");
        markup.append(self.longname.as_str());
        markup.append("</span>");
        markup
    }
}

impl Clone for Utterance {
    fn clone(&self) -> (copy: Self)
        ensures
            copy@ == self@,
    {
        Utterance { shortname: self.shortname.clone(), longname: self.longname.clone() }
    }
}

/// Finds where the section of the speaker named in `src[name_from..name_to]`
/// ends that holds the line before `from`.
pub fn section_extent(
    src: &Vec<char>,
    lines: &Vec<LineOffset>,
    from: usize,
    line_max: usize,
    name_from: usize,
    name_to: usize,
    max_indent: usize,
) -> (end: usize)
    requires
        lines_wf(src@, lines@),
        from <= line_max <= lines.len(),
        name_from <= name_to <= src.len(),
    ensures
        end == section_end(
            src@,
            lines@,
            from as int,
            line_max as int,
            src@.subrange(name_from as int, name_to as int),
            max_indent,
        ),
        from <= end <= line_max,
{
    let ghost shortname = src@.subrange(name_from as int, name_to as int);
    let mut i: usize = from;
    while i < line_max
        invariant
            lines_wf(src@, lines@),
            from <= i <= line_max <= lines.len(),
            name_from <= name_to <= src.len(),
            shortname == src@.subrange(name_from as int, name_to as int),
            section_end(src@, lines@, from as int, line_max as int, shortname, max_indent)
                == section_end(src@, lines@, i as int, line_max as int, shortname, max_indent),
        decreases line_max - i,
    {
        let line = lines[i];
        assert(lines@[i as int].line_start <= lines@[i as int].first_nonspace
            <= lines@[i as int].line_end <= src@.len());
        match opener_len(src, line, max_indent) {
            Some(n) => {
                if !range_eq(
                    src,
                    line.first_nonspace,
                    line.first_nonspace + n,
                    src,
                    name_from,
                    name_to,
                ) {
                    return i;
                }
            },
            None => {},
        }
        i += 1;
    }
    i
}

/// A section found in the lines of a document: who speaks, and the line
/// before which the section ends.
#[derive(Debug, PartialEq, Eq)]
pub struct Section {
    pub shortname: String,
    pub longname: String,
    pub to: usize,
}

/// The view of [`Section`].
pub struct SectionView {
    pub shortname: Seq<char>,
    pub longname: Seq<char>,
    pub to: int,
}

impl View for Section {
    type V = SectionView;

    open spec fn view(&self) -> SectionView {
        SectionView { shortname: self.shortname@, longname: self.longname@, to: self.to as int }
    }
}

/// The section that starts at `line`, if one does: while no section is
/// open, a line that opens a speaker's turn starts the speaker's section,
/// which runs up to the turn of another speaker. A short name that the
/// registry lacks fails the parse.
pub open spec fn section_found(
    src: Seq<char>,
    lines: Seq<LineOffset>,
    line: int,
    line_max: int,
    context: ContextView,
) -> Result<Option<SectionView>, AuthoringErrorView> {
    if 0 <= line < line_max <= lines.len() && context.speaker is None {
        match opener(src, lines[line], context.max_indent) {
            None => Ok(None),
            Some(shortname) => if !context.speakers.contains_key(shortname) {
                Err(
                    AuthoringErrorView::UnknownSpeaker { shortname, document: context.document },
                )
            } else {
                Ok(
                    Some(
                        SectionView {
                            shortname,
                            longname: context.speakers[shortname],
                            to: section_end(
                                src,
                                lines,
                                line + 1,
                                line_max,
                                shortname,
                                context.max_indent,
                            ),
                        },
                    ),
                )
            },
        }
    } else {
        Ok(None)
    }
}

/// Looks for a section that starts at `line`: its speaker and its extent.
pub fn section_at(
    src: &Vec<char>,
    lines: &Vec<LineOffset>,
    line: usize,
    line_max: usize,
    context: &Context,
) -> (result: Result<Option<Section>, AuthoringError>)
    requires
        lines_wf(src@, lines@),
        line < line_max <= lines.len(),
    ensures
        match section_found(src@, lines@, line as int, line_max as int, context@) {
            Err(e) => result matches Err(error) && error@ == e,
            Ok(None) => result matches Ok(None),
            Ok(Some(found)) => result matches Ok(Some(section)) && section@ == found && line
                < section.to <= line_max,
        },
{
    if context.speaker.is_some() {
        return Ok(None);
    }
    let first = lines[line];
    assert(lines@[line as int].line_start <= lines@[line as int].first_nonspace
        <= lines@[line as int].line_end <= src@.len());
    let n = match opener_len(src, first, context.max_indent) {
        Some(n) => n,
        None => {
            return Ok(None);
        },
    };
    let name_from = first.first_nonspace;
    let name_to = first.first_nonspace + n;
    let shortname = from_chars(src, name_from, name_to);
    let longname = match context.speakers.get(shortname.as_str()) {
        Some(longname) => longname.clone(),
        None => {
            return Err(
                AuthoringError::UnknownSpeaker { shortname, document: context.document.clone() },
            );
        },
    };
    let to = section_extent(src, lines, line + 1, line_max, name_from, name_to, context.max_indent);
    Ok(Some(Section { shortname, longname, to }))
}

/// The rule that reads a speaker's section.
pub struct UtteranceSectionBlockScanner;

impl UtteranceSectionBlockScanner {
    /// Looks for the opening of a speaker's turn at `line`, while no section
    /// is open. The section runs up to the turn of another speaker; its
    /// children are its blocks, read while the section is open.
    pub fn run(
        src: &Vec<char>,
        lines: &Vec<LineOffset>,
        line: usize,
        line_max: usize,
        context: &mut Context,
    ) -> (result: Result<Option<(Node, usize)>, AuthoringError>)
        requires
            lines_wf(src@, lines@),
            line < line_max <= lines.len(),
            has_room(old(context)@, block_room(src@, lines@, line as int)),
        ensures
            rule_agrees(
                result,
                old(context)@,
                final(context)@,
                section_rule(src@, lines@, line as int, line_max as int, old(context)@),
            ),
            block_advances(
                result,
                old(context)@,
                final(context)@,
                src@,
                lines@,
                line as int,
                line_max as int,
            ),
            same_scope(old(context)@, final(context)@),
        decreases line_max - line, depth_left(old(context)@), 0int,
    {
        let section = match section_at(src, lines, line, line_max, context) {
            Ok(Some(section)) => section,
            Ok(None) => {
                return Ok(None);
            },
            Err(error) => {
                return Err(error);
            },
        };
        let Section { shortname, longname, to } = section;
        context.speaker = Some(shortname.clone());
        let inner = tokenize_lines(src, lines, line, to, context);
        context.speaker = None;
        match inner {
            Err(error) => Err(error),
            Ok(children) => {
                let first = lines[line];
                let last = lines[to - 1];
                let node = Node {
                    value: NodeValue::Utterance(Utterance { shortname, longname }),
                    children,
                    srcmap: Some((first.first_nonspace, last.line_end)),
                };
                proof {
                    node.view_children();
                }
                Ok(Some((node, to - line)))
            },
        }
    }
}

/// How much of the text `content` of a paragraph inside the section of the
/// speaker `open` repeats the speaker: where `content` opens like a
/// speaker's turn, the short name, the colon and the white space behind it.
/// Another speaker's short name fails the parse.
pub open spec fn repeated(content: Seq<char>, open: Seq<char>, document: Seq<char>) -> Result<
    Option<int>,
    AuthoringErrorView,
> {
    match speaker_shortname(content) {
        None => Ok(None),
        Some(found) => if found == open {
            Ok(Some(white_end(content, found.len() as int + 1, content.len() as int)))
        } else {
            Err(AuthoringErrorView::SpeakerMismatch { found, open, document })
        },
    }
}

/// Finds how many characters at the start of the text of a paragraph
/// repeat the speaker of the open section.
pub fn repeated_prefix(content: &str, open: &str, document: &str) -> (result: Result<
    Option<usize>,
    AuthoringError,
>)
    ensures
        match repeated(content@, open@, document@) {
            Err(e) => result matches Err(error) && error@ == e,
            Ok(None) => result matches Ok(None),
            Ok(Some(n)) => result matches Ok(Some(count)) && count == n && count <= content@.len(),
        },
{
    let chars = to_chars(content);
    let speaker = to_chars(open);
    assert(chars@.subrange(0, chars@.len() as int) == content@);
    assert(speaker@.subrange(0, speaker@.len() as int) == open@);
    let n = match shortname_len(&chars, 0, chars.len()) {
        Some(n) => n,
        None => {
            return Ok(None);
        },
    };
    if !range_eq(&chars, 0, n, &speaker, 0, speaker.len()) {
        return Err(
            AuthoringError::SpeakerMismatch {
                found: from_chars(&chars, 0, n),
                open: String::from_str(open),
                document: String::from_str(document),
            },
        );
    }
    Ok(Some(skip_white(&chars, n + 1, chars.len())))
}

/// A line that is a name of ASCII letters and digits, a colon, a space and
/// something to say opens the turn of the speaker of that name.
pub proof fn plain_name_opens(name: Seq<char>, content: Seq<char>)
    requires
        name.len() > 0,
        forall|i: int|
            0 <= i < name.len() ==> ('a' <= #[trigger] name[i] <= 'z') || ('A' <= name[i] <= 'Z')
                || ('0' <= name[i] <= '9'),
        content.len() > 0,
    ensures
        speaker_shortname(name + seq![':', ' '] + content) == Some(name),
{
    let line = name + seq![':', ' '] + content;
    lemma_name_run(line, name.len() as int, 0);
    assert(line[name.len() as int] == ':');
    assert(line[name.len() as int + 1] == ' ');
    assert(line.subrange(0, name.len() as int) =~= name);
}

/// A run of ASCII letters and digits up to a colon ends at the colon.
proof fn lemma_name_run(line: Seq<char>, end: int, from: int)
    requires
        0 <= from <= end < line.len(),
        line[end] == ':',
        forall|i: int|
            0 <= i < end ==> ('a' <= #[trigger] line[i] <= 'z') || ('A' <= line[i] <= 'Z') || ('0'
                <= line[i] <= '9'),
    ensures
        name_end(line, from) == end,
    decreases end - from,
{
    if from < end {
        assert(alphanumeric(line[from]));
        lemma_name_run(line, end, from + 1);
    }
}

/// The rule that reads a paragraph which repeats its speaker's short name.
pub struct UtteranceParagraphScanner;

impl UtteranceParagraphScanner {
    /// Looks, inside a section, for a paragraph that opens like a speaker's
    /// turn. The speaker's own short name is left out of the paragraph's text,
    /// with the colon and the white space behind it; another's fails the parse.
    pub fn run(
        src: &Vec<char>,
        lines: &Vec<LineOffset>,
        line: usize,
        line_max: usize,
        context: &mut Context,
    ) -> (result: Result<Option<(Node, usize)>, AuthoringError>)
        requires
            lines_wf(src@, lines@),
            line < line_max <= lines.len(),
            has_room(old(context)@, block_room(src@, lines@, line as int)),
        ensures
            rule_agrees(
                result,
                old(context)@,
                final(context)@,
                utterance_paragraph_rule(
                    src@,
                    lines@,
                    line as int,
                    line_max as int,
                    old(context)@,
                ),
            ),
            block_advances(
                result,
                old(context)@,
                final(context)@,
                src@,
                lines@,
                line as int,
                line_max as int,
            ),
            same_scope(old(context)@, final(context)@),
    {
        let open = match &context.speaker {
            Some(open) => to_chars(open.as_str()),
            None => {
                return Ok(None);
            },
        };
        let first = lines[line];
        assert(lines@[line as int].line_start <= lines@[line as int].first_nonspace
            <= lines@[line as int].line_end <= src@.len());
        let n = match opener_len(src, first, context.max_indent) {
            Some(n) => n,
            None => {
                return Ok(None);
            },
        };
        assert(open@.subrange(0, open@.len() as int) == open@);
        if !range_eq(src, first.first_nonspace, first.first_nonspace + n, &open, 0, open.len()) {
            let found = from_chars(src, first.first_nonspace, first.first_nonspace + n);
            let open = from_chars(&open, 0, open.len());
            return Err(
                AuthoringError::SpeakerMismatch {
                    found,
                    open,
                    document: context.document.clone(),
                },
            );
        }
        let end = paragraph_extent(src, lines, line + 1, line_max, context);
        let last = lines[end - 1];
        proof {
            lemma_line_pos(src@, lines@, end - 1, end as int);
            if line < end - 1 {
                lemma_lines_ordered(src@, lines@, line as int, end - 1);
            }
        }
        let from = skip_white(src, first.first_nonspace + n + 1, last.line_end);
        make_paragraph(src, first, last, from, end - line, context)
    }
}

} // verus!
