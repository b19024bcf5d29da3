//! What a parse knows of its document beyond the text: where the recording
//! is, who speaks, and how far the numbering has come.

use vstd::prelude::*;
use crate::markdown::inline::has_room;
use crate::table::Table;
use crate::text::opt_view;

verus! {

/// The speakers of a document: short name to display name.
#[derive(Debug)]
pub struct SpeakerRegistry {
    table: Table,
}

impl View for SpeakerRegistry {
    type V = Map<Seq<char>, Seq<char>>;

    closed spec fn view(&self) -> Map<Seq<char>, Seq<char>> {
        self.table@
    }
}

impl SpeakerRegistry {
    /// A registry without speakers.
    pub fn new() -> (registry: Self)
        ensures
            registry@ == Map::<Seq<char>, Seq<char>>::empty(),
    {
        SpeakerRegistry { table: Table::new() }
    }

    /// Enters a speaker; a speaker entered before under the same short name
    /// is replaced.
    pub fn insert(&mut self, shortname: String, longname: String)
        ensures
            final(self)@ == old(self)@.insert(shortname@, longname@),
    {
        self.table.insert(shortname, longname);
    }

    /// The display name entered under `shortname`, if any.
    pub fn get(&self, shortname: &str) -> (longname: Option<&String>)
        ensures
            match longname {
                Some(name) => self@.contains_key(shortname@) && self@[shortname@] == name@,
                None => !self@.contains_key(shortname@),
            },
    {
        self.table.get(shortname)
    }
}

/// The context of one document's parse.
#[derive(Debug)]
pub struct Context {
    /// What the document is called, for error reports: its path.
    pub document: String,
    /// Where the recording is that the document transcribes.
    pub source_url: Option<String>,
    /// Who speaks in the document.
    pub speakers: SpeakerRegistry,
    /// The number of the last sidenote; 0 before the first.
    pub sidenotes: u32,
    /// The number of the last mention; 0 before the first.
    pub mentions: u32,
    /// The short name of the speaker whose section is open, if one is.
    pub speaker: Option<String>,
    /// The indentation from which on a line opens no section.
    pub max_indent: usize,
}

/// The view of [`Context`].
pub struct ContextView {
    pub document: Seq<char>,
    pub source_url: Option<Seq<char>>,
    pub speakers: Map<Seq<char>, Seq<char>>,
    pub sidenotes: u32,
    pub mentions: u32,
    pub speaker: Option<Seq<char>>,
    pub max_indent: usize,
}

impl View for Context {
    type V = ContextView;

    open spec fn view(&self) -> ContextView {
        ContextView {
            document: self.document@,
            source_url: opt_view(self.source_url),
            speakers: self.speakers@,
            sidenotes: self.sidenotes,
            mentions: self.mentions,
            speaker: opt_view(self.speaker),
            max_indent: self.max_indent,
        }
    }
}

impl Context {
    /// The context at the start of a parse: nothing numbered yet, no section
    /// open, no limit to the indentation.
    pub fn new(document: String, source_url: Option<String>, speakers: SpeakerRegistry) -> (context:
        Self)
        ensures
            context@ == (ContextView {
                document: document@,
                source_url: opt_view(source_url),
                speakers: speakers@,
                sidenotes: 0,
                mentions: 0,
                speaker: None,
                max_indent: usize::MAX,
            }),
    {
        Context {
            document,
            source_url,
            speakers,
            sidenotes: 0,
            mentions: 0,
            speaker: None,
            max_indent: usize::MAX,
        }
    }

    /// Tests whether the numbering can go on over a text: whether neither
    /// number would leave `u32` if every character of `text` took one.
    pub fn has_room_for(&self, text: &str) -> (b: bool)
        ensures
            b == has_room(self@, text@.len() as int + 1),
    {
        let n = text.unicode_len();
        let most = if self.sidenotes > self.mentions {
            self.sidenotes
        } else {
            self.mentions
        };
        n < 0xffff_ffff && n as u64 + 1 + most as u64 <= 0xffff_ffff
    }

    /// Gives out the next sidenote number: one more than the last.
    pub fn next_sidenote(&mut self) -> (position: u32)
        requires
            old(self).sidenotes < u32::MAX,
        ensures
            position == old(self).sidenotes + 1,
            final(self)@ == (ContextView { sidenotes: position, ..old(self)@ }),
    {
        self.sidenotes = self.sidenotes + 1;
        self.sidenotes
    }

    /// Gives out the next mention number: one more than the last.
    pub fn next_mention(&mut self) -> (position: u32)
        requires
            old(self).mentions < u32::MAX,
        ensures
            position == old(self).mentions + 1,
            final(self)@ == (ContextView { mentions: position, ..old(self)@ }),
    {
        self.mentions = self.mentions + 1;
        self.mentions
    }
}

} // verus!
