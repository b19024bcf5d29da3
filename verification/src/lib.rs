//! Reads transcripts written in a dialect of Markdown with four additions:
//! timecodes `[1:02:03]` that point into the recording, turns of speakers
//! opened by `RP: ...`, sidenotes `{...}` and mentions `{#42}` of issues on
//! the project's tracker.
//!
//! The library reads the four additions, and paragraphs of plain text around
//! them, into a parse tree ([`markdown::document::parse`]); it gives the
//! mentions their titles ([`markdown::mention`]) and converts the parse tree
//! into the output tree that a renderer takes ([`markdown::Element`]). The
//! rest of Markdown is left to a host parser: its tree is handed over as
//! [`markdown::node::Node`]s, and the rules are open to it one by one.

pub mod catalog;
pub mod context;
pub mod error;
pub mod markdown;
pub mod table;
pub mod text;
