//! What stops the build of a document.

use vstd::prelude::*;

verus! {

/// A defect of a document or of what came with it. It ends the parse of that
/// document, and names the document and the offending piece.
#[derive(Debug, PartialEq, Eq)]
pub enum AuthoringError {
    /// A section opens with a short name that the speaker registry lacks.
    UnknownSpeaker { shortname: String, document: String },
    /// A timecode was read, and the document names no source.
    MissingSourceUrl { document: String },
    /// A timecode was read, and the document's source is no absolute URL.
    InvalidSourceUrl { url: String, document: String },
    /// A paragraph inside one speaker's section opens with another's short name.
    SpeakerMismatch { found: String, open: String, document: String },
    /// A mention names an issue whose title is not known.
    UnresolvedMention { id: String, document: String },
}

/// The view of [`AuthoringError`].
pub enum AuthoringErrorView {
    UnknownSpeaker { shortname: Seq<char>, document: Seq<char> },
    MissingSourceUrl { document: Seq<char> },
    InvalidSourceUrl { url: Seq<char>, document: Seq<char> },
    SpeakerMismatch { found: Seq<char>, open: Seq<char>, document: Seq<char> },
    UnresolvedMention { id: Seq<char>, document: Seq<char> },
}

impl View for AuthoringError {
    type V = AuthoringErrorView;

    open spec fn view(&self) -> AuthoringErrorView {
        match self {
            AuthoringError::UnknownSpeaker { shortname, document } => {
                AuthoringErrorView::UnknownSpeaker { shortname: shortname@, document: document@ }
            },
            AuthoringError::MissingSourceUrl { document } => AuthoringErrorView::MissingSourceUrl {
                document: document@,
            },
            AuthoringError::InvalidSourceUrl { url, document } => {
                AuthoringErrorView::InvalidSourceUrl { url: url@, document: document@ }
            },
            AuthoringError::SpeakerMismatch { found, open, document } => {
                AuthoringErrorView::SpeakerMismatch {
                    found: found@,
                    open: open@,
                    document: document@,
                }
            },
            AuthoringError::UnresolvedMention { id, document } => {
                AuthoringErrorView::UnresolvedMention { id: id@, document: document@ }
            },
        }
    }
}

/// Why the tracker gave no title for a mention.
#[derive(Debug, PartialEq, Eq)]
pub enum ExternalFailure {
    /// The tracker has no issue under the identifier.
    NotFound { id: String },
    /// The tracker could not be reached, or did not answer.
    Network { id: String },
    /// The tracker answered, and the answer holds no title where one is expected.
    UnexpectedShape { id: String },
}

/// The view of [`ExternalFailure`].
pub enum ExternalFailureView {
    NotFound { id: Seq<char> },
    Network { id: Seq<char> },
    UnexpectedShape { id: Seq<char> },
}

impl View for ExternalFailure {
    type V = ExternalFailureView;

    open spec fn view(&self) -> ExternalFailureView {
        match self {
            ExternalFailure::NotFound { id } => ExternalFailureView::NotFound { id: id@ },
            ExternalFailure::Network { id } => ExternalFailureView::Network { id: id@ },
            ExternalFailure::UnexpectedShape { id } => ExternalFailureView::UnexpectedShape {
                id: id@,
            },
        }
    }
}

} // verus!
