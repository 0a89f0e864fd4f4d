//! The error that every step of a download reports.

use vstd::prelude::*;

verus! {

/// What went wrong.
#[derive(Debug, Clone, Copy, PartialEq, Eq, Structural)]
pub enum ErrorKind {
    /// A request could not be carried out.
    Network,
    /// The token endpoint answered without a usable token.
    Auth,
    /// The platform refuses the manifest outright.
    AccessRestricted,
    /// A manifest lacks what it must hold, or holds it in a form that cannot
    /// be read.
    ManifestParse,
    /// A segment record of a manifest cannot be read.
    SegmentParse,
    /// A segment could not be retrieved.
    SegmentFetch,
    /// The fetched segments could not be put together.
    Assembly,
    /// An error made by hand, with a message only.
    Unclassified,
}

/// An error as contracts speak of it: its kind and the characters of its
/// message.
pub struct ErrorView {
    pub kind: ErrorKind,
    pub details: Seq<char>,
}

/// An error of the download pipeline.
#[derive(Debug, Clone, PartialEq, Eq)]
pub struct TwitchClientError {
    kind: ErrorKind,
    details: String,
}

impl View for TwitchClientError {
    type V = ErrorView;

    closed spec fn view(&self) -> ErrorView {
        ErrorView { kind: self.kind, details: self.details@ }
    }
}

impl TwitchClientError {
    /// An error with the message `msg` and no kind.
    pub fn new(msg: &str) -> (e: TwitchClientError)
        ensures
            e@ == (ErrorView { kind: ErrorKind::Unclassified, details: msg@ }),
    {
        TwitchClientError { kind: ErrorKind::Unclassified, details: msg.to_owned() }
    }

    /// An error of the kind `kind` with the message `msg`.
    pub fn with_kind(kind: ErrorKind, msg: String) -> (e: TwitchClientError)
        ensures
            e@ == (ErrorView { kind: kind, details: msg@ }),
    {
        TwitchClientError { kind, details: msg }
    }

    /// An error of the kind `kind` with the message `msg`.
    pub fn of(kind: ErrorKind, msg: &str) -> (e: TwitchClientError)
        ensures
            e@ == (ErrorView { kind: kind, details: msg@ }),
    {
        TwitchClientError { kind, details: msg.to_owned() }
    }

    /// An error of the same kind with the same message.
    pub fn copy(&self) -> (e: TwitchClientError)
        ensures
            e@ == self@,
    {
        TwitchClientError { kind: self.kind, details: self.details.clone() }
    }

    /// The kind of this error.
    pub fn kind(&self) -> (k: ErrorKind)
        ensures
            k == self@.kind,
    {
        self.kind
    }

    /// The message of this error.
    pub fn message(&self) -> (m: String)
        ensures
            m@ == self@.details,
    {
        self.details.clone()
    }
}

} // verus!
