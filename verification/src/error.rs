//! Errors of the selector.

use vstd::prelude::*;
use crate::text::concat;

verus! {

#[derive(Clone, Copy, Debug, PartialEq, Eq, Structural)]
pub enum IoErrorKind {
    NotFound,
    Other,
}

#[derive(Clone, Debug, PartialEq, Eq)]
pub enum Error {
    /// Reading or writing `path` failed; `detail` is the system's description.
    Io { path: String, kind: IoErrorKind, detail: String },
    /// `value`, read from `path`, is not a valid `expected`.
    Parse { path: String, value: String, expected: String },
    /// The name does not denote a Type-C port under the sysfs root.
    InvalidPort(String),
    /// The request cannot be expressed through the connector class.
    Unsupported(String),
}

impl Error {
    /// A human-readable description, naming the path involved where there is one.
    pub fn message(&self) -> (m: String)
        ensures
            m@ == error_message(self@),
    {
        match self {
            Error::Io { path, detail, .. } => {
                let mut m = concat(path.as_str(), ": ");
                m.append(detail.as_str());
                m
            },
            Error::Parse { path, value, expected } => {
                let mut m = concat(path.as_str(), ": expected ");
                m.append(expected.as_str());
                m.append(", found ");
                m.append(value.as_str());
                m
            },
            Error::InvalidPort(name) => concat("invalid port name: ", name.as_str()),
            Error::Unsupported(message) => message.clone(),
        }
    }

    /// A copy that equals `self`.
    pub fn duplicate(&self) -> (e: Error)
        ensures
            e == *self,
    {
        match self {
            Error::Io { path, kind, detail } => Error::Io {
                path: path.clone(),
                kind: *kind,
                detail: detail.clone(),
            },
            Error::Parse { path, value, expected } => Error::Parse {
                path: path.clone(),
                value: value.clone(),
                expected: expected.clone(),
            },
            Error::InvalidPort(name) => Error::InvalidPort(name.clone()),
            Error::Unsupported(message) => Error::Unsupported(message.clone()),
        }
    }
}

/// `Error` with its texts as character sequences.
pub enum ErrorView {
    Io { path: Seq<char>, kind: IoErrorKind, detail: Seq<char> },
    Parse { path: Seq<char>, value: Seq<char>, expected: Seq<char> },
    InvalidPort(Seq<char>),
    Unsupported(Seq<char>),
}

impl View for Error {
    type V = ErrorView;

    open spec fn view(&self) -> ErrorView {
        match self {
            Error::Io { path, kind, detail } => ErrorView::Io { path: path@, kind: *kind, detail: detail@ },
            Error::Parse { path, value, expected } => ErrorView::Parse {
                path: path@,
                value: value@,
                expected: expected@,
            },
            Error::InvalidPort(name) => ErrorView::InvalidPort(name@),
            Error::Unsupported(message) => ErrorView::Unsupported(message@),
        }
    }
}

pub open spec fn error_message(e: ErrorView) -> Seq<char> {
    match e {
        ErrorView::Io { path, detail, .. } => path + ": "@ + detail,
        ErrorView::Parse { path, value, expected } => path + ": expected "@ + expected + ", found "@
            + value,
        ErrorView::InvalidPort(name) => "invalid port name: "@ + name,
        ErrorView::Unsupported(message) => message,
    }
}

} // verus!
