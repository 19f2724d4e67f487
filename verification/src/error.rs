//! The two ways in which asking can fail.

use vstd::prelude::*;

use crate::text;

verus! {

/// Two failure classes, and the difference is whether retrying could ever help.
///
/// `NoAnswer` is infrastructure: no key, no network, the API is down. Nothing about the
/// request was wrong, so a caller that falls back to its previous behaviour is correct.
///
/// `Invalid` is the request itself: a malformed question file, an empty state, a body the
/// API rejected. Retrying reproduces it exactly.
#[derive(Debug)]
pub enum Error {
    NoAnswer { kind: &'static str, message: String },
    Invalid { kind: &'static str, message: String },
}

/// What an [`Error`] says.
pub enum ErrorView {
    NoAnswer { kind: Seq<char>, message: Seq<char> },
    Invalid { kind: Seq<char>, message: Seq<char> },
}

impl View for Error {
    type V = ErrorView;

    open spec fn view(&self) -> ErrorView {
        match self {
            Error::NoAnswer { kind, message } => ErrorView::NoAnswer { kind: kind@, message: message@ },
            Error::Invalid { kind, message } => ErrorView::Invalid { kind: kind@, message: message@ },
        }
    }
}

/// Nothing came back.
pub open spec fn no_answer(kind: Seq<char>, message: Seq<char>) -> ErrorView {
    ErrorView::NoAnswer { kind, message }
}

/// The request was never going to work.
pub open spec fn invalid(kind: Seq<char>, message: Seq<char>) -> ErrorView {
    ErrorView::Invalid { kind, message }
}

/// A result is this one, the value and the error each taken by what they say.
pub open spec fn says<T: View>(r: Result<T, Error>, expected: Result<T::V, ErrorView>) -> bool {
    match r {
        Ok(v) => expected == Ok::<T::V, ErrorView>(v@),
        Err(e) => expected == Err::<T::V, ErrorView>(e@),
    }
}

impl ErrorView {
    /// The kind of a failure.
    pub open spec fn kind(self) -> Seq<char> {
        match self {
            ErrorView::NoAnswer { kind, .. } => kind,
            ErrorView::Invalid { kind, .. } => kind,
        }
    }

    /// The exit code of a failure.
    pub open spec fn code(self) -> i32 {
        match self {
            ErrorView::NoAnswer { .. } => 4,
            ErrorView::Invalid { .. } => 5,
        }
    }

    /// A failure as one line of text.
    pub open spec fn text(self) -> Seq<char> {
        match self {
            ErrorView::NoAnswer { kind, message } => "no answer ("@ + kind + ": "@ + message + ")"@,
            ErrorView::Invalid { kind, message } => "invalid input ("@ + kind + ": "@ + message + ")"@,
        }
    }
}

impl Error {
    pub fn no_answer(kind: &'static str, message: &str) -> (r: Error)
        ensures
            r@ == no_answer(kind@, message@),
    {
        Error::NoAnswer { kind, message: message.to_owned() }
    }

    pub fn invalid(kind: &'static str, message: &str) -> (r: Error)
        ensures
            r@ == invalid(kind@, message@),
    {
        Error::Invalid { kind, message: message.to_owned() }
    }

    pub fn kind(&self) -> (r: &'static str)
        ensures
            r@ == self@.kind(),
    {
        match self {
            Error::NoAnswer { kind, .. } => kind,
            Error::Invalid { kind, .. } => kind,
        }
    }

    /// 4 for "we could not get an answer", 5 for "this request was never going to work".
    /// Never 2: whoever runs hooks reads a hook's exit 2 as "block this tool call and hand my
    /// stderr to the model", so a typo in a hook's flags must not become a block.
    pub fn code(&self) -> (r: i32)
        ensures
            r == self@.code(),
            r != 2,
    {
        match self {
            Error::NoAnswer { .. } => 4,
            Error::Invalid { .. } => 5,
        }
    }

    /// The failure as one line of text.
    pub fn to_string(&self) -> (r: String)
        ensures
            r@ == self@.text(),
    {
        match self {
            Error::NoAnswer { kind, message } => text::cat5("no answer (", kind, ": ", message.as_str(), ")"),
            Error::Invalid { kind, message } => text::cat5("invalid input (", kind, ": ", message.as_str(), ")"),
        }
    }
}

}
