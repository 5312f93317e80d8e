//! Failures of parsing and validation.
use vstd::prelude::*;

verus! {

/// A core-domain error: a failed parse or an out-of-range value.
#[derive(Debug, PartialEq, Eq)]
#[non_exhaustive]
pub enum Error {
    /// A Bluetooth address could not be parsed; holds the offending input.
    InvalidAddress(String),
    /// A typed value failed validation.
    Invalid {
        /// The name of the thing being validated.
        what: &'static str,
        /// Why it failed.
        detail: String,
    },
}

/// What an [`Error`] says.
pub enum ErrorView {
    InvalidAddress(Seq<char>),
    Invalid { what: Seq<char>, detail: Seq<char> },
}

impl View for Error {
    type V = ErrorView;

    open spec fn view(&self) -> ErrorView {
        match self {
            Error::InvalidAddress(s) => ErrorView::InvalidAddress(s@),
            Error::Invalid { what, detail } => ErrorView::Invalid { what: what@, detail: detail@ },
        }
    }
}

impl ErrorView {
    /// The message shown for the error.
    pub open spec fn message(self) -> Seq<char> {
        match self {
            ErrorView::InvalidAddress(s) => "invalid Bluetooth address: "@ + s,
            ErrorView::Invalid { what, detail } => "invalid "@ + what + ": "@ + detail,
        }
    }
}

impl Clone for Error {
    fn clone(&self) -> (r: Error)
        ensures
            r@ == self@,
    {
        match self {
            Error::InvalidAddress(s) => Error::InvalidAddress(s.clone()),
            Error::Invalid { what, detail } => Error::Invalid { what, detail: detail.clone() },
        }
    }
}

impl Error {
    /// An [`Error::Invalid`] with the given label and detail.
    pub fn invalid(what: &'static str, detail: &str) -> (r: Error)
        ensures
            r@ == (ErrorView::Invalid { what: what@, detail: detail@ }),
    {
        Error::Invalid { what, detail: detail.to_owned() }
    }

    /// The message shown for the error.
    pub fn to_string(&self) -> (r: String)
        ensures
            r@ == self@.message(),
    {
        match self {
            Error::InvalidAddress(s) => {
                let mut t = "invalid Bluetooth address: ".to_owned();
                t.append(s.as_str());
                t
            },
            Error::Invalid { what, detail } => {
                let mut t = "invalid ".to_owned();
                t.append(what);
                t.append(": ");
                t.append(detail.as_str());
                t
            },
        }
    }
}

/// A result that carries a core [`Error`].
pub type Result<T> = std::result::Result<T, Error>;

} // verus!
