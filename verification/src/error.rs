//! The library's error type.

use vstd::prelude::*;

use crate::text::concat2;

verus! {

/// What went wrong, with the message the user sees.
#[derive(Clone, Debug, PartialEq)]
pub enum Error {
    /// The GitHub API answered with errors and no data.
    Api(String),
    /// `gh auth token` failed.
    Token(String),
    /// The configuration is invalid.
    Config(String),
    /// The done-state database has a schema this build cannot use.
    Schema(String),
    /// A command filter failed; the message says how.
    Filter(String),
    /// A JSON document could not be read or written.
    Json(String),
    /// An HTTP request failed.
    Http(String),
    /// The database reported an error.
    Db(String),
    /// An I/O operation failed.
    Io(String),
}

/// The text shown for an error: a prefix naming its kind, then its detail
/// (transparent kinds show the detail alone).
pub open spec fn error_text(e: Error) -> Seq<char> {
    match e {
        Error::Api(m) => "GitHub API error: "@ + m@,
        Error::Token(m) => "failed to get token via `gh auth token`: "@ + m@,
        Error::Config(m) => "config error: "@ + m@,
        Error::Schema(m) => "db schema error: "@ + m@,
        Error::Filter(m) => m@,
        Error::Json(m) => m@,
        Error::Http(m) => m@,
        Error::Db(m) => m@,
        Error::Io(m) => m@,
    }
}

impl Error {
    /// The text shown for this error.
    pub fn message(&self) -> (s: String)
        ensures
            s@ == error_text(*self),
    {
        match self {
            Error::Api(m) => concat2("GitHub API error: ", m.as_str()),
            Error::Token(m) => concat2("failed to get token via `gh auth token`: ", m.as_str()),
            Error::Config(m) => concat2("config error: ", m.as_str()),
            Error::Schema(m) => concat2("db schema error: ", m.as_str()),
            Error::Filter(m) => m.clone(),
            Error::Json(m) => m.clone(),
            Error::Http(m) => m.clone(),
            Error::Db(m) => m.clone(),
            Error::Io(m) => m.clone(),
        }
    }
}

} // verus!
