//! The node's errors.

use crate::text;
use vstd::prelude::*;

verus! {

/// An error, with the text of its cause.
#[derive(Debug)]
pub enum NaiveError {
    Io(String),
    Config(String),
    ProtocolParse(String),
    Authentication(String),
    Tls(String),
    Connection(String),
    Transport(String),
    Other(String),
}

/// The text of an error: what kind it is, and its cause.
pub open spec fn error_text(e: NaiveError) -> Seq<char> {
    match e {
        NaiveError::Io(t) => "IO error: "@ + t@,
        NaiveError::Config(t) => "Configuration error: "@ + t@,
        NaiveError::ProtocolParse(t) => "Protocol parse error: "@ + t@,
        NaiveError::Authentication(t) => "Authentication error: "@ + t@,
        NaiveError::Tls(t) => "TLS error: "@ + t@,
        NaiveError::Connection(t) => "Network connection error: "@ + t@,
        NaiveError::Transport(t) => "Transport error: "@ + t@,
        NaiveError::Other(t) => t@,
    }
}

impl NaiveError {
    /// The text of the error.
    pub fn to_string(&self) -> (r: String)
        ensures
            r@ == error_text(*self),
    {
        match self {
            NaiveError::Io(t) => text::concat("IO error: ", t.as_str()),
            NaiveError::Config(t) => text::concat("Configuration error: ", t.as_str()),
            NaiveError::ProtocolParse(t) => text::concat("Protocol parse error: ", t.as_str()),
            NaiveError::Authentication(t) => text::concat("Authentication error: ", t.as_str()),
            NaiveError::Tls(t) => text::concat("TLS error: ", t.as_str()),
            NaiveError::Connection(t) => text::concat("Network connection error: ", t.as_str()),
            NaiveError::Transport(t) => text::concat("Transport error: ", t.as_str()),
            NaiveError::Other(t) => t.clone(),
        }
    }
}

impl From<String> for NaiveError {
    /// An error known by its text alone.
    fn from(text: String) -> (r: Self) {
        NaiveError::Other(text)
    }
}

impl vstd::std_specs::convert::FromSpecImpl<String> for NaiveError {
    open spec fn obeys_from_spec() -> bool {
        true
    }

    open spec fn from_spec(text: String) -> Self {
        NaiveError::Other(text)
    }
}

/// The text of an error ends with its cause, as it came.
pub proof fn law_errors_keep_their_cause(t: String)
    ensures
        t@.is_suffix_of(error_text(NaiveError::Io(t))),
        t@.is_suffix_of(error_text(NaiveError::Config(t))),
        t@.is_suffix_of(error_text(NaiveError::ProtocolParse(t))),
        t@.is_suffix_of(error_text(NaiveError::Authentication(t))),
        t@.is_suffix_of(error_text(NaiveError::Tls(t))),
        t@.is_suffix_of(error_text(NaiveError::Connection(t))),
        t@.is_suffix_of(error_text(NaiveError::Transport(t))),
        error_text(NaiveError::Other(t)) == t@,
{
}

} // verus!
