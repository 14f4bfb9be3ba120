//! The failures the crawler distinguishes.

use vstd::prelude::*;
use vstd::string::StringExecFns;

verus! {

/// What can go wrong, with a description of the occasion.
#[derive(Debug)]
pub enum Errors {
    /// The store could not be opened, read or written, or a value cannot
    /// be stored.
    DatabaseError(String),
    /// The configuration is missing or malformed.
    ConfigError(String),
    /// A page or a robots file could not be fetched.
    NetworkError(String),
    /// A body is not valid UTF-8, or a stored time is not RFC 3339.
    EncodingError(String),
    /// A page cannot be read as a document.
    ParseError(String),
    /// Anything else.
    Unknown,
}

impl Errors {
    /// The text shown for this error.
    pub open spec fn message_spec(&self) -> Seq<char> {
        match self {
            Errors::DatabaseError(m) => "Database error: "@ + m@,
            Errors::ConfigError(m) => "Configuration error: "@ + m@,
            Errors::NetworkError(m) => "Network error: "@ + m@,
            Errors::EncodingError(m) => "Encoding error: "@ + m@,
            Errors::ParseError(m) => "Parse error: "@ + m@,
            Errors::Unknown => "Unknown error"@,
        }
    }

    /// The text shown for this error: its kind, then its description.
    pub fn message(&self) -> (r: String)
        ensures
            r@ == self.message_spec(),
    {
        match self {
            Errors::DatabaseError(m) => String::from_str("Database error: ").concat(m.as_str()),
            Errors::ConfigError(m) => String::from_str("Configuration error: ").concat(
                m.as_str(),
            ),
            Errors::NetworkError(m) => String::from_str("Network error: ").concat(m.as_str()),
            Errors::EncodingError(m) => String::from_str("Encoding error: ").concat(m.as_str()),
            Errors::ParseError(m) => String::from_str("Parse error: ").concat(m.as_str()),
            Errors::Unknown => String::from_str("Unknown error"),
        }
    }
}

} // verus!
