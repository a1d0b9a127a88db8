//! The library's error type.
use vstd::prelude::*;
use crate::text;
use crate::text::{append_str, decimal, str_chars, string_from_chars};

verus! {

/// What went wrong, with a human-readable detail.
#[derive(Debug, Clone, PartialEq, Eq)]
pub enum ArxivError {
    /// A file-system operation failed (the detail is the system's message).
    Io(String),
    /// A network request failed (the detail is the client's message).
    Http(String),
    /// A non-2xx HTTP status remained after the retries were used up.
    HttpStatus(u16),
    Parse(String),
    Extraction(String),
    Chat(String),
    Config(String),
    NotFound(String),
    Json(String),
    Other(String),
}

/// The text shown for an error.
pub open spec fn error_message_spec(e: ArxivError) -> Seq<char> {
    match e {
        ArxivError::Io(s) => "IO error: "@ + s@,
        ArxivError::Http(s) => "HTTP error: "@ + s@,
        ArxivError::HttpStatus(c) => "HTTP status "@ + text::decimal_spec(c as nat),
        ArxivError::Parse(s) => "Parse error: "@ + s@,
        ArxivError::Extraction(s) => "Extraction error: "@ + s@,
        ArxivError::Chat(s) => "Chat error: "@ + s@,
        ArxivError::Config(s) => "Config error: "@ + s@,
        ArxivError::NotFound(s) => "Not found: "@ + s@,
        ArxivError::Json(s) => "JSON error: "@ + s@,
        ArxivError::Other(s) => s@,
    }
}

impl ArxivError {
    /// The text shown for this error.
    pub fn message(&self) -> (r: String)
        ensures
            r@ == error_message_spec(*self),
    {
        let (head, detail): (&str, &str) = match self {
            ArxivError::Io(s) => ("IO error: ", s.as_str()),
            ArxivError::Http(s) => ("HTTP error: ", s.as_str()),
            ArxivError::HttpStatus(c) => {
                let mut v = str_chars("HTTP status ");
                let d = decimal(*c as u64);
                append_str(&mut v, d.as_str());
                return string_from_chars(&v);
            },
            ArxivError::Parse(s) => ("Parse error: ", s.as_str()),
            ArxivError::Extraction(s) => ("Extraction error: ", s.as_str()),
            ArxivError::Chat(s) => ("Chat error: ", s.as_str()),
            ArxivError::Config(s) => ("Config error: ", s.as_str()),
            ArxivError::NotFound(s) => ("Not found: ", s.as_str()),
            ArxivError::Json(s) => ("JSON error: ", s.as_str()),
            ArxivError::Other(s) => ("", s.as_str()),
        };
        let mut v = str_chars(head);
        append_str(&mut v, detail);
        proof {
            reveal_strlit("");
        }
        string_from_chars(&v)
    }
}

/// A bare message is an [`ArxivError::Other`].
impl From<String> for ArxivError {
    fn from(s: String) -> (r: Self) {
        ArxivError::Other(s)
    }
}

impl vstd::std_specs::convert::FromSpecImpl<String> for ArxivError {
    open spec fn obeys_from_spec() -> bool {
        true
    }

    open spec fn from_spec(s: String) -> Self {
        ArxivError::Other(s)
    }
}

} // verus!
