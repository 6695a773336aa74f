//! Errors of the forecast server.

use vstd::prelude::*;
use crate::text::{push_str, string_from_chars};

verus! {

/// Why a forecast could not be fetched.
#[derive(Debug)]
pub enum Error {
    /// The forecast service could not be reached or answered with an error;
    /// holds the transport's message.
    Http(String),
    /// A coordinate lies outside its range; holds the explanation.
    InvalidCoordinate(String),
}

impl Error {
    /// The human-readable description of the error.
    pub open spec fn spec_message(&self) -> Seq<char> {
        match self {
            Error::Http(m) => "HTTP request failed: "@ + m@,
            Error::InvalidCoordinate(m) => "invalid coordinate: "@ + m@,
        }
    }

    /// The human-readable description of the error.
    pub fn message(&self) -> (r: String)
        ensures
            r@ == self.spec_message(),
    {
        let mut v: Vec<char> = Vec::new();
        match self {
            Error::Http(m) => {
                push_str(&mut v, "HTTP request failed: ");
                push_str(&mut v, m.as_str());
            },
            Error::InvalidCoordinate(m) => {
                push_str(&mut v, "invalid coordinate: ");
                push_str(&mut v, m.as_str());
            },
        }
        string_from_chars(v.as_slice())
    }
}

} // verus!
