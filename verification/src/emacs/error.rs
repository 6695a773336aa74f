//! Errors of the Emacs bridge.

use vstd::prelude::*;
use crate::text::{push_str, push_signed_decimal, string_from_chars, signed_decimal};

verus! {

/// Why evaluating an expression in Emacs failed.
#[derive(Debug)]
pub enum Error {
    /// Starting or talking to `emacsclient` failed; holds the operating system's message.
    Io(String),
    /// `emacsclient` exited unsuccessfully.
    EmacsExit {
        /// The exit code (`-1` when the operating system gave none).
        code: i32,
        /// What `emacsclient` wrote to its standard error.
        stderr: String,
    },
    /// `emacsclient` wrote output that is not UTF-8; holds the decoder's message.
    Encoding(String),
}

impl Error {
    /// The human-readable description of the error.
    pub open spec fn spec_message(&self) -> Seq<char> {
        match self {
            Error::Io(m) => "IO error: "@ + m@,
            Error::EmacsExit { code, stderr } =>
                "emacsclient exited with code "@ + signed_decimal(*code as int) + "\nstderr: "@ + stderr@,
            Error::Encoding(m) => "emacsclient output was not valid UTF-8: "@ + m@,
        }
    }

    /// The human-readable description of the error.
    pub fn message(&self) -> (r: String)
        ensures
            r@ == self.spec_message(),
    {
        let mut v: Vec<char> = Vec::new();
        match self {
            Error::Io(m) => {
                push_str(&mut v, "IO error: ");
                push_str(&mut v, m.as_str());
            },
            Error::EmacsExit { code, stderr } => {
                push_str(&mut v, "emacsclient exited with code ");
                push_signed_decimal(&mut v, *code as i64);
                push_str(&mut v, "\nstderr: ");
                push_str(&mut v, stderr.as_str());
            },
            Error::Encoding(m) => {
                push_str(&mut v, "emacsclient output was not valid UTF-8: ");
                push_str(&mut v, m.as_str());
            },
        }
        string_from_chars(v.as_slice())
    }
}

} // verus!
