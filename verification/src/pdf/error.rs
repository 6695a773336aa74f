//! Errors of the PDF opener.

use vstd::prelude::*;
use crate::text::{push_str, push_decimal, string_from_chars, decimal};

verus! {

/// Why a request to open a PDF failed.
#[derive(Debug)]
pub enum Error {
    /// Inspecting the file failed; holds the operating system's message.
    Io(String),
    /// The reader could not be started; holds the operating system's message.
    SioyekSpawn(String),
    /// No file exists at the given path.
    FileNotFound { path: String },
    /// The given path is relative.
    PathNotAbsolute { path: String },
    /// Pages are counted from 1; this page number is not.
    InvalidPage { page: u32 },
}

impl Error {
    /// The human-readable description of the error.
    pub open spec fn spec_message(&self) -> Seq<char> {
        match self {
            Error::Io(m) => "IO error: "@ + m@,
            Error::SioyekSpawn(m) =>
                "failed to spawn sioyek (is it installed and on PATH?): "@ + m@,
            Error::FileNotFound { path } => "PDF file not found: "@ + path@,
            Error::PathNotAbsolute { path } => "path must be absolute: "@ + path@,
            Error::InvalidPage { page } =>
                "invalid page number: "@ + decimal(*page as nat) + " (must be >= 1)"@,
        }
    }

    /// The human-readable description of the error.
    pub fn message(&self) -> (r: String)
        ensures
            r@ == self.spec_message(),
    {
        let mut v: Vec<char> = Vec::new();
        match self {
            Error::Io(m) => {
                push_str(&mut v, "IO error: ");
                push_str(&mut v, m.as_str());
            },
            Error::SioyekSpawn(m) => {
                push_str(&mut v, "failed to spawn sioyek (is it installed and on PATH?): ");
                push_str(&mut v, m.as_str());
            },
            Error::FileNotFound { path } => {
                push_str(&mut v, "PDF file not found: ");
                push_str(&mut v, path.as_str());
            },
            Error::PathNotAbsolute { path } => {
                push_str(&mut v, "path must be absolute: ");
                push_str(&mut v, path.as_str());
            },
            Error::InvalidPage { page } => {
                push_str(&mut v, "invalid page number: ");
                push_decimal(&mut v, *page as u128);
                push_str(&mut v, " (must be >= 1)");
            },
        }
        string_from_chars(v.as_slice())
    }
}

} // verus!
