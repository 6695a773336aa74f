//! The PDF tools: their parameters and the replies they give.

use vstd::prelude::*;
use crate::pdf::error::Error;
use crate::text::{push_str, push_decimal, string_from_chars, debug_quoted, decimal, str_debug};

verus! {

/// Parameters of the tool that opens a PDF at a page.
pub struct OpenPdfParams {
    /// Absolute path to the PDF file to open.
    pub path: String,
    /// 1-indexed page number to jump to.
    pub page: u32,
}

/// Parameters of the tool that opens a PDF at a text location.
pub struct OpenPdfAtTextParams {
    /// Absolute path to the PDF file to open.
    pub path: String,
    /// Text snippet to locate; the reader marks the line containing it.
    pub text: String,
    /// Optional 1-indexed page to restrict the search to.
    pub page: Option<u32>,
}

/// The reply to a request to open `path` at `page`.
pub open spec fn spec_open_pdf_reply(path: Seq<char>, page: u32, outcome: Result<(), Error>) -> Seq<char> {
    match outcome {
        Ok(()) => "Opened "@ + path + " at page "@ + decimal(page as nat),
        Err(e) => "Error: "@ + e.spec_message(),
    }
}

/// The reply to a request to open `path` at `text`, searching `page` if given.
pub open spec fn spec_open_pdf_at_text_reply(
    path: Seq<char>,
    text: Seq<char>,
    page: Option<u32>,
    outcome: Result<(), Error>,
) -> Seq<char> {
    match outcome {
        Ok(()) => match page {
            Some(p) => "Opened "@ + path + " at text "@ + str_debug(text) + " on page "@ + decimal(p as nat),
            None => "Opened "@ + path + " at text "@ + str_debug(text),
        },
        Err(e) => "Error: "@ + e.spec_message(),
    }
}

/// The text that answers a request to open `path` at `page`.
pub fn open_pdf_reply(path: &str, page: u32, outcome: &Result<(), Error>) -> (r: String)
    ensures
        r@ == spec_open_pdf_reply(path@, page, *outcome),
{
    let mut v: Vec<char> = Vec::new();
    match outcome {
        Ok(()) => {
            push_str(&mut v, "Opened ");
            push_str(&mut v, path);
            push_str(&mut v, " at page ");
            push_decimal(&mut v, page as u128);
        },
        Err(e) => {
            push_str(&mut v, "Error: ");
            let m = e.message();
            push_str(&mut v, m.as_str());
        },
    }
    string_from_chars(v.as_slice())
}

/// The text that answers a request to open `path` at `text`.
pub fn open_pdf_at_text_reply(path: &str, text: &str, page: Option<u32>, outcome: &Result<(), Error>) -> (r: String)
    ensures
        r@ == spec_open_pdf_at_text_reply(path@, text@, page, *outcome),
{
    let mut v: Vec<char> = Vec::new();
    match outcome {
        Ok(()) => {
            push_str(&mut v, "Opened ");
            push_str(&mut v, path);
            push_str(&mut v, " at text ");
            let q = debug_quoted(text);
            push_str(&mut v, q.as_str());
            if let Some(p) = page {
                push_str(&mut v, " on page ");
                push_decimal(&mut v, p as u128);
            }
        },
        Err(e) => {
            push_str(&mut v, "Error: ");
            let m = e.message();
            push_str(&mut v, m.as_str());
        },
    }
    string_from_chars(v.as_slice())
}

} // verus!
