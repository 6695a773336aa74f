//! The Emacs tools: their parameters, the expressions they evaluate and the
//! replies they give.

use vstd::prelude::*;
use crate::emacs::error::Error;
use crate::emacs::emacs_client::{elisp_string, spec_elisp_string};
use crate::text::{push_str, string_from_chars};

verus! {

/// Parameters of the tool that evaluates an expression.
pub struct EvalParams {
    /// The Emacs Lisp expression to evaluate.
    pub expression: String,
}

/// Parameters of the tool that reads a buffer.
pub struct GetBufferParams {
    /// Name of the buffer to read; the current buffer when absent.
    pub buffer_name: Option<String>,
}

/// Parameters of the tool that opens a file.
pub struct OpenFileParams {
    /// Absolute or relative path of the file to open.
    pub path: String,
}

/// The expression that lists the names of all open buffers.
pub fn list_buffers_expression() -> (r: &'static str)
    ensures
        r@ == "(mapcar #'buffer-name (buffer-list))"@,
{
    "(mapcar #'buffer-name (buffer-list))"
}

/// The expression that gives the current buffer's file, point, line and column.
pub fn cursor_position_expression() -> (r: &'static str)
    ensures
        r@ == "(list (buffer-file-name) (point) (line-number-at-pos) (current-column))"@,
{
    "(list (buffer-file-name) (point) (line-number-at-pos) (current-column))"
}

/// The expression that reads the text of a buffer.
pub open spec fn spec_buffer_content_expression(buffer_name: Option<Seq<char>>) -> Seq<char> {
    match buffer_name {
        Some(name) => "(with-current-buffer "@ + spec_elisp_string(name) + " (buffer-string))"@,
        None => "(buffer-string)"@,
    }
}

/// The expression that reads the text of the named buffer, or of the current one.
pub fn buffer_content_expression(buffer_name: Option<&str>) -> (r: String)
    ensures
        r@ == spec_buffer_content_expression(match buffer_name {
            Some(n) => Some(n@),
            None => None,
        }),
{
    match buffer_name {
        Some(name) => {
            let mut v: Vec<char> = Vec::new();
            push_str(&mut v, "(with-current-buffer ");
            let lit = elisp_string(name);
            push_str(&mut v, lit.as_str());
            push_str(&mut v, " (buffer-string))");
            string_from_chars(v.as_slice())
        },
        None => "(buffer-string)".to_owned(),
    }
}

/// The expression that opens the file at `path`.
pub open spec fn spec_open_file_expression(path: Seq<char>) -> Seq<char> {
    "(find-file "@ + spec_elisp_string(path) + ")"@
}

/// The expression that opens the file at `path`.
pub fn open_file_expression(path: &str) -> (r: String)
    ensures
        r@ == spec_open_file_expression(path@),
{
    let mut v: Vec<char> = Vec::new();
    push_str(&mut v, "(find-file ");
    let lit = elisp_string(path);
    push_str(&mut v, lit.as_str());
    push_str(&mut v, ")");
    string_from_chars(v.as_slice())
}

/// The reply of a tool that answers with what Emacs printed.
pub open spec fn spec_eval_reply(outcome: Result<String, Error>) -> Seq<char> {
    match outcome {
        Ok(result) => result@,
        Err(e) => "Error: "@ + e.spec_message(),
    }
}

/// The text that answers a tool whose reply is the evaluation's result.
pub fn eval_reply(outcome: &Result<String, Error>) -> (r: String)
    ensures
        r@ == spec_eval_reply(*outcome),
{
    match outcome {
        Ok(result) => result.clone(),
        Err(e) => {
            let mut v: Vec<char> = Vec::new();
            push_str(&mut v, "Error: ");
            let m = e.message();
            push_str(&mut v, m.as_str());
            string_from_chars(v.as_slice())
        },
    }
}

/// The reply of the tool that opens a file.
pub open spec fn spec_open_file_reply(path: Seq<char>, outcome: Result<String, Error>) -> Seq<char> {
    match outcome {
        Ok(_) => "Opened "@ + path,
        Err(e) => "Error: "@ + e.spec_message(),
    }
}

/// The text that answers a request to open the file at `path`.
pub fn open_file_reply(path: &str, outcome: &Result<String, Error>) -> (r: String)
    ensures
        r@ == spec_open_file_reply(path@, *outcome),
{
    let mut v: Vec<char> = Vec::new();
    match outcome {
        Ok(_) => {
            push_str(&mut v, "Opened ");
            push_str(&mut v, path);
        },
        Err(e) => {
            push_str(&mut v, "Error: ");
            let m = e.message();
            push_str(&mut v, m.as_str());
        },
    }
    string_from_chars(v.as_slice())
}

} // verus!
