//! The decisions behind opening a PDF in sioyek: which requests are accepted
//! and which command-line arguments start the reader.

use vstd::prelude::*;
use crate::pdf::error::Error;
use crate::text::{chars_of, decimal_string, decimal};

verus! {

/// Drives the sioyek reader. The reader is started detached, with its standard
/// streams closed, so that a request returns at once.
#[derive(Debug, Clone, Copy, Default)]
pub struct SioyekClient;

impl SioyekClient {
    pub fn new() -> (r: Self)
        ensures
            r == SioyekClient,
    {
        SioyekClient
    }
}

/// Pages are counted from 1.
pub fn validate_page(page: u32) -> (r: Result<(), Error>)
    ensures
        page >= 1 ==> r == Ok::<(), Error>(()),
        page < 1 ==> r == Err::<(), Error>(Error::InvalidPage { page }),
{
    if page < 1 {
        return Err(Error::InvalidPage { page });
    }
    Ok(())
}

/// A path is absolute when it starts at the root directory.
pub open spec fn is_absolute(path: Seq<char>) -> bool {
    path.len() > 0 && path[0] == '/'
}

/// Whether `path` starts at the root directory.
pub fn is_absolute_path(path: &str) -> (r: bool)
    ensures
        r == is_absolute(path@),
{
    let cs = chars_of(path);
    cs.len() > 0 && cs[0] == '/'
}

/// Rejects a relative path; the file's existence is checked afterwards.
pub fn validate_path_shape(path: &str) -> (r: Result<(), Error>)
    ensures
        is_absolute(path@) ==> r == Ok::<(), Error>(()),
        !is_absolute(path@) ==> (r matches Err(Error::PathNotAbsolute { path: p }) && p@ == path@),
{
    if !is_absolute_path(path) {
        return Err(Error::PathNotAbsolute { path: path.to_owned() });
    }
    Ok(())
}

/// What inspecting the file at an absolute path found.
#[derive(Debug)]
pub enum FileCheck {
    /// Something exists at the path.
    Exists,
    /// Nothing exists at the path.
    NotFound,
    /// The inspection itself failed; holds the operating system's message.
    Failed(String),
}

/// Turns the outcome of inspecting the file at `path` into the verdict on the path.
pub fn judge_file_check(path: &str, check: FileCheck) -> (r: Result<(), Error>)
    ensures
        check is Exists ==> r == Ok::<(), Error>(()),
        check is NotFound ==> (r matches Err(Error::FileNotFound { path: p }) && p@ == path@),
        check matches FileCheck::Failed(m) ==> r == Err::<(), Error>(Error::Io(m)),
{
    match check {
        FileCheck::Exists => Ok(()),
        FileCheck::NotFound => Err(Error::FileNotFound { path: path.to_owned() }),
        FileCheck::Failed(m) => Err(Error::Io(m)),
    }
}

/// The views of a list of strings.
pub open spec fn views(v: Seq<String>) -> Seq<Seq<char>> {
    v.map_values(|s: String| s@)
}

/// The arguments that open `path` at `page`, reusing a running window.
pub open spec fn spec_open_args(path: Seq<char>, page: u32) -> Seq<Seq<char>> {
    seq!["--reuse-window"@, "--page"@, decimal(page as nat), path]
}

/// The arguments that open `path` and mark the line containing `text`,
/// searching only `page` when one is given.
pub open spec fn spec_open_at_text_args(path: Seq<char>, text: Seq<char>, page: Option<u32>) -> Seq<Seq<char>> {
    match page {
        Some(p) => seq![
            "--reuse-window"@,
            "--focus-text"@,
            text,
            "--focus-text-page"@,
            decimal(p as nat),
            path,
        ],
        None => seq!["--reuse-window"@, "--focus-text"@, text, path],
    }
}

pub fn build_open_args(path: &str, page: u32) -> (r: Vec<String>)
    ensures
        views(r@) == spec_open_args(path@, page),
{
    let mut args: Vec<String> = Vec::new();
    args.push("--reuse-window".to_owned());
    args.push("--page".to_owned());
    args.push(decimal_string(page as u128));
    args.push(path.to_owned());
    assert(views(args@) =~= spec_open_args(path@, page));
    args
}

pub fn build_open_at_text_args(path: &str, text: &str, page: Option<u32>) -> (r: Vec<String>)
    ensures
        views(r@) == spec_open_at_text_args(path@, text@, page),
{
    let mut args: Vec<String> = Vec::new();
    args.push("--reuse-window".to_owned());
    args.push("--focus-text".to_owned());
    args.push(text.to_owned());
    if let Some(p) = page {
        args.push("--focus-text-page".to_owned());
        args.push(decimal_string(p as u128));
    }
    args.push(path.to_owned());
    assert(views(args@) =~= spec_open_at_text_args(path@, text@, page));
    args
}

impl SioyekClient {
    /// The checks that `open` makes before it looks at the file system, and the
    /// reader's arguments when they pass: the page first, then the path's shape.
    /// The file's existence is checked next (see [`judge_file_check`]), then
    /// the reader is started with these arguments.
    pub fn plan_open(&self, path: &str, page: u32) -> (r: Result<Vec<String>, Error>)
        ensures
            page < 1 ==> r == Err::<Vec<String>, Error>(Error::InvalidPage { page }),
            page >= 1 && !is_absolute(path@) ==>
                (r matches Err(Error::PathNotAbsolute { path: p }) && p@ == path@),
            page >= 1 && is_absolute(path@) ==>
                (r matches Ok(args) && views(args@) == spec_open_args(path@, page)),
    {
        match validate_page(page) {
            Err(e) => return Err(e),
            Ok(()) => {},
        }
        match validate_path_shape(path) {
            Err(e) => return Err(e),
            Ok(()) => {},
        }
        Ok(build_open_args(path, page))
    }

    /// The checks that `open_at_text` makes before it looks at the file system,
    /// and the reader's arguments when they pass: a given page first, then the
    /// path's shape.
    pub fn plan_open_at_text(&self, path: &str, text: &str, page: Option<u32>) -> (r: Result<Vec<String>, Error>)
        ensures
            page is Some && page->0 < 1 ==>
                r == Err::<Vec<String>, Error>(Error::InvalidPage { page: page->0 }),
            !(page is Some && page->0 < 1) && !is_absolute(path@) ==>
                (r matches Err(Error::PathNotAbsolute { path: q }) && q@ == path@),
            !(page is Some && page->0 < 1) && is_absolute(path@) ==>
                (r matches Ok(args) && views(args@) == spec_open_at_text_args(path@, text@, page)),
    {
        if let Some(p) = page {
            match validate_page(p) {
                Err(e) => return Err(e),
                Ok(()) => {},
            }
        }
        match validate_path_shape(path) {
            Err(e) => return Err(e),
            Ok(()) => {},
        }
        Ok(build_open_at_text_args(path, text, page))
    }
}

} // verus!
