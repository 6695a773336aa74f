//! The `emacsclient` side of the bridge: the command line that evaluates an
//! expression, how its output is read, and Emacs Lisp string literals.

use vstd::prelude::*;
use vstd::utf8::{valid_utf8, decode_utf8};
use crate::emacs::error::Error;
use crate::text::{chars_of, string_from_chars, trim_chars, trim};

verus! {

/// Communicates with a running Emacs instance via `emacsclient`.
///
/// By default `emacsclient` connects to the server started by `(server-start)`;
/// a socket name selects one of several running servers.
#[derive(Debug, Clone)]
pub struct EmacsClient {
    socket_name: Option<String>,
}

impl EmacsClient {
    /// The socket this client connects to, if not the default one.
    pub closed spec fn spec_socket_name(&self) -> Option<Seq<char>> {
        match &self.socket_name {
            Some(s) => Some(s@),
            None => None,
        }
    }

    /// A client of the default Emacs server socket.
    pub fn new() -> (r: Self)
        ensures
            r.spec_socket_name() is None,
    {
        EmacsClient { socket_name: None }
    }

    /// A client of the Emacs server listening on the socket named `socket_name`.
    pub fn with_socket(socket_name: String) -> (r: Self)
        ensures
            r.spec_socket_name() == Some(socket_name@),
    {
        EmacsClient { socket_name: Some(socket_name) }
    }

    /// The arguments of the `emacsclient` call that evaluates `expression`.
    pub open spec fn spec_eval_args(&self, expression: Seq<char>) -> Seq<Seq<char>> {
        match self.spec_socket_name() {
            Some(name) => seq!["--eval"@, expression, "--socket-name"@, name],
            None => seq!["--eval"@, expression],
        }
    }

    /// The arguments of the `emacsclient` call that evaluates `expression`.
    pub fn eval_args(&self, expression: &str) -> (r: Vec<String>)
        ensures
            r@.map_values(|s: String| s@) == self.spec_eval_args(expression@),
    {
        let mut args: Vec<String> = Vec::new();
        args.push("--eval".to_owned());
        args.push(expression.to_owned());
        if let Some(name) = &self.socket_name {
            args.push("--socket-name".to_owned());
            args.push(name.clone());
        }
        assert(args@.map_values(|s: String| s@) =~= self.spec_eval_args(expression@));
        args
    }
}

impl Default for EmacsClient {
    /// A client of the default Emacs server socket, as [`EmacsClient::new`] gives.
    fn default() -> (r: Self)
        ensures
            r.spec_socket_name() is None,
    {
        EmacsClient::new()
    }
}

/// The message std's `FromUtf8Error` displays for a byte string that is not UTF-8.
pub uninterp spec fn utf8_error_text(bytes: Seq<u8>) -> Seq<char>;

/// Decodes `bytes` as UTF-8.
///
/// Trusted: wraps std's `String::from_utf8`; the contract claims that it
/// succeeds exactly on valid UTF-8, decoding as vstd's `decode_utf8` does, and
/// that the error's `Display` text depends on the bytes alone.
#[verifier::external_body]
fn decode_utf8_strict(bytes: Vec<u8>) -> (r: Result<String, String>)
    ensures
        r is Ok <==> valid_utf8(bytes@),
        r matches Ok(s) ==> s@ == decode_utf8(bytes@),
        r matches Err(m) ==> m@ == utf8_error_text(bytes@),
{
    String::from_utf8(bytes).map_err(|e| e.to_string())
}

/// What std's `String::from_utf8_lossy` gives for `bytes`: invalid sequences
/// are replaced by U+FFFD.
pub uninterp spec fn utf8_lossy(bytes: Seq<u8>) -> Seq<char>;

/// Decodes `bytes` as UTF-8, replacing invalid sequences.
///
/// Trusted: wraps std's `String::from_utf8_lossy`; the contract claims that the
/// result depends on the bytes alone and, as its documentation says, that valid
/// UTF-8 decodes unchanged.
#[verifier::external_body]
fn decode_utf8_lossy(bytes: &[u8]) -> (r: String)
    ensures
        r@ == utf8_lossy(bytes@),
        valid_utf8(bytes@) ==> r@ == decode_utf8(bytes@),
{
    String::from_utf8_lossy(bytes).into_owned()
}

/// Reads the result of an `emacsclient` run: an unsuccessful exit is
/// reported with its code (`-1` when there is none) and its standard error;
/// otherwise the standard output, which must be UTF-8, is the result with
/// surrounding white space removed.
pub fn interpret_output(success: bool, code: Option<i32>, stdout: Vec<u8>, stderr: Vec<u8>) -> (r: Result<String, Error>)
    ensures
        !success ==> (r matches Err(Error::EmacsExit { code: c, stderr: e })
            && c == (match code { Some(x) => x, None => -1i32 })
            && e@ == utf8_lossy(stderr@)),
        success && valid_utf8(stdout@) ==> (r matches Ok(s) && s@ == trim(decode_utf8(stdout@))),
        success && !valid_utf8(stdout@) ==> (r matches Err(Error::Encoding(m)) && m@ == utf8_error_text(stdout@)),
{
    if !success {
        let c: i32 = match code {
            Some(x) => x,
            None => -1,
        };
        let e = decode_utf8_lossy(stderr.as_slice());
        return Err(Error::EmacsExit { code: c, stderr: e });
    }
    let ghost out = stdout@;
    match decode_utf8_strict(stdout) {
        Ok(s) => {
            let t = trim_chars(s.as_str());
            Ok(string_from_chars(t.as_slice()))
        },
        Err(m) => Err(Error::Encoding(m)),
    }
}

/// How one character is written inside an Emacs Lisp string literal:
/// backslash and double quote are preceded by a backslash.
pub open spec fn elisp_escape_char(c: char) -> Seq<char> {
    if c == '\\' || c == '"' {
        seq!['\\', c]
    } else {
        seq![c]
    }
}

/// The body of an Emacs Lisp string literal for `s`.
pub open spec fn elisp_escape(s: Seq<char>) -> Seq<char>
    decreases s.len(),
{
    if s.len() == 0 {
        Seq::empty()
    } else {
        elisp_escape_char(s[0]) + elisp_escape(s.drop_first())
    }
}

/// The Emacs Lisp string literal that reads back as `s`.
pub open spec fn spec_elisp_string(s: Seq<char>) -> Seq<char> {
    seq!['"'] + elisp_escape(s) + seq!['"']
}

/// How the Emacs Lisp reader reads the body of a string literal written with
/// backslash escapes of backslash and double quote only; `None` when the body
/// ends inside an escape, holds another escape, or holds an unescaped quote.
pub open spec fn elisp_read_body(t: Seq<char>) -> Option<Seq<char>>
    decreases t.len(),
{
    if t.len() == 0 {
        Some(Seq::empty())
    } else if t[0] == '\\' {
        if t.len() >= 2 && (t[1] == '\\' || t[1] == '"') {
            match elisp_read_body(t.subrange(2, t.len() as int)) {
                Some(rest) => Some(seq![t[1]] + rest),
                None => None,
            }
        } else {
            None
        }
    } else if t[0] == '"' {
        None
    } else {
        match elisp_read_body(t.drop_first()) {
            Some(rest) => Some(seq![t[0]] + rest),
            None => None,
        }
    }
}

/// How the Emacs Lisp reader reads a whole string literal.
pub open spec fn elisp_read_string(lit: Seq<char>) -> Option<Seq<char>> {
    if lit.len() >= 2 && lit[0] == '"' && lit.last() == '"' {
        elisp_read_body(lit.subrange(1, lit.len() - 1))
    } else {
        None
    }
}

proof fn lemma_escape_push(s: Seq<char>, c: char)
    ensures
        elisp_escape(s.push(c)) == elisp_escape(s) + elisp_escape_char(c),
    decreases s.len(),
{
    if s.len() == 0 {
        assert(s.push(c).drop_first() =~= Seq::<char>::empty());
        assert(elisp_escape(Seq::<char>::empty()) == Seq::<char>::empty());
        assert(elisp_escape(s.push(c)) =~= elisp_escape_char(c) + Seq::<char>::empty());
    } else {
        assert(s.push(c).drop_first() =~= s.drop_first().push(c));
        lemma_escape_push(s.drop_first(), c);
        assert(elisp_escape(s.push(c)) =~= elisp_escape(s) + elisp_escape_char(c));
    }
}

proof fn lemma_read_escaped_body(s: Seq<char>)
    ensures
        elisp_read_body(elisp_escape(s)) == Some(s),
    decreases s.len(),
{
    if s.len() > 0 {
        let e = elisp_escape(s);
        let rest = elisp_escape(s.drop_first());
        lemma_read_escaped_body(s.drop_first());
        if s[0] == '\\' || s[0] == '"' {
            assert(e =~= seq!['\\', s[0]] + rest);
            assert(e.subrange(2, e.len() as int) =~= rest);
        } else {
            assert(e =~= seq![s[0]] + rest);
            assert(e.drop_first() =~= rest);
        }
        assert(seq![s[0]] + s.drop_first() =~= s);
    }
}

/// Reading back the literal that `elisp_string` writes for `s` gives `s`:
/// the quoting loses nothing and cannot be broken out of.
pub proof fn lemma_elisp_string_reads_back(s: Seq<char>)
    ensures
        elisp_read_string(spec_elisp_string(s)) == Some(s),
{
    let lit = spec_elisp_string(s);
    lemma_read_escaped_body(s);
    assert(lit.subrange(1, lit.len() - 1) =~= elisp_escape(s));
}

/// The Emacs Lisp string literal for `s`, for splicing a value into an expression.
pub fn elisp_string(s: &str) -> (r: String)
    ensures
        r@ == spec_elisp_string(s@),
{
    let cs = chars_of(s);
    let mut out: Vec<char> = Vec::new();
    out.push('"');
    let mut i: usize = 0;
    while i < cs.len()
        invariant
            cs@ == s@,
            i <= cs.len(),
            out@ == seq!['"'] + elisp_escape(cs@.subrange(0, i as int)),
        decreases cs.len() - i,
    {
        let c = cs[i];
        if c == '\\' || c == '"' {
            out.push('\\');
        }
        out.push(c);
        proof {
            assert(cs@.subrange(0, i + 1) =~= cs@.subrange(0, i as int).push(c));
            lemma_escape_push(cs@.subrange(0, i as int), c);
        }
        i = i + 1;
        assert(out@ =~= seq!['"'] + elisp_escape(cs@.subrange(0, i as int)));
    }
    out.push('"');
    assert(cs@.subrange(0, cs@.len() as int) =~= cs@);
    assert(out@ =~= spec_elisp_string(s@));
    string_from_chars(out.as_slice())
}

} // verus!
