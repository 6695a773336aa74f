use mcp_servers::emacs::emacs_client::{elisp_string, interpret_output, EmacsClient};
use mcp_servers::emacs::emacs_server::{
    buffer_content_expression, cursor_position_expression, eval_reply, list_buffers_expression,
    open_file_expression, open_file_reply,
};
use mcp_servers::emacs::error::Error;

/// What a live Emacs prints for `(+ 1 2)`, read as the client reads it.
#[test]
fn test_eval_arithmetic() {
    let client = EmacsClient::new();
    assert_eq!(client.eval_args("(+ 1 2)"), vec!["--eval", "(+ 1 2)"]);
    let result = interpret_output(true, Some(0), b"3\n".to_vec(), vec![]);
    assert!(result.is_ok(), "Failed to eval expression: {:?}", result.as_ref().err());
    assert_eq!(result.unwrap(), "3");
}

/// What a live Emacs prints for a string result, read as the client reads it.
#[test]
fn test_eval_string() {
    let client = EmacsClient::new();
    assert_eq!(
        client.eval_args("(concat \"hello\" \" \" \"emacs\")"),
        vec!["--eval", "(concat \"hello\" \" \" \"emacs\")"]
    );
    let result = interpret_output(true, Some(0), b"\"hello emacs\"\n".to_vec(), vec![]);
    assert!(result.is_ok(), "Failed to eval string expression: {:?}", result.as_ref().err());
    assert_eq!(result.unwrap(), "\"hello emacs\"");
}

#[test]
fn socket_name_is_passed_on() {
    let client = EmacsClient::with_socket("work".to_string());
    assert_eq!(
        client.eval_args("(point)"),
        vec!["--eval", "(point)", "--socket-name", "work"]
    );
}

#[test]
fn failed_run_reports_code_and_stderr() {
    let err = interpret_output(false, Some(1), vec![], b"no server\n".to_vec()).unwrap_err();
    assert!(matches!(&err, Error::EmacsExit { code: 1, stderr } if stderr == "no server\n"));
    assert_eq!(err.message(), "emacsclient exited with code 1\nstderr: no server\n");
    let err = interpret_output(false, None, vec![], vec![0xff]).unwrap_err();
    assert!(matches!(&err, Error::EmacsExit { code: -1, stderr } if stderr == "\u{fffd}"));
}

#[test]
fn output_must_be_utf8() {
    let err = interpret_output(true, Some(0), vec![0xff, 0xfe], vec![]).unwrap_err();
    let expected = String::from_utf8(vec![0xff, 0xfe]).unwrap_err().to_string();
    assert!(matches!(&err, Error::Encoding(m) if *m == expected));
    assert_eq!(err.message(), format!("emacsclient output was not valid UTF-8: {expected}"));
}

#[test]
fn output_is_trimmed() {
    let out = interpret_output(true, Some(0), b"  \t(1 2)\r\n\n".to_vec(), vec![]).unwrap();
    assert_eq!(out, "(1 2)");
}

#[test]
fn elisp_strings_escape_quotes_and_backslashes() {
    assert_eq!(elisp_string("plain"), "\"plain\"");
    assert_eq!(elisp_string("a\"b\\c"), "\"a\\\"b\\\\c\"");
    assert_eq!(elisp_string(""), "\"\"");
}

#[test]
fn expressions() {
    assert_eq!(list_buffers_expression(), "(mapcar #'buffer-name (buffer-list))");
    assert_eq!(
        cursor_position_expression(),
        "(list (buffer-file-name) (point) (line-number-at-pos) (current-column))"
    );
    assert_eq!(buffer_content_expression(None), "(buffer-string)");
    assert_eq!(
        buffer_content_expression(Some("*scratch*")),
        "(with-current-buffer \"*scratch*\" (buffer-string))"
    );
    assert_eq!(open_file_expression("/tmp/a \"b\".txt"), "(find-file \"/tmp/a \\\"b\\\".txt\")");
}

#[test]
fn emacs_replies() {
    assert_eq!(eval_reply(&Ok("3".to_string())), "3");
    assert_eq!(
        eval_reply(&Err(Error::Io("not found".to_string()))),
        "Error: IO error: not found"
    );
    assert_eq!(open_file_reply("/a.txt", &Ok("t".to_string())), "Opened /a.txt");
    assert_eq!(
        open_file_reply("/a.txt", &Err(Error::Encoding("bad".to_string()))),
        "Error: emacsclient output was not valid UTF-8: bad"
    );
}

/// How the Emacs Lisp reader reads a string literal: a backslash takes the
/// next character literally, and an unescaped quote ends the literal.
fn read_elisp_string(lit: &str) -> Option<String> {
    let mut chars = lit.chars();
    if chars.next() != Some('"') {
        return None;
    }
    let mut out = String::new();
    while let Some(c) = chars.next() {
        match c {
            '\\' => out.push(chars.next()?),
            '"' => return if chars.next().is_none() { Some(out) } else { None },
            other => out.push(other),
        }
    }
    None
}

#[test]
fn elisp_string_reads_back() {
    for s in ["", "plain", "a\"b", "back\\slash", "\")(kill-emacs)(\"", "ünïcode\n"] {
        assert_eq!(read_elisp_string(&elisp_string(s)).as_deref(), Some(s), "{s:?}");
    }
}

#[test]
fn default_client_uses_default_socket() {
    assert_eq!(EmacsClient::default().eval_args("(point)"), vec!["--eval", "(point)"]);
}
