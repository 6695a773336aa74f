use mcp_servers::pdf::error::Error;
use mcp_servers::pdf::pdf_client::{
    build_open_args, build_open_at_text_args, is_absolute_path, judge_file_check, validate_page,
    validate_path_shape, FileCheck, SioyekClient,
};
use mcp_servers::pdf::pdf_server::{open_pdf_at_text_reply, open_pdf_reply};

#[test]
fn build_open_args_layout() {
    assert_eq!(
        build_open_args("/p.pdf", 42),
        vec!["--reuse-window", "--page", "42", "/p.pdf"]
    );
}

#[test]
fn build_open_at_text_args_without_page() {
    assert_eq!(
        build_open_at_text_args("/p.pdf", "Theorem 3.1", None),
        vec!["--reuse-window", "--focus-text", "Theorem 3.1", "/p.pdf"]
    );
}

#[test]
fn build_open_at_text_args_with_page() {
    assert_eq!(
        build_open_at_text_args("/p.pdf", "Theorem 3.1", Some(42)),
        vec![
            "--reuse-window",
            "--focus-text",
            "Theorem 3.1",
            "--focus-text-page",
            "42",
            "/p.pdf"
        ]
    );
}

#[test]
fn validate_page_rejects_zero() {
    assert!(matches!(
        validate_page(0),
        Err(Error::InvalidPage { page: 0 })
    ));
}

#[test]
fn validate_page_accepts_one_and_above() {
    assert!(validate_page(1).is_ok());
    assert!(validate_page(1_000_000).is_ok());
}

#[test]
fn validate_path_rejects_relative() {
    let err = validate_path_shape("relative.pdf").unwrap_err();
    assert!(matches!(err, Error::PathNotAbsolute { .. }));
}

#[test]
fn validate_path_rejects_missing_file() {
    let err = judge_file_check("/nonexistent/path/foo.pdf", FileCheck::NotFound).unwrap_err();
    assert!(matches!(err, Error::FileNotFound { .. }));
}

#[test]
fn open_rejects_relative_path() {
    let client = SioyekClient::new();
    let result = client.plan_open("relative.pdf", 1);
    assert!(result.is_err(), "expected error for relative path");
}

#[test]
fn open_rejects_missing_file() {
    let client = SioyekClient::new();
    let path = "/nonexistent/path/foo.pdf";
    let result = client
        .plan_open(path, 1)
        .and_then(|_| judge_file_check(path, FileCheck::NotFound));
    assert!(result.is_err(), "expected error for missing file");
}

#[test]
fn open_rejects_zero_page() {
    let client = SioyekClient::new();
    let result = client.plan_open("/etc/hostname", 0);
    assert!(result.is_err(), "expected error for page 0");
}

#[test]
fn open_plans_reader_arguments() {
    let client = SioyekClient::new();
    assert_eq!(
        client.plan_open("/tmp/a.pdf", 3).unwrap(),
        vec!["--reuse-window", "--page", "3", "/tmp/a.pdf"]
    );
    assert!(matches!(
        client.plan_open_at_text("/tmp/a.pdf", "x", Some(0)),
        Err(Error::InvalidPage { page: 0 })
    ));
    assert!(matches!(
        client.plan_open_at_text("a.pdf", "x", None),
        Err(Error::PathNotAbsolute { .. })
    ));
    assert_eq!(
        client.plan_open_at_text("/a.pdf", "x", None).unwrap(),
        vec!["--reuse-window", "--focus-text", "x", "/a.pdf"]
    );
}

#[test]
fn page_is_checked_before_path() {
    let client = SioyekClient::new();
    assert!(matches!(
        client.plan_open("relative.pdf", 0),
        Err(Error::InvalidPage { page: 0 })
    ));
}

#[test]
fn absolute_paths_start_at_root() {
    assert!(is_absolute_path("/"));
    assert!(is_absolute_path("/a/b.pdf"));
    assert!(!is_absolute_path(""));
    assert!(!is_absolute_path("./a.pdf"));
}

#[test]
fn file_check_outcomes() {
    assert!(judge_file_check("/a.pdf", FileCheck::Exists).is_ok());
    let err = judge_file_check("/a.pdf", FileCheck::Failed("denied".to_string())).unwrap_err();
    assert_eq!(err.message(), "IO error: denied");
}

#[test]
fn error_messages() {
    assert_eq!(
        Error::FileNotFound { path: "/x.pdf".to_string() }.message(),
        "PDF file not found: /x.pdf"
    );
    assert_eq!(
        Error::PathNotAbsolute { path: "x.pdf".to_string() }.message(),
        "path must be absolute: x.pdf"
    );
    assert_eq!(
        Error::InvalidPage { page: 0 }.message(),
        "invalid page number: 0 (must be >= 1)"
    );
    assert_eq!(
        Error::SioyekSpawn("no such file".to_string()).message(),
        "failed to spawn sioyek (is it installed and on PATH?): no such file"
    );
}

#[test]
fn pdf_replies() {
    assert_eq!(open_pdf_reply("/a.pdf", 7, &Ok(())), "Opened /a.pdf at page 7");
    assert_eq!(
        open_pdf_reply("/a.pdf", 0, &Err(Error::InvalidPage { page: 0 })),
        "Error: invalid page number: 0 (must be >= 1)"
    );
    assert_eq!(
        open_pdf_at_text_reply("/a.pdf", "Lemma \"2\"", Some(4), &Ok(())),
        "Opened /a.pdf at text \"Lemma \\\"2\\\"\" on page 4"
    );
    assert_eq!(
        open_pdf_at_text_reply("/a.pdf", "x", None, &Ok(())),
        "Opened /a.pdf at text \"x\""
    );
}
