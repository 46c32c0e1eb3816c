use oak_website_backend::bug_reports::{
    append_limited, attachment_key, attachment_links, field_kind, file_part_decision,
    mail_body, mail_subject, mailer_settings, read_text, reply_to_candidate, sanitize_filename,
    stored_attachment_key, validate_submission, BugReportForm, FieldKind, SubmitDecision,
    MAX_CONTENT, MAX_EMAIL, MAX_FILE, MAX_TITLE, MAX_VERSION,
};
use oak_website_backend::config::SmtpConfig;
use oak_website_backend::error::AppError;

fn form(fields: &[(&str, &str)]) -> BugReportForm {
    let mut f = BugReportForm::new();
    for (name, value) in fields {
        f.set_text_field(name, value);
    }
    f
}

fn bad_request(m: &str) -> AppError {
    AppError::BadRequest(m.to_string())
}

#[test]
fn submit_requires_title_version_and_content() {
    let f = form(&[("title", "crash on export")]);
    let err = validate_submission(&f).unwrap_err();
    assert_eq!(err.status_code(), 400);
    assert_eq!(err, bad_request("title, version and content are required"));
}

#[test]
fn submit_stores_report_without_attachments() {
    let f = form(&[
        ("title", "crash on export"),
        ("version", "v0.4.2-alpha"),
        ("content", "steps to reproduce: ..."),
        ("email", "reporter@example.com"),
    ]);
    assert_eq!(validate_submission(&f), Ok(SubmitDecision::Store));
    assert_eq!(f.title, "crash on export");
    assert_eq!(f.app_version, "v0.4.2-alpha");
    assert_eq!(f.email.as_deref(), Some("reporter@example.com"));
    assert!(f.screenshot.is_none());
    assert!(f.log.is_none());
}

#[test]
fn honeypot_submission_fakes_success_and_stores_nothing() {
    let f = form(&[
        ("title", "spam"),
        ("version", "v1"),
        ("content", "spam"),
        ("website", "https://spam.example.com"),
    ]);
    assert_eq!(validate_submission(&f), Ok(SubmitDecision::FakeAccept));
}

#[test]
fn honeypot_wins_over_missing_fields() {
    let f = form(&[("website", "x")]);
    assert_eq!(validate_submission(&f), Ok(SubmitDecision::FakeAccept));
}

#[test]
fn non_image_screenshot_is_rejected() {
    let err = file_part_decision("screenshot", "evil.txt", Some("text/plain")).unwrap_err();
    assert_eq!(err.status_code(), 400);
    assert_eq!(err, bad_request("screenshot must be an image"));
    assert!(file_part_decision("screenshot", "evil.txt", None).is_err());
}

#[test]
fn file_parts_without_file_name_are_skipped() {
    assert_eq!(file_part_decision("screenshot", "", Some("text/plain")), Ok(false));
    assert_eq!(file_part_decision("screenshot", "shot.png", Some("image/png")), Ok(true));
    assert_eq!(file_part_decision("log", "app.log", Some("text/plain")), Ok(true));
    assert_eq!(file_part_decision("log", "app.log", None), Ok(true));
}

#[test]
fn text_fields_are_trimmed_and_empty_email_ignored() {
    let mut f = form(&[("title", "  spaced  "), ("email", "a@b.c")]);
    assert_eq!(f.title, "spaced");
    f.set_text_field("email", "   ");
    assert_eq!(f.email.as_deref(), Some("a@b.c"));
    f.set_text_field("unknown", "value");
    assert_eq!(f.title, "spaced");
}

#[test]
fn invalid_email_is_rejected() {
    let f = form(&[
        ("title", "t"),
        ("version", "v"),
        ("content", "c"),
        ("email", "not-an-address"),
    ]);
    assert_eq!(validate_submission(&f), Err(bad_request("invalid email address")));
}

#[test]
fn attachments_are_stored_under_sanitized_names() {
    let mut f = BugReportForm::new();
    f.set_attachment("screenshot", "my shot!.png", vec![1, 2, 3]);
    f.set_attachment("log", "", vec![4]);
    let shot = f.screenshot.as_ref().unwrap();
    assert_eq!(shot.filename, "my_shot_.png");
    assert_eq!(shot.data, vec![1, 2, 3]);
    let log = f.log.as_ref().unwrap();
    assert_eq!(log.filename, "file");
    assert_eq!(log.data, vec![4]);
}

#[test]
fn sanitize_filename_replaces_unsafe_characters() {
    assert_eq!(sanitize_filename("shot.png"), "shot.png");
    assert_eq!(sanitize_filename("../etc/passwd"), ".._etc_passwd");
    assert_eq!(sanitize_filename("日本.txt"), "__.txt");
    assert_eq!(sanitize_filename(""), "file");
    let once = sanitize_filename("a b/c");
    assert_eq!(sanitize_filename(&once), once);
}

#[test]
fn field_kinds_and_limits() {
    assert_eq!(field_kind("title"), FieldKind::Text(MAX_TITLE));
    assert_eq!(field_kind("version"), FieldKind::Text(MAX_VERSION));
    assert_eq!(field_kind("content"), FieldKind::Text(MAX_CONTENT));
    assert_eq!(field_kind("email"), FieldKind::Text(MAX_EMAIL));
    assert_eq!(field_kind("website"), FieldKind::Text(MAX_EMAIL));
    assert_eq!(field_kind("screenshot"), FieldKind::File(MAX_FILE));
    assert_eq!(field_kind("log"), FieldKind::File(MAX_FILE));
    assert_eq!(field_kind("other"), FieldKind::Ignored);
    assert_eq!(MAX_FILE, 10 * 1024 * 1024);
}

#[test]
fn append_limited_refuses_oversized_fields() {
    let mut data = vec![1u8, 2];
    assert_eq!(append_limited(&mut data, &[3, 4], 4), Ok(()));
    assert_eq!(data, vec![1, 2, 3, 4]);
    assert_eq!(append_limited(&mut data, &[5], 4), Err(bad_request("form field too large")));
    assert_eq!(data, vec![1, 2, 3, 4]);
}

#[test]
fn read_text_requires_utf8() {
    assert_eq!(read_text("héllo".as_bytes().to_vec()), Ok("héllo".to_string()));
    assert_eq!(read_text(vec![0xff, 0xfe]), Err(bad_request("form fields must be UTF-8")));
}

#[test]
fn attachment_keys_and_links() {
    assert_eq!(
        attachment_key("abc", "screenshot", "shot.png"),
        "bug-reports/abc/screenshot-shot.png"
    );
    assert_eq!(
        stored_attachment_key("screenshot", Some("k1".to_string()), Some("k2".to_string())),
        Ok("k1".to_string())
    );
    assert_eq!(stored_attachment_key("log", None, Some("k2".to_string())), Ok("k2".to_string()));
    assert_eq!(
        stored_attachment_key("log", Some("k1".to_string()), None),
        Err(AppError::NotFound("attachment not found".to_string()))
    );
    assert!(stored_attachment_key("other", Some("k".to_string()), Some("k".to_string())).is_err());

    assert_eq!(
        attachment_links(Some("https://oak.example.com/"), "id1", true, true),
        vec![
            "https://oak.example.com/api/v1/bug-reports/id1/files/screenshot".to_string(),
            "https://oak.example.com/api/v1/bug-reports/id1/files/log".to_string(),
        ]
    );
    assert_eq!(
        attachment_links(Some("https://oak.example.com"), "id1", false, true),
        vec!["https://oak.example.com/api/v1/bug-reports/id1/files/log".to_string()]
    );
    assert!(attachment_links(None, "id1", true, true).is_empty());
}

fn smtp(host: Option<&str>, port: Option<u16>, user: Option<&str>, from: Option<&str>) -> SmtpConfig {
    SmtpConfig {
        host: host.map(|s| s.to_string()),
        port,
        username: user.map(|s| s.to_string()),
        password: user.map(|_| "pw".to_string()),
        from: from.map(|s| s.to_string()),
        report_recipient: "bugs@example.com".to_string(),
    }
}

#[test]
fn mailer_settings_follow_smtp_config() {
    assert!(mailer_settings(&smtp(None, None, None, Some("x@y"))).unwrap().is_none());
    assert_eq!(
        mailer_settings(&smtp(Some("smtp.example.com"), None, None, None)).unwrap_err(),
        AppError::Config("smtp.from is required when smtp.host is set".to_string())
    );
    let s = mailer_settings(&smtp(Some("smtp.example.com"), None, Some("u"), Some("me@x")))
        .unwrap()
        .unwrap();
    assert_eq!(s.host, "smtp.example.com");
    assert_eq!(s.port, 465);
    assert!(s.implicit_tls);
    assert_eq!(s.credentials, Some(("u".to_string(), "pw".to_string())));
    assert_eq!(s.from, "me@x");
    assert_eq!(s.recipient, "bugs@example.com");
    let s = mailer_settings(&smtp(Some("h"), Some(587), None, Some("me@x"))).unwrap().unwrap();
    assert_eq!(s.port, 587);
    assert!(!s.implicit_tls);
    assert!(s.credentials.is_none());
}

#[test]
fn mail_body_and_subject() {
    assert_eq!(mail_subject("crash"), "[Oak Bug Report] crash");
    let body = mail_body("crash", "v1", None, "2024-01-01 00:00:00 UTC", "steps", &vec![]);
    assert_eq!(
        body,
        "New bug report\n\nTitle: crash\nVersion: v1\nEmail: (not provided)\nSubmitted: 2024-01-01 00:00:00 UTC\n\nsteps\n"
    );
    let links = vec!["L1".to_string(), "L2".to_string()];
    let body = mail_body("t", "v", Some("a@b"), "now", "c", &links);
    assert_eq!(
        body,
        "New bug report\n\nTitle: t\nVersion: v\nEmail: a@b\nSubmitted: now\n\nc\n\nAttachments (permanent links):\nL1\nL2\n"
    );
    assert_eq!(reply_to_candidate(Some("a@b")), Some("a@b".to_string()));
    assert_eq!(reply_to_candidate(Some("")), None);
    assert_eq!(reply_to_candidate(None), None);
}
