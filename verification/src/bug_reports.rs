//! The rules of public bug-report submission: field limits, what a form must
//! hold, the spam honeypot, attachment names and storage keys, and the
//! notification mail.
use vstd::prelude::*;

use crate::config::SmtpConfig;
use crate::error::AppError;
use crate::text::{
    chars_of, str_concat, has_prefix, owned, push_char, str_contains_char, str_eq, str_starts_with,
    str_views, trim, trim_end_by, trim_end_char, trimmed,
};

verus! {

pub const MAX_TITLE: usize = 1024;

pub const MAX_VERSION: usize = 256;

pub const MAX_CONTENT: usize = 65536;

pub const MAX_EMAIL: usize = 1024;

pub const MAX_FILE: usize = 10485760;

// ---------------------------------------------------------------------------
// Reading form fields
// ---------------------------------------------------------------------------

/// How a multipart field is read: as bounded text, as a bounded file, or not at all.
#[derive(Debug, Clone, Copy, PartialEq, Eq)]
pub enum FieldKind {
    Text(usize),
    File(usize),
    Ignored,
}

/// The kind of a form field and its size cap, by field name.
pub open spec fn spec_field_kind(name: Seq<char>) -> FieldKind {
    if name == "title"@ {
        FieldKind::Text(MAX_TITLE)
    } else if name == "version"@ {
        FieldKind::Text(MAX_VERSION)
    } else if name == "content"@ {
        FieldKind::Text(MAX_CONTENT)
    } else if name == "email"@ || name == "website"@ {
        FieldKind::Text(MAX_EMAIL)
    } else if name == "screenshot"@ || name == "log"@ {
        FieldKind::File(MAX_FILE)
    } else {
        FieldKind::Ignored
    }
}

/// How the form field called `name` is read.
pub fn field_kind(name: &str) -> (r: FieldKind)
    ensures
        r == spec_field_kind(name@),
{
    if str_eq(name, "title") {
        FieldKind::Text(MAX_TITLE)
    } else if str_eq(name, "version") {
        FieldKind::Text(MAX_VERSION)
    } else if str_eq(name, "content") {
        FieldKind::Text(MAX_CONTENT)
    } else if str_eq(name, "email") || str_eq(name, "website") {
        FieldKind::Text(MAX_EMAIL)
    } else if str_eq(name, "screenshot") || str_eq(name, "log") {
        FieldKind::File(MAX_FILE)
    } else {
        FieldKind::Ignored
    }
}

/// Appends one received chunk to a field's data, refusing to grow past `limit`.
pub fn append_limited(data: &mut Vec<u8>, chunk: &[u8], limit: usize) -> (r: Result<(), AppError>)
    requires
        old(data).len() <= limit,
    ensures
        old(data).len() + chunk@.len() > limit ==> (r matches Err(AppError::BadRequest(m)) && m@
            == "form field too large"@ && final(data)@ == old(data)@),
        old(data).len() + chunk@.len() <= limit ==> r is Ok && final(data)@ == old(data)@
            + chunk@,
{
    if chunk.len() > limit - data.len() {
        return Err(AppError::BadRequest(String::from_str("form field too large")));
    }
    data.extend_from_slice(chunk);
    Ok(())
}

/// `String::from_utf8`: the text the bytes encode, when they are valid UTF-8.
#[verifier::external_body]
fn string_from_utf8(value: Vec<u8>) -> (r: Option<String>)
    ensures
        r is Some <==> vstd::utf8::valid_utf8(value@),
        r matches Some(s) ==> s@ == vstd::utf8::decode_utf8(value@),
{
    String::from_utf8(value).ok()
}

/// Decodes a text field; form fields must be UTF-8.
pub fn read_text(value: Vec<u8>) -> (r: Result<String, AppError>)
    ensures
        vstd::utf8::valid_utf8(value@) ==> (r matches Ok(s) && s@ == vstd::utf8::decode_utf8(
            value@,
        )),
        !vstd::utf8::valid_utf8(value@) ==> (r matches Err(AppError::BadRequest(m)) && m@
            == "form fields must be UTF-8"@),
{
    match string_from_utf8(value) {
        Some(s) => Ok(s),
        None => Err(AppError::BadRequest(String::from_str("form fields must be UTF-8"))),
    }
}

// ---------------------------------------------------------------------------
// File names
// ---------------------------------------------------------------------------

/// Characters kept as they are in a stored file name.
pub open spec fn is_kept_filename_char(c: char) -> bool {
    ('a' <= c <= 'z') || ('A' <= c <= 'Z') || ('0' <= c <= '9') || c == '.' || c == '-' || c == '_'
}

/// A file name with every other character replaced by `_`, or `"file"` when empty.
pub open spec fn spec_sanitize_filename(name: Seq<char>) -> Seq<char> {
    if name.len() == 0 {
        "file"@
    } else {
        name.map_values(|c: char| if is_kept_filename_char(c) { c } else { '_' })
    }
}

/// Keeps a filename usable inside an R2 key and a download name.
pub fn sanitize_filename(name: &str) -> (r: String)
    ensures
        r@ == spec_sanitize_filename(name@),
{
    let cs = chars_of(name);
    if cs.len() == 0 {
        return String::from_str("file");
    }
    let mut r = String::new();
    let mut i: usize = 0;
    while i < cs.len()
        invariant
            i <= cs.len(),
            cs@ == name@,
            r@ == cs@.take(i as int).map_values(
                |c: char| if is_kept_filename_char(c) { c } else { '_' },
            ),
        decreases cs.len() - i,
    {
        let c = cs[i];
        let keep = ('a' <= c && c <= 'z') || ('A' <= c && c <= 'Z') || ('0' <= c && c <= '9') || c
            == '.' || c == '-' || c == '_';
        let mapped = if keep { c } else { '_' };
        push_char(&mut r, mapped);
        assert(cs@.take(i + 1) =~= cs@.take(i as int).push(c));
        assert(r@ =~= cs@.take(i + 1).map_values(
            |c: char| if is_kept_filename_char(c) { c } else { '_' },
        ));
        i = i + 1;
    }
    assert(cs@.take(i as int) =~= cs@);
    r
}

/// A sanitized file name is never empty and holds only ASCII letters and
/// digits, `.`, `-` and `_`, so it can stand in a storage key and a download name.
pub proof fn law_sanitized_name_is_safe(name: Seq<char>)
    ensures
        spec_sanitize_filename(name).len() > 0,
        forall|i: int|
            0 <= i < spec_sanitize_filename(name).len() ==> is_kept_filename_char(
                #[trigger] spec_sanitize_filename(name)[i],
            ),
{
    reveal_strlit("file");
}

/// Sanitizing a sanitized name changes nothing.
pub proof fn law_sanitize_is_idempotent(name: Seq<char>)
    ensures
        spec_sanitize_filename(spec_sanitize_filename(name)) == spec_sanitize_filename(name),
{
    reveal_strlit("file");
    let once = spec_sanitize_filename(name);
    law_sanitized_name_is_safe(name);
    assert(spec_sanitize_filename(once) =~= once);
}

// ---------------------------------------------------------------------------
// The form
// ---------------------------------------------------------------------------

/// An uploaded file kept for storage.
#[derive(Debug, Clone)]
pub struct Attachment {
    pub filename: String,
    pub data: Vec<u8>,
}

/// The fields of a bug-report submission, as read so far.
#[derive(Debug, Clone)]
pub struct BugReportForm {
    pub title: String,
    pub app_version: String,
    pub content: String,
    pub email: Option<String>,
    /// The hidden `website` field; people leave it empty, bots fill it.
    pub honeypot: String,
    pub screenshot: Option<Attachment>,
    pub log: Option<Attachment>,
}

/// Whether a file part is kept: parts without a file name carry no file, and
/// a screenshot must declare an image content type.
pub open spec fn spec_file_part_decision(
    name: Seq<char>,
    filename: Seq<char>,
    content_type: Option<Seq<char>>,
) -> Result<bool, ()> {
    if filename.len() == 0 {
        Ok(false)
    } else if name == "screenshot"@ && !(content_type matches Some(ct) && has_prefix(
        ct,
        "image/"@,
    )) {
        Err(())
    } else {
        Ok(true)
    }
}

/// A file part with no file name is skipped; a screenshot with a file name
/// is kept exactly when its content type starts with `image/` (any image
/// type), and refused otherwise; any other file part with a file name is kept.
pub proof fn law_file_part_rules(name: Seq<char>, filename: Seq<char>, content_type: Option<Seq<char>>)
    ensures
        filename.len() == 0 ==> spec_file_part_decision(name, filename, content_type) == Ok::<
            bool,
            (),
        >(false),
        filename.len() > 0 && name == "screenshot"@ ==> (spec_file_part_decision(
            name,
            filename,
            content_type,
        ) == Ok::<bool, ()>(true) <==> (content_type matches Some(ct) && ct.len() >= 6
            && ct.subrange(0, 6) == "image/"@)),
        filename.len() > 0 && name == "screenshot"@ && !(content_type matches Some(ct) && ct.len()
            >= 6 && ct.subrange(0, 6) == "image/"@) ==> spec_file_part_decision(
            name,
            filename,
            content_type,
        ) is Err,
        filename.len() > 0 && name != "screenshot"@ ==> spec_file_part_decision(
            name,
            filename,
            content_type,
        ) == Ok::<bool, ()>(true),
{
    reveal_strlit("image/");
}

/// Decides whether the file part `name` (with the given file name and content
/// type) is read: `Ok(false)` when no file was picked, `BadRequest` when a
/// screenshot is not an image.
pub fn file_part_decision(name: &str, filename: &str, content_type: Option<&str>) -> (r: Result<
    bool,
    AppError,
>)
    ensures
        match spec_file_part_decision(
            name@,
            filename@,
            match content_type {
                Some(ct) => Some(ct@),
                None => None,
            },
        ) {
            Ok(b) => r == Ok::<bool, AppError>(b),
            Err(_) => r matches Err(AppError::BadRequest(m)) && m@
                == "screenshot must be an image"@,
        },
{
    if filename.is_empty() {
        return Ok(false);
    }
    if str_eq(name, "screenshot") {
        let is_image = match content_type {
            Some(ct) => str_starts_with(ct, "image/"),
            None => false,
        };
        if !is_image {
            return Err(AppError::BadRequest(String::from_str("screenshot must be an image")));
        }
    }
    Ok(true)
}

impl BugReportForm {
    /// A form with nothing filled in.
    pub fn new() -> (r: BugReportForm)
        ensures
            r.title@.len() == 0,
            r.app_version@.len() == 0,
            r.content@.len() == 0,
            r.email is None,
            r.honeypot@.len() == 0,
            r.screenshot is None,
            r.log is None,
    {
        BugReportForm {
            title: String::new(),
            app_version: String::new(),
            content: String::new(),
            email: None,
            honeypot: String::new(),
            screenshot: None,
            log: None,
        }
    }

    /// Records a text field: its value, trimmed, replaces the field's earlier
    /// value; an empty e-mail leaves the e-mail as it was; other names are ignored.
    pub fn set_text_field(&mut self, name: &str, value: &str)
        ensures
            ({
                let v = trimmed(value@);
                let o = *old(self);
                let f = *final(self);
                &&& f.title@ == (if name@ == "title"@ {
                    v
                } else {
                    o.title@
                })
                &&& f.app_version@ == (if name@ == "version"@ {
                    v
                } else {
                    o.app_version@
                })
                &&& f.content@ == (if name@ == "content"@ {
                    v
                } else {
                    o.content@
                })
                &&& f.honeypot@ == (if name@ == "website"@ {
                    v
                } else {
                    o.honeypot@
                })
                &&& f.email.deep_view() == (if name@ == "email"@ && v.len() > 0 {
                    Some(v)
                } else {
                    o.email.deep_view()
                })
                &&& f.screenshot == o.screenshot
                &&& f.log == o.log
            }),
    {
        let v = trim(value);
        proof {
            reveal_strlit("title");
            reveal_strlit("version");
            reveal_strlit("content");
            reveal_strlit("email");
            reveal_strlit("website");
            let lits = seq!["title"@, "version"@, "content"@, "email"@, "website"@];
            assert forall|a: int, b: int| 0 <= a < b < 5 implies lits[a] != lits[b] by {
                if lits[a].len() == lits[b].len() {
                    assert(lits[a][0] != lits[b][0]);
                }
            }
        }
        if str_eq(name, "title") {
            self.title = v;
        } else if str_eq(name, "version") {
            self.app_version = v;
        } else if str_eq(name, "content") {
            self.content = v;
        } else if str_eq(name, "email") {
            if !v.as_str().is_empty() {
                self.email = Some(v);
            }
        } else if str_eq(name, "website") {
            self.honeypot = v;
        }
    }

    /// Records an uploaded file under its sanitized name; the part named
    /// `screenshot` fills the screenshot, any other file part the log.
    pub fn set_attachment(&mut self, name: &str, filename: &str, data: Vec<u8>)
        ensures
            ({
                let o = *old(self);
                let f = *final(self);
                &&& f.title == o.title
                &&& f.app_version == o.app_version
                &&& f.content == o.content
                &&& f.email == o.email
                &&& f.honeypot == o.honeypot
                &&& if name@ == "screenshot"@ {
                    f.log == o.log && (f.screenshot matches Some(a) && a.filename@
                        == spec_sanitize_filename(filename@) && a.data@ == data@)
                } else {
                    f.screenshot == o.screenshot && (f.log matches Some(a) && a.filename@
                        == spec_sanitize_filename(filename@) && a.data@ == data@)
                }
            }),
    {
        let attachment = Attachment { filename: sanitize_filename(filename), data };
        if str_eq(name, "screenshot") {
            self.screenshot = Some(attachment);
        } else {
            self.log = Some(attachment);
        }
    }
}

/// What a complete submission leads to.
#[derive(Debug, Clone, Copy, PartialEq, Eq)]
pub enum SubmitDecision {
    /// The honeypot was filled: answer as if stored, store nothing.
    FakeAccept,
    /// Store the report.
    Store,
}

/// Decides what becomes of a submitted form: a filled honeypot is accepted in
/// appearance only; otherwise title, version and content are required and an
/// e-mail, when given, must contain `@`.
pub fn validate_submission(form: &BugReportForm) -> (r: Result<SubmitDecision, AppError>)
    ensures
        form.honeypot@.len() > 0 ==> r == Ok::<SubmitDecision, AppError>(
            SubmitDecision::FakeAccept,
        ),
        form.honeypot@.len() == 0 && (form.title@.len() == 0 || form.app_version@.len() == 0
            || form.content@.len() == 0) ==> (r matches Err(AppError::BadRequest(m)) && m@
            == "title, version and content are required"@),
        form.honeypot@.len() == 0 && form.title@.len() > 0 && form.app_version@.len() > 0
            && form.content@.len() > 0 ==> match form.email {
            Some(e) if !e@.contains('@') => r matches Err(AppError::BadRequest(m)) && m@
                == "invalid email address"@,
            _ => r == Ok::<SubmitDecision, AppError>(SubmitDecision::Store),
        },
{
    if !form.honeypot.as_str().is_empty() {
        return Ok(SubmitDecision::FakeAccept);
    }
    if form.title.as_str().is_empty() || form.app_version.as_str().is_empty()
        || form.content.as_str().is_empty() {
        return Err(
            AppError::BadRequest(String::from_str("title, version and content are required")),
        );
    }
    match &form.email {
        Some(addr) => {
            if !str_contains_char(addr.as_str(), '@') {
                return Err(AppError::BadRequest(String::from_str("invalid email address")));
            }
        },
        None => {},
    }
    Ok(SubmitDecision::Store)
}

// ---------------------------------------------------------------------------
// Stored attachments
// ---------------------------------------------------------------------------

/// The R2 key of a report's attachment: `bug-reports/{id}/{kind}-{filename}`.
pub open spec fn spec_attachment_key(report_id: Seq<char>, kind: Seq<char>, filename: Seq<char>) -> Seq<
    char,
> {
    "bug-reports/"@ + report_id + "/"@ + kind + "-"@ + filename
}

/// The R2 key under which an attachment of the report is stored.
pub fn attachment_key(report_id: &str, kind: &str, filename: &str) -> (r: String)
    ensures
        r@ == spec_attachment_key(report_id@, kind@, filename@),
{
    let mut r = str_concat("bug-reports/", report_id);
    r.append("/");
    r.append(kind);
    r.append("-");
    r.append(filename);
    r
}

/// Which stored key the attachment link `kind` leads to.
pub fn stored_attachment_key(kind: &str, screenshot_key: Option<String>, log_key: Option<String>) -> (r:
    Result<String, AppError>)
    ensures
        ({
            let key = if kind@ == "screenshot"@ {
                screenshot_key.deep_view()
            } else if kind@ == "log"@ {
                log_key.deep_view()
            } else {
                None
            };
            match key {
                Some(k) => r matches Ok(s) && s@ == k,
                None => r matches Err(AppError::NotFound(m)) && m@ == "attachment not found"@,
            }
        }),
{
    let key = if str_eq(kind, "screenshot") {
        screenshot_key
    } else if str_eq(kind, "log") {
        log_key
    } else {
        None
    };
    match key {
        Some(k) => Ok(k),
        None => Err(AppError::NotFound(String::from_str("attachment not found"))),
    }
}

/// The permanent link to a report's attachment, under the public base URL.
pub open spec fn spec_attachment_link(base: Seq<char>, report_id: Seq<char>, kind: Seq<char>) -> Seq<
    char,
> {
    trim_end_by(base, |c: char| c == '/') + "/api/v1/bug-reports/"@ + report_id + "/files/"@ + kind
}

/// The links placed in the notification mail: one per stored attachment,
/// screenshot first, and none when no public URL is configured.
pub open spec fn spec_attachment_links(
    public_url: Option<Seq<char>>,
    report_id: Seq<char>,
    has_screenshot: bool,
    has_log: bool,
) -> Seq<Seq<char>> {
    match public_url {
        None => Seq::empty(),
        Some(base) => {
            let s = if has_screenshot {
                seq![spec_attachment_link(base, report_id, "screenshot"@)]
            } else {
                Seq::empty()
            };
            if has_log {
                s.push(spec_attachment_link(base, report_id, "log"@))
            } else {
                s
            }
        },
    }
}

fn attachment_link(base: &str, report_id: &str, kind: &str) -> (r: String)
    ensures
        r@ == spec_attachment_link(base@, report_id@, kind@),
{
    let mut r = trim_end_char(base, '/');
    r.append("/api/v1/bug-reports/");
    r.append(report_id);
    r.append("/files/");
    r.append(kind);
    r
}

/// Builds the attachment links of the notification mail.
pub fn attachment_links(
    public_url: Option<&str>,
    report_id: &str,
    has_screenshot: bool,
    has_log: bool,
) -> (r: Vec<String>)
    ensures
        str_views(r@) == spec_attachment_links(
            match public_url {
                Some(u) => Some(u@),
                None => None,
            },
            report_id@,
            has_screenshot,
            has_log,
        ),
{
    let mut links: Vec<String> = Vec::new();
    match public_url {
        None => {
            assert(str_views(links@) =~= Seq::<Seq<char>>::empty());
        },
        Some(base) => {
            if has_screenshot {
                links.push(attachment_link(base, report_id, "screenshot"));
            }
            let ghost before = links@;
            if has_log {
                links.push(attachment_link(base, report_id, "log"));
                assert(str_views(links@) =~= str_views(before).push(
                    spec_attachment_link(base@, report_id@, "log"@),
                ));
            }
            proof {
                if has_screenshot {
                    assert(str_views(before) =~= seq![
                        spec_attachment_link(base@, report_id@, "screenshot"@),
                    ]);
                } else {
                    assert(str_views(before) =~= Seq::<Seq<char>>::empty());
                }
            }
        },
    }
    links
}

// ---------------------------------------------------------------------------
// Notification mail
// ---------------------------------------------------------------------------

/// The transport settings of the notification mailer.
#[derive(Debug, Clone)]
pub struct MailerSettings {
    pub host: String,
    pub port: u16,
    /// TLS from the first byte (port 465) rather than STARTTLS.
    pub implicit_tls: bool,
    /// Login name and password, when both are configured.
    pub credentials: Option<(String, String)>,
    pub from: String,
    pub recipient: String,
}

/// Derives the mailer settings from the SMTP configuration: `None` when no host
/// is configured, a configuration error when a host is set without a sender.
pub fn mailer_settings(config: &SmtpConfig) -> (r: Result<Option<MailerSettings>, AppError>)
    ensures
        match (config.host, config.from) {
            (None, _) => r matches Ok(None),
            (Some(_), None) => r matches Err(AppError::Config(m)) && m@
                == "smtp.from is required when smtp.host is set"@,
            (Some(h), Some(f)) => r matches Ok(Some(s)) && {
                let port: u16 = match config.port {
                    Some(p) => p,
                    None => 465,
                };
                &&& s.host@ == h@
                &&& s.from@ == f@
                &&& s.recipient@ == config.report_recipient@
                &&& s.port == port
                &&& s.implicit_tls == (port == 465)
                &&& match (config.username, config.password) {
                    (Some(u), Some(p)) => s.credentials matches Some(c) && c.0@ == u@ && c.1@
                        == p@,
                    _ => s.credentials is None,
                }
            },
        },
{
    let host = match &config.host {
        Some(h) => h.clone(),
        None => return Ok(None),
    };
    let from = match &config.from {
        Some(f) => f.clone(),
        None => {
            return Err(
                AppError::Config(String::from_str("smtp.from is required when smtp.host is set")),
            )
        },
    };
    let port: u16 = match config.port {
        Some(p) => p,
        None => 465,
    };
    let credentials = match (&config.username, &config.password) {
        (Some(u), Some(p)) => Some((u.clone(), p.clone())),
        _ => None,
    };
    Ok(
        Some(
            MailerSettings {
                host,
                port,
                implicit_tls: port == 465,
                credentials,
                from,
                recipient: config.report_recipient.clone(),
            },
        ),
    )
}

/// The reporter's address as shown in the mail, or a placeholder.
pub open spec fn shown_email(email: Option<Seq<char>>) -> Seq<char> {
    match email {
        Some(e) if e.len() > 0 => e,
        _ => "(not provided)"@,
    }
}

/// Each link on a line of its own.
pub open spec fn link_lines(links: Seq<Seq<char>>) -> Seq<char>
    decreases links.len(),
{
    if links.len() == 0 {
        Seq::empty()
    } else {
        link_lines(links.drop_last()) + links.last() + "\n"@
    }
}

/// The body of the notification mail for a stored report.
pub open spec fn spec_mail_body(
    title: Seq<char>,
    app_version: Seq<char>,
    email: Option<Seq<char>>,
    submitted: Seq<char>,
    content: Seq<char>,
    links: Seq<Seq<char>>,
) -> Seq<char> {
    let head = "New bug report\n\nTitle: "@ + title + "\nVersion: "@ + app_version + "\nEmail: "@
        + shown_email(email) + "\nSubmitted: "@ + submitted + "\n\n"@ + content + "\n"@;
    if links.len() == 0 {
        head
    } else {
        head + "\nAttachments (permanent links):\n"@ + link_lines(links)
    }
}

/// Writes the notification mail's body; `submitted` is the report's creation time as text.
pub fn mail_body(
    title: &str,
    app_version: &str,
    email: Option<&str>,
    submitted: &str,
    content: &str,
    links: &Vec<String>,
) -> (r: String)
    ensures
        r@ == spec_mail_body(
            title@,
            app_version@,
            match email {
                Some(e) => Some(e@),
                None => None,
            },
            submitted@,
            content@,
            str_views(links@),
        ),
{
    let mut body = str_concat("New bug report\n\nTitle: ", title);
    body.append("\nVersion: ");
    body.append(app_version);
    body.append("\nEmail: ");
    match email {
        Some(e) => {
            if e.is_empty() {
                body.append("(not provided)");
            } else {
                body.append(e);
            }
        },
        None => body.append("(not provided)"),
    }
    body.append("\nSubmitted: ");
    body.append(submitted);
    body.append("\n\n");
    body.append(content);
    body.append("\n");
    let ghost head = body@;
    if links.len() > 0 {
        body.append("\nAttachments (permanent links):\n");
        let ghost lv = str_views(links@);
        let ghost start = body@;
        let mut i: usize = 0;
        assert(lv.take(0) =~= Seq::<Seq<char>>::empty());
        assert(start =~= start + link_lines(lv.take(0)));
        while i < links.len()
            invariant
                i <= links.len(),
                lv == str_views(links@),
                body@ == start + link_lines(lv.take(i as int)),
            decreases links.len() - i,
        {
            body.append(links[i].as_str());
            body.append("\n");
            assert(lv.take(i + 1).drop_last() =~= lv.take(i as int));
            assert(body@ =~= start + link_lines(lv.take(i + 1)));
            i = i + 1;
        }
        assert(lv.take(i as int) =~= lv);
    }
    body
}

/// The subject of the notification mail.
pub fn mail_subject(title: &str) -> (r: String)
    ensures
        r@ == "[Oak Bug Report] "@ + title@,
{
    str_concat("[Oak Bug Report] ", title)
}

/// The Reply-To candidate of the mail: the reporter's address when it is not empty.
pub fn reply_to_candidate(email: Option<&str>) -> (r: Option<String>)
    ensures
        r.deep_view() == match email {
            Some(e) if e@.len() > 0 => Some(e@),
            _ => None,
        },
{
    match email {
        Some(e) => if e.is_empty() {
            None
        } else {
            Some(owned(e))
        },
        None => None,
    }
}

} // verus!
