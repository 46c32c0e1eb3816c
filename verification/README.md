# Oak website backend

The backend of the Oak Video Editor website: release downloads mirrored from
GitHub into Cloudflare R2, an auto-update check, the documentation served from
pre-built Sphinx HTML, and bug reports with attachments and mail notification.

## Layout

- `src/` — the library, written in Verus. Every function states its behaviour
  in `requires`/`ensures`. The functions of the library are proved against
  their contracts; the few that call std or an outside crate (lower-casing,
  `String::push`, UTF-8 decoding, the `<title>` regex, HTML
  entity decoding, JSON parsing of a TOC, `Debug` text) are trusted
  wrappers, each marked `#[verifier::external_body]`, whose contracts say
  what that call returns.
  - `config`, `models`, `error` — configuration values, API shapes, and how
    errors become HTTP answers.
  - `auth` — the admin Bearer-token check.
  - `github`, `r2` — asset classification (platform, architecture, debug
    packages), GitHub endpoints, R2 keys and public links.
  - `releases` — which asset a download or update check leads to.
  - `sync`, `sync_run` — the release-sync status and one sync run as a state
    machine that hands out database and network work one action at a time.
  - `docs`, `docs_build`, `docs_api`, `docs_sync` — the documentation index,
    how a docs tree is read into it (versions, slugs, titles, TOC order), what
    the docs endpoints answer, and how the local tree follows the docs branch.
  - `bug_reports` — reading the submission form, validating it, storage keys,
    attachment links and the notification mail.
  - `text` — string operations with exact specifications.
- `app/` — the server around the library: HTTP routing (axum), the database
  (SeaORM), GitHub over HTTP, R2 over the S3 API, SMTP, the file system and
  Git. It reads requests and outside answers, asks the library what to do,
  and carries it out.
- `tests/` — tests of the library on concrete values.
