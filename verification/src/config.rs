//! Application configuration: the values the rest of the library reads.
//!
//! Loading them from files and the environment happens outside the library;
//! here stand the types and the defaults that apply when a value is absent.
use vstd::prelude::*;

verus! {

/// Database connection settings.
#[derive(Debug, Clone)]
pub struct DatabaseConfig {
    /// PostgreSQL connection URL.
    pub url: String,
}

/// HTTP server binding settings.
#[derive(Debug, Clone)]
pub struct ServerConfig {
    /// Host address to bind to.
    pub host: String,
    /// Port to listen on.
    pub port: u16,
    /// Public base URL of this backend, used to build permanent links.
    pub public_url: Option<String>,
}

/// GitHub API configuration for fetching releases.
#[derive(Debug, Clone)]
pub struct GithubConfig {
    /// Repository owner (organization or user).
    pub owner: String,
    /// Repository name.
    pub repo: String,
    /// Optional GitHub personal access token for higher rate limits.
    pub token: Option<String>,
    /// Base URL for the GitHub API. Defaults to the public API.
    pub api_base: String,
}

/// The base URL of the public GitHub API.
pub open spec fn spec_default_github_api_base() -> Seq<char> {
    "https://api.github.com"@
}

/// The API base used when the configuration names none.
pub fn default_github_api_base() -> (r: String)
    ensures
        r@ == spec_default_github_api_base(),
{
    String::from_str("https://api.github.com")
}

/// Cloudflare R2 (S3-compatible) configuration.
#[derive(Debug, Clone)]
pub struct R2Config {
    /// R2 S3 endpoint URL.
    pub endpoint_url: String,
    /// R2 access key ID.
    pub access_key_id: String,
    /// R2 secret access key.
    pub secret_access_key: String,
    /// R2 bucket that stores release binaries.
    pub bucket_name: String,
    /// Optional public CDN domain for direct downloads.
    pub public_domain: Option<String>,
    /// S3 region identifier (R2 usually uses "auto").
    pub region: String,
}

/// Admin API security settings.
#[derive(Debug, Clone)]
pub struct AdminConfig {
    /// Bearer token required by admin endpoints.
    pub token: String,
}

/// SMTP settings for bug-report notification mail.
#[derive(Debug, Clone)]
pub struct SmtpConfig {
    /// SMTP relay host; no mail is sent when it is absent.
    pub host: Option<String>,
    /// SMTP port; 465 (implicit TLS) when absent.
    pub port: Option<u16>,
    /// Login name, used together with `password`.
    pub username: Option<String>,
    /// Login password, used together with `username`.
    pub password: Option<String>,
    /// Sender address; required when `host` is set.
    pub from: Option<String>,
    /// Address that receives bug-report mail.
    pub report_recipient: String,
}

/// Static documentation settings.
#[derive(Debug, Clone)]
pub struct DocsConfig {
    /// Directory containing pre-built Sphinx HTML docs.
    pub html_dir: String,
    /// Optional Git URL of the documentation repository. When set, the backend
    /// periodically clones the docs and rebuilds the local index.
    pub git_url: Option<String>,
    /// How often (in hours) to pull docs from GitHub. Defaults to 24.
    pub update_interval_hours: u64,
}

/// The docs refresh interval used when the configuration names none.
pub fn default_docs_update_interval_hours() -> (r: u64)
    ensures
        r == 24,
{
    24
}

impl DocsConfig {
    /// Seconds between two background pulls of the docs repository: the
    /// configured number of hours, at least one hour.
    pub fn sync_interval_secs(&self) -> (r: u64)
        requires
            self.update_interval_hours <= u64::MAX / 3600,
        ensures
            r == (if self.update_interval_hours < 1 { 1 } else { self.update_interval_hours }) * 3600,
    {
        let hours = if self.update_interval_hours < 1 { 1 } else { self.update_interval_hours };
        hours * 3600
    }
}

/// Top-level application configuration.
#[derive(Debug, Clone)]
pub struct AppConfig {
    pub database: DatabaseConfig,
    pub server: ServerConfig,
    pub github: GithubConfig,
    pub r2: R2Config,
    pub admin: AdminConfig,
    pub smtp: SmtpConfig,
    pub docs: DocsConfig,
}

} // verus!
