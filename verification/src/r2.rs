//! Object storage (Cloudflare R2) naming: which bucket, which keys, which public links.
use vstd::prelude::*;

use crate::config::R2Config;
use crate::text::{str_concat, trim_end_by, trim_end_char};

verus! {

/// The bucket and optional public CDN domain that release files live under.
#[derive(Debug, Clone)]
pub struct R2Service {
    pub bucket: String,
    pub public_domain: Option<String>,
}

/// The public CDN link of an object: the domain without trailing slashes, `/`, the key.
pub open spec fn spec_public_url(domain: Seq<char>, key: Seq<char>) -> Seq<char> {
    trim_end_by(domain, |c: char| c == '/') + "/"@ + key
}

/// The R2 key of a release file: `releases/{release_id}/{filename}`.
pub open spec fn spec_release_object_key(release_id: Seq<char>, filename: Seq<char>) -> Seq<char> {
    "releases/"@ + release_id + "/"@ + filename
}

impl R2Service {
    /// Takes the bucket and public domain from configuration.
    pub fn new(config: &R2Config) -> (r: R2Service)
        ensures
            r.bucket@ == config.bucket_name@,
            r.public_domain.deep_view() == config.public_domain.deep_view(),
    {
        R2Service { bucket: config.bucket_name.clone(), public_domain: config.public_domain.clone() }
    }

    /// Returns a public CDN URL if a public domain is configured.
    pub fn public_url(&self, key: &str) -> (r: Option<String>)
        ensures
            r.deep_view() == match self.public_domain {
                Some(d) => Some(spec_public_url(d@, key@)),
                None => None,
            },
    {
        match &self.public_domain {
            Some(domain) => {
                let mut r = trim_end_char(domain.as_str(), '/');
                r.append("/");
                r.append(key);
                Some(r)
            },
            None => None,
        }
    }
}

/// The key under which a release file is stored.
pub fn release_object_key(release_id: &str, filename: &str) -> (r: String)
    ensures
        r@ == spec_release_object_key(release_id@, filename@),
{
    let mut r = str_concat("releases/", release_id);
    r.append("/");
    r.append(filename);
    r
}

} // verus!
