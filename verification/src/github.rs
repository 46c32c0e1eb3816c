//! GitHub release data and the rules that classify release assets.
use vstd::prelude::*;

use crate::config::GithubConfig;
use crate::text::{
    chars_of, occurs_at, str_concat, has_substring, has_suffix, lowercase, owned, str_contains, str_ends_with,
    to_lowercase, trim, trimmed, white_space, lemma_trimmed_empty_iff_white_space, is_ascii_text, ascii_lowercase,
    lemma_ascii_lowercase_idempotent,
};

verus! {

/// A release asset returned by the GitHub API.
#[derive(Debug, Clone)]
pub struct GithubAsset {
    pub id: u64,
    pub name: String,
    pub size: i64,
    pub browser_download_url: String,
}

/// Where and how the GitHub REST API is reached for the configured repository.
#[derive(Debug, Clone)]
pub struct GithubClient {
    pub owner: String,
    pub repo: String,
    /// The access token; never blank.
    pub token: Option<String>,
    pub api_base: String,
}

/// A configured token, kept only when it holds something besides white space.
pub open spec fn normalized_token(token: Option<Seq<char>>) -> Option<Seq<char>> {
    match token {
        Some(t) => if trimmed(t).len() == 0 { None } else { Some(t) },
        None => None,
    }
}

/// A configured token counts as none exactly when it is empty or made only
/// of white space; any other token is kept as it is.
pub proof fn law_blank_token_is_none(t: Seq<char>)
    ensures
        normalized_token(Some(t)) is None <==> (forall|i: int|
            0 <= i < t.len() ==> white_space(#[trigger] t[i])),
        normalized_token(Some(t)) is Some ==> normalized_token(Some(t)) == Some(t),
{
    lemma_trimmed_empty_iff_white_space(t);
}

/// The User-Agent sent with every GitHub request.
pub open spec fn spec_user_agent() -> Seq<char> {
    "oak-website-backend"@
}

impl GithubClient {
    /// Builds the client settings from configuration; a blank token counts as none.
    pub fn new(config: &GithubConfig) -> (r: Self)
        ensures
            r.owner@ == config.owner@,
            r.repo@ == config.repo@,
            r.api_base@ == config.api_base@,
            r.token.deep_view() == normalized_token(config.token.deep_view()),
    {
        let token = match &config.token {
            Some(t) => {
                let rest = trim(t.as_str());
                if rest.as_str().is_empty() {
                    None
                } else {
                    Some(owned(t.as_str()))
                }
            },
            None => None,
        };
        GithubClient {
            owner: owned(config.owner.as_str()),
            repo: owned(config.repo.as_str()),
            token,
            api_base: owned(config.api_base.as_str()),
        }
    }

    /// The endpoint that lists the repository's releases.
    pub fn releases_url(&self) -> (r: String)
        ensures
            r@ == self.api_base@ + "/repos/"@ + self.owner@ + "/"@ + self.repo@ + "/releases"@,
    {
        let mut r = str_concat(self.api_base.as_str(), "/repos/");
        r.append(self.owner.as_str());
        r.append("/");
        r.append(self.repo.as_str());
        r.append("/releases");
        r
    }

    /// The `Authorization` header value, present exactly when a token is configured.
    pub fn authorization(&self) -> (r: Option<String>)
        ensures
            r.deep_view() == match self.token {
                Some(t) => Some("Bearer "@ + t@),
                None => None::<Seq<char>>,
            },
    {
        match &self.token {
            Some(t) => Some(str_concat("Bearer ", t.as_str())),
            None => None,
        }
    }

    /// The User-Agent sent with every request.
    pub fn user_agent() -> (r: String)
        ensures
            r@ == spec_user_agent(),
    {
        String::from_str("oak-website-backend")
    }
}

/// The platform named by a lower-cased asset file name.
pub open spec fn platform_of(lower: Seq<char>) -> Seq<char> {
    if has_suffix(lower, ".exe"@) || has_substring(lower, "win"@) || has_substring(
        lower,
        "windows"@,
    ) {
        "windows"@
    } else if has_suffix(lower, ".dmg"@) || has_substring(lower, "macos"@) || has_substring(
        lower,
        "darwin"@,
    ) || has_substring(lower, "mac"@) {
        "macos"@
    } else if has_substring(lower, "appimage"@) || has_substring(lower, "linux"@) || has_suffix(
        lower,
        ".tar.gz"@,
    ) || has_suffix(lower, ".deb"@) || has_suffix(lower, ".rpm"@) || has_substring(
        lower,
        "pkg.tar"@,
    ) {
        "linux"@
    } else {
        "unknown"@
    }
}

/// The CPU architecture named by a lower-cased asset file name, if any.
pub open spec fn arch_of(lower: Seq<char>) -> Option<Seq<char>> {
    if has_substring(lower, "aarch64"@) || has_substring(lower, "arm64"@) {
        Some("arm64"@)
    } else if has_substring(lower, "x86_64"@) || has_substring(lower, "amd64"@) || has_substring(
        lower,
        "x64"@,
    ) {
        Some("x86_64"@)
    } else {
        None
    }
}

/// Whether a lower-cased file name is a debug-symbol package.
pub open spec fn names_debug_package(lower: Seq<char>) -> bool {
    has_substring(lower, "-debug-"@) || has_suffix(lower, ".debug"@) || has_substring(
        lower,
        ".symbols."@,
    )
}

/// The values classification gives, and the markers that decide them: a
/// name ending in `.exe` or holding `win` is Windows (this includes names
/// holding `darwin`, since the Windows markers are tested first); `aarch64`
/// or `arm64` is arm64.
pub proof fn law_platform_and_arch_values(lower: Seq<char>)
    ensures
        platform_of(lower) == "windows"@ || platform_of(lower) == "macos"@ || platform_of(lower)
            == "linux"@ || platform_of(lower) == "unknown"@,
        arch_of(lower) is None || arch_of(lower) == Some("arm64"@) || arch_of(lower) == Some(
            "x86_64"@,
        ),
        has_suffix(lower, ".exe"@) ==> platform_of(lower) == "windows"@,
        has_substring(lower, "aarch64"@) || has_substring(lower, "arm64"@) ==> arch_of(lower)
            == Some("arm64"@),
        has_substring(lower, "win"@) ==> platform_of(lower) == "windows"@,
        has_substring(lower, "darwin"@) ==> platform_of(lower) == "windows"@,
{
    if has_substring(lower, "darwin"@) {
        reveal_strlit("darwin");
        reveal_strlit("win");
        let i = choose|i: int| occurs_at(lower, "darwin"@, i);
        let d = lower.subrange(i, i + 6);
        assert(d == "darwin"@);
        assert(lower.subrange(i + 3, i + 6) =~= d.subrange(3, 6));
        assert(d.subrange(3, 6) =~= "win"@);
        assert(occurs_at(lower, "win"@, i + 3));
    }
}

/// How a lower-cased file name's platform follows from its markers: the
/// Windows markers (`.exe` suffix, `win`) come first; without them a disk
/// image (`.dmg`) or a name holding `mac` is macOS; without those, a Linux
/// package marker (`appimage`, `linux`, `pkg.tar`, or a `.tar.gz`, `.deb` or
/// `.rpm` suffix) is Linux; a name with none of these is of unknown platform.
pub proof fn law_platform_markers(lower: Seq<char>)
    ensures
        has_suffix(lower, ".exe"@) || has_substring(lower, "win"@) ==> platform_of(lower)
            == "windows"@,
        !has_suffix(lower, ".exe"@) && !has_substring(lower, "win"@) && (has_suffix(lower, ".dmg"@)
            || has_substring(lower, "mac"@)) ==> platform_of(lower) == "macos"@,
        !has_suffix(lower, ".exe"@) && !has_substring(lower, "win"@) && !has_suffix(lower, ".dmg"@)
            && !has_substring(lower, "mac"@) && (has_substring(lower, "appimage"@) || has_substring(
            lower,
            "linux"@,
        ) || has_substring(lower, "pkg.tar"@) || has_suffix(lower, ".tar.gz"@) || has_suffix(
            lower,
            ".deb"@,
        ) || has_suffix(lower, ".rpm"@)) ==> platform_of(lower) == "linux"@,
        !has_suffix(lower, ".exe"@) && !has_substring(lower, "win"@) && !has_suffix(lower, ".dmg"@)
            && !has_substring(lower, "mac"@) && !has_substring(lower, "appimage"@)
            && !has_substring(lower, "linux"@) && !has_substring(lower, "pkg.tar"@) && !has_suffix(
            lower,
            ".tar.gz"@,
        ) && !has_suffix(lower, ".deb"@) && !has_suffix(lower, ".rpm"@) ==> platform_of(lower)
            == "unknown"@,
{
    reveal_strlit("windows");
    reveal_strlit("win");
    reveal_strlit("macos");
    reveal_strlit("mac");
    reveal_strlit("darwin");
    assert("windows"@.subrange(0, 3) =~= "win"@);
    assert("macos"@.subrange(0, 3) =~= "mac"@);
    assert("darwin"@.subrange(3, 6) =~= "win"@);
    lemma_substring_within(lower, "windows"@, "win"@, 0);
    lemma_substring_within(lower, "macos"@, "mac"@, 0);
    lemma_substring_within(lower, "darwin"@, "win"@, 3);
}

/// How a lower-cased file name's architecture follows from its markers:
/// `aarch64` or `arm64` is arm64; otherwise `x86_64`, `amd64` or `x64` is
/// x86_64; a name with none of these names no architecture.
pub proof fn law_arch_markers(lower: Seq<char>)
    ensures
        has_substring(lower, "aarch64"@) || has_substring(lower, "arm64"@) ==> arch_of(lower)
            == Some("arm64"@),
        !has_substring(lower, "aarch64"@) && !has_substring(lower, "arm64"@) && (has_substring(
            lower,
            "x86_64"@,
        ) || has_substring(lower, "amd64"@) || has_substring(lower, "x64"@)) ==> arch_of(lower)
            == Some("x86_64"@),
        !has_substring(lower, "aarch64"@) && !has_substring(lower, "arm64"@) && !has_substring(
            lower,
            "x86_64"@,
        ) && !has_substring(lower, "amd64"@) && !has_substring(lower, "x64"@) ==> arch_of(lower)
            is None,
{
}

/// A lower-cased file name is a debug-symbol package exactly when it holds
/// `-debug-` or `.symbols.` or ends in `.debug`.
pub proof fn law_debug_markers(lower: Seq<char>)
    ensures
        names_debug_package(lower) <==> (has_substring(lower, "-debug-"@) || has_substring(
            lower,
            ".symbols."@,
        ) || has_suffix(lower, ".debug"@)),
{
}

/// When `big` holds `small` at offset `off`, a text holding `big` holds `small`.
proof fn lemma_substring_within(s: Seq<char>, big: Seq<char>, small: Seq<char>, off: int)
    requires
        0 <= off,
        off + small.len() <= big.len(),
        big.subrange(off, off + small.len()) == small,
    ensures
        has_substring(s, big) ==> has_substring(s, small),
{
    if has_substring(s, big) {
        let i = choose|i: int| occurs_at(s, big, i);
        assert(s.subrange(i + off, i + off + small.len()) =~= big.subrange(off, off + small.len()));
        assert(occurs_at(s, small, i + off));
    }
}

/// Classification ignores letter case: an ASCII file name is classified as
/// its lower-cased form is, and as any ASCII name that differs from it only
/// in the case of its letters.
pub proof fn law_classification_ignores_ascii_case(f: Seq<char>, g: Seq<char>)
    requires
        is_ascii_text(f),
        is_ascii_text(g),
        ascii_lowercase(f) == ascii_lowercase(g),
    ensures
        platform_of(lowercase(f)) == platform_of(lowercase(g)),
        arch_of(lowercase(f)) == arch_of(lowercase(g)),
        names_debug_package(lowercase(f)) == names_debug_package(lowercase(g)),
        platform_of(lowercase(lowercase(f))) == platform_of(lowercase(f)),
        arch_of(lowercase(lowercase(f))) == arch_of(lowercase(f)),
        names_debug_package(lowercase(lowercase(f))) == names_debug_package(lowercase(f)),
{
    lemma_ascii_lowercase_idempotent(f);
}

/// Platform and architecture of an asset, given its lower-cased file name.
pub fn classify_lowercase_name(lower: &str) -> (r: (String, Option<String>))
    ensures
        r.0@ == platform_of(lower@),
        r.1.deep_view() == arch_of(lower@),
{
    let platform = if str_ends_with(lower, ".exe") || str_contains(lower, "win") || str_contains(
        lower,
        "windows",
    ) {
        String::from_str("windows")
    } else if str_ends_with(lower, ".dmg") || str_contains(lower, "macos") || str_contains(
        lower,
        "darwin",
    ) || str_contains(lower, "mac") {
        String::from_str("macos")
    } else if str_contains(lower, "appimage") || str_contains(lower, "linux") || str_ends_with(
        lower,
        ".tar.gz",
    ) || str_ends_with(lower, ".deb") || str_ends_with(lower, ".rpm") || str_contains(
        lower,
        "pkg.tar",
    ) {
        String::from_str("linux")
    } else {
        String::from_str("unknown")
    };
    let arch = if str_contains(lower, "aarch64") || str_contains(lower, "arm64") {
        Some(String::from_str("arm64"))
    } else if str_contains(lower, "x86_64") || str_contains(lower, "amd64") || str_contains(
        lower,
        "x64",
    ) {
        Some(String::from_str("x86_64"))
    } else {
        None
    };
    (platform, arch)
}

/// Infers the target platform and architecture from an asset filename.
pub fn infer_platform_arch(filename: &str) -> (r: (String, Option<String>))
    ensures
        r.0@ == platform_of(lowercase(filename@)),
        r.1.deep_view() == arch_of(lowercase(filename@)),
{
    let lower = to_lowercase(filename);
    classify_lowercase_name(lower.as_str())
}

/// Whether a lower-cased file name is a debug-symbol package.
pub fn is_debug_lowercase_name(lower: &str) -> (r: bool)
    ensures
        r == names_debug_package(lower@),
{
    str_contains(lower, "-debug-") || str_ends_with(lower, ".debug") || str_contains(
        lower,
        ".symbols.",
    )
}

/// Returns true for debug symbol packages that should not be distributed,
/// e.g. Arch `-debug-<ver>.pkg.tar.zst` files published alongside releases.
pub fn is_debug_package(filename: &str) -> (r: bool)
    ensures
        r == names_debug_package(lowercase(filename@)),
{
    let lower = to_lowercase(filename);
    is_debug_lowercase_name(lower.as_str())
}

} // verus!
