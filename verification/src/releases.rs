//! Which release file a download or an update check leads to.
use vstd::prelude::*;

use crate::error::AppError;
use crate::text::{str_concat, owned, str_eq};

verus! {

/// What the download rules read of one stored asset of a release.
#[derive(Debug, Clone)]
pub struct AssetChoice {
    /// The asset's id, as text.
    pub id: String,
    pub platform: String,
    pub arch: Option<String>,
    pub sync_status: String,
    pub r2_key: Option<String>,
}

/// The asset is for `platform` and, when an architecture is asked for, for that one.
pub open spec fn asset_fits(a: AssetChoice, platform: Seq<char>, arch: Option<Seq<char>>) -> bool {
    a.platform@ == platform && match arch {
        Some(w) => a.arch.deep_view() == Some(w),
        None => true,
    }
}

/// The asset has been copied to storage and can be handed out.
pub open spec fn asset_ready(a: AssetChoice) -> bool {
    a.sync_status@ == "ready"@ && a.r2_key is Some
}

/// The first asset that fits the platform and architecture.
pub open spec fn first_fit(assets: Seq<AssetChoice>, platform: Seq<char>, arch: Option<Seq<char>>) -> Option<
    int,
>
    decreases assets.len(),
{
    if assets.len() == 0 {
        None
    } else if asset_fits(assets[0], platform, arch) {
        Some(0)
    } else {
        match first_fit(assets.drop_first(), platform, arch) {
            Some(i) => Some(i + 1),
            None => None,
        }
    }
}

/// The first asset that fits the platform and architecture and is ready.
pub open spec fn first_ready_fit(
    assets: Seq<AssetChoice>,
    platform: Seq<char>,
    arch: Option<Seq<char>>,
) -> Option<int>
    decreases assets.len(),
{
    if assets.len() == 0 {
        None
    } else if asset_fits(assets[0], platform, arch) && asset_ready(assets[0]) {
        Some(0)
    } else {
        match first_ready_fit(assets.drop_first(), platform, arch) {
            Some(i) => Some(i + 1),
            None => None,
        }
    }
}

/// The first asset with the given id.
pub open spec fn first_with_id(assets: Seq<AssetChoice>, id: Seq<char>) -> Option<int>
    decreases assets.len(),
{
    if assets.len() == 0 {
        None
    } else if assets[0].id@ == id {
        Some(0)
    } else {
        match first_with_id(assets.drop_first(), id) {
            Some(i) => Some(i + 1),
            None => None,
        }
    }
}

/// What `format!("{:?}", o)` writes for an optional string.
pub uninterp spec fn option_debug_text(o: Option<Seq<char>>) -> Seq<char>;

/// A character that `Debug` writes as it is inside a quoted string: an ASCII
/// letter or digit, `_`, `-` or `.`.
pub open spec fn plain_debug_char(c: char) -> bool {
    ('a' <= c <= 'z') || ('A' <= c <= 'Z') || ('0' <= c <= '9') || c == '_' || c == '-' || c == '.'
}

/// Writes an optional string in its `Debug` form, such as `Some("x86_64")` or `None`.
#[verifier::external_body]
fn option_debug(o: Option<&str>) -> (r: String)
    ensures
        r@ == option_debug_text(
            match o {
                Some(s) => Some(s@),
                None => None,
            },
        ),
        o is None ==> r@ == "None"@,
        o matches Some(s) ==> ((forall|i: int|
            0 <= i < s@.len() ==> plain_debug_char(#[trigger] s@[i])) ==> r@ == "Some(\""@ + s@
            + "\")"@),
{
    format!("{:?}", o)
}

/// The platform a download asks for: the given one, or `"unknown"`.
pub open spec fn requested_platform(platform: Option<&str>) -> Seq<char> {
    match platform {
        Some(p) => p@,
        None => "unknown"@,
    }
}

/// The message for a download request that no asset answers.
pub open spec fn no_asset_message(asset_id: Option<&str>, platform: Option<&str>, arch: Option<&str>) -> Seq<
    char,
> {
    match asset_id {
        Some(id) => "no asset "@ + id@,
        None => "no asset for platform "@ + requested_platform(platform) + " arch "@
            + option_debug_text(
            match arch {
                Some(a) => Some(a@),
                None => None,
            },
        ),
    }
}

/// The asset a download request designates: the one with the given id when
/// an id is given, otherwise the first that fits the platform and architecture.
pub open spec fn designated_asset(
    assets: Seq<AssetChoice>,
    asset_id: Option<&str>,
    platform: Option<&str>,
    arch: Option<&str>,
) -> Option<int> {
    match asset_id {
        Some(id) => first_with_id(assets, id@),
        None => first_fit(
            assets,
            requested_platform(platform),
            match arch {
                Some(a) => Some(a@),
                None => None,
            },
        ),
    }
}

fn fits(a: &AssetChoice, platform: &str, arch: Option<&str>) -> (r: bool)
    ensures
        r == asset_fits(
            *a,
            platform@,
            match arch {
                Some(w) => Some(w@),
                None => None,
            },
        ),
{
    if !str_eq(a.platform.as_str(), platform) {
        return false;
    }
    match arch {
        None => true,
        Some(w) => match &a.arch {
            Some(x) => str_eq(x.as_str(), w),
            None => false,
        },
    }
}

fn designates(a: &AssetChoice, asset_id: Option<&str>, platform: &str, arch: Option<&str>) -> (r:
    bool)
    ensures
        r == match asset_id {
            Some(id) => a.id@ == id@,
            None => asset_fits(
                *a,
                platform@,
                match arch {
                    Some(w) => Some(w@),
                    None => None,
                },
            ),
        },
{
    match asset_id {
        Some(id) => str_eq(a.id.as_str(), id),
        None => fits(a, platform, arch),
    }
}

fn ready(a: &AssetChoice) -> (r: bool)
    ensures
        r == asset_ready(*a),
{
    str_eq(a.sync_status.as_str(), "ready") && a.r2_key.is_some()
}

/// Picks the asset to download and returns its position and storage key.
/// No designated asset is `NotFound`; a designated asset that is not ready
/// (not `ready`, or not stored) is `BadRequest`.
pub fn select_download(
    assets: &Vec<AssetChoice>,
    asset_id: Option<&str>,
    platform: Option<&str>,
    arch: Option<&str>,
) -> (r: Result<(usize, String), AppError>)
    ensures
        match designated_asset(assets@, asset_id, platform, arch) {
            None => r matches Err(AppError::NotFound(m)) && m@ == no_asset_message(
                asset_id,
                platform,
                arch,
            ),
            Some(i) => if asset_ready(assets@[i]) {
                r matches Ok((j, key)) && j == i && assets@[i].r2_key.deep_view() == Some(key@)
            } else {
                r matches Err(AppError::BadRequest(m)) && m@ == "asset not ready yet"@
            },
        },
{
    let p = match platform {
        Some(p) => owned(p),
        None => String::from_str("unknown"),
    };
    let mut i: usize = 0;
    assert(assets@.skip(0) =~= assets@);
    while i < assets.len() && !designates(&assets[i], asset_id, p.as_str(), arch)
        invariant
            i <= assets.len(),
            p@ == requested_platform(platform),
            designated_asset(assets@, asset_id, platform, arch) == match designated_asset(
                assets@.skip(i as int),
                asset_id,
                platform,
                arch,
            ) {
                Some(k) => Some(k + i),
                None => None,
            },
        decreases assets.len() - i,
    {
        assert(assets@.skip(i as int)[0] == assets@[i as int]);
        assert(assets@.skip(i as int).drop_first() =~= assets@.skip(i + 1));
        i = i + 1;
    }
    if i == assets.len() {
        assert(assets@.skip(i as int) =~= Seq::<AssetChoice>::empty());
        let m = match asset_id {
            Some(id) => str_concat("no asset ", id),
            None => {
                let mut m = str_concat("no asset for platform ", p.as_str());
                m.append(" arch ");
                let d = option_debug(arch);
                m.append(d.as_str());
                m
            },
        };
        return Err(AppError::NotFound(m));
    }
    assert(assets@.skip(i as int)[0] == assets@[i as int]);
    if !ready(&assets[i]) {
        return Err(AppError::BadRequest(String::from_str("asset not ready yet")));
    }
    match &assets[i].r2_key {
        Some(k) => Ok((i, k.clone())),
        None => Err(AppError::BadRequest(String::from_str("asset not ready yet"))),
    }
}

/// The client address recorded with a download: `X-Forwarded-For`, else `X-Real-IP`.
pub fn client_ip(forwarded_for: Option<&str>, real_ip: Option<&str>) -> (r: Option<String>)
    ensures
        r.deep_view() == match forwarded_for {
            Some(f) => Some(f@),
            None => match real_ip {
                Some(x) => Some(x@),
                None => None,
            },
        },
{
    match forwarded_for {
        Some(f) => Some(owned(f)),
        None => match real_ip {
            Some(x) => Some(owned(x)),
            None => None,
        },
    }
}

/// The first stable release, if any.
pub open spec fn first_stable(prerelease: Seq<bool>) -> Option<int>
    decreases prerelease.len(),
{
    if prerelease.len() == 0 {
        None
    } else if !prerelease[0] {
        Some(0)
    } else {
        match first_stable(prerelease.drop_first()) {
            Some(i) => Some(i + 1),
            None => None,
        }
    }
}

/// The release offered by the update check, among releases listed newest
/// first: the newest stable release, or the newest pre-release when no
/// release is stable; none when there is no release.
pub open spec fn spec_update_release(prerelease: Seq<bool>) -> Option<int> {
    match first_stable(prerelease) {
        Some(i) => Some(i),
        None => if prerelease.len() > 0 {
            Some(0)
        } else {
            None
        },
    }
}

proof fn lemma_first_stable(prerelease: Seq<bool>)
    ensures
        match first_stable(prerelease) {
            Some(k) => 0 <= k < prerelease.len() && !prerelease[k] && forall|j: int|
                0 <= j < k ==> prerelease[j],
            None => forall|j: int| 0 <= j < prerelease.len() ==> prerelease[j],
        },
    decreases prerelease.len(),
{
    if prerelease.len() > 0 && prerelease[0] {
        lemma_first_stable(prerelease.drop_first());
        assert forall|j: int| 1 <= j < prerelease.len() implies prerelease[j]
            == prerelease.drop_first()[j - 1] by {}
    }
}

/// The update check offers the newest stable release when there is one;
/// otherwise the newest release, a pre-release; and nothing when there is
/// no release. (Releases are listed newest first.)
pub proof fn law_update_prefers_newest_stable(prerelease: Seq<bool>)
    ensures
        (exists|i: int| 0 <= i < prerelease.len() && !prerelease[i]) ==> (
        spec_update_release(prerelease) matches Some(k) && 0 <= k < prerelease.len()
            && !prerelease[k] && forall|j: int| 0 <= j < k ==> prerelease[j]),
        (forall|i: int| 0 <= i < prerelease.len() ==> prerelease[i]) && prerelease.len() > 0
            ==> spec_update_release(prerelease) == Some(0int),
        prerelease.len() == 0 ==> spec_update_release(prerelease) is None,
{
    lemma_first_stable(prerelease);
    if prerelease.len() > 0 && forall|i: int| 0 <= i < prerelease.len() ==> prerelease[i] {
        match first_stable(prerelease) {
            Some(k) => {
                assert(prerelease[k]);
            },
            None => {},
        }
    }
}

/// Picks the release that the update check offers; `prerelease[i]` tells
/// whether the `i`-th newest release is a pre-release.
pub fn pick_update_release(prerelease: &Vec<bool>) -> (r: Option<usize>)
    ensures
        match r {
            Some(i) => spec_update_release(prerelease@) == Some(i as int),
            None => spec_update_release(prerelease@) is None,
        },
{
    let mut i: usize = 0;
    assert(prerelease@.skip(0) =~= prerelease@);
    while i < prerelease.len()
        invariant
            i <= prerelease.len(),
            first_stable(prerelease@) == match first_stable(prerelease@.skip(i as int)) {
                Some(k) => Some(k + i),
                None => None,
            },
        decreases prerelease.len() - i,
    {
        assert(prerelease@.skip(i as int)[0] == prerelease@[i as int]);
        assert(prerelease@.skip(i as int).drop_first() =~= prerelease@.skip(i + 1));
        if !prerelease[i] {
            return Some(i);
        }
        i = i + 1;
    }
    assert(prerelease@.skip(i as int) =~= Seq::<bool>::empty());
    if prerelease.len() > 0 {
        Some(0)
    } else {
        None
    }
}

/// The asset is for `platform` and, when one is asked for, for exactly the
/// architecture `arch`.
pub open spec fn for_request(a: AssetChoice, platform: Seq<char>, arch: Option<Seq<char>>) -> bool {
    &&& a.platform@ == platform
    &&& (arch matches Some(w) ==> (a.arch matches Some(x) && x@ == w))
}

/// An asset is handed out only when its sync status is `ready` and it has a
/// storage key; any other status (`pending`, `syncing`, `failed`) or a
/// missing key makes it not ready.
pub proof fn law_ready_means_ready_and_stored(a: AssetChoice)
    ensures
        asset_ready(a) <==> (a.sync_status@ == "ready"@ && a.r2_key is Some),
{
}

/// A download by platform goes to the first asset of that platform and, when
/// asked, of exactly that architecture, and there is one whenever such an
/// asset exists; a download by id goes to the first asset with that id.
pub proof fn law_download_designates_matching_asset(
    assets: Seq<AssetChoice>,
    platform: Seq<char>,
    arch: Option<Seq<char>>,
    id: Seq<char>,
)
    ensures
        first_fit(assets, platform, arch) matches Some(i) ==> 0 <= i < assets.len() && for_request(
            assets[i],
            platform,
            arch,
        ) && forall|k: int| 0 <= k < i ==> !for_request(#[trigger] assets[k], platform, arch),
        first_fit(assets, platform, arch) is None ==> forall|k: int|
            0 <= k < assets.len() ==> !for_request(#[trigger] assets[k], platform, arch),
        first_with_id(assets, id) matches Some(i) ==> 0 <= i < assets.len() && assets[i].id@ == id
            && forall|k: int| 0 <= k < i ==> (#[trigger] assets[k]).id@ != id,
        first_with_id(assets, id) is None ==> forall|k: int|
            0 <= k < assets.len() ==> (#[trigger] assets[k]).id@ != id,
    decreases assets.len(),
{
    if assets.len() > 0 {
        law_download_designates_matching_asset(assets.drop_first(), platform, arch, id);
        assert forall|k: int| 1 <= k < assets.len() implies assets[k] == assets.drop_first()[k
            - 1] by {}
        assert(for_request(assets[0], platform, arch) == asset_fits(assets[0], platform, arch));
    }
}

/// The asset is ready, stored, for `platform`, and (when one is asked for)
/// for exactly the architecture `arch`.
pub open spec fn offerable(a: AssetChoice, platform: Seq<char>, arch: Option<Seq<char>>) -> bool {
    &&& a.platform@ == platform
    &&& (arch matches Some(w) ==> (a.arch matches Some(x) && x@ == w))
    &&& a.sync_status@ == "ready"@
    &&& a.r2_key is Some
}

/// The update check offers the first asset that is ready and stored, of the
/// asked platform and, when an architecture is asked for, of exactly that
/// architecture; it offers one whenever such an asset exists, and never an
/// asset of another platform or architecture.
pub proof fn law_update_asset_matches_request(
    assets: Seq<AssetChoice>,
    platform: Seq<char>,
    arch: Option<Seq<char>>,
)
    ensures
        first_ready_fit(assets, platform, arch) matches Some(i) ==> 0 <= i < assets.len()
            && offerable(assets[i], platform, arch) && forall|k: int|
            0 <= k < i ==> !offerable(#[trigger] assets[k], platform, arch),
        first_ready_fit(assets, platform, arch) is None ==> forall|k: int|
            0 <= k < assets.len() ==> !offerable(#[trigger] assets[k], platform, arch),
    decreases assets.len(),
{
    if assets.len() > 0 {
        law_update_asset_matches_request(assets.drop_first(), platform, arch);
        assert forall|k: int| 1 <= k < assets.len() implies assets[k] == assets.drop_first()[k
            - 1] by {}
        assert(offerable(assets[0], platform, arch) == (asset_fits(assets[0], platform, arch)
            && asset_ready(assets[0])));
    }
}

/// Picks the asset whose download the update check offers: only when a
/// platform is asked for, the first ready asset that fits it.
pub fn pick_update_asset(assets: &Vec<AssetChoice>, platform: Option<&str>, arch: Option<&str>) -> (r:
    Option<usize>)
    ensures
        match platform {
            None => r is None,
            Some(p) => match r {
                Some(i) => first_ready_fit(
                    assets@,
                    p@,
                    match arch {
                        Some(a) => Some(a@),
                        None => None,
                    },
                ) == Some(i as int),
                None => first_ready_fit(
                    assets@,
                    p@,
                    match arch {
                        Some(a) => Some(a@),
                        None => None,
                    },
                ) is None,
            },
        },
{
    let p = match platform {
        Some(p) => p,
        None => return None,
    };
    let ghost av = match arch {
        Some(a) => Some(a@),
        None => None,
    };
    let mut i: usize = 0;
    assert(assets@.skip(0) =~= assets@);
    while i < assets.len()
        invariant
            i <= assets.len(),
            platform == Some(p),
            av == match arch {
                Some(a) => Some(a@),
                None => None::<Seq<char>>,
            },
            first_ready_fit(assets@, p@, av) == match first_ready_fit(
                assets@.skip(i as int),
                p@,
                av,
            ) {
                Some(k) => Some(k + i),
                None => None,
            },
        decreases assets.len() - i,
    {
        assert(assets@.skip(i as int)[0] == assets@[i as int]);
        assert(assets@.skip(i as int).drop_first() =~= assets@.skip(i + 1));
        if fits(&assets[i], p, arch) && ready(&assets[i]) {
            return Some(i);
        }
        i = i + 1;
    }
    assert(assets@.skip(i as int) =~= Seq::<AssetChoice>::empty());
    None
}

/// The site-relative link the update check gives for an asset.
pub fn update_download_path(release_id: &str, asset_id: &str) -> (r: String)
    ensures
        r@ == "/api/v1/releases/"@ + release_id@ + "/download?asset_id="@ + asset_id@,
{
    let mut r = str_concat("/api/v1/releases/", release_id);
    r.append("/download?asset_id=");
    r.append(asset_id);
    r
}

} // verus!
