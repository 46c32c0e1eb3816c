//! One release-sync run as a state machine.
//!
//! A run walks the GitHub releases (newest first, as GitHub lists them), keeps
//! those that match the requested tag, makes sure each is stored, then walks
//! the release's assets, skips debug-symbol packages, makes sure each asset is
//! stored and copies every asset that is not yet `ready` to object storage.
//! The database and network work is done by the caller: the run hands out one
//! [`SyncAction`] at a time and is told the outcome by a [`SyncEvent`].
use vstd::prelude::*;

use crate::error::AppError;
use crate::github::{arch_of, infer_platform_arch, is_debug_package, names_debug_package, platform_of};
use crate::r2::{release_object_key, spec_release_object_key};
use crate::sync::{asset_needs_sync, decimal, keep_release, release_version, synced_message};
use crate::text::{has_substring, has_suffix, lowercase, str_views};

verus! {

/// What a sync run reads of one GitHub release.
#[derive(Debug, Clone)]
pub struct ReleaseToSync {
    pub tag_name: String,
    pub name: Option<String>,
    /// The file names of the release's assets, in GitHub's order.
    pub asset_names: Vec<String>,
}

/// The plain-value view of a [`ReleaseToSync`].
pub struct ReleaseView {
    pub tag_name: Seq<char>,
    pub name: Option<Seq<char>>,
    pub asset_names: Seq<Seq<char>>,
}

impl View for ReleaseToSync {
    type V = ReleaseView;

    open spec fn view(&self) -> ReleaseView {
        ReleaseView {
            tag_name: self.tag_name@,
            name: self.name.deep_view(),
            asset_names: str_views(self.asset_names@),
        }
    }
}

/// The views of a list of releases.
pub open spec fn release_views(rs: Seq<ReleaseToSync>) -> Seq<ReleaseView> {
    rs.map_values(|r: ReleaseToSync| r@)
}

/// The outcome of the work a [`SyncAction`] asked for.
#[derive(Debug, Clone)]
pub enum SyncEvent {
    /// Answers `FindRelease`: the id of the stored release with that tag, if any.
    ReleaseFound(Option<String>),
    /// Answers `CreateRelease`: the id of the release just stored.
    ReleaseCreated(String),
    /// Answers `FindAsset`: the id and sync status of the stored asset, if any.
    AssetFound(Option<(String, String)>),
    /// Answers `CreateAsset`: the id of the asset just stored.
    AssetCreated(String),
    /// Answers `CopyAsset`: the copy was attempted and its outcome recorded.
    Copied,
}

/// The plain-value view of a [`SyncEvent`].
pub enum EventView {
    ReleaseFound(Option<Seq<char>>),
    ReleaseCreated(Seq<char>),
    AssetFound(Option<(Seq<char>, Seq<char>)>),
    AssetCreated(Seq<char>),
    Copied,
}

impl View for SyncEvent {
    type V = EventView;

    open spec fn view(&self) -> EventView {
        match self {
            SyncEvent::ReleaseFound(id) => EventView::ReleaseFound(id.deep_view()),
            SyncEvent::ReleaseCreated(id) => EventView::ReleaseCreated(id@),
            SyncEvent::AssetFound(found) => EventView::AssetFound(
                match found {
                    Some(p) => Some((p.0@, p.1@)),
                    None => None,
                },
            ),
            SyncEvent::AssetCreated(id) => EventView::AssetCreated(id@),
            SyncEvent::Copied => EventView::Copied,
        }
    }
}

/// The work a sync run asks its caller to do next. `release` indexes the
/// list of releases the run was given and `asset` that release's assets.
#[derive(Debug, Clone)]
pub enum SyncAction {
    /// Look up the stored release with this tag; answer with `ReleaseFound`.
    FindRelease { release: usize, tag_name: String },
    /// Store the release under `version`; answer with `ReleaseCreated`.
    CreateRelease { release: usize, version: String },
    /// Look up the asset of the stored release named `filename`; answer with `AssetFound`.
    FindAsset { release: usize, asset: usize, release_id: String, filename: String },
    /// Store the asset as `pending` with the inferred platform and architecture;
    /// answer with `AssetCreated`.
    CreateAsset {
        release: usize,
        asset: usize,
        release_id: String,
        platform: String,
        arch: Option<String>,
    },
    /// Mark the asset `syncing`, copy it to storage under `key`, then mark it
    /// `ready` or `failed`; answer with `Copied`.
    CopyAsset { release: usize, asset: usize, asset_id: String, key: String },
    /// The run is over; `message` is its result text.
    Finish { message: String },
}

/// The plain-value view of a [`SyncAction`].
pub enum ActionView {
    FindRelease { release: int, tag_name: Seq<char> },
    CreateRelease { release: int, version: Seq<char> },
    FindAsset { release: int, asset: int, release_id: Seq<char>, filename: Seq<char> },
    CreateAsset {
        release: int,
        asset: int,
        release_id: Seq<char>,
        platform: Seq<char>,
        arch: Option<Seq<char>>,
    },
    CopyAsset { release: int, asset: int, asset_id: Seq<char>, key: Seq<char> },
    Finish { message: Seq<char> },
}

impl View for SyncAction {
    type V = ActionView;

    open spec fn view(&self) -> ActionView {
        match self {
            SyncAction::FindRelease { release, tag_name } => ActionView::FindRelease {
                release: *release as int,
                tag_name: tag_name@,
            },
            SyncAction::CreateRelease { release, version } => ActionView::CreateRelease {
                release: *release as int,
                version: version@,
            },
            SyncAction::FindAsset { release, asset, release_id, filename } => ActionView::FindAsset {
                release: *release as int,
                asset: *asset as int,
                release_id: release_id@,
                filename: filename@,
            },
            SyncAction::CreateAsset { release, asset, release_id, platform, arch } =>
                ActionView::CreateAsset {
                release: *release as int,
                asset: *asset as int,
                release_id: release_id@,
                platform: platform@,
                arch: arch.deep_view(),
            },
            SyncAction::CopyAsset { release, asset, asset_id, key } => ActionView::CopyAsset {
                release: *release as int,
                asset: *asset as int,
                asset_id: asset_id@,
                key: key@,
            },
            SyncAction::Finish { message } => ActionView::Finish { message: message@ },
        }
    }
}

// ---------------------------------------------------------------------------
// What a run deals with
// ---------------------------------------------------------------------------

/// The release takes part in a run that may be limited to one tag.
pub open spec fn release_kept(rel: ReleaseView, wanted: Option<Seq<char>>) -> bool {
    match wanted {
        Some(t) => rel.tag_name == t,
        None => true,
    }
}

/// The asset is handled by a run: it is not a debug-symbol package.
pub open spec fn asset_handled(name: Seq<char>) -> bool {
    !names_debug_package(lowercase(name))
}

/// The first kept release at or after `r`, or the number of releases.
pub open spec fn next_kept(rs: Seq<ReleaseView>, wanted: Option<Seq<char>>, r: int) -> int
    decreases rs.len() - r,
{
    if r < 0 || r >= rs.len() {
        rs.len() as int
    } else if release_kept(rs[r], wanted) {
        r
    } else {
        next_kept(rs, wanted, r + 1)
    }
}

/// The first handled asset at or after `a`, or the number of assets.
pub open spec fn next_handled(names: Seq<Seq<char>>, a: int) -> int
    decreases names.len() - a,
{
    if a < 0 || a >= names.len() {
        names.len() as int
    } else if asset_handled(names[a]) {
        a
    } else {
        next_handled(names, a + 1)
    }
}

/// How many of the assets are handled.
pub open spec fn handled_count(names: Seq<Seq<char>>) -> nat
    decreases names.len(),
{
    if names.len() == 0 {
        0
    } else {
        handled_count(names.drop_last()) + if asset_handled(names.last()) {
            1nat
        } else {
            0nat
        }
    }
}

/// How many handled assets the kept releases among the first `r` hold.
pub open spec fn handled_in(rs: Seq<ReleaseView>, wanted: Option<Seq<char>>, r: int) -> nat
    decreases r,
{
    if r <= 0 {
        0
    } else {
        handled_in(rs, wanted, r - 1) + if release_kept(rs[r - 1], wanted) {
            handled_count(rs[r - 1].asset_names)
        } else {
            0nat
        }
    }
}

/// How many assets the first `r` releases hold.
pub open spec fn assets_in(rs: Seq<ReleaseView>, r: int) -> nat
    decreases r,
{
    if r <= 0 {
        0
    } else {
        assets_in(rs, r - 1) + rs[r - 1].asset_names.len()
    }
}

/// The result text of a run that handled `n` assets.
pub open spec fn synced_text(n: nat) -> Seq<char> {
    "synced "@ + decimal(n) + " assets"@
}

/// The version recorded for a new release: its name, or its tag when unnamed.
pub open spec fn version_of(rel: ReleaseView) -> Seq<char> {
    match rel.name {
        Some(n) => n,
        None => rel.tag_name,
    }
}

// ---------------------------------------------------------------------------
// The run
// ---------------------------------------------------------------------------

/// Which answer a run waits for.
#[derive(Debug, Clone, Copy, PartialEq, Eq)]
pub enum RunStage {
    FindRelease,
    CreateRelease,
    FindAsset,
    CreateAsset,
    Copy,
    Done,
}

/// A release-sync run in progress.
pub struct SyncRun {
    releases: Vec<ReleaseToSync>,
    wanted: Option<String>,
    release: usize,
    asset: usize,
    release_id: String,
    asset_id: String,
    synced: usize,
    stage: RunStage,
}

/// The plain-value view of a [`SyncRun`]: the releases and tag it was given,
/// the release and asset it is at, the ids it was told, how many assets it
/// has handled so far, and which answer it waits for.
pub struct RunView {
    pub releases: Seq<ReleaseView>,
    pub wanted: Option<Seq<char>>,
    pub release: int,
    pub asset: int,
    pub release_id: Seq<char>,
    pub asset_id: Seq<char>,
    pub synced: nat,
    pub stage: RunStage,
}

impl View for SyncRun {
    type V = RunView;

    closed spec fn view(&self) -> RunView {
        RunView {
            releases: release_views(self.releases@),
            wanted: self.wanted.deep_view(),
            release: self.release as int,
            asset: self.asset as int,
            release_id: self.release_id@,
            asset_id: self.asset_id@,
            synced: self.synced as nat,
            stage: self.stage,
        }
    }
}

/// The consistent states of a run. It stands at a kept release (or past the
/// last one when done); while it deals with an asset, that asset is handled;
/// and its count is the number of handled assets of kept releases before
/// its position, which fits in a `usize`.
pub open spec fn run_wf(v: RunView) -> bool {
    let rs = v.releases;
    &&& 0 <= v.release <= rs.len()
    &&& handled_in(rs, v.wanted, rs.len() as int) <= usize::MAX
    &&& (v.stage == RunStage::Done) == (v.release == rs.len())
    &&& v.stage != RunStage::Done ==> release_kept(rs[v.release], v.wanted)
    &&& (v.stage == RunStage::FindRelease || v.stage == RunStage::CreateRelease || v.stage
        == RunStage::Done) ==> v.asset == 0 && v.synced == handled_in(rs, v.wanted, v.release)
    &&& (v.stage == RunStage::FindAsset || v.stage == RunStage::CreateAsset || v.stage
        == RunStage::Copy) ==> {
        let names = rs[v.release].asset_names;
        &&& 0 <= v.asset < names.len()
        &&& asset_handled(names[v.asset])
        &&& v.synced == handled_in(rs, v.wanted, v.release) + handled_count(
            names.take(v.asset),
        )
    }
}

/// The run moves on to the first kept release at or after `r`: it asks for
/// that release, or finishes when none is left.
pub open spec fn seek_release(v: RunView, r: int, synced: nat) -> (RunView, ActionView) {
    let r2 = next_kept(v.releases, v.wanted, r);
    if r2 < v.releases.len() {
        (
            RunView {
                releases: v.releases,
                wanted: v.wanted,
                release: r2,
                asset: 0,
                release_id: v.release_id,
                asset_id: v.asset_id,
                synced,
                stage: RunStage::FindRelease,
            },
            ActionView::FindRelease { release: r2, tag_name: v.releases[r2].tag_name },
        )
    } else {
        (
            RunView {
                releases: v.releases,
                wanted: v.wanted,
                release: v.releases.len() as int,
                asset: 0,
                release_id: v.release_id,
                asset_id: v.asset_id,
                synced,
                stage: RunStage::Done,
            },
            ActionView::Finish { message: synced_text(synced) },
        )
    }
}

/// Within release `r`, stored under `rid`, the run moves on to the first
/// handled asset at or after `a`, or to the next release when none is left.
pub open spec fn seek_asset(v: RunView, r: int, a: int, rid: Seq<char>, synced: nat) -> (
    RunView,
    ActionView,
) {
    let names = v.releases[r].asset_names;
    let a2 = next_handled(names, a);
    if a2 < names.len() {
        (
            RunView {
                releases: v.releases,
                wanted: v.wanted,
                release: r,
                asset: a2,
                release_id: rid,
                asset_id: v.asset_id,
                synced,
                stage: RunStage::FindAsset,
            },
            ActionView::FindAsset { release: r, asset: a2, release_id: rid, filename: names[a2] },
        )
    } else {
        seek_release(v, r + 1, synced)
    }
}

/// The run with a new stage and asset id, at the same position.
pub open spec fn at_stage(v: RunView, stage: RunStage, asset_id: Seq<char>) -> RunView {
    RunView {
        releases: v.releases,
        wanted: v.wanted,
        release: v.release,
        asset: v.asset,
        release_id: v.release_id,
        asset_id,
        synced: v.synced,
        stage,
    }
}

/// The copy of the current asset, stored under `asset_id`.
pub open spec fn copy_action(v: RunView, asset_id: Seq<char>) -> ActionView {
    ActionView::CopyAsset {
        release: v.release,
        asset: v.asset,
        asset_id,
        key: spec_release_object_key(
            v.release_id,
            v.releases[v.release].asset_names[v.asset],
        ),
    }
}

/// How a run answers an event: its next state and the action it asks for,
/// or `None` when the event does not answer what the run waits for.
pub open spec fn spec_step(v: RunView, e: EventView) -> Option<(RunView, ActionView)> {
    match (v.stage, e) {
        (RunStage::FindRelease, EventView::ReleaseFound(Some(id))) => Some(
            seek_asset(v, v.release, 0, id, v.synced),
        ),
        (RunStage::FindRelease, EventView::ReleaseFound(None)) => Some(
            (
                at_stage(v, RunStage::CreateRelease, v.asset_id),
                ActionView::CreateRelease {
                    release: v.release,
                    version: version_of(v.releases[v.release]),
                },
            ),
        ),
        (RunStage::CreateRelease, EventView::ReleaseCreated(id)) => Some(
            seek_asset(v, v.release, 0, id, v.synced),
        ),
        (RunStage::FindAsset, EventView::AssetFound(Some((id, status)))) => if status
            == "ready"@ {
            Some(seek_asset(v, v.release, v.asset + 1, v.release_id, v.synced + 1))
        } else {
            Some((at_stage(v, RunStage::Copy, id), copy_action(v, id)))
        },
        (RunStage::FindAsset, EventView::AssetFound(None)) => {
            let lower = lowercase(v.releases[v.release].asset_names[v.asset]);
            Some(
                (
                    at_stage(v, RunStage::CreateAsset, v.asset_id),
                    ActionView::CreateAsset {
                        release: v.release,
                        asset: v.asset,
                        release_id: v.release_id,
                        platform: platform_of(lower),
                        arch: arch_of(lower),
                    },
                ),
            )
        },
        (RunStage::CreateAsset, EventView::AssetCreated(id)) => Some(
            (at_stage(v, RunStage::Copy, id), copy_action(v, id)),
        ),
        (RunStage::Copy, EventView::Copied) => Some(
            seek_asset(v, v.release, v.asset + 1, v.release_id, v.synced + 1),
        ),
        _ => None,
    }
}

/// The state a run starts in, before it looks for the first release.
pub open spec fn initial_run(rs: Seq<ReleaseView>, wanted: Option<Seq<char>>) -> RunView {
    RunView {
        releases: rs,
        wanted,
        release: 0,
        asset: 0,
        release_id: Seq::empty(),
        asset_id: Seq::empty(),
        synced: 0,
        stage: RunStage::FindRelease,
    }
}

// ---------------------------------------------------------------------------
// Counting
// ---------------------------------------------------------------------------

proof fn lemma_next_kept(rs: Seq<ReleaseView>, wanted: Option<Seq<char>>, r: int)
    requires
        0 <= r <= rs.len(),
    ensures
        r <= next_kept(rs, wanted, r) <= rs.len(),
        next_kept(rs, wanted, r) < rs.len() ==> release_kept(
            rs[next_kept(rs, wanted, r)],
            wanted,
        ),
        handled_in(rs, wanted, next_kept(rs, wanted, r)) == handled_in(rs, wanted, r),
    decreases rs.len() - r,
{
    if r < rs.len() && !release_kept(rs[r], wanted) {
        lemma_next_kept(rs, wanted, r + 1);
    }
}

proof fn lemma_next_handled(names: Seq<Seq<char>>, a: int)
    requires
        0 <= a <= names.len(),
    ensures
        a <= next_handled(names, a) <= names.len(),
        next_handled(names, a) < names.len() ==> asset_handled(names[next_handled(names, a)]),
        handled_count(names.take(next_handled(names, a))) == handled_count(names.take(a)),
    decreases names.len() - a,
{
    if a < names.len() && !asset_handled(names[a]) {
        assert(names.take(a + 1).drop_last() =~= names.take(a));
        lemma_next_handled(names, a + 1);
    }
}

proof fn lemma_handled_count_prefix(names: Seq<Seq<char>>, a: int)
    requires
        0 <= a <= names.len(),
    ensures
        handled_count(names.take(a)) <= handled_count(names),
        handled_count(names) <= names.len(),
    decreases names.len() - a,
{
    if a < names.len() {
        assert(names.take(a + 1).drop_last() =~= names.take(a));
        lemma_handled_count_prefix(names, a + 1);
    } else {
        assert(names.take(a) =~= names);
        lemma_handled_count_le_len(names);
    }
}

proof fn lemma_handled_count_le_len(names: Seq<Seq<char>>)
    ensures
        handled_count(names) <= names.len(),
    decreases names.len(),
{
    if names.len() > 0 {
        lemma_handled_count_le_len(names.drop_last());
    }
}

proof fn lemma_handled_in_mono(rs: Seq<ReleaseView>, wanted: Option<Seq<char>>, r1: int, r2: int)
    requires
        0 <= r1 <= r2,
    ensures
        handled_in(rs, wanted, r1) <= handled_in(rs, wanted, r2),
    decreases r2 - r1,
{
    if r1 < r2 {
        lemma_handled_in_mono(rs, wanted, r1, r2 - 1);
    }
}

proof fn lemma_handled_in_le_assets(rs: Seq<ReleaseView>, wanted: Option<Seq<char>>, r: int)
    ensures
        handled_in(rs, wanted, r) <= assets_in(rs, r),
    decreases r,
{
    if r > 0 {
        lemma_handled_in_le_assets(rs, wanted, r - 1);
        lemma_handled_count_le_len(rs[r - 1].asset_names);
    }
}

/// Moving on to the releases at or after `r` with the count of those before keeps a run consistent.
proof fn lemma_seek_release_wf(v: RunView, r: int, synced: nat)
    requires
        0 <= r <= v.releases.len(),
        synced == handled_in(v.releases, v.wanted, r),
        handled_in(v.releases, v.wanted, v.releases.len() as int) <= usize::MAX,
    ensures
        run_wf(seek_release(v, r, synced).0),
        seek_release(v, r, synced).0.releases == v.releases,
        seek_release(v, r, synced).0.wanted == v.wanted,
{
    lemma_next_kept(v.releases, v.wanted, r);
}

/// Moving on to the assets at or after `a` of a kept release, with the count
/// of what came before, keeps a run consistent.
proof fn lemma_seek_asset_wf(v: RunView, r: int, a: int, rid: Seq<char>, synced: nat)
    requires
        0 <= r < v.releases.len(),
        release_kept(v.releases[r], v.wanted),
        0 <= a <= v.releases[r].asset_names.len(),
        synced == handled_in(v.releases, v.wanted, r) + handled_count(
            v.releases[r].asset_names.take(a),
        ),
        handled_in(v.releases, v.wanted, v.releases.len() as int) <= usize::MAX,
    ensures
        run_wf(seek_asset(v, r, a, rid, synced).0),
        seek_asset(v, r, a, rid, synced).0.releases == v.releases,
        seek_asset(v, r, a, rid, synced).0.wanted == v.wanted,
{
    let names = v.releases[r].asset_names;
    lemma_next_handled(names, a);
    if next_handled(names, a) >= names.len() {
        assert(names.take(names.len() as int) =~= names);
        lemma_seek_release_wf(v, r + 1, synced);
    }
}

/// After the asset at the run's position is dealt with, the count including
/// it is that of the assets up to the next position, and it fits.
proof fn lemma_count_after_asset(v: RunView)
    requires
        run_wf(v),
        v.stage == RunStage::FindAsset || v.stage == RunStage::Copy,
    ensures
        v.synced + 1 == handled_in(v.releases, v.wanted, v.release) + handled_count(
            v.releases[v.release].asset_names.take(v.asset + 1),
        ),
        v.synced + 1 <= usize::MAX,
{
    let rs = v.releases;
    let names = rs[v.release].asset_names;
    assert(names.take(v.asset + 1).drop_last() =~= names.take(v.asset));
    lemma_handled_count_prefix(names, v.asset + 1);
    lemma_handled_in_mono(rs, v.wanted, v.release + 1, rs.len() as int);
}

/// Every answer keeps a run consistent.
proof fn lemma_step_wf(v: RunView, e: EventView)
    requires
        run_wf(v),
        spec_step(v, e) is Some,
    ensures
        run_wf(spec_step(v, e).unwrap().0),
        spec_step(v, e).unwrap().0.releases == v.releases,
        spec_step(v, e).unwrap().0.wanted == v.wanted,
{
    let rs = v.releases;
    match (v.stage, e) {
        (RunStage::FindRelease, EventView::ReleaseFound(Some(id))) => {
            assert(rs[v.release].asset_names.take(0) =~= Seq::<Seq<char>>::empty());
            lemma_seek_asset_wf(v, v.release, 0, id, v.synced);
        },
        (RunStage::CreateRelease, EventView::ReleaseCreated(id)) => {
            assert(rs[v.release].asset_names.take(0) =~= Seq::<Seq<char>>::empty());
            lemma_seek_asset_wf(v, v.release, 0, id, v.synced);
        },
        (RunStage::FindAsset, EventView::AssetFound(Some((id, status)))) => {
            if status == "ready"@ {
                lemma_count_after_asset(v);
                lemma_seek_asset_wf(v, v.release, v.asset + 1, v.release_id, v.synced + 1);
            }
        },
        (RunStage::Copy, EventView::Copied) => {
            lemma_count_after_asset(v);
            lemma_seek_asset_wf(v, v.release, v.asset + 1, v.release_id, v.synced + 1);
        },
        _ => {},
    }
}

// ---------------------------------------------------------------------------
// Running
// ---------------------------------------------------------------------------

fn unexpected_event() -> (r: AppError)
    ensures
        r matches AppError::Internal(m) && m@ == "unexpected sync event"@,
{
    AppError::Internal(String::from_str("unexpected sync event"))
}

impl SyncRun {
    /// Whether the `i`-th release takes part in the run.
    fn kept(&self, i: usize) -> (r: bool)
        requires
            i < self@.releases.len(),
        ensures
            r == release_kept(self@.releases[i as int], self@.wanted),
    {
        let wanted: Option<&str> = match &self.wanted {
            Some(t) => Some(t.as_str()),
            None => None,
        };
        assert(self@.releases[i as int] == self.releases@[i as int]@);
        keep_release(self.releases[i].tag_name.as_str(), wanted)
    }

    /// Moves on to the first kept release at or after `r`.
    fn seek_release_exec(&mut self, r: usize, synced: usize) -> (act: SyncAction)
        requires
            r <= old(self)@.releases.len(),
        ensures
            (final(self)@, act@) == seek_release(old(self)@, r as int, synced as nat),
    {
        let ghost v = self@;
        let n = self.releases.len();
        let mut i = r;
        while i < n && !self.kept(i)
            invariant
                r <= i <= n,
                n == self.releases.len(),
                self@ == v,
                next_kept(v.releases, v.wanted, r as int) == next_kept(v.releases, v.wanted, i as int),
            decreases n - i,
        {
            i = i + 1;
        }
        if i < n {
            self.release = i;
            self.asset = 0;
            self.synced = synced;
            self.stage = RunStage::FindRelease;
            assert(self@.releases[i as int] == self.releases@[i as int]@);
            SyncAction::FindRelease { release: i, tag_name: self.releases[i].tag_name.clone() }
        } else {
            self.release = n;
            self.asset = 0;
            self.synced = synced;
            self.stage = RunStage::Done;
            SyncAction::Finish { message: synced_message(synced) }
        }
    }

    /// Within release `r`, stored under `rid`, moves on to the first handled
    /// asset at or after `a`, or to the next release.
    fn seek_asset_exec(&mut self, r: usize, a: usize, rid: String, synced: usize) -> (act:
        SyncAction)
        requires
            r < old(self)@.releases.len(),
            a <= old(self)@.releases[r as int].asset_names.len(),
        ensures
            (final(self)@, act@) == seek_asset(old(self)@, r as int, a as int, rid@, synced as nat),
    {
        let ghost v = self@;
        let ghost names = v.releases[r as int].asset_names;
        assert(v.releases[r as int] == self.releases@[r as int]@);
        let n = self.releases[r].asset_names.len();
        let mut i = a;
        while i < n && is_debug_package(self.releases[r].asset_names[i].as_str())
            invariant
                a <= i <= n,
                r < self.releases.len(),
                n == names.len(),
                self@ == v,
                names == str_views(self.releases@[r as int].asset_names@),
                next_handled(names, a as int) == next_handled(names, i as int),
            decreases n - i,
        {
            i = i + 1;
        }
        if i < n {
            self.release = r;
            self.asset = i;
            self.release_id = rid.clone();
            self.synced = synced;
            self.stage = RunStage::FindAsset;
            SyncAction::FindAsset {
                release: r,
                asset: i,
                release_id: rid,
                filename: self.releases[r].asset_names[i].clone(),
            }
        } else {
            self.seek_release_exec(r + 1, synced)
        }
    }

    /// Starts a run over `releases` (newest first), limited to the release
    /// tagged `wanted` when one is given, and names its first action. A list
    /// whose assets cannot be counted in a `usize` is refused.
    pub fn new(releases: Vec<ReleaseToSync>, wanted: Option<String>) -> (r: Result<
        (SyncRun, SyncAction),
        AppError,
    >)
        ensures
            ({
                let rs = release_views(releases@);
                if assets_in(rs, rs.len() as int) <= usize::MAX {
                    r matches Ok((run, act)) && run_wf(run@) && (run@, act@) == seek_release(
                        initial_run(rs, wanted.deep_view()),
                        0,
                        0,
                    )
                } else {
                    r matches Err(AppError::Internal(m)) && m@ == "too many release assets"@
                }
            }),
    {
        let ghost rs = release_views(releases@);
        let mut total: usize = 0;
        let mut i: usize = 0;
        while i < releases.len()
            invariant
                i <= releases.len(),
                rs == release_views(releases@),
                total == assets_in(rs, i as int),
            decreases releases.len() - i,
        {
            assert(rs[i as int] == releases@[i as int]@);
            let k = releases[i].asset_names.len();
            match total.checked_add(k) {
                Some(t) => total = t,
                None => {
                    proof {
                        lemma_assets_in_mono(rs, i + 1, rs.len() as int);
                    }
                    return Err(AppError::Internal(String::from_str("too many release assets")));
                },
            }
            i = i + 1;
        }
        let mut run = SyncRun {
            releases,
            wanted,
            release: 0,
            asset: 0,
            release_id: String::new(),
            asset_id: String::new(),
            synced: 0,
            stage: RunStage::FindRelease,
        };
        proof {
            assert(run@.release_id =~= Seq::<char>::empty());
            assert(run@.asset_id =~= Seq::<char>::empty());
            assert(run@ == initial_run(rs, run@.wanted));
            lemma_handled_in_le_assets(rs, run@.wanted, rs.len() as int);
            lemma_seek_release_wf(run@, 0, 0);
        }
        let act = run.seek_release_exec(0, 0);
        Ok((run, act))
    }

    /// Takes the outcome of the last action and names the next one. An event
    /// that does not answer what the run waits for is refused and changes nothing.
    pub fn step(&mut self, event: SyncEvent) -> (r: Result<SyncAction, AppError>)
        requires
            run_wf(old(self)@),
        ensures
            run_wf(final(self)@),
            match spec_step(old(self)@, event@) {
                Some((v, a)) => r matches Ok(act) && act@ == a && final(self)@ == v,
                None => r matches Err(AppError::Internal(m)) && m@ == "unexpected sync event"@
                    && final(self)@ == old(self)@,
            },
    {
        let ghost v0 = self@;
        let ghost ev = event@;
        proof {
            if spec_step(v0, ev) is Some {
                lemma_step_wf(v0, ev);
            }
        }
        let r = self.release;
        let a = self.asset;
        match event {
            SyncEvent::ReleaseFound(found) => {
                match self.stage {
                    RunStage::FindRelease => {},
                    _ => return Err(unexpected_event()),
                }
                match found {
                    Some(id) => {
                        let synced = self.synced;
                        Ok(self.seek_asset_exec(r, 0, id, synced))
                    },
                    None => {
                        assert(v0.releases[r as int] == self.releases@[r as int]@);
                        let name: Option<&str> = match &self.releases[r].name {
                            Some(n) => Some(n.as_str()),
                            None => None,
                        };
                        let version = release_version(name, self.releases[r].tag_name.as_str());
                        self.stage = RunStage::CreateRelease;
                        Ok(SyncAction::CreateRelease { release: r, version })
                    },
                }
            },
            SyncEvent::ReleaseCreated(id) => {
                match self.stage {
                    RunStage::CreateRelease => {},
                    _ => return Err(unexpected_event()),
                }
                let synced = self.synced;
                Ok(self.seek_asset_exec(r, 0, id, synced))
            },
            SyncEvent::AssetFound(found) => {
                match self.stage {
                    RunStage::FindAsset => {},
                    _ => return Err(unexpected_event()),
                }
                match found {
                    Some((id, status)) => {
                        if !asset_needs_sync(status.as_str()) {
                            proof {
                                lemma_count_after_asset(v0);
                            }
                            assert(v0.releases[r as int] == self.releases@[r as int]@);
                            let _n = self.releases[r].asset_names.len();
                            let rid = self.release_id.clone();
                            let synced = self.synced + 1;
                            Ok(self.seek_asset_exec(r, a + 1, rid, synced))
                        } else {
                            Ok(self.start_copy(id))
                        }
                    },
                    None => {
                        assert(v0.releases[r as int] == self.releases@[r as int]@);
                        let (platform, arch) = infer_platform_arch(
                            self.releases[r].asset_names[a].as_str(),
                        );
                        self.stage = RunStage::CreateAsset;
                        Ok(
                            SyncAction::CreateAsset {
                                release: r,
                                asset: a,
                                release_id: self.release_id.clone(),
                                platform,
                                arch,
                            },
                        )
                    },
                }
            },
            SyncEvent::AssetCreated(id) => {
                match self.stage {
                    RunStage::CreateAsset => {},
                    _ => return Err(unexpected_event()),
                }
                Ok(self.start_copy(id))
            },
            SyncEvent::Copied => {
                match self.stage {
                    RunStage::Copy => {},
                    _ => return Err(unexpected_event()),
                }
                proof {
                    lemma_count_after_asset(v0);
                }
                assert(v0.releases[r as int] == self.releases@[r as int]@);
                let _n = self.releases[r].asset_names.len();
                let rid = self.release_id.clone();
                let synced = self.synced + 1;
                Ok(self.seek_asset_exec(r, a + 1, rid, synced))
            },
        }
    }

    /// Asks for the copy of the current asset, stored under `id`.
    fn start_copy(&mut self, id: String) -> (act: SyncAction)
        requires
            run_wf(old(self)@),
            old(self)@.stage == RunStage::FindAsset || old(self)@.stage == RunStage::CreateAsset,
        ensures
            final(self)@ == at_stage(old(self)@, RunStage::Copy, id@),
            act@ == copy_action(old(self)@, id@),
    {
        let r = self.release;
        let a = self.asset;
        assert(self@.releases[r as int] == self.releases@[r as int]@);
        let key = release_object_key(
            self.release_id.as_str(),
            self.releases[r].asset_names[a].as_str(),
        );
        self.stage = RunStage::Copy;
        self.asset_id = id.clone();
        SyncAction::CopyAsset { release: r, asset: a, asset_id: id, key }
    }
}

proof fn lemma_assets_in_mono(rs: Seq<ReleaseView>, r1: int, r2: int)
    requires
        0 <= r1 <= r2,
    ensures
        assets_in(rs, r1) <= assets_in(rs, r2),
    decreases r2 - r1,
{
    if r1 < r2 {
        lemma_assets_in_mono(rs, r1, r2 - 1);
    }
}

// ---------------------------------------------------------------------------
// Laws
// ---------------------------------------------------------------------------

/// The action names a release the run keeps and, when it names an asset,
/// an asset the run handles.
pub open spec fn action_on_kept_and_handled(
    rs: Seq<ReleaseView>,
    wanted: Option<Seq<char>>,
    act: ActionView,
) -> bool {
    match act {
        ActionView::FindRelease { release, .. } => 0 <= release < rs.len() && release_kept(
            rs[release],
            wanted,
        ),
        ActionView::CreateRelease { release, .. } => 0 <= release < rs.len() && release_kept(
            rs[release],
            wanted,
        ),
        ActionView::FindAsset { release, asset, .. } => asset_named(rs, wanted, release, asset),
        ActionView::CreateAsset { release, asset, .. } => asset_named(rs, wanted, release, asset),
        ActionView::CopyAsset { release, asset, .. } => asset_named(rs, wanted, release, asset),
        ActionView::Finish { .. } => true,
    }
}

/// `asset` is a handled asset of `release`, a kept release.
pub open spec fn asset_named(rs: Seq<ReleaseView>, wanted: Option<Seq<char>>, release: int, asset: int) -> bool {
    &&& 0 <= release < rs.len()
    &&& release_kept(rs[release], wanted)
    &&& 0 <= asset < rs[release].asset_names.len()
    &&& asset_handled(rs[release].asset_names[asset])
}

/// The rank of a stage within the work on one asset or release.
pub open spec fn stage_rank(s: RunStage) -> int {
    match s {
        RunStage::FindRelease => 0,
        RunStage::CreateRelease => 1,
        RunStage::FindAsset => 2,
        RunStage::CreateAsset => 3,
        RunStage::Copy => 4,
        RunStage::Done => 5,
    }
}

/// `w` is further along than `v`: a later release, a later asset of the same
/// release, or a later stage at the same asset.
pub open spec fn further_along(w: RunView, v: RunView) -> bool {
    ||| w.release > v.release
    ||| w.release == v.release && w.asset > v.asset
    ||| w.release == v.release && w.asset == v.asset && stage_rank(w.stage) > stage_rank(v.stage)
}

/// The action a state moved to by `seek_release` or `seek_asset` hands out
/// names that state's position, and a finishing action reports its count.
proof fn lemma_seek_shape(v: RunView, r: int, a: int, rid: Seq<char>, synced: nat)
    ensures
        ({
            let (w, act) = seek_release(v, r, synced);
            &&& act is Finish ==> w.stage == RunStage::Done && act->message == synced_text(w.synced)
            &&& act is FindRelease ==> act->FindRelease_release == w.release
            &&& !(act is FindAsset) && !(act is CreateRelease) && !(act is CreateAsset) && !(act is CopyAsset)
            &&& w.synced == synced
        }),
        ({
            let (w, act) = seek_asset(v, r, a, rid, synced);
            &&& act is Finish ==> w.stage == RunStage::Done && act->message == synced_text(w.synced)
            &&& act is FindRelease ==> act->FindRelease_release == w.release
            &&& act is FindAsset ==> act->FindAsset_release == w.release && act->FindAsset_asset
                == w.asset
            &&& !(act is CreateRelease) && !(act is CreateAsset) && !(act is CopyAsset)
            &&& w.synced == synced
        }),
{
}

/// A finished run reports exactly how many assets it handled: every asset
/// of every kept release except debug-symbol packages, copied or not.
pub proof fn law_finish_reports_handled_assets(v: RunView, e: EventView)
    requires
        run_wf(v),
        spec_step(v, e) matches Some((_, ActionView::Finish { .. })),
    ensures
        spec_step(v, e).unwrap().1->message == synced_text(
            handled_in(v.releases, v.wanted, v.releases.len() as int),
        ),
{
    lemma_step_wf(v, e);
    lemma_seek_shape(v, v.release, 0, Seq::empty(), v.synced);
    match (v.stage, e) {
        (RunStage::FindRelease, EventView::ReleaseFound(Some(id))) => {
            lemma_seek_shape(v, v.release, 0, id, v.synced);
        },
        (RunStage::CreateRelease, EventView::ReleaseCreated(id)) => {
            lemma_seek_shape(v, v.release, 0, id, v.synced);
        },
        _ => {
            lemma_seek_shape(v, v.release, v.asset + 1, v.release_id, v.synced + 1);
        },
    }
}

/// A run that finishes at once (no kept release) reports the handled assets
/// of the kept releases, which is none.
pub proof fn law_start_reports_handled_assets(rs: Seq<ReleaseView>, wanted: Option<Seq<char>>)
    requires
        seek_release(initial_run(rs, wanted), 0, 0).1 is Finish,
    ensures
        seek_release(initial_run(rs, wanted), 0, 0).1->message == synced_text(
            handled_in(rs, wanted, rs.len() as int),
        ),
        handled_in(rs, wanted, rs.len() as int) == 0,
{
    lemma_next_kept(rs, wanted, 0);
}

/// Every action a run hands out after an answer names a release it keeps
/// and, for asset work, an asset that is not a debug-symbol package.
pub proof fn law_actions_stay_on_kept_handled(v: RunView, e: EventView)
    requires
        run_wf(v),
        spec_step(v, e) is Some,
    ensures
        action_on_kept_and_handled(v.releases, v.wanted, spec_step(v, e).unwrap().1),
{
    lemma_step_wf(v, e);
    match (v.stage, e) {
        (RunStage::FindRelease, EventView::ReleaseFound(Some(id))) => {
            lemma_seek_shape(v, v.release, 0, id, v.synced);
        },
        (RunStage::CreateRelease, EventView::ReleaseCreated(id)) => {
            lemma_seek_shape(v, v.release, 0, id, v.synced);
        },
        (RunStage::FindAsset, EventView::AssetFound(Some((id, status)))) => {
            lemma_seek_shape(v, v.release, v.asset + 1, v.release_id, v.synced + 1);
        },
        (RunStage::Copy, EventView::Copied) => {
            lemma_seek_shape(v, v.release, v.asset + 1, v.release_id, v.synced + 1);
        },
        _ => {},
    }
}

/// The first action of a run names a release it keeps.
pub proof fn law_start_on_kept(rs: Seq<ReleaseView>, wanted: Option<Seq<char>>)
    ensures
        action_on_kept_and_handled(rs, wanted, seek_release(initial_run(rs, wanted), 0, 0).1),
{
    lemma_next_kept(rs, wanted, 0);
}

/// An asset found stored as `ready` is never copied again; any other stored
/// asset is copied.
pub proof fn law_copy_unless_ready(v: RunView, id: Seq<char>, status: Seq<char>)
    requires
        run_wf(v),
        v.stage == RunStage::FindAsset,
    ensures
        (spec_step(v, EventView::AssetFound(Some((id, status)))).unwrap().1 is CopyAsset) == (
        status != "ready"@),
{
    lemma_seek_shape(v, v.release, v.asset + 1, v.release_id, v.synced + 1);
}

/// A new asset is always copied once it is stored.
pub proof fn law_new_asset_is_copied(v: RunView, id: Seq<char>)
    requires
        v.stage == RunStage::CreateAsset,
    ensures
        spec_step(v, EventView::AssetCreated(id)) == Some(
            (at_stage(v, RunStage::Copy, id), copy_action(v, id)),
        ),
{
}

/// Every answer moves the run further along, so a run whose actions are
/// all answered finishes.
pub proof fn law_step_moves_forward(v: RunView, e: EventView)
    requires
        run_wf(v),
        spec_step(v, e) is Some,
    ensures
        further_along(spec_step(v, e).unwrap().0, v),
{
    let rs = v.releases;
    match (v.stage, e) {
        (RunStage::FindRelease, EventView::ReleaseFound(Some(id))) => {
            lemma_next_handled(rs[v.release].asset_names, 0);
            lemma_next_kept(rs, v.wanted, v.release + 1);
        },
        (RunStage::CreateRelease, EventView::ReleaseCreated(id)) => {
            lemma_next_handled(rs[v.release].asset_names, 0);
            lemma_next_kept(rs, v.wanted, v.release + 1);
        },
        (RunStage::FindAsset, EventView::AssetFound(Some((id, status)))) => {
            lemma_next_handled(rs[v.release].asset_names, v.asset + 1);
            lemma_next_kept(rs, v.wanted, v.release + 1);
        },
        (RunStage::Copy, EventView::Copied) => {
            lemma_next_handled(rs[v.release].asset_names, v.asset + 1);
            lemma_next_kept(rs, v.wanted, v.release + 1);
        },
        _ => {},
    }
}

/// A run handles an asset exactly when its lower-cased name holds none of
/// the debug-symbol markers: `-debug-`, `.symbols.`, a `.debug` suffix. Any
/// other asset (a `.zip`, `.exe`, `.dmg` and so on) is recorded and copied.
pub proof fn law_handled_unless_debug_marker(name: Seq<char>)
    ensures
        asset_handled(name) <==> !(has_substring(lowercase(name), "-debug-"@) || has_substring(
            lowercase(name),
            ".symbols."@,
        ) || has_suffix(lowercase(name), ".debug"@)),
{
}

} // verus!
