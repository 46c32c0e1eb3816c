use oak_website_backend::sync::status_after_copy;
use oak_website_backend::sync_run::{ReleaseToSync, SyncAction, SyncEvent, SyncRun};
use std::collections::HashMap;

fn release(tag: &str, name: Option<&str>, assets: &[&str]) -> ReleaseToSync {
    ReleaseToSync {
        tag_name: tag.to_string(),
        name: name.map(|n| n.to_string()),
        asset_names: assets.iter().map(|a| a.to_string()).collect(),
    }
}

/// A stored release: (id, version). A stored asset: (id, platform, arch, status, key).
#[derive(Default)]
struct Store {
    releases: HashMap<String, (String, String)>,
    assets: HashMap<(String, String), (String, String, Option<String>, String, Option<String>)>,
    next_id: u32,
    copies: Vec<String>,
    actions: usize,
}

impl Store {
    fn fresh_id(&mut self) -> String {
        self.next_id += 1;
        format!("id{}", self.next_id)
    }

    /// Runs a sync to the end, answering each action; `upload_ok` decides copies.
    fn run(&mut self, list: Vec<ReleaseToSync>, tag: Option<&str>, upload_ok: bool) -> String {
        let tags: Vec<String> = list.iter().map(|r| r.tag_name.clone()).collect();
        let names: Vec<Vec<String>> = list.iter().map(|r| r.asset_names.clone()).collect();
        let (mut run, mut action) = SyncRun::new(list, tag.map(|t| t.to_string())).unwrap();
        let mut current_release = String::new();
        loop {
            self.actions += 1;
            let event = match action {
                SyncAction::FindRelease { release, tag_name } => {
                    assert_eq!(tag_name, tags[release]);
                    let found = self.releases.get(&tag_name).map(|(id, _)| id.clone());
                    if let Some(id) = &found {
                        current_release = id.clone();
                    }
                    SyncEvent::ReleaseFound(found)
                }
                SyncAction::CreateRelease { release, version } => {
                    let id = self.fresh_id();
                    self.releases.insert(tags[release].clone(), (id.clone(), version));
                    current_release = id.clone();
                    SyncEvent::ReleaseCreated(id)
                }
                SyncAction::FindAsset { release_id, filename, .. } => {
                    assert_eq!(release_id, current_release);
                    let found = self
                        .assets
                        .get(&(release_id, filename))
                        .map(|a| (a.0.clone(), a.3.clone()));
                    SyncEvent::AssetFound(found)
                }
                SyncAction::CreateAsset { release, asset, release_id, platform, arch } => {
                    let id = self.fresh_id();
                    let filename = names[release][asset].clone();
                    self.assets.insert(
                        (release_id, filename),
                        (id.clone(), platform, arch, "pending".to_string(), None),
                    );
                    SyncEvent::AssetCreated(id)
                }
                SyncAction::CopyAsset { asset_id, key, .. } => {
                    self.copies.push(key.clone());
                    for a in self.assets.values_mut() {
                        if a.0 == asset_id {
                            a.3 = status_after_copy(upload_ok);
                            if upload_ok {
                                a.4 = Some(key.clone());
                            }
                        }
                    }
                    SyncEvent::Copied
                }
                SyncAction::Finish { message } => return message,
            };
            action = run.step(event).unwrap();
        }
    }
}

#[test]
fn sync_endpoint_syncs_release_and_asset() {
    let mut store = Store::default();
    let msg = store.run(vec![release("v0.1.0", Some("v0.1.0"), &["oak.exe"])], None, true);
    assert_eq!(msg, "synced 1 assets");
    assert_eq!(store.releases.len(), 1);
    let asset = store.assets.values().next().unwrap();
    assert_eq!(asset.1, "windows");
    assert_eq!(asset.3, "ready");
    let key = asset.4.clone().unwrap();
    assert!(key.starts_with("releases/") && key.ends_with("/oak.exe"));
}

#[test]
fn sync_endpoint_filters_by_tag() {
    let mut store = Store::default();
    let msg = store.run(
        vec![release("v0.1.0", None, &[]), release("v0.2.0", None, &[])],
        Some("v0.2.0"),
        true,
    );
    assert_eq!(msg, "synced 0 assets");
    assert_eq!(store.releases.len(), 1);
    assert_eq!(store.releases.get("v0.2.0").unwrap().1, "v0.2.0");
}

#[test]
fn sync_endpoint_is_idempotent() {
    let mut store = Store::default();
    let list = || vec![release("v0.1.0", Some("Oak 0.1"), &["oak.exe"])];
    assert_eq!(store.run(list(), None, true), "synced 1 assets");
    assert_eq!(store.run(list(), None, true), "synced 1 assets");
    assert_eq!(store.releases.len(), 1);
    assert_eq!(store.assets.len(), 1);
    assert_eq!(store.copies.len(), 1);
    assert_eq!(store.releases.get("v0.1.0").unwrap().1, "Oak 0.1");
}

#[test]
fn sync_endpoint_skips_debug_packages() {
    let mut store = Store::default();
    let msg = store.run(
        vec![release(
            "v0.1.0",
            None,
            &[
                "oak-video-editor-0.1.0-1-x86_64.pkg.tar.zst",
                "oak-video-editor-debug-0.1.0-1-x86_64.pkg.tar.zst",
            ],
        )],
        None,
        true,
    );
    assert_eq!(msg, "synced 1 assets");
    assert_eq!(store.assets.len(), 1);
    let (key, asset) = store.assets.iter().next().unwrap();
    assert_eq!(key.1, "oak-video-editor-0.1.0-1-x86_64.pkg.tar.zst");
    assert_eq!(asset.1, "linux");
    assert_eq!(asset.2.as_deref(), Some("x86_64"));
}

#[test]
fn sync_endpoint_marks_asset_failed_when_r2_upload_fails() {
    let mut store = Store::default();
    let msg = store.run(vec![release("v0.1.0", None, &["oak.exe"])], None, false);
    assert_eq!(msg, "synced 1 assets");
    let asset = store.assets.values().next().unwrap();
    assert_eq!(asset.3, "failed");
    assert!(asset.4.is_none());
    // A failed asset is copied again by the next run.
    let msg = store.run(vec![release("v0.1.0", None, &["oak.exe"])], None, true);
    assert_eq!(msg, "synced 1 assets");
    assert_eq!(store.copies.len(), 2);
    assert_eq!(store.assets.values().next().unwrap().3, "ready");
}

#[test]
fn empty_release_list_finishes_at_once() {
    let (_, action) = SyncRun::new(vec![], None).unwrap();
    match action {
        SyncAction::Finish { message } => assert_eq!(message, "synced 0 assets"),
        other => panic!("unexpected action {:?}", other),
    }
}

#[test]
fn events_out_of_turn_are_refused() {
    let (mut run, action) = SyncRun::new(vec![release("v1", None, &["a.exe"])], None).unwrap();
    assert!(matches!(action, SyncAction::FindRelease { release: 0, .. }));
    assert!(run.step(SyncEvent::Copied).is_err());
    assert!(run.step(SyncEvent::AssetCreated("x".to_string())).is_err());
    // The refused events changed nothing: the answer still fits.
    let next = run.step(SyncEvent::ReleaseFound(Some("r1".to_string()))).unwrap();
    match next {
        SyncAction::FindAsset { release, asset, release_id, filename } => {
            assert_eq!((release, asset), (0, 0));
            assert_eq!(release_id, "r1");
            assert_eq!(filename, "a.exe");
        }
        other => panic!("unexpected action {:?}", other),
    }
}

#[test]
fn release_with_only_debug_assets_is_still_recorded() {
    let mut store = Store::default();
    let msg = store.run(vec![release("v1", None, &["oak-0.1.0.debug"])], None, true);
    assert_eq!(msg, "synced 0 assets");
    assert_eq!(store.releases.len(), 1);
    assert!(store.assets.is_empty());
}
