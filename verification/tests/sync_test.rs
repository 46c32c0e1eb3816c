use oak_website_backend::error::AppError;
use oak_website_backend::sync::{
    asset_needs_sync, decimal_string, keep_release, release_version, status_after_copy,
    status_failed, status_pending, status_ready, status_syncing, sync_started_response,
    synced_message, SyncStatus,
};

#[test]
fn second_sync_is_refused_while_one_runs() {
    let mut status: SyncStatus<u64> = SyncStatus::new();
    assert!(!status.running);
    assert_eq!(status.try_start(), Ok(()));
    assert!(status.running);
    assert_eq!(
        status.try_start(),
        Err(AppError::BadRequest("a sync is already running".to_string()))
    );
    status.finish(7, Ok(synced_message(3)));
    assert!(!status.running);
    assert_eq!(status.last_finished_at, Some(7));
    assert_eq!(status.last_result.as_deref(), Some("synced 3 assets"));
    assert_eq!(status.try_start(), Ok(()));
}

#[test]
fn failed_run_records_error_description() {
    let mut status: SyncStatus<u64> = SyncStatus::new();
    status.try_start().unwrap();
    status.finish(1, Err(AppError::External("github down".to_string())));
    assert_eq!(status.last_result.as_deref(), Some("failed: external service error: github down"));
    assert!(!status.running);
}

#[test]
fn sync_started_answer() {
    let r = sync_started_response();
    assert_eq!(r.synced, 0);
    assert_eq!(r.message, "sync started in background");
}

#[test]
fn releases_filtered_by_tag() {
    assert!(keep_release("v0.2.0", Some("v0.2.0")));
    assert!(!keep_release("v0.1.0", Some("v0.2.0")));
    assert!(keep_release("v0.1.0", None));
}

#[test]
fn release_version_prefers_name() {
    assert_eq!(release_version(Some("Oak 1.0"), "v1.0.0"), "Oak 1.0");
    assert_eq!(release_version(None, "v1.0.0"), "v1.0.0");
}

#[test]
fn asset_status_transitions() {
    assert_eq!(status_pending(), "pending");
    assert_eq!(status_syncing(), "syncing");
    assert_eq!(status_ready(), "ready");
    assert_eq!(status_failed(), "failed");
    assert!(asset_needs_sync("pending"));
    assert!(asset_needs_sync("syncing"));
    assert!(asset_needs_sync("failed"));
    assert!(!asset_needs_sync("ready"));
    assert_eq!(status_after_copy(true), "ready");
    assert_eq!(status_after_copy(false), "failed");
}

#[test]
fn decimal_numbers() {
    assert_eq!(decimal_string(0), "0");
    assert_eq!(decimal_string(7), "7");
    assert_eq!(decimal_string(10), "10");
    assert_eq!(decimal_string(1234567890), "1234567890");
    assert_eq!(decimal_string(usize::MAX), usize::MAX.to_string());
    assert_eq!(synced_message(0), "synced 0 assets");
    assert_eq!(synced_message(42), "synced 42 assets");
}
