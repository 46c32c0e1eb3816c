use oak_website_backend::error::AppError;
use oak_website_backend::releases::{
    client_ip, pick_update_asset, pick_update_release, select_download, update_download_path,
    AssetChoice,
};

fn asset(id: &str, platform: &str, arch: Option<&str>, status: &str, key: Option<&str>) -> AssetChoice {
    AssetChoice {
        id: id.to_string(),
        platform: platform.to_string(),
        arch: arch.map(|a| a.to_string()),
        sync_status: status.to_string(),
        r2_key: key.map(|k| k.to_string()),
    }
}

fn windows_assets() -> Vec<AssetChoice> {
    vec![
        asset("1", "windows", Some("x86_64"), "ready", Some("releases/a/oak.exe")),
        asset("2", "linux", Some("x86_64"), "ready", Some("releases/a/oak.AppImage")),
    ]
}

#[test]
fn download_redirects_to_presigned_url() {
    let assets = windows_assets();
    let (i, key) = select_download(&assets, None, Some("windows"), Some("x86_64")).unwrap();
    assert_eq!(i, 0);
    assert!(key.starts_with("releases/"));
}

#[test]
fn download_filters_by_arch() {
    let assets = windows_assets();
    let err = select_download(&assets, None, Some("windows"), Some("arm64")).unwrap_err();
    assert_eq!(err.status_code(), 404);
    assert_eq!(
        err,
        AppError::NotFound("no asset for platform windows arch Some(\"arm64\")".to_string())
    );
}

#[test]
fn download_rejects_not_ready_asset() {
    let assets = vec![asset("1234", "windows", Some("x86_64"), "pending", None)];
    let err = select_download(&assets, None, Some("windows"), None).unwrap_err();
    assert_eq!(err.status_code(), 400);
    assert_eq!(err, AppError::BadRequest("asset not ready yet".to_string()));
}

#[test]
fn download_returns_400_when_asset_not_ready() {
    let assets = vec![asset("1", "linux", None, "pending", None)];
    let err = select_download(&assets, None, Some("linux"), None).unwrap_err();
    assert_eq!(err.status_code(), 400);
}

#[test]
fn ready_status_without_stored_key_is_not_ready() {
    let assets = vec![asset("1", "linux", None, "ready", None)];
    assert_eq!(
        select_download(&assets, None, Some("linux"), None),
        Err(AppError::BadRequest("asset not ready yet".to_string()))
    );
}

#[test]
fn download_without_platform_asks_for_unknown() {
    let assets = windows_assets();
    assert_eq!(
        select_download(&assets, None, None, None),
        Err(AppError::NotFound("no asset for platform unknown arch None".to_string()))
    );
}

#[test]
fn download_by_asset_id_takes_precedence() {
    let assets = windows_assets();
    let (i, key) = select_download(&assets, Some("2"), Some("windows"), None).unwrap();
    assert_eq!(i, 1);
    assert_eq!(key, "releases/a/oak.AppImage");
    assert_eq!(
        select_download(&assets, Some("9"), None, None),
        Err(AppError::NotFound("no asset 9".to_string()))
    );
}

#[test]
fn first_fitting_asset_is_chosen() {
    let assets = vec![
        asset("1", "linux", Some("arm64"), "ready", Some("k1")),
        asset("2", "linux", Some("x86_64"), "ready", Some("k2")),
        asset("3", "linux", Some("x86_64"), "ready", Some("k3")),
    ];
    assert_eq!(select_download(&assets, None, Some("linux"), None), Ok((0, "k1".to_string())));
    assert_eq!(
        select_download(&assets, None, Some("linux"), Some("x86_64")),
        Ok((1, "k2".to_string()))
    );
}

#[test]
fn client_ip_prefers_forwarded_for() {
    assert_eq!(client_ip(Some("1.2.3.4"), Some("5.6.7.8")), Some("1.2.3.4".to_string()));
    assert_eq!(client_ip(None, Some("5.6.7.8")), Some("5.6.7.8".to_string()));
    assert_eq!(client_ip(None, None), None);
}

#[test]
fn latest_update_returns_404_when_empty() {
    assert_eq!(pick_update_release(&vec![]), None);
}

#[test]
fn latest_update_prefers_stable_over_newer_prerelease() {
    // Newest first: v2.0.0-rc.1 (pre-release), then v1.0.0 (stable).
    assert_eq!(pick_update_release(&vec![true, false]), Some(1));
}

#[test]
fn latest_update_falls_back_to_prerelease_when_no_stable() {
    assert_eq!(pick_update_release(&vec![true]), Some(0));
    assert_eq!(pick_update_release(&vec![true, true]), Some(0));
    assert_eq!(pick_update_release(&vec![false, false]), Some(0));
}

#[test]
fn latest_update_returns_download_url_for_ready_platform_asset() {
    let assets = vec![
        asset("10", "windows", Some("x86_64"), "ready", Some("releases/v1.0.0/oak-setup.exe")),
        asset("11", "linux", Some("x86_64"), "pending", None),
    ];
    let i = pick_update_asset(&assets, Some("windows"), Some("x86_64")).unwrap();
    assert_eq!(i, 0);
    assert_eq!(
        update_download_path("r1", &assets[i].id),
        "/api/v1/releases/r1/download?asset_id=10"
    );
    assert_eq!(pick_update_asset(&assets, Some("linux"), None), None);
    assert_eq!(pick_update_asset(&assets, None, None), None);
}
