use oak_website_backend::config::R2Config;
use oak_website_backend::r2::{release_object_key, R2Service};

fn test_r2_config(endpoint: &str) -> R2Config {
    R2Config {
        endpoint_url: endpoint.to_string(),
        access_key_id: "test-key".to_string(),
        secret_access_key: "test-secret".to_string(),
        bucket_name: "test-bucket".to_string(),
        public_domain: Some("https://cdn.example.com".to_string()),
        region: "auto".to_string(),
    }
}

#[test]
fn public_url_builds_cdn_link() {
    let config = test_r2_config("https://r2.example.com");
    let service = R2Service::new(&config);
    assert_eq!(
        service.public_url("releases/file.exe"),
        Some("https://cdn.example.com/releases/file.exe".to_string())
    );
}

#[test]
fn public_url_drops_trailing_slashes_of_domain() {
    let mut config = test_r2_config("https://r2.example.com");
    config.public_domain = Some("https://cdn.example.com//".to_string());
    let service = R2Service::new(&config);
    assert_eq!(service.public_url("a.exe"), Some("https://cdn.example.com/a.exe".to_string()));
}

#[test]
fn public_url_absent_without_domain() {
    let mut config = test_r2_config("https://r2.example.com");
    config.public_domain = None;
    let service = R2Service::new(&config);
    assert_eq!(service.bucket, "test-bucket");
    assert_eq!(service.public_url("a.exe"), None);
}

#[test]
fn release_keys_nest_under_release_id() {
    assert_eq!(release_object_key("abc", "oak.exe"), "releases/abc/oak.exe");
}
