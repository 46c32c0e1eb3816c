use oak_website_backend::config::{default_github_api_base, GithubConfig};
use oak_website_backend::github::{
    classify_lowercase_name, infer_platform_arch, is_debug_lowercase_name, is_debug_package,
    GithubClient,
};

fn test_config(api_base: &str, token: Option<String>) -> GithubConfig {
    GithubConfig {
        owner: "OakVideoEditorCommunity".to_string(),
        repo: "oak".to_string(),
        token,
        api_base: api_base.to_string(),
    }
}

#[test]
fn new_normalizes_empty_token_to_none() {
    let config = test_config("https://api.github.com", Some("   ".to_string()));
    let client = GithubClient::new(&config);
    assert!(client.token.is_none());
    assert_eq!(client.api_base, "https://api.github.com");
}

#[test]
fn new_keeps_non_empty_token() {
    let config = test_config("https://api.github.com", Some("ghp_secret".to_string()));
    let client = GithubClient::new(&config);
    assert_eq!(client.token, Some("ghp_secret".to_string()));
}

#[test]
fn new_treats_unicode_blank_token_as_none() {
    let config = test_config("https://api.github.com", Some("\u{3000}\t\n".to_string()));
    let client = GithubClient::new(&config);
    assert!(client.token.is_none());
}

#[test]
fn new_keeps_token_with_surrounding_spaces_untrimmed() {
    let config = test_config("https://api.github.com", Some(" ghp_x ".to_string()));
    let client = GithubClient::new(&config);
    assert_eq!(client.token, Some(" ghp_x ".to_string()));
}

#[test]
fn releases_url_and_authorization() {
    let client = GithubClient::new(&test_config("http://127.0.0.1:9", Some("ghp_secret".to_string())));
    assert_eq!(client.releases_url(), "http://127.0.0.1:9/repos/OakVideoEditorCommunity/oak/releases");
    assert_eq!(client.authorization(), Some("Bearer ghp_secret".to_string()));
    assert_eq!(GithubClient::user_agent(), "oak-website-backend");
    let anonymous = GithubClient::new(&test_config("https://api.github.com", None));
    assert_eq!(anonymous.authorization(), None);
}

#[test]
fn default_api_base_is_public_github() {
    assert_eq!(default_github_api_base(), "https://api.github.com");
}

#[test]
fn infer_linux_tar_gz() {
    let (platform, arch) = infer_platform_arch("oak-0.1.0-linux-x86_64.tar.gz");
    assert_eq!(platform, "linux");
    assert_eq!(arch, Some("x86_64".to_string()));
}

#[test]
fn infer_linux_rpm() {
    let (platform, arch) = infer_platform_arch("oak-0.1.0.x86_64.rpm");
    assert_eq!(platform, "linux");
    assert_eq!(arch, Some("x86_64".to_string()));
}

#[test]
fn infer_pkg_tar() {
    let (platform, arch) = infer_platform_arch("oak-0.1.0-1-x86_64.pkg.tar.zst");
    assert_eq!(platform, "linux");
    assert_eq!(arch, Some("x86_64".to_string()));
}

#[test]
fn infer_windows_zip() {
    let (platform, arch) = infer_platform_arch("oak-0.1.0-win.zip");
    assert_eq!(platform, "windows");
    assert_eq!(arch, None);
}

#[test]
fn infer_macos_app() {
    let (platform, arch) = infer_platform_arch("Oak-0.1.0-macOS-aarch64.dmg");
    assert_eq!(platform, "macos");
    assert_eq!(arch, Some("arm64".to_string()));
}

#[test]
fn infer_completely_unknown() {
    let (platform, arch) = infer_platform_arch("README.md");
    assert_eq!(platform, "unknown");
    assert_eq!(arch, None);
}

#[test]
fn infer_is_case_insensitive() {
    let (platform, arch) = infer_platform_arch("OAK-SETUP-X64.EXE");
    assert_eq!(platform, "windows");
    assert_eq!(arch, Some("x86_64".to_string()));
}

#[test]
fn infer_windows_wins_over_later_rules() {
    // "darwin" contains "win": the Windows rule is checked first.
    assert_eq!(infer_platform_arch("oak-darwin.dmg").0, "windows");
    assert_eq!(
        infer_platform_arch("oak-0.1.0-darwin-arm64.tar.gz"),
        ("windows".to_string(), Some("arm64".to_string()))
    );
}

#[test]
fn infer_appimage_and_deb() {
    assert_eq!(infer_platform_arch("Oak_Video_Editor-x86_64.AppImage").0, "linux");
    assert_eq!(
        infer_platform_arch("oak-video-editor_0.4.0-alpha_amd64.deb"),
        ("linux".to_string(), Some("x86_64".to_string()))
    );
}

#[test]
fn infer_kelvin_sign_lowercases_to_k() {
    // U+212A KELVIN SIGN lower-cases to an ASCII 'k'; "\u{212A}" is not "k" before lowering.
    let (platform, _) = infer_platform_arch("oa\u{212A}.pkg.tar.zst");
    assert_eq!(platform, "linux");
}

#[test]
fn classify_takes_lowercase_input_verbatim() {
    // Upper case is not folded here: only infer_platform_arch lower-cases.
    assert_eq!(classify_lowercase_name("OAK.EXE").0, "unknown");
    assert_eq!(classify_lowercase_name("oak.exe").0, "windows");
    assert_eq!(classify_lowercase_name("oak-arm64-x64").1, Some("arm64".to_string()));
}

#[test]
fn detects_arch_debug_package() {
    // Real asset name from the oak v0.4.0-alpha release.
    assert!(is_debug_package(
        "oak-video-editor-debug-0.4.0_alpha-1-x86_64.pkg.tar.zst"
    ));
}

#[test]
fn detects_symbol_and_debug_suffix_packages() {
    assert!(is_debug_package("oak-0.1.0.symbols.tar.zst"));
    assert!(is_debug_package("oak-0.1.0.debug"));
}

#[test]
fn keeps_regular_packages() {
    assert!(!is_debug_package("oak-video-editor-0.4.0_alpha-1-x86_64.pkg.tar.zst"));
    assert!(!is_debug_package("Oak_Video_Editor-x86_64.AppImage"));
    assert!(!is_debug_package("oak-video-editor_0.4.0-alpha_amd64.deb"));
    assert!(!is_debug_package("oak-video-editor-0.4.0-alpha-Linux.rpm"));
    assert!(!is_debug_package("Oak-Video-Editor-macOS.dmg"));
    assert!(!is_debug_package("Oak-Video-Editor-Windows-x64.exe"));
}

#[test]
fn debug_detection_ignores_case() {
    assert!(is_debug_package("OAK-DEBUG-1.PKG.TAR.ZST"));
    assert!(!is_debug_lowercase_name("OAK-DEBUG-1.PKG.TAR.ZST"));
    assert!(is_debug_lowercase_name("oak-debug-1.pkg.tar.zst"));
}

#[test]
fn classification_ignores_letter_case() {
    let (platform, arch) = infer_platform_arch("OAK-0.1.0-WIN-X64.ZIP");
    assert_eq!(platform, "windows");
    assert_eq!(arch.as_deref(), Some("x86_64"));
    assert!(is_debug_package("OAK-0.1.0.DEBUG"));
    assert!(is_debug_package("Oak-Video-Editor-DEBUG-0.4.0.pkg.tar.zst"));
}
