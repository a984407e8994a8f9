use ai_ask::updater::asset_matches_platform;
use ai_ask::updater::parse_version;
use ai_ask::updater::pick_latest_stable;
use ai_ask::updater::platform_arch_keywords;
use ai_ask::updater::platform_os_keywords;
use ai_ask::updater::select_asset;
use ai_ask::updater::GitHubAsset;
use ai_ask::updater::GitHubRelease;
use ai_ask::updater::PreparedRelease;
use ai_ask::updater::UpdateManager;

#[test]
fn parse_version_strips_prefix() {
    let version = parse_version("v1.2.3").expect("version should parse");
    assert_eq!(version.major, 1);
    assert_eq!(version.minor, 2);
    assert_eq!(version.patch, 3);
}

fn asset(name: &str, url: &str, size: Option<u64>) -> GitHubAsset {
    GitHubAsset {
        name: name.into(),
        browser_download_url: url.into(),
        size,
        content_type: None,
    }
}

#[test]
fn select_asset_prefers_matching_platform() {
    let os_keywords = platform_os_keywords("linux");
    let arch_keywords = platform_arch_keywords("x86_64");
    let matching_name = "app-linux-x86_64.zip".to_string();

    let assets = vec![
        asset("app-other.zip", "https://example.com/other", Some(1)),
        asset(&matching_name, "https://example.com/matching", Some(10)),
    ];

    let selected = select_asset(&assets, &os_keywords, &arch_keywords).expect("expected asset");
    assert_eq!(selected.name, matching_name);
}

#[test]
fn select_asset_returns_none_when_no_match() {
    let os_keywords = platform_os_keywords("linux");
    let arch_keywords = platform_arch_keywords("x86_64");
    let assets = vec![asset("unrelated.zip", "https://example.com/unrelated", Some(1))];

    assert!(select_asset(&assets, &os_keywords, &arch_keywords).is_none());
}

#[test]
fn select_asset_takes_largest_match() {
    let os_keywords = platform_os_keywords("windows");
    let arch_keywords = platform_arch_keywords("aarch64");
    let assets = vec![
        asset("app-win-arm64-lite.zip", "https://example.com/1", Some(5)),
        asset("app-win-arm64-full.zip", "https://example.com/2", Some(50)),
        asset("app-win-arm64-mid.zip", "https://example.com/3", Some(20)),
    ];
    let selected = select_asset(&assets, &os_keywords, &arch_keywords).unwrap();
    assert_eq!(selected.name, "app-win-arm64-full.zip");
}

#[test]
fn asset_matches_platform_is_case_insensitive() {
    let os_keywords = platform_os_keywords("macos");
    let arch_keywords = platform_arch_keywords("aarch64");
    let hit = asset("App-MacOS-ARM64.dmg", "https://example.com/a", Some(1));
    let miss = asset("App-Windows-x64.msi", "https://example.com/b", Some(1));
    assert!(asset_matches_platform(&hit, &os_keywords, &arch_keywords));
    assert!(!asset_matches_platform(&miss, &os_keywords, &arch_keywords));
}

fn feed_release(tag: &str, draft: bool, prerelease: bool) -> GitHubRelease {
    GitHubRelease {
        tag_name: tag.into(),
        body: None,
        draft,
        prerelease,
        assets: vec![],
    }
}

#[test]
fn pick_latest_stable_skips_drafts_and_prereleases() {
    let releases = vec![
        feed_release("v1.0.0", false, false),
        feed_release("v9.9.9", true, false),
        feed_release("v2.0.0-alpha.1", false, true),
        feed_release("v1.5.0", false, false),
        feed_release("garbage-tag", false, false),
    ];
    let picked = pick_latest_stable(&releases).expect("a stable release exists");
    assert_eq!(picked, 3);
    assert_eq!(releases[picked].tag_name, "v1.5.0");
}

#[test]
fn pick_latest_stable_returns_none_without_candidates() {
    let releases = vec![
        feed_release("v9.9.9", true, false),
        feed_release("v2.0.0-alpha.1", false, true),
    ];
    assert!(pick_latest_stable(&releases).is_none());
}

#[test]
fn update_manager_allows_one_download_at_a_time() {
    let mut manager = UpdateManager::default();
    assert!(manager.prepare_download().is_none());

    manager.store_release(PreparedRelease {
        version: "1.2.0".into(),
        repo: "example/app".into(),
        notes: None,
        asset: asset("app-linux-x86_64.zip", "https://example.com/app", Some(10)),
    });

    let claimed = manager.prepare_download().expect("release is pending");
    assert_eq!(claimed.version, "1.2.0");
    assert!(manager.is_downloading());
    assert!(manager.prepare_download().is_none());

    manager.finish_download();
    assert!(!manager.is_downloading());
    assert!(manager.prepare_download().is_some());
}
