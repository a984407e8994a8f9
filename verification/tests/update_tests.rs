use ai_ask::update::build_cached_release;
use ai_ask::update::classify_asset;
use ai_ask::update::extract_installation_info;
use ai_ask::update::make_check_update_response;
use ai_ask::update::parse_version;
use ai_ask::update::sanitize_filename;
use ai_ask::update::select_asset_for_current_platform;
use ai_ask::update::should_skip_release;
use ai_ask::update::u64_to_string;
use ai_ask::update::update_task_status;
use ai_ask::update::CachedAsset;
use ai_ask::update::DownloadStatus;
use ai_ask::update::DownloadTask;
use ai_ask::update::DownloadTaskInternal;
use ai_ask::update::GithubAsset;
use ai_ask::update::GithubRelease;
use ai_ask::update::ReleaseAsset;

fn mock_release(tag: &str, prerelease: bool) -> GithubRelease {
    GithubRelease {
        tag_name: tag.to_string(),
        draft: false,
        prerelease,
        published_at: Some("2025-01-01T00:00:00Z".into()),
        body: Some("- Fix issue #1\n- Add new feature".into()),
        html_url: Some("https://example.com/releases".into()),
        assets: vec![],
    }
}

#[test]
fn classify_asset_matches_windows_arm() {
    let result = classify_asset("AIAsk-setup-win-arm64.exe");
    assert_eq!(result, Some(("windows", Some("arm64"))));
}

#[test]
fn classify_asset_matches_windows_msi() {
    let result = classify_asset("AI.Ask_0.0.1-2_x64_en-US.msi");
    assert_eq!(result, Some(("windows", Some("x64"))));
}

#[test]
fn classify_asset_matches_macos_universal() {
    let result = classify_asset("AIAsk-macOS-universal.dmg");
    assert_eq!(result, Some(("macos", Some("universal"))));
}

#[test]
fn classify_asset_filters_unknown() {
    let result = classify_asset("AIAsk-source.zip");
    assert!(result.is_none());
}

#[test]
fn classify_asset_matches_linux_appimage() {
    let result = classify_asset("AI.Ask_0.0.1-alpha.2_amd64.AppImage");
    assert_eq!(result, Some(("linux", Some("x64"))));
}

#[test]
fn classify_asset_matches_macos_arm64() {
    let result = classify_asset("AI.Ask_0.0.1-alpha.2_aarch64.dmg");
    assert_eq!(result, Some(("macos", Some("arm64"))));
}

fn make_download(status: DownloadStatus, path: Option<String>) -> DownloadTaskInternal {
    DownloadTaskInternal {
        task: DownloadTask {
            id: "task-1".into(),
            status,
            started_at: "2025-01-01T00:00:00Z".into(),
            completed_at: Some("2025-01-01T00:00:10Z".into()),
            error: None,
            target_asset: ReleaseAsset {
                id: "asset-1".into(),
                name: "Installer.pkg".into(),
                platform: "macos".into(),
                arch: Some("arm64".into()),
                download_url: "https://example.com/installer".into(),
                size: Some(1024),
                checksum: None,
            },
            bytes_total: Some(1024),
            bytes_downloaded: Some(1024),
        },
        release_version: "0.0.1-alpha.2".into(),
        download_path: path,
    }
}

#[test]
fn extract_installation_info_returns_expected_values() {
    let installer = "updates/0.0.1-alpha.2-Installer.pkg".to_string();
    let download = make_download(DownloadStatus::Completed, Some(installer.clone()));

    let (path, version, asset) = extract_installation_info(&download).expect("extract info succeeds");

    assert_eq!(path, installer);
    assert_eq!(version, "0.0.1-alpha.2");
    assert_eq!(asset, "Installer.pkg");
}

#[test]
fn extract_installation_info_fails_for_incomplete_download() {
    let installer = "updates/0.0.1-alpha.2-Installer.pkg".to_string();
    let download = make_download(DownloadStatus::Running, Some(installer));

    let error = extract_installation_info(&download).expect_err("expect failure");
    assert!(error.contains("Download not completed"));
}

#[test]
fn extract_installation_info_fails_when_path_missing() {
    let download = make_download(DownloadStatus::Completed, None);
    let error = extract_installation_info(&download).expect_err("expect missing path");
    assert!(error.contains("installer path missing"));
}

#[test]
fn build_cached_release_collects_expected_assets() {
    let mut release = mock_release("v0.0.1-alpha.2", true);
    release.assets = vec![
        GithubAsset {
            id: 1,
            name: "AI.Ask_0.0.1-2_x64-setup.exe".into(),
            browser_download_url: "https://example.com/win-x64.exe".into(),
            size: Some(1024),
        },
        GithubAsset {
            id: 2,
            name: "AI.Ask_0.0.1-2_arm64-setup.exe".into(),
            browser_download_url: "https://example.com/win-arm64.exe".into(),
            size: Some(1024),
        },
        GithubAsset {
            id: 3,
            name: "AI.Ask_0.0.1-2_x64_en-US.msi".into(),
            browser_download_url: "https://example.com/win-x64.msi".into(),
            size: Some(1024),
        },
        GithubAsset {
            id: 4,
            name: "AI.Ask_0.0.1-2_arm64_en-US.msi".into(),
            browser_download_url: "https://example.com/win-arm64.msi".into(),
            size: Some(1024),
        },
        GithubAsset {
            id: 5,
            name: "AI.Ask_0.0.1-alpha.2_x64.dmg".into(),
            browser_download_url: "https://example.com/macos-x64.dmg".into(),
            size: Some(1024),
        },
        GithubAsset {
            id: 6,
            name: "AI.Ask_0.0.1-alpha.2_aarch64.dmg".into(),
            browser_download_url: "https://example.com/macos-arm64.dmg".into(),
            size: Some(1024),
        },
        GithubAsset {
            id: 7,
            name: "AI.Ask_0.0.1-alpha.2_amd64.AppImage".into(),
            browser_download_url: "https://example.com/linux.appimage".into(),
            size: Some(1024),
        },
        GithubAsset {
            id: 8,
            name: "AI.Ask_0.0.1-alpha.2_amd64.deb".into(),
            browser_download_url: "https://example.com/linux.deb".into(),
            size: Some(1024),
        },
    ];

    let cached = build_cached_release("0.0.1-alpha.2".into(), release).expect("cache build");
    assert_eq!(cached.assets.len(), 8);

    let platforms: Vec<_> = cached
        .assets
        .iter()
        .map(|asset| (asset.meta.platform.as_str(), asset.meta.arch.clone()))
        .collect();
    assert!(platforms.contains(&("windows", Some("x64".into()))));
    assert!(platforms.contains(&("windows", Some("arm64".into()))));
    assert!(platforms.contains(&("macos", Some("x64".into()))));
    assert!(platforms.contains(&("macos", Some("arm64".into()))));
    assert!(platforms.iter().any(|(platform, _)| *platform == "linux"));
}

#[test]
fn skip_release_skips_pre_release_on_stable_channel() {
    let current = parse_version("0.0.1").unwrap();
    let target = parse_version("0.0.2-alpha.1").unwrap();
    let release = mock_release("v0.0.2-alpha.1", true);

    assert!(should_skip_release(&current, &target, &release));
}

#[test]
fn skip_release_allows_newer_pre_release_on_pre_channel() {
    let current = parse_version("0.0.1-alpha.1").unwrap();
    let target = parse_version("0.0.1-alpha.2").unwrap();
    let release = mock_release("v0.0.1-alpha.2", true);

    assert!(!should_skip_release(&current, &target, &release));
}

#[test]
fn skip_release_returns_true_for_older_or_equal_version() {
    let current = parse_version("0.0.1").unwrap();
    let target = parse_version("0.0.1").unwrap();
    let release = mock_release("v0.0.1", false);

    assert!(should_skip_release(&current, &target, &release));
}

#[test]
fn skip_release_returns_false_for_newer_stable_version() {
    let current = parse_version("0.0.1-alpha.1").unwrap();
    let target = parse_version("0.0.1").unwrap();
    let release = mock_release("v0.0.1", false);

    assert!(!should_skip_release(&current, &target, &release));
}

#[test]
fn build_cached_release_trims_release_notes() {
    let mut release = mock_release("v1.0.0", false);
    release.body = Some("  notes here \n".into());
    let cached = build_cached_release("1.0.0".into(), release).unwrap();
    assert_eq!(cached.release_notes, Some("notes here".to_string()));

    let mut blank = mock_release("v1.0.0", false);
    blank.body = Some("   \n ".into());
    let cached = build_cached_release("1.0.0".into(), blank).unwrap();
    assert!(cached.release_notes.is_none());
}

#[test]
fn parse_version_strips_repeated_prefix() {
    let v = parse_version("v1.2.3").expect("version should parse");
    assert_eq!(v.major, 1);
    assert_eq!(v.minor, 2);
    assert_eq!(v.patch, 3);
    assert!(parse_version("not-a-version").is_none());
}

#[test]
fn u64_to_string_prints_decimal() {
    assert_eq!(u64_to_string(0), "0");
    assert_eq!(u64_to_string(7), "7");
    assert_eq!(u64_to_string(1024), "1024");
    assert_eq!(u64_to_string(18446744073709551615), "18446744073709551615");
}

#[test]
fn sanitize_filename_replaces_unsafe_characters() {
    assert_eq!(sanitize_filename("AI Ask 0.1/installer!.msi"), "AI_Ask_0.1_installer_.msi");
    assert_eq!(sanitize_filename("plain_name.exe"), "plain_name.exe");
}

fn cached_asset(platform: &str, arch: Option<&str>, name: &str) -> CachedAsset {
    CachedAsset {
        id: 1,
        meta: ReleaseAsset {
            id: "1".into(),
            name: name.into(),
            platform: platform.into(),
            arch: arch.map(|a| a.to_string()),
            download_url: "https://example.com/a".into(),
            size: Some(1),
            checksum: None,
        },
    }
}

#[test]
fn select_asset_for_platform_prefers_arch_match() {
    let assets = vec![
        cached_asset("windows", Some("arm64"), "win-arm.exe"),
        cached_asset("windows", Some("x64"), "win-x64.exe"),
    ];
    let picked = select_asset_for_current_platform(&assets, "windows", Some("x64")).unwrap();
    assert_eq!(picked.meta.name, "win-x64.exe");
}

#[test]
fn select_asset_for_platform_falls_back_to_platform_only() {
    let assets = vec![
        cached_asset("macos", Some("arm64"), "mac-arm.dmg"),
        cached_asset("windows", Some("arm64"), "win-arm.exe"),
    ];
    let picked = select_asset_for_current_platform(&assets, "windows", Some("x64")).unwrap();
    assert_eq!(picked.meta.name, "win-arm.exe");
    assert!(select_asset_for_current_platform(&assets, "linux", Some("x64")).is_none());
}

#[test]
fn update_task_status_records_failure_time() {
    let mut task = make_download(DownloadStatus::Running, None);
    update_task_status(
        &mut task,
        DownloadStatus::Failed,
        Some("network down".into()),
        "2025-02-02T00:00:00Z",
    );
    assert_eq!(task.task.status, DownloadStatus::Failed);
    assert_eq!(task.task.error, Some("network down".to_string()));
    assert_eq!(task.task.completed_at, Some("2025-02-02T00:00:00Z".to_string()));
}

#[test]
fn make_check_update_response_reports_no_update() {
    let response = make_check_update_response(None);
    assert!(!response.has_update);
    assert!(response.latest_version.is_none());
    assert!(response.assets.is_empty());
}

#[test]
fn make_check_update_response_carries_release_data() {
    let mut release = mock_release("v1.2.0", false);
    release.assets = vec![GithubAsset {
        id: 9,
        name: "app-windows-x64.msi".into(),
        browser_download_url: "https://example.com/app.msi".into(),
        size: Some(2048),
    }];
    let cached = build_cached_release("1.2.0".into(), release).unwrap();
    let response = make_check_update_response(Some(&cached));
    assert!(response.has_update);
    assert_eq!(response.latest_version, Some("1.2.0".to_string()));
    assert_eq!(response.assets.len(), 1);
    assert_eq!(response.assets[0].id, "9");
    assert_eq!(response.assets[0].platform, "windows");
}
