use cockpit_tools::platform_package::{
    record_installed_validation,
    build_state, compare_versions, ensure_platform_package_installed, ensure_supported_platform,
    get_record, installed_platform_adapter, is_platform_package_runtime_ready, join_path,
    manifest_from_remote_package, parse_version, pick_latest_source, safe_relative_path,
    selected_adapter_entry, selected_remote_artifact, upsert_record, validate_adapter,
    validate_manifest_entry, validate_manifest_metadata, validate_manifest_runtime,
    validate_platform_contributions, validate_remote_download_url, validate_sha256_hex,
    validate_ui, PersistedPlatformPackage, PlatformPackageAdapter, PlatformPackageContributions,
    PlatformPackageManifest, PlatformPackagePlatformContribution, PlatformPackageRegistry,
    PlatformPackageRemoteArtifact, PlatformPackageRemotePackage, PlatformPackageRuntimeEntry,
    PlatformPackageSource, PlatformPackageUi,
};
use std::cmp::Ordering;

fn no_contributions() -> PlatformPackageContributions {
    PlatformPackageContributions {
        platforms: Vec::new(),
        data_paths: Vec::new(),
        local_storage_keys: Vec::new(),
        native_boundaries: Vec::new(),
    }
}

fn zed_contributions() -> PlatformPackageContributions {
    PlatformPackageContributions {
        platforms: vec![PlatformPackagePlatformContribution {
            id: "zed".to_string(),
            label: "Zed".to_string(),
            label_key: None,
            icon_key: None,
            page: "zed".to_string(),
        }],
        data_paths: vec!["zed/accounts".to_string()],
        local_storage_keys: vec!["zed.accounts".to_string()],
        native_boundaries: Vec::new(),
    }
}

fn test_manifest(version: &str) -> PlatformPackageManifest {
    PlatformPackageManifest {
        id: "zed".to_string(),
        platform_id: "zed".to_string(),
        version: version.to_string(),
        api_version: 1,
        min_core_version: "0.0.0".to_string(),
        display_name: "Zed".to_string(),
        entry: "runtime/index.json".to_string(),
        package_mode: "hotUpdate".to_string(),
        install_kind: "coreNativeBoundary".to_string(),
        adapter: None,
        ui: None,
        capabilities: vec!["accounts".to_string()],
        contributions: no_contributions(),
        changelog: Vec::new(),
        download_size_bytes: None,
        sha256: None,
        signature: None,
    }
}

fn test_remote_package(version: &str) -> PlatformPackageRemotePackage {
    PlatformPackageRemotePackage {
        id: "zed".to_string(),
        platform_id: "zed".to_string(),
        version: version.to_string(),
        api_version: 1,
        min_core_version: "0.0.0".to_string(),
        display_name: "Zed".to_string(),
        entry: "runtime/index.json".to_string(),
        package_mode: "hotUpdate".to_string(),
        install_kind: "coreNativeBoundary".to_string(),
        adapter: None,
        ui: None,
        capabilities: vec!["accounts".to_string()],
        contributions: no_contributions(),
        changelog: Vec::new(),
        artifacts: Vec::new(),
        download_url: Some("https://example.com/zed.zip".to_string()),
        download_size_bytes: Some(1),
        sha256: Some("0".repeat(64)),
        signature: None,
    }
}

#[test]
fn rejects_unsafe_runtime_entry_path() {
    assert!(safe_relative_path("../runtime/index.json", "entry").is_err());
    assert!(safe_relative_path("/runtime/index.json", "entry").is_err());
    assert!(safe_relative_path("runtime/index.json", "entry").is_ok());
}

#[test]
fn prefers_local_source_when_remote_version_matches() {
    let remote = PlatformPackageSource::Remote {
        package: test_remote_package("1.0.0"),
        manifest: test_manifest("1.0.0"),
    };
    let local = PlatformPackageSource::Local {
        dir: "/tmp/zed-local".to_string(),
        manifest: test_manifest("1.0.0"),
    };

    let picked = pick_latest_source(Some(remote), Some(local)).expect("source");
    assert!(matches!(picked, PlatformPackageSource::Local { .. }));
}

#[test]
fn prefers_remote_source_when_remote_version_is_newer() {
    let remote = PlatformPackageSource::Remote {
        package: test_remote_package("1.1.0"),
        manifest: test_manifest("1.1.0"),
    };
    let local = PlatformPackageSource::Local {
        dir: "/tmp/zed-local".to_string(),
        manifest: test_manifest("1.0.0"),
    };

    let picked = pick_latest_source(Some(remote), Some(local)).expect("source");
    assert!(matches!(picked, PlatformPackageSource::Remote { .. }));
}

#[test]
fn safe_relative_path_reports_each_complaint() {
    assert_eq!(safe_relative_path("   ", "entry").unwrap_err(), "entry 为空");
    assert_eq!(
        safe_relative_path("/abs", "entry").unwrap_err(),
        "entry 不能是绝对路径: /abs"
    );
    assert_eq!(
        safe_relative_path("a/../b", "entry").unwrap_err(),
        "entry 包含不安全路径片段: a/../b"
    );
    assert_eq!(safe_relative_path("  a/b.js ", "entry").unwrap(), "a/b.js");
}

#[test]
fn versions_compare_by_three_numeric_parts() {
    assert_eq!(parse_version(" 1.2.3-beta "), vec![1, 2, 3]);
    assert_eq!(parse_version("1.x.4.9"), vec![1, 0, 4]);
    assert_eq!(compare_versions("1.2", "1.2.0"), Ordering::Equal);
    assert_eq!(compare_versions("1.10.0", "1.9.9"), Ordering::Greater);
    assert_eq!(compare_versions("0.9", "1"), Ordering::Less);
}

#[test]
fn only_supported_platforms_are_accepted() {
    assert!(ensure_supported_platform("zed").is_ok());
    assert!(ensure_supported_platform("codex").is_ok());
    assert_eq!(
        ensure_supported_platform("emacs").unwrap_err(),
        "平台暂不支持热更新包: emacs"
    );
}

#[test]
fn contributions_must_name_their_own_platform() {
    assert!(validate_platform_contributions("zed", &zed_contributions()).is_ok());
    assert_eq!(
        validate_platform_contributions("zed", &no_contributions()).unwrap_err(),
        "平台包缺少平台贡献: zed"
    );
    let mut c = zed_contributions();
    c.platforms.push(PlatformPackagePlatformContribution {
        id: "kiro".to_string(),
        label: "Kiro".to_string(),
        label_key: None,
        icon_key: None,
        page: "kiro".to_string(),
    });
    assert_eq!(
        validate_platform_contributions("zed", &c).unwrap_err(),
        "平台包贡献包含非本平台 ID: kiro"
    );
    let mut c = zed_contributions();
    c.platforms[0].label = " ".to_string();
    assert_eq!(
        validate_platform_contributions("zed", &c).unwrap_err(),
        "平台包贡献 label 为空"
    );
    let mut c = zed_contributions();
    c.data_paths.push("../etc".to_string());
    assert_eq!(
        validate_platform_contributions("zed", &c).unwrap_err(),
        "平台包 dataPath 包含不安全路径片段: ../etc"
    );
    let mut c = zed_contributions();
    c.local_storage_keys.push("  ".to_string());
    assert_eq!(
        validate_platform_contributions("zed", &c).unwrap_err(),
        "平台包 localStorage key 为空"
    );
}

#[test]
fn manifest_metadata_rules() {
    let mut m = test_manifest("1.0.0");
    m.contributions = zed_contributions();
    assert!(validate_manifest_metadata("zed", &m, "1.0.0").is_ok());

    let mut other = m.clone_for_test();
    other.id = "kiro".to_string();
    assert_eq!(
        validate_manifest_metadata("zed", &other, "1.0.0").unwrap_err(),
        "平台包 ID 不匹配: expected=zed, id=kiro, platformId=zed"
    );
    let mut other = m.clone_for_test();
    other.package_mode = "full".to_string();
    assert_eq!(
        validate_manifest_metadata("zed", &other, "1.0.0").unwrap_err(),
        "平台包模式非法: full"
    );
    let mut other = m.clone_for_test();
    other.api_version = 2;
    assert_eq!(
        validate_manifest_metadata("zed", &other, "1.0.0").unwrap_err(),
        "平台包协议版本不兼容: expected=1, actual=2"
    );
    let mut other = m.clone_for_test();
    other.min_core_version = "2.0.0".to_string();
    assert_eq!(
        validate_manifest_metadata("zed", &other, "1.9.9").unwrap_err(),
        "主应用版本不兼容，平台包需要 2.0.0 或更高版本"
    );
    let mut other = m.clone_for_test();
    other.capabilities.clear();
    assert_eq!(
        validate_manifest_metadata("zed", &other, "1.0.0").unwrap_err(),
        "平台包 capabilities 为空"
    );
    assert!(validate_manifest_entry("zed", &m, "1.0.0", true).is_ok());
    assert_eq!(
        validate_manifest_entry("zed", &m, "1.0.0", false).unwrap_err(),
        "平台包 runtime entry 不存在: runtime/index.json"
    );
}

trait CloneForTest {
    fn clone_for_test(&self) -> Self;
}

impl CloneForTest for PlatformPackageManifest {
    fn clone_for_test(&self) -> Self {
        let mut m = test_manifest(&self.version);
        m.id = self.id.clone();
        m.platform_id = self.platform_id.clone();
        m.api_version = self.api_version;
        m.min_core_version = self.min_core_version.clone();
        m.package_mode = self.package_mode.clone();
        m.install_kind = self.install_kind.clone();
        m.capabilities = self.capabilities.clone();
        m.contributions = zed_contributions();
        m
    }
}

fn test_adapter() -> PlatformPackageAdapter {
    PlatformPackageAdapter {
        protocol: " http-json-v1 ".to_string(),
        entry: "bin/adapter".to_string(),
        macos_entry: Some("bin/adapter-macos".to_string()),
        windows_entry: None,
        linux_entry: Some("bin/adapter-linux".to_string()),
        methods: vec!["accounts.list".to_string()],
    }
}

#[test]
fn adapter_entry_follows_the_operating_system() {
    let a = test_adapter();
    assert_eq!(selected_adapter_entry(&a, "macos"), "bin/adapter-macos");
    assert_eq!(selected_adapter_entry(&a, "linux"), "bin/adapter-linux");
    assert_eq!(selected_adapter_entry(&a, "windows"), "bin/adapter");
    assert_eq!(selected_adapter_entry(&a, "freebsd"), "bin/adapter");
}

#[test]
fn adapter_declarations_are_checked() {
    let mut m = test_manifest("1.0.0");
    assert!(validate_adapter("zed", &m, "linux", false).is_ok());
    m.install_kind = "sidecarAdapter".to_string();
    assert_eq!(
        validate_adapter("zed", &m, "linux", false).unwrap_err(),
        "sidecarAdapter 平台包缺少 adapter 声明: zed"
    );
    m.adapter = Some(test_adapter());
    assert!(validate_adapter("zed", &m, "linux", true).is_ok());
    assert_eq!(
        validate_adapter("zed", &m, "linux", false).unwrap_err(),
        "平台包 adapter entry 不存在: bin/adapter-linux"
    );
    let mut a = test_adapter();
    a.protocol = "grpc".to_string();
    m.adapter = Some(a);
    assert_eq!(
        validate_adapter("zed", &m, "linux", true).unwrap_err(),
        "平台包 adapter 协议不支持: grpc"
    );
}

fn remote_ui() -> PlatformPackageUi {
    PlatformPackageUi {
        protocol: "react-remote-esm-v1".to_string(),
        entry: "ui/index.MJS".to_string(),
        style: Some("ui/style.css".to_string()),
        exports: vec!["mount".to_string()],
        sandbox: None,
    }
}

#[test]
fn user_interface_declarations_are_checked() {
    let mut m = test_manifest("1.0.0");
    assert!(validate_ui(&m, false, false).is_ok());
    m.ui = Some(remote_ui());
    assert!(validate_ui(&m, true, true).is_ok());
    assert_eq!(
        validate_ui(&m, false, true).unwrap_err(),
        "平台包 UI entry 不存在: ui/index.MJS"
    );
    assert_eq!(
        validate_ui(&m, true, false).unwrap_err(),
        "平台包 UI style 不存在: ui/style.css"
    );
    let mut ui = remote_ui();
    ui.entry = "ui/index.html".to_string();
    m.ui = Some(ui);
    assert_eq!(
        validate_ui(&m, true, true).unwrap_err(),
        "平台包 remote UI entry 必须是 JS/MJS 文件: ui/index.html"
    );
    let mut ui = remote_ui();
    ui.exports = vec!["render".to_string()];
    m.ui = Some(ui);
    assert_eq!(
        validate_ui(&m, true, true).unwrap_err(),
        "平台包 remote UI 必须声明 mount 导出"
    );
    let mut ui = remote_ui();
    ui.style = Some("ui/style.txt".to_string());
    m.ui = Some(ui);
    assert_eq!(
        validate_ui(&m, true, true).unwrap_err(),
        "平台包 UI style 必须是 CSS 文件: ui/style.txt"
    );
    m.ui = Some(PlatformPackageUi {
        protocol: "iframe-html-v1".to_string(),
        entry: "ui/page.html".to_string(),
        style: None,
        exports: Vec::new(),
        sandbox: Some("allow-scripts  allow-forms".to_string()),
    });
    assert!(validate_ui(&m, true, false).is_ok());
    m.ui = Some(PlatformPackageUi {
        protocol: "iframe-html-v1".to_string(),
        entry: "ui/page.html".to_string(),
        style: None,
        exports: Vec::new(),
        sandbox: Some("allow-scripts allow-same-origin".to_string()),
    });
    assert_eq!(
        validate_ui(&m, true, false).unwrap_err(),
        "平台包 UI sandbox 权限不支持: allow-same-origin"
    );
    m.ui = Some(PlatformPackageUi {
        protocol: "vue".to_string(),
        entry: "ui/page.html".to_string(),
        style: None,
        exports: Vec::new(),
        sandbox: None,
    });
    assert_eq!(validate_ui(&m, true, false).unwrap_err(), "平台包 UI 协议不支持: vue");
}

#[test]
fn runtime_entry_must_agree_with_manifest() {
    let m = test_manifest("1.0.0");
    let rt = PlatformPackageRuntimeEntry {
        package_id: "zed".to_string(),
        platform_id: "zed".to_string(),
        api_version: 1,
        adapter: None,
        ui: None,
        capabilities: vec!["accounts".to_string()],
        contributions: no_contributions(),
    };
    assert!(validate_manifest_runtime("zed", &m, &rt, "linux", false, false, false).is_ok());
    let mut rt2 = PlatformPackageRuntimeEntry {
        package_id: "zed".to_string(),
        platform_id: "zed".to_string(),
        api_version: 1,
        adapter: None,
        ui: None,
        capabilities: vec!["accounts".to_string(), "quota".to_string()],
        contributions: no_contributions(),
    };
    assert_eq!(
        validate_manifest_runtime("zed", &m, &rt2, "linux", false, false, false).unwrap_err(),
        "平台包 manifest 与 runtime capabilities 不一致"
    );
    rt2.capabilities = vec!["accounts".to_string()];
    rt2.adapter = Some(test_adapter());
    assert_eq!(
        validate_manifest_runtime("zed", &m, &rt2, "linux", false, false, false).unwrap_err(),
        "平台包 manifest 与 runtime adapter 声明不一致"
    );
}

#[test]
fn remote_artifacts_are_chosen_for_the_machine() {
    let sha = "a".repeat(64);
    let mut p = test_remote_package("1.2.0");
    let a = selected_remote_artifact("zed", &p, "linux", "x86_64", false).unwrap();
    assert_eq!(a.os, "linux");
    assert_eq!(a.download_url, "https://example.com/zed.zip");
    assert_eq!(a.download_size_bytes, Some(1));

    p.artifacts = vec![
        PlatformPackageRemoteArtifact {
            os: "macos".to_string(),
            arch: "aarch64".to_string(),
            download_url: "https://example.com/zed-mac.zip".to_string(),
            download_size_bytes: None,
            sha256: sha.clone(),
            signature: None,
        },
        PlatformPackageRemoteArtifact {
            os: "linux".to_string(),
            arch: "x86_64".to_string(),
            download_url: "https://example.com/zed-linux.zip".to_string(),
            download_size_bytes: Some(7),
            sha256: sha.clone(),
            signature: Some("sig".to_string()),
        },
    ];
    let a = selected_remote_artifact("zed", &p, "linux", "x86_64", false).unwrap();
    assert_eq!(a.download_url, "https://example.com/zed-linux.zip");
    assert_eq!(a.download_size_bytes, Some(7));
    assert_eq!(a.signature.as_deref(), Some("sig"));
    let a = selected_remote_artifact("zed", &p, "macos", "aarch64", false).unwrap();
    assert_eq!(a.download_size_bytes, Some(1));
    assert_eq!(
        selected_remote_artifact("zed", &p, "windows", "x86_64", false).unwrap_err(),
        "当前平台没有可用平台包 artifact: platform=zed, target=windows/x86_64"
    );

    let mut p = test_remote_package("1.2.0");
    p.download_url = Some("http://example.com/zed.zip".to_string());
    assert_eq!(
        selected_remote_artifact("zed", &p, "linux", "x86_64", false).unwrap_err(),
        "平台包下载 URL 必须使用 https"
    );
    assert!(selected_remote_artifact("zed", &p, "linux", "x86_64", true).is_ok());
    let mut p = test_remote_package("1.2.0");
    p.sha256 = Some("xyz".to_string());
    assert_eq!(
        selected_remote_artifact("zed", &p, "linux", "x86_64", false).unwrap_err(),
        "平台包远端索引 sha256 非法: zed"
    );
    let mut p = test_remote_package("1.2.0");
    p.download_url = None;
    assert_eq!(
        selected_remote_artifact("zed", &p, "linux", "x86_64", false).unwrap_err(),
        "平台包远端索引缺少 downloadUrl: zed"
    );
}

#[test]
fn download_urls_and_digests() {
    assert!(validate_remote_download_url("https://example.com/a.zip", false).is_ok());
    assert!(validate_remote_download_url("ftp://example.com/a.zip", true).is_err());
    assert!(validate_remote_download_url("not a url", false)
        .unwrap_err()
        .starts_with("平台包下载 URL 非法: "));
    assert!(validate_sha256_hex("zed", &format!(" {} ", "Ab09".repeat(16))).is_ok());
    assert!(validate_sha256_hex("zed", &"g".repeat(64)).is_err());
}

#[test]
fn remote_manifest_takes_the_chosen_build() {
    let mut p = test_remote_package("1.2.0");
    p.contributions = zed_contributions();
    let m = manifest_from_remote_package("zed", &p, "linux", "x86_64", false, "1.0.0").unwrap();
    assert_eq!(m.version, "1.2.0");
    assert_eq!(m.sha256, Some("0".repeat(64)));
    assert_eq!(m.download_size_bytes, Some(1));
    let p = test_remote_package("1.2.0");
    assert_eq!(
        manifest_from_remote_package("zed", &p, "linux", "x86_64", false, "1.0.0").unwrap_err(),
        "平台包缺少平台贡献: zed"
    );
}

fn record(id: &str, ready: bool) -> PersistedPlatformPackage {
    PersistedPlatformPackage {
        platform_id: id.to_string(),
        installed: true,
        runtime_ready: ready,
        installed_version: Some("1.0.0".to_string()),
        last_checked_at: Some(5),
        error_message: None,
    }
}

#[test]
fn registry_keeps_one_record_per_platform() {
    let mut registry = PlatformPackageRegistry { packages: Vec::new() };
    upsert_record(&mut registry, record("zed", false));
    upsert_record(&mut registry, record("kiro", true));
    upsert_record(&mut registry, record("zed", true));
    assert_eq!(registry.packages.len(), 2);
    assert!(get_record(&registry, "zed").unwrap().runtime_ready);
    assert!(get_record(&registry, "kiro").unwrap().runtime_ready);
    assert!(get_record(&registry, "cursor").is_none());
}

#[test]
fn readiness_needs_record_validation_and_same_content() {
    let r = record("zed", true);
    assert!(is_platform_package_runtime_ready(Some(&r), true, None));
    assert!(is_platform_package_runtime_ready(Some(&r), true, Some(false)));
    assert!(!is_platform_package_runtime_ready(Some(&r), true, Some(true)));
    assert!(!is_platform_package_runtime_ready(Some(&r), false, None));
    assert!(!is_platform_package_runtime_ready(None, true, None));
    assert!(ensure_platform_package_installed("zed", true).is_ok());
    assert_eq!(
        ensure_platform_package_installed("zed", false).unwrap_err(),
        "平台包未安装或未就绪，请先在平台管理中安装/修复: zed"
    );
}

#[test]
fn state_of_installed_and_missing_packages() {
    let r = record("zed", true);
    let st = build_state(
        "zed",
        Some(&r),
        Some(test_manifest("1.0.0")),
        Some(test_manifest("1.1.0")),
        None,
        true,
        42,
        None,
        None,
    )
    .unwrap();
    assert_eq!(st.install_status, "updateAvailable");
    assert!(st.runtime_ready);
    assert_eq!(st.installed_version.as_deref(), Some("1.0.0"));
    assert_eq!(st.latest_version.as_deref(), Some("1.1.0"));
    assert_eq!(st.installed_size_bytes, Some(42));

    let st = build_state("zed", Some(&r), None, Some(test_manifest("1.1.0")), None, false, 42, None, None)
        .unwrap();
    assert_eq!(st.install_status, "notInstalled");
    assert_eq!(st.error_message.as_deref(), Some("平台包文件缺失"));
    assert_eq!(st.installed_version, None);

    let st = build_state(
        "zed",
        Some(&r),
        Some(test_manifest("1.0.0")),
        None,
        Some("主应用版本不兼容，平台包需要 9.0.0 或更高版本".to_string()),
        true,
        0,
        None,
        None,
    )
    .unwrap();
    assert_eq!(st.install_status, "incompatible");
    assert!(!st.runtime_ready);

    let mut changed = test_manifest("1.0.0");
    changed.capabilities.push("quota".to_string());
    let st = build_state("zed", Some(&r), Some(test_manifest("1.0.0")), Some(changed), None, true, 0, None, None)
        .unwrap();
    assert_eq!(st.install_status, "error");
    assert_eq!(
        st.error_message.as_deref(),
        Some("已安装平台包与当前运行组件声明不一致，请修复或重新安装平台包")
    );
    assert!(build_state("emacs", None, None, None, None, false, 0, None, None).is_err());
}

#[test]
fn installed_adapter_is_located_under_the_package() {
    let mut m = test_manifest("1.0.0");
    m.adapter = Some(test_adapter());
    let ia = installed_platform_adapter("zed", true, "/data/zed/current", Some(&m), "linux", true).unwrap();
    assert_eq!(ia.executable_path, "/data/zed/current/bin/adapter-linux");
    assert_eq!(ia.current_dir, "/data/zed/current");
    assert_eq!(
        installed_platform_adapter("zed", true, "/data", Some(&test_manifest("1.0.0")), "linux", true)
            .unwrap_err(),
        "平台包缺少 adapter 声明: zed"
    );
    assert_eq!(join_path("/a/", "b"), "/a/b");
    assert_eq!(join_path("", "b"), "b");
}

#[test]
fn installed_validation_is_recorded_in_the_registry() {
    let mut registry = PlatformPackageRegistry { packages: Vec::new() };
    record_installed_validation(&mut registry, "zed", Ok("1.2.0".to_string()), 1_000);
    let rec = get_record(&registry, "zed").expect("record");
    assert!(rec.installed && rec.runtime_ready);
    assert_eq!(rec.installed_version.as_deref(), Some("1.2.0"));
    assert_eq!(rec.last_checked_at, Some(1_000));
    assert!(rec.error_message.is_none());

    record_installed_validation(&mut registry, "zed", Err("manifest broken".to_string()), 2_000);
    assert_eq!(registry.packages.len(), 1);
    let rec = get_record(&registry, "zed").expect("record");
    assert!(rec.installed && !rec.runtime_ready);
    assert_eq!(rec.installed_version.as_deref(), Some("1.2.0"));
    assert_eq!(rec.error_message.as_deref(), Some("manifest broken"));
    assert_eq!(rec.last_checked_at, Some(2_000));
}
